use shell_session::host::{read_branch, read_process, DirLookup, ProcessOutcome, Request};

#[test]
fn process_output_is_decoded_as_utf8() {
    let report = read_process("héllo\n".as_bytes(), b"warn\n", true, Some(0));
    assert_eq!(report.stdout, "héllo\n");
    assert_eq!(report.stderr, "warn\n");
    assert!(report.success);
    assert_eq!(report.code, Some(0));
}

#[test]
fn invalid_bytes_are_replaced() {
    let report = read_process(&[b'a', 0xff, b'b'], &[0xc3], false, None);
    assert_eq!(report.stdout, "a\u{fffd}b");
    assert_eq!(report.stderr, "\u{fffd}");
    assert!(!report.success);
    assert_eq!(report.code, None);
}

#[test]
fn branch_output_is_decoded_as_utf8() {
    let probe = read_branch(true, b"main\n");
    assert!(probe.ran);
    assert_eq!(probe.output, "main\n");
    let probe = read_branch(false, &[0xfe]);
    assert!(!probe.ran);
    assert_eq!(probe.output, "\u{fffd}");
}

#[test]
fn a_request_can_be_copied() {
    let request = Request::Run {
        program: "echo".to_string(),
        args: vec!["hi".to_string(), "there".to_string()],
        dir: "/tmp".to_string(),
    };
    match request.duplicate() {
        Request::Run { program, args, dir } => {
            assert_eq!(program, "echo");
            assert_eq!(args, vec!["hi", "there"]);
            assert_eq!(dir, "/tmp");
        },
        other => panic!("{:?}", other),
    }
    assert!(matches!(Request::Nothing.duplicate(), Request::Nothing));
    assert!(matches!(Request::Exit.duplicate(), Request::Exit));
    match (Request::ResolveDirectory { target: "..".to_string(), path: "/a/..".to_string() })
        .duplicate() {
        Request::ResolveDirectory { target, path } => {
            assert_eq!(target, "..");
            assert_eq!(path, "/a/..");
        },
        other => panic!("{:?}", other),
    }
    match (Request::ProbeBranch { dir: "/x".to_string() }).duplicate() {
        Request::ProbeBranch { dir } => assert_eq!(dir, "/x"),
        other => panic!("{:?}", other),
    }
}

#[test]
fn outcomes_are_plain_values() {
    let lookup = DirLookup::Directory { canonical: "/a".to_string() };
    assert!(matches!(lookup, DirLookup::Directory { .. }));
    let outcome = ProcessOutcome::SpawnFailed { reason: "not found".to_string() };
    assert!(matches!(outcome, ProcessOutcome::SpawnFailed { .. }));
}
