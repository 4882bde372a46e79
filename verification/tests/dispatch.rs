use shell_session::dispatch::{
    help_text, missing_directory_text, not_a_directory_text, parse_command, report_text,
    resolve_path, spawn_failure_text, Command,
};
use shell_session::host::ProcessReport;

fn report(stdout: &str, stderr: &str, success: bool, code: Option<i32>) -> ProcessReport {
    ProcessReport { stdout: stdout.to_string(), stderr: stderr.to_string(), success, code }
}

#[test]
fn blank_lines_ask_for_nothing() {
    assert!(matches!(parse_command(""), Command::Blank));
    assert!(matches!(parse_command("  \t "), Command::Blank));
}

#[test]
fn built_in_names_are_matched_exactly() {
    assert!(matches!(parse_command("clear"), Command::Clear));
    assert!(matches!(parse_command("  exit  "), Command::Exit));
    assert!(matches!(parse_command("pwd"), Command::PrintDirectory));
    assert!(matches!(parse_command("history"), Command::ShowHistory));
    assert!(matches!(parse_command("pwd extra words"), Command::PrintDirectory));
}

#[test]
fn other_names_stand_for_programs() {
    match parse_command("Clear") {
        Command::External { program, args } => {
            assert_eq!(program, "Clear");
            assert!(args.is_empty());
        },
        other => panic!("{:?}", other),
    }
    match parse_command(" echo  hi   there ") {
        Command::External { program, args } => {
            assert_eq!(program, "echo");
            assert_eq!(args, vec!["hi", "there"]);
        },
        other => panic!("{:?}", other),
    }
    assert!(matches!(parse_command("cdx"), Command::External { .. }));
    assert!(matches!(parse_command("PWD"), Command::External { .. }));
}

#[test]
fn cd_takes_its_first_argument() {
    match parse_command("cd") {
        Command::ChangeDirectory { target } => assert_eq!(target, None),
        other => panic!("{:?}", other),
    }
    match parse_command("cd  /tmp  ignored") {
        Command::ChangeDirectory { target } => assert_eq!(target, Some("/tmp".to_string())),
        other => panic!("{:?}", other),
    }
    match parse_command("cd ..") {
        Command::ChangeDirectory { target } => assert_eq!(target, Some("..".to_string())),
        other => panic!("{:?}", other),
    }
}

#[test]
fn a_help_flag_is_an_argument_like_any_other() {
    match parse_command("echo -h") {
        Command::External { program, args } => {
            assert_eq!(program, "echo");
            assert_eq!(args, vec!["-h"]);
        },
        other => panic!("{:?}", other),
    }
    match parse_command("ls -la --help") {
        Command::External { program, args } => {
            assert_eq!(program, "ls");
            assert_eq!(args, vec!["-la", "--help"]);
        },
        other => panic!("{:?}", other),
    }
    assert!(matches!(parse_command("pwd --help"), Command::PrintDirectory));
    assert!(matches!(parse_command("exit -h"), Command::Exit));
    match parse_command("cd --help") {
        Command::ChangeDirectory { target } => assert_eq!(target, Some("--help".to_string())),
        other => panic!("{:?}", other),
    }
}

#[test]
fn help_is_a_program_like_any_other() {
    match parse_command("help") {
        Command::External { program, args } => {
            assert_eq!(program, "help");
            assert!(args.is_empty());
        },
        other => panic!("{:?}", other),
    }
}

#[test]
fn help_text_for_known_and_unknown_commands() {
    assert_eq!(
        help_text("ls"),
        vec!["📁 ls - List files", "-l (detailed), -a (hidden), -lh (sizes)"]
    );
    assert_eq!(
        help_text("grep"),
        vec!["🔍 grep - Search text", "-i (ignore case), -r (recursive), -n (line numbers)"]
    );
    assert_eq!(
        help_text("git"),
        vec!["🌿 git - Version control", "status, add, commit, push, pull"]
    );
    assert_eq!(help_text("tar"), vec!["ℹ️  tar - Try tar --help"]);
    assert_eq!(help_text("LS"), vec!["ℹ️  LS - Try LS --help"]);
}

#[test]
fn resolve_joins_relative_targets() {
    assert_eq!(resolve_path("/a/b", ".."), "/a/b/..");
    assert_eq!(resolve_path("/a/b", "c/d"), "/a/b/c/d");
    assert_eq!(resolve_path("/a/b/", "c"), "/a/b/c");
    assert_eq!(resolve_path("/", "tmp"), "/tmp");
    assert_eq!(resolve_path("/a/b", "/etc"), "/etc");
    assert_eq!(resolve_path("", "x"), "x");
    assert_eq!(resolve_path("/a", ""), "/a/");
}

#[test]
fn resolve_agrees_with_the_standard_library() {
    let dirs = vec!["/a/b", "/a/b/", "/", "", "rel", "rel/", "/ü/日本"];
    let targets = vec!["..", ".", "c", "c/d", "/etc", "/", "", "~", "./x", "ü"];
    for d in &dirs {
        for t in &targets {
            let expected = std::path::PathBuf::from(d).join(t).to_string_lossy().to_string();
            assert_eq!(resolve_path(d, t), expected, "{:?} {:?}", d, t);
        }
    }
}

#[test]
fn diagnostics_name_the_target() {
    assert_eq!(missing_directory_text("/nope"), "cd: /nope: No such file or directory");
    assert_eq!(not_a_directory_text("Cargo.toml"), "cd: Cargo.toml: Not a directory");
    assert_eq!(
        spawn_failure_text("nosuch", "No such file or directory (os error 2)"),
        "Failed to execute 'nosuch': No such file or directory (os error 2)"
    );
}

#[test]
fn report_of_a_successful_program() {
    assert_eq!(report_text("echo", &report("hi\n", "", true, Some(0))), vec!["hi"]);
    assert_eq!(report_text("true", &report("", "", true, Some(0))), Vec::<String>::new());
}

#[test]
fn report_marks_error_lines_and_leaves_out_empty_ones() {
    assert_eq!(
        report_text("cc", &report("out 1\nout 2\n", "bad\n\nworse\r\n", true, Some(0))),
        vec!["out 1", "out 2", "ERROR: bad", "ERROR: worse"]
    );
}

#[test]
fn report_keeps_empty_output_lines() {
    assert_eq!(report_text("p", &report("a\n\nb\n", "", true, Some(0))), vec!["a", "", "b"]);
}

#[test]
fn report_of_a_failed_program_ends_with_its_exit_code() {
    assert_eq!(
        report_text("false", &report("", "", false, Some(1))),
        vec!["Command 'false' exited with code 1"]
    );
    assert_eq!(
        report_text("ls", &report("", "ls: cannot access 'x'\n", false, Some(2))),
        vec!["ERROR: ls: cannot access 'x'", "Command 'ls' exited with code 2"]
    );
    assert_eq!(
        report_text("odd", &report("", "", false, Some(-7))),
        vec!["Command 'odd' exited with code -7"]
    );
}

#[test]
fn report_of_a_killed_program_has_no_exit_code_line() {
    assert_eq!(report_text("sleep", &report("", "", false, None)), Vec::<String>::new());
}

#[test]
fn report_of_a_success_never_shows_the_code() {
    assert_eq!(report_text("p", &report("", "", true, Some(3))), Vec::<String>::new());
}
