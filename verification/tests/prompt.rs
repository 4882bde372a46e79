use shell_session::prompt::{file_name_of, render_branch, render_header};

fn paths() -> Vec<&'static str> {
    vec![
        "",
        "/",
        "//",
        ".",
        "..",
        "...",
        "./",
        "/.",
        "/..",
        "a",
        "a/",
        "a//",
        "a/.",
        "a/./",
        "a/..",
        "a/../b",
        "a/b/c",
        "/usr/lib",
        "/usr/lib/",
        "/usr/lib/.",
        "/usr/./lib/./.",
        "~",
        "~/projects/demo",
        "./a",
        "./.",
        "a/.b",
        "a/b.",
        "a/..b",
        "/home/üser/日本語",
        "with space/and more",
        "x/./.",
        "\\",
        "a\\b",
    ]
}

#[test]
fn file_name_is_the_final_component() {
    assert_eq!(file_name_of("/usr/lib"), Some("lib".to_string()));
    assert_eq!(file_name_of("/usr/lib/"), Some("lib".to_string()));
    assert_eq!(file_name_of("~/projects/demo"), Some("demo".to_string()));
    assert_eq!(file_name_of("~"), Some("~".to_string()));
    assert_eq!(file_name_of("a/."), Some("a".to_string()));
    assert_eq!(file_name_of("/"), None);
    assert_eq!(file_name_of(""), None);
    assert_eq!(file_name_of("a/.."), None);
    assert_eq!(file_name_of("."), None);
}

#[test]
fn file_name_agrees_with_the_standard_library() {
    for p in paths() {
        let expected = std::path::Path::new(p).file_name().and_then(|n| n.to_str()).map(
            |n| n.to_string(),
        );
        assert_eq!(file_name_of(p), expected, "{:?}", p);
    }
}

#[test]
fn header_abbreviates_the_home_directory() {
    assert_eq!(
        render_header("alice", "box", "/home/alice/projects/demo", "/home/alice", ""),
        "🏠 alice@box 📂 ~\\~\\projects\\demo\\demo 🐧 3.9.1"
    );
}

#[test]
fn header_in_the_home_directory() {
    assert_eq!(
        render_header("alice", "box", "/home/alice", "/home/alice", ""),
        "🏠 alice@box 📂 ~\\~\\~ 🐧 3.9.1"
    );
}

#[test]
fn header_outside_the_home_directory() {
    assert_eq!(
        render_header("bob", "box", "/usr/lib", "/home/bob", ""),
        "🏠 bob@box 📂 ~\\\\usr\\lib\\lib 🐧 3.9.1"
    );
}

#[test]
fn header_at_the_root() {
    assert_eq!(render_header("bob", "box", "/", "/home/bob", ""), "🏠 bob@box 📂 ~\\\\\\/ 🐧 3.9.1");
}

#[test]
fn header_shows_the_host() {
    assert_eq!(
        render_header("alice", "alpha", "/tmp", "/home/alice", ""),
        "🏠 alice@alpha 📂 ~\\\\tmp\\tmp 🐧 3.9.1"
    );
    assert_ne!(
        render_header("alice", "alpha", "/tmp", "/home/alice", ""),
        render_header("alice", "beta", "/tmp", "/home/alice", "")
    );
}

#[test]
fn header_shows_the_branch_behind_a_space() {
    assert_eq!(
        render_header("alice", "box", "/home/alice/demo", "/home/alice", "⚡ main"),
        "🏠 alice@box 📂 ~\\~\\demo\\demo 🐧 3.9.1 ⚡ main"
    );
}

#[test]
fn header_replaces_every_occurrence_of_the_home_directory() {
    assert_eq!(
        render_header("u", "h", "/h/x/h", "/h", ""),
        "🏠 u@h 📂 ~\\~\\x~\\x~ 🐧 3.9.1"
    );
}

#[test]
fn header_agrees_with_the_formula_on_samples() {
    let homes = vec!["/home/alice", "/", "", "/h"];
    let dirs = vec!["/home/alice", "/home/alice/a/b", "/", "/h/x/h", "/tmp", "relative/dir", ""];
    for home in &homes {
        for dir in &dirs {
            let shown = if dir.starts_with(home) {
                dir.replace(home, "~")
            } else {
                dir.to_string()
            };
            let name = if shown == "~" {
                "~".to_string()
            } else {
                std::path::Path::new(&shown).file_name().and_then(|n| n.to_str()).unwrap_or(
                    &shown,
                ).to_string()
            };
            let expected = format!(
                "🏠 {}@{} 📂 ~\\{}\\{} 🐧 3.9.1",
                "carol",
                "gamma",
                shown.replace("/", "\\"),
                name
            );
            assert_eq!(render_header("carol", "gamma", dir, home, ""), expected, "{:?} {:?}", home, dir);
            let with_branch = format!("{} {}", expected, "⚡ dev");
            assert_eq!(render_header("carol", "gamma", dir, home, "⚡ dev"), with_branch);
        }
    }
}

#[test]
fn branch_label_names_the_branch() {
    assert_eq!(render_branch(true, "main\n"), "⚡ main");
    assert_eq!(render_branch(true, "  feature/x \r\n"), "⚡ feature/x");
}

#[test]
fn branch_label_is_empty_without_a_branch() {
    assert_eq!(render_branch(false, "main\n"), "");
    assert_eq!(render_branch(true, ""), "");
    assert_eq!(render_branch(true, " \n"), "");
    assert_eq!(render_branch(true, "HEAD\n"), "");
    assert_eq!(render_branch(false, ""), "");
}

#[test]
fn branch_label_keeps_names_that_only_resemble_a_detached_head() {
    assert_eq!(render_branch(true, "HEAD2\n"), "⚡ HEAD2");
    assert_eq!(render_branch(true, "head\n"), "⚡ head");
}
