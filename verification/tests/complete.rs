use shell_session::complete::{
    apply_to, complete_from, suggest_for, AutocompleteState, Vocabulary, MAX_SUGGESTIONS,
};

fn strings(items: &[&str]) -> Vec<String> {
    items.iter().map(|s| s.to_string()).collect()
}

fn small_vocabulary() -> Vocabulary {
    let mut v = Vocabulary::new();
    v.add_command("ls");
    v.add_command("cd");
    v.set_flags("ls", strings(&["-l", "-a", "-la", "-lh"]));
    v
}

#[test]
fn a_typed_letter_is_completed_from_the_commands() {
    assert_eq!(suggest_for(&small_vocabulary(), "l"), vec!["ls"]);
}

#[test]
fn a_hyphen_is_completed_from_the_flags_of_the_command() {
    assert_eq!(suggest_for(&small_vocabulary(), "ls -"), vec!["-l", "-a", "-la", "-lh"]);
}

#[test]
fn what_is_typed_in_full_is_not_suggested() {
    assert_eq!(suggest_for(&small_vocabulary(), "ls"), Vec::<String>::new());
    assert_eq!(suggest_for(&small_vocabulary(), "ls -l"), vec!["-la", "-lh"]);
    assert_eq!(suggest_for(&small_vocabulary(), "ls -la"), Vec::<String>::new());
}

#[test]
fn matching_is_case_sensitive() {
    assert_eq!(suggest_for(&small_vocabulary(), "L"), Vec::<String>::new());
    assert_eq!(suggest_for(&small_vocabulary(), "ls -L"), Vec::<String>::new());
}

#[test]
fn empty_input_and_input_that_ends_in_white_space_get_no_suggestion() {
    let v = small_vocabulary();
    assert_eq!(suggest_for(&v, ""), Vec::<String>::new());
    assert_eq!(suggest_for(&v, " "), Vec::<String>::new());
    assert_eq!(suggest_for(&v, "l "), Vec::<String>::new());
    assert_eq!(suggest_for(&v, "ls - "), Vec::<String>::new());
    assert_eq!(suggest_for(&v, "ls -\u{3000}"), Vec::<String>::new());
}

#[test]
fn leading_white_space_does_not_make_a_later_word() {
    assert_eq!(suggest_for(&small_vocabulary(), "  l"), vec!["ls"]);
}

#[test]
fn a_later_word_without_a_hyphen_gets_no_suggestion() {
    assert_eq!(suggest_for(&small_vocabulary(), "ls l"), Vec::<String>::new());
    assert_eq!(suggest_for(&small_vocabulary(), "ls c"), Vec::<String>::new());
}

#[test]
fn a_command_without_flags_gets_no_flag_suggestion() {
    assert_eq!(suggest_for(&small_vocabulary(), "cd -"), Vec::<String>::new());
    assert_eq!(suggest_for(&small_vocabulary(), "unknown -"), Vec::<String>::new());
}

#[test]
fn setting_flags_again_replaces_them() {
    let mut v = small_vocabulary();
    v.set_flags("cd", strings(&["-P"]));
    v.set_flags("ls", strings(&["-x"]));
    assert_eq!(v.flags_of("ls"), Some(&strings(&["-x"])));
    assert_eq!(v.flags_of("cd"), Some(&strings(&["-P"])));
    assert_eq!(v.flags_of("rm"), None);
    assert_eq!(v.commands(), &strings(&["ls", "cd"]));
    assert_eq!(suggest_for(&v, "ls -"), vec!["-x"]);
    assert_eq!(suggest_for(&v, "cd -"), vec!["-P"]);
}

#[test]
fn suggestions_are_capped_and_keep_the_order_of_the_vocabulary() {
    let candidates = strings(&["ca", "x", "cb", "cc", "c", "cd", "ce", "cf", "cg"]);
    assert_eq!(MAX_SUGGESTIONS, 5);
    assert_eq!(complete_from(&candidates, "c"), vec!["ca", "cb", "cc", "cd", "ce"]);
    assert_eq!(complete_from(&candidates, "cg"), Vec::<String>::new());
    assert_eq!(complete_from(&candidates, ""), vec!["ca", "x", "cb", "cc", "c"]);
}

#[test]
fn the_standard_vocabulary_completes_commands() {
    let v = Vocabulary::standard();
    assert_eq!(v.commands().len(), 20);
    assert_eq!(suggest_for(&v, "c"), vec!["cd", "cp", "cat", "chmod", "curl"]);
    assert_eq!(suggest_for(&v, "g"), vec!["grep", "git"]);
    assert_eq!(suggest_for(&v, "hi"), vec!["history"]);
    assert_eq!(suggest_for(&v, "rm -"), vec!["-r", "-f", "-rf"]);
    assert_eq!(suggest_for(&v, "cp -"), vec!["-r", "-v"]);
    assert_eq!(suggest_for(&v, "mv -"), vec!["-v"]);
    assert_eq!(suggest_for(&v, "grep -"), vec!["-i", "-r", "-n"]);
    assert_eq!(suggest_for(&v, "git -"), Vec::<String>::new());
    assert_eq!(
        v.flags_of("git"),
        Some(&strings(&["status", "add", "commit", "push", "pull"]))
    );
}

#[test]
fn cycling_wraps_around() {
    let mut a = AutocompleteState::new();
    a.update(&small_vocabulary(), "ls -");
    assert_eq!(a.suggestions(), &strings(&["-l", "-a", "-la", "-lh"]));
    assert_eq!(a.selected(), None);
    assert_eq!(a.cycle_selection(), Some("-l".to_string()));
    assert_eq!(a.selected(), Some(0));
    assert_eq!(a.cycle_selection(), Some("-a".to_string()));
    assert_eq!(a.cycle_selection(), Some("-la".to_string()));
    assert_eq!(a.cycle_selection(), Some("-lh".to_string()));
    assert_eq!(a.selected(), Some(3));
    assert_eq!(a.cycle_selection(), Some("-l".to_string()));
    assert_eq!(a.selected(), Some(0));
}

#[test]
fn cycling_without_suggestions_gives_nothing() {
    let mut a = AutocompleteState::new();
    assert_eq!(a.cycle_selection(), None);
    assert_eq!(a.selected(), None);
    a.update(&small_vocabulary(), "zzz");
    assert_eq!(a.cycle_selection(), None);
}

#[test]
fn update_and_clear_drop_the_selection() {
    let mut a = AutocompleteState::new();
    a.update(&small_vocabulary(), "ls -");
    a.cycle_selection();
    a.update(&small_vocabulary(), "ls -l");
    assert_eq!(a.selected(), None);
    assert_eq!(a.suggestions(), &strings(&["-la", "-lh"]));
    a.cycle_selection();
    a.clear();
    assert_eq!(a.selected(), None);
    assert!(a.suggestions().is_empty());
}

#[test]
fn applying_a_command_name_adds_a_space() {
    assert_eq!(apply_to("l", "ls"), "ls ");
    assert_eq!(apply_to("  l", "ls"), "ls ");
}

#[test]
fn applying_a_flag_keeps_the_words_before_it() {
    assert_eq!(apply_to("ls -", "-la"), "ls -la ");
    assert_eq!(apply_to("grep  -i   -", "-n"), "grep -i -n ");
}

#[test]
fn applying_a_later_word_that_is_no_flag_adds_no_space() {
    assert_eq!(apply_to("git st", "status"), "git status");
}

#[test]
fn applying_to_a_line_without_words_gives_the_selection_and_a_space() {
    assert_eq!(apply_to("", "ls"), "ls ");
    assert_eq!(apply_to("   ", "ls"), "ls ");
    assert_eq!(apply_to("", "-l"), "-l ");
    assert_eq!(apply_to("", "status"), "status ");
}

#[test]
fn applying_replaces_the_last_word_even_behind_white_space() {
    assert_eq!(apply_to("ls ", "cd"), "cd ");
    assert_eq!(apply_to("git add ", "commit"), "git commit");
}
