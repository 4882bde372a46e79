use shell_session::history::HistoryStore;

fn recorded(commands: &[&str]) -> HistoryStore {
    let mut history = HistoryStore::new();
    for c in commands {
        history.record(c);
    }
    history
}

fn entries(history: &HistoryStore) -> Vec<String> {
    (0..history.len()).map(|i| history.get(i).unwrap().to_string()).collect()
}

#[test]
fn new_history_is_empty() {
    let history = HistoryStore::new();
    assert_eq!(history.len(), 0);
    assert_eq!(history.cursor(), None);
    assert!(history.get(0).is_none());
}

#[test]
fn record_appends_in_order() {
    let history = recorded(&["ls", "pwd", "ls"]);
    assert_eq!(entries(&history), vec!["ls", "pwd", "ls"]);
}

#[test]
fn record_skips_empty_and_blank_lines() {
    let history = recorded(&["", "   ", "\t", "ls", " "]);
    assert_eq!(entries(&history), vec!["ls"]);
}

#[test]
fn record_skips_a_repeat_of_the_newest_entry() {
    let history = recorded(&["ls", "ls"]);
    assert_eq!(entries(&history), vec!["ls"]);
    let history = recorded(&["ls", "ls", "pwd", "pwd", "pwd", "ls"]);
    assert_eq!(entries(&history), vec!["ls", "pwd", "ls"]);
}

#[test]
fn record_compares_the_line_as_it_was_typed() {
    let history = recorded(&["ls", "ls ", "LS"]);
    assert_eq!(entries(&history), vec!["ls", "ls ", "LS"]);
}

#[test]
fn record_ends_browsing() {
    let mut history = recorded(&["a", "b"]);
    history.recall_previous();
    assert_eq!(history.cursor(), Some(1));
    history.record("c");
    assert_eq!(history.cursor(), None);
    history.recall_previous();
    history.record("");
    assert_eq!(history.cursor(), None);
}

#[test]
fn recall_previous_starts_at_the_newest_entry() {
    let mut history = recorded(&["a", "b", "c"]);
    assert_eq!(history.recall_previous(), Some("c".to_string()));
    assert_eq!(history.cursor(), Some(2));
    assert_eq!(history.recall_previous(), Some("b".to_string()));
    assert_eq!(history.recall_previous(), Some("a".to_string()));
    assert_eq!(history.cursor(), Some(0));
}

#[test]
fn recall_previous_stops_at_the_oldest_entry() {
    let mut history = recorded(&["a", "b", "c"]);
    let mut seen = Vec::new();
    for _ in 0..7 {
        seen.push(history.recall_previous().unwrap());
    }
    assert_eq!(seen, vec!["c", "b", "a", "a", "a", "a", "a"]);
    assert_eq!(history.cursor(), Some(0));
    assert_eq!(history.len(), 3);
}

#[test]
fn recall_on_an_empty_history_does_nothing() {
    let mut history = HistoryStore::new();
    assert_eq!(history.recall_previous(), None);
    assert_eq!(history.recall_next(), None);
    assert_eq!(history.cursor(), None);
}

#[test]
fn recall_next_without_browsing_does_nothing() {
    let mut history = recorded(&["a", "b"]);
    assert_eq!(history.recall_next(), None);
    assert_eq!(history.cursor(), None);
}

#[test]
fn recall_next_steps_forward_and_leaves_behind_the_newest_entry() {
    let mut history = recorded(&["a", "b", "c"]);
    history.recall_previous();
    history.recall_previous();
    history.recall_previous();
    assert_eq!(history.recall_next(), Some("b".to_string()));
    assert_eq!(history.recall_next(), Some("c".to_string()));
    assert_eq!(history.cursor(), Some(2));
    assert_eq!(history.recall_next(), Some(String::new()));
    assert_eq!(history.cursor(), None);
    assert_eq!(history.recall_next(), None);
}

#[test]
fn recall_does_not_change_the_entries() {
    let mut history = recorded(&["a", "b"]);
    history.recall_previous();
    history.recall_previous();
    history.recall_next();
    history.recall_next();
    assert_eq!(entries(&history), vec!["a", "b"]);
}
