use shell_session::editor::{CursorMove, InputEditor};

fn typed(text: &str) -> InputEditor {
    let mut editor = InputEditor::new();
    editor.insert_text(text);
    editor
}

#[test]
fn new_editor_is_empty() {
    let editor = InputEditor::new();
    assert_eq!(editor.text(), "");
    assert_eq!(editor.cursor(), 0);
    assert_eq!(editor.len(), 0);
}

#[test]
fn insert_char_moves_the_cursor_behind_it() {
    let mut editor = InputEditor::new();
    editor.insert_char('l');
    editor.insert_char('s');
    assert_eq!(editor.text(), "ls");
    assert_eq!(editor.cursor(), 2);
    editor.move_cursor(CursorMove::By(-1));
    editor.insert_char('x');
    assert_eq!(editor.text(), "lxs");
    assert_eq!(editor.cursor(), 2);
}

#[test]
fn insert_counts_whole_characters() {
    let mut editor = InputEditor::new();
    editor.insert_char('é');
    editor.insert_char('🏠');
    editor.insert_char('a');
    assert_eq!(editor.text(), "é🏠a");
    assert_eq!(editor.cursor(), 3);
    assert_eq!(editor.len(), 3);
    editor.move_cursor(CursorMove::By(-2));
    editor.delete_at_cursor();
    assert_eq!(editor.text(), "éa");
    assert_eq!(editor.cursor(), 1);
    editor.delete_before_cursor();
    assert_eq!(editor.text(), "a");
    assert_eq!(editor.cursor(), 0);
}

#[test]
fn insert_text_leaves_out_control_characters() {
    let mut editor = InputEditor::new();
    editor.insert_text("a\tb\nc\rd\u{7f}e\u{85}f\u{1b}g");
    assert_eq!(editor.text(), "abcdefg");
    assert_eq!(editor.cursor(), 7);
}

#[test]
fn insert_text_goes_in_at_the_cursor() {
    let mut editor = typed("ad");
    editor.move_cursor(CursorMove::By(-1));
    editor.insert_text("b\nc");
    assert_eq!(editor.text(), "abcd");
    assert_eq!(editor.cursor(), 3);
}

#[test]
fn insert_text_keeps_spaces() {
    let editor = typed("ls -la \u{a0}x");
    assert_eq!(editor.text(), "ls -la \u{a0}x");
}

#[test]
fn delete_before_cursor_does_nothing_at_the_start() {
    let mut editor = typed("ab");
    editor.move_cursor(CursorMove::ToStart);
    editor.delete_before_cursor();
    assert_eq!(editor.text(), "ab");
    assert_eq!(editor.cursor(), 0);
}

#[test]
fn delete_at_cursor_does_nothing_at_the_end() {
    let mut editor = typed("ab");
    editor.delete_at_cursor();
    assert_eq!(editor.text(), "ab");
    assert_eq!(editor.cursor(), 2);
}

#[test]
fn delete_before_cursor_removes_one_character() {
    let mut editor = typed("abc");
    editor.delete_before_cursor();
    assert_eq!(editor.text(), "ab");
    assert_eq!(editor.cursor(), 2);
}

#[test]
fn the_cursor_stops_at_both_ends() {
    let mut editor = typed("abc");
    editor.move_cursor(CursorMove::By(1));
    assert_eq!(editor.cursor(), 3);
    editor.move_cursor(CursorMove::By(-1));
    assert_eq!(editor.cursor(), 2);
    editor.move_cursor(CursorMove::By(-5));
    assert_eq!(editor.cursor(), 0);
    editor.move_cursor(CursorMove::By(-1));
    assert_eq!(editor.cursor(), 0);
    editor.move_cursor(CursorMove::By(2));
    assert_eq!(editor.cursor(), 2);
    editor.move_cursor(CursorMove::By(i64::MAX));
    assert_eq!(editor.cursor(), 3);
    editor.move_cursor(CursorMove::By(i64::MIN));
    assert_eq!(editor.cursor(), 0);
    editor.move_cursor(CursorMove::ToEnd);
    assert_eq!(editor.cursor(), 3);
    editor.move_cursor(CursorMove::ToStart);
    assert_eq!(editor.cursor(), 0);
}

#[test]
fn append_char_adds_at_the_end_and_advances_the_cursor_by_one() {
    let mut editor = typed("ab");
    editor.move_cursor(CursorMove::ToStart);
    editor.append_char(' ');
    assert_eq!(editor.text(), "ab ");
    assert_eq!(editor.cursor(), 1);
}

#[test]
fn replace_puts_the_cursor_at_the_end() {
    let mut editor = typed("ab");
    editor.replace("héllo");
    assert_eq!(editor.text(), "héllo");
    assert_eq!(editor.cursor(), 5);
}

#[test]
fn take_hands_out_the_line_and_empties_the_editor() {
    let mut editor = typed("git status");
    editor.move_cursor(CursorMove::By(-3));
    assert_eq!(editor.take(), "git status");
    assert_eq!(editor.text(), "");
    assert_eq!(editor.cursor(), 0);
    assert_eq!(editor.take(), "");
}

#[test]
fn the_cursor_stays_within_the_line_through_any_edits() {
    let mut editor = InputEditor::new();
    let mut seed: u32 = 12345;
    for _ in 0..2000 {
        seed = seed.wrapping_mul(1664525).wrapping_add(1013904223);
        match (seed >> 16) % 8 {
            0 | 1 => editor.insert_char('x'),
            2 => editor.insert_text("é\n🏠"),
            3 => editor.delete_before_cursor(),
            4 => editor.delete_at_cursor(),
            5 => editor.move_cursor(CursorMove::By(-1)),
            6 => editor.move_cursor(CursorMove::By(1)),
            _ => editor.move_cursor(CursorMove::By(((seed >> 8) % 7) as i64 - 3)),
        }
        assert!(editor.cursor() <= editor.len());
        assert_eq!(editor.text().chars().count(), editor.len());
    }
}
