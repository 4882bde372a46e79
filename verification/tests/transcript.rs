use shell_session::transcript::{LineBuffer, LineRole, TranscriptLine};

fn texts(buffer: &LineBuffer) -> Vec<String> {
    buffer.iterate().iter().map(|l| l.text().to_string()).collect()
}

#[test]
fn new_buffer_is_empty() {
    let buffer = LineBuffer::new(10);
    assert_eq!(buffer.len(), 0);
    assert!(buffer.is_empty());
    assert_eq!(buffer.capacity(), 10);
    assert!(buffer.get(0).is_none());
}

#[test]
fn append_keeps_order_and_roles() {
    let mut buffer = LineBuffer::new(10);
    buffer.append("> ", LineRole::Prompt);
    buffer.append("ls", LineRole::Input);
    buffer.append("Cargo.toml", LineRole::Output);
    assert_eq!(buffer.len(), 3);
    assert_eq!(buffer.get(0).unwrap().text(), "> ");
    assert_eq!(buffer.get(0).unwrap().role(), LineRole::Prompt);
    assert_eq!(buffer.get(1).unwrap().role(), LineRole::Input);
    assert_eq!(buffer.get(2).unwrap().text(), "Cargo.toml");
    assert_eq!(buffer.get(2).unwrap().role(), LineRole::Output);
    assert!(buffer.get(3).is_none());
}

#[test]
fn append_keeps_the_newest_lines() {
    let capacity = 7;
    let extra = 5;
    let mut buffer = LineBuffer::new(capacity);
    for i in 0..capacity + extra {
        buffer.append(&format!("line {}", i), LineRole::Output);
        assert!(buffer.len() <= capacity);
    }
    let expected: Vec<String> = (extra..capacity + extra).map(|i| format!("line {}", i)).collect();
    assert_eq!(texts(&buffer), expected);
}

#[test]
fn a_full_buffer_drops_one_line_per_append() {
    let mut buffer = LineBuffer::new(2);
    buffer.append("a", LineRole::Output);
    buffer.append("b", LineRole::Output);
    assert_eq!(texts(&buffer), vec!["a", "b"]);
    buffer.append("c", LineRole::Output);
    assert_eq!(texts(&buffer), vec!["b", "c"]);
}

#[test]
fn a_buffer_without_room_stays_empty() {
    let mut buffer = LineBuffer::new(0);
    buffer.append("a", LineRole::Output);
    assert_eq!(buffer.len(), 0);
}

#[test]
fn clear_removes_every_line_and_keeps_the_capacity() {
    let mut buffer = LineBuffer::new(3);
    buffer.append("a", LineRole::Output);
    buffer.append("b", LineRole::Input);
    buffer.clear();
    assert!(buffer.is_empty());
    assert_eq!(buffer.capacity(), 3);
    buffer.append("c", LineRole::Output);
    assert_eq!(texts(&buffer), vec!["c"]);
}

#[test]
fn iterate_can_be_repeated() {
    let mut buffer = LineBuffer::new(3);
    buffer.append("a", LineRole::Output);
    buffer.append("b", LineRole::Output);
    let first = texts(&buffer);
    let second = texts(&buffer);
    assert_eq!(first, second);
    assert_eq!(first, vec!["a", "b"]);
}

#[test]
fn a_line_keeps_its_text_and_role() {
    let line = TranscriptLine::new("héllo", LineRole::Input);
    assert_eq!(line.text(), "héllo");
    assert_eq!(line.role(), LineRole::Input);
    let copy = line.duplicate();
    assert_eq!(copy.text(), "héllo");
    assert_eq!(copy.role(), LineRole::Input);
}
