use parchis::framing::{frame, MessageAssembler};

#[test]
fn frame_appends_sentinel_line() {
    assert_eq!(frame("hello"), "hello\nEND_OF_MESSAGE\n");
    assert_eq!(frame(""), "\nEND_OF_MESSAGE\n");
}

#[test]
fn assembler_returns_text_before_sentinel() {
    let mut a = MessageAssembler::new();
    assert_eq!(a.push_line("It's now your turn.\n"), None);
    assert_eq!(a.push_line("second line\n"), None);
    assert_eq!(
        a.push_line("END_OF_MESSAGE\n"),
        Some("It's now your turn.\nsecond line\n".to_string())
    );
    assert_eq!(a.push_line("END_OF_MESSAGE\n"), Some(String::new()));
}

#[test]
fn assembler_needs_sentinel_on_its_own_line() {
    let mut a = MessageAssembler::new();
    assert_eq!(a.push_line("xEND_OF_MESSAGE\n"), None);
    assert_eq!(a.push_line("END_OF_MESSAGE"), None);
    assert_eq!(a.push_line("\n"), Some("xEND_OF_MESSAGE\n".to_string()));
    assert_eq!(a.push_line("END_OF_MESSAGE\n"), Some(String::new()));
}

#[test]
fn framed_message_round_trips() {
    let mut a = MessageAssembler::new();
    let framed = frame("Board");
    let mut out = None;
    for line in framed.split_inclusive('\n') {
        out = a.push_line(line);
    }
    assert_eq!(out, Some("Board\n".to_string()));
}
