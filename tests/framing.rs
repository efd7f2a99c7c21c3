use maidsafe_utilities::framing::{frame_message, MessageSplitter, MSG_TERMINATOR};

fn stream(msgs: &[&str]) -> Vec<u8> {
    let mut out = Vec::new();
    for m in msgs {
        out.extend_from_slice(&frame_message(m.as_bytes()));
    }
    out
}

fn as_strings(msgs: Vec<Vec<u8>>) -> Vec<String> {
    msgs.into_iter().map(|m| String::from_utf8(m).unwrap()).collect()
}

#[test]
fn terminator_bytes() {
    assert_eq!(MSG_TERMINATOR, [254, 253, 255]);
}

#[test]
fn frame_appends_terminator() {
    assert_eq!(frame_message(b"abc"), vec![97, 98, 99, 254, 253, 255]);
    assert_eq!(frame_message(b""), vec![254, 253, 255]);
}

#[test]
fn split_whole_stream_at_once() {
    let msgs = ["This is message 0", "message 1", "message 2"];
    let mut splitter = MessageSplitter::new();
    let got = as_strings(splitter.feed(&stream(&msgs)));
    assert_eq!(got, vec!["This is message 0", "message 1", "message 2"]);
    for m in &got {
        assert!(!m.as_bytes().iter().any(|b| *b == 0xFE || *b == 0xFD || *b == 0xFF));
    }
}

#[test]
fn split_byte_by_byte() {
    let msgs = ["This is message 0", "message 1", "message 2"];
    let bytes = stream(&msgs);
    let mut splitter = MessageSplitter::new();
    let mut got = Vec::new();
    for b in &bytes {
        got.extend(splitter.feed(&[*b]));
    }
    assert_eq!(as_strings(got), vec!["This is message 0", "message 1", "message 2"]);
}

#[test]
fn split_with_terminator_across_reads() {
    let msgs = ["This is message 0", "message 1", "message 2"];
    let bytes = stream(&msgs);
    // Cut inside the first terminator, and inside the second one.
    let first_end = "This is message 0".len() + 1;
    let second_end = first_end + 2 + "message 1".len() + 2;
    let mut splitter = MessageSplitter::new();
    let a = splitter.feed(&bytes[..first_end]);
    assert!(a.is_empty());
    let b = splitter.feed(&bytes[first_end..second_end]);
    assert_eq!(as_strings(b), vec!["This is message 0"]);
    let c = splitter.feed(&bytes[second_end..]);
    assert_eq!(as_strings(c), vec!["message 1", "message 2"]);
}

#[test]
fn split_keeps_incomplete_tail() {
    let mut splitter = MessageSplitter::new();
    let got = splitter.feed(b"partial");
    assert!(got.is_empty());
    let got = splitter.feed(&[b'!', 254, 253, 255, b'x']);
    assert_eq!(as_strings(got), vec!["partial!"]);
}

#[test]
fn split_empty_messages() {
    let mut splitter = MessageSplitter::new();
    let got = splitter.feed(&[254, 253, 255, 254, 253, 255]);
    assert_eq!(got, vec![Vec::<u8>::new(), Vec::new()]);
}

#[test]
fn split_message_with_lone_marker_bytes() {
    let msg = vec![1u8, 254, 253, 2, 255];
    let mut splitter = MessageSplitter::new();
    let got = splitter.feed(&frame_message(&msg));
    assert_eq!(got, vec![msg]);
}
