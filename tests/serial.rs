use kiosk_link::serial::{LineReader, ReadAction, ReadEvent};

fn feed(r: &mut LineReader, chunks: &[&[u8]]) -> Vec<String> {
    let mut out = Vec::new();
    for c in chunks {
        out.extend(r.push_bytes(c));
    }
    out
}

#[test]
fn one_newline_across_chunks_gives_one_line() {
    let mut r = LineReader::new();
    let lines = feed(&mut r, &[b"  temp", b"=2", b"1\r", b"\n"]);
    assert_eq!(lines, vec!["temp=21".to_string()]);
    assert!(r.pending().is_empty());
}

#[test]
fn text_after_newline_stays_buffered() {
    let mut r = LineReader::new();
    let lines = feed(&mut r, &[b"ab\ncd"]);
    assert_eq!(lines, vec!["ab".to_string()]);
    assert_eq!(r.pending(), b"cd".to_vec());
    let more = r.push_bytes(b"e\n");
    assert_eq!(more, vec!["cde".to_string()]);
}

#[test]
fn several_lines_in_one_chunk() {
    let mut r = LineReader::new();
    assert_eq!(r.push_bytes(b"a\nb\n\nc"), vec!["a".to_string(), "b".to_string(), "".to_string()]);
    assert_eq!(r.pending(), b"c".to_vec());
}

#[test]
fn no_newline_gives_no_line() {
    let mut r = LineReader::new();
    assert!(feed(&mut r, &[b"abc", b"", b"def"]).is_empty());
    assert_eq!(r.pending(), b"abcdef".to_vec());
}

#[test]
fn multibyte_character_split_across_chunks() {
    let mut r = LineReader::new();
    let lines = feed(&mut r, &[&[0x70, 0xC3], &[0xB3, 0x0A]]);
    assert_eq!(lines, vec!["pó".to_string()]);
}

#[test]
fn invalid_bytes_become_replacement_character() {
    let mut r = LineReader::new();
    assert_eq!(r.push_bytes(&[0x68, 0xFF, 0x0A]), vec!["h\u{FFFD}".to_string()]);
}

#[test]
fn read_events_drive_the_loop() {
    let mut r = LineReader::new();
    match r.on_read(ReadEvent::Data(b"x".to_vec())) {
        ReadAction::Continue(l) => assert!(l.is_empty()),
        ReadAction::Stop => panic!("data must not stop the loop"),
    }
    match r.on_read(ReadEvent::TimedOut) {
        ReadAction::Continue(l) => assert!(l.is_empty()),
        ReadAction::Stop => panic!("a timeout must not stop the loop"),
    }
    match r.on_read(ReadEvent::Data(b"y\n".to_vec())) {
        ReadAction::Continue(l) => assert_eq!(l, vec!["xy".to_string()]),
        ReadAction::Stop => panic!("data must not stop the loop"),
    }
    assert!(matches!(r.on_read(ReadEvent::Failed), ReadAction::Stop));
    assert!(matches!(r.on_read(ReadEvent::Cancelled), ReadAction::Stop));
}

#[test]
fn line_split_over_two_reads() {
    let mut r = LineReader::new();
    assert_eq!(feed(&mut r, &[b"hel", b"lo\n"]), vec!["hello".to_string()]);
}

#[test]
fn carriage_return_lines_in_two_reads() {
    let mut r = LineReader::new();
    assert_eq!(feed(&mut r, &[b"a\r\n", b"b\n"]), vec!["a".to_string(), "b".to_string()]);
    assert!(r.pending().is_empty());
}
