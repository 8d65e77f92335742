use rterm::{key_bytes, AnsiParser, Grid, PtyEvent, SpecialKey};

#[test]
fn special_key_encodings() {
    assert_eq!(key_bytes(SpecialKey::Enter), vec![b'\r']);
    assert_eq!(key_bytes(SpecialKey::Backspace), vec![0x7f]);
    assert_eq!(key_bytes(SpecialKey::Tab), vec![b'\t']);
    assert_eq!(key_bytes(SpecialKey::Escape), vec![0x1b]);
    assert_eq!(key_bytes(SpecialKey::ArrowUp), b"\x1b[A".to_vec());
    assert_eq!(key_bytes(SpecialKey::ArrowDown), b"\x1b[B".to_vec());
    assert_eq!(key_bytes(SpecialKey::ArrowRight), b"\x1b[C".to_vec());
    assert_eq!(key_bytes(SpecialKey::ArrowLeft), b"\x1b[D".to_vec());
    assert_eq!(key_bytes(SpecialKey::Home), b"\x1b[H".to_vec());
    assert_eq!(key_bytes(SpecialKey::End), b"\x1b[F".to_vec());
    assert_eq!(key_bytes(SpecialKey::PageUp), b"\x1b[5~".to_vec());
    assert_eq!(key_bytes(SpecialKey::PageDown), b"\x1b[6~".to_vec());
    assert_eq!(key_bytes(SpecialKey::Delete), b"\x1b[3~".to_vec());
}

#[test]
fn arrow_key_bytes_move_the_cursor_when_echoed() {
    let mut g = Grid::new(5, 5);
    g.move_cursor(2, 2);
    let mut p = AnsiParser::new();
    p.process(&key_bytes(SpecialKey::ArrowUp), &mut g);
    p.process(&key_bytes(SpecialKey::ArrowRight), &mut g);
    assert_eq!((g.cursor_x, g.cursor_y), (3, 1));
}

#[test]
fn read_of_bytes_is_output() {
    let buf = [b'a', b'b', b'c', 0, 0];
    match PtyEvent::from_read(&buf, Some(3)) {
        PtyEvent::Output(v) => assert_eq!(v, b"abc".to_vec()),
        PtyEvent::Exit(_) => panic!("expected output"),
    }
    assert!(!PtyEvent::from_read(&buf, Some(3)).is_exit());
}

#[test]
fn read_of_nothing_is_clean_exit() {
    let buf = [0u8; 4];
    let e = PtyEvent::from_read(&buf, Some(0));
    assert!(matches!(e, PtyEvent::Exit(0)));
    assert!(e.is_exit());
}

#[test]
fn read_error_is_failed_exit() {
    let buf = [0u8; 4];
    let e = PtyEvent::from_read(&buf, None);
    assert!(matches!(e, PtyEvent::Exit(1)));
    assert!(e.is_exit());
}
