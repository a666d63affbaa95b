use chat_app::framing::{frame, take_record, NEWLINE};

#[test]
fn frame_appends_newline() {
    assert_eq!(frame(b"\"Quit\"".to_vec()), Some(b"\"Quit\"\n".to_vec()));
    assert_eq!(frame(Vec::new()), Some(vec![NEWLINE]));
}

#[test]
fn frame_refuses_embedded_newline() {
    assert_eq!(frame(b"a\nb".to_vec()), None);
}

#[test]
fn take_record_splits_first_record() {
    let mut buf = b"one\ntwo\nthr".to_vec();
    assert_eq!(take_record(&mut buf), Some(b"one".to_vec()));
    assert_eq!(buf, b"two\nthr".to_vec());
    assert_eq!(take_record(&mut buf), Some(b"two".to_vec()));
    assert_eq!(buf, b"thr".to_vec());
    assert_eq!(take_record(&mut buf), None);
    assert_eq!(buf, b"thr".to_vec());
}

#[test]
fn take_record_empty_and_blank() {
    let mut empty: Vec<u8> = Vec::new();
    assert_eq!(take_record(&mut empty), None);
    let mut blank = b"\n".to_vec();
    assert_eq!(take_record(&mut blank), Some(Vec::new()));
    assert!(blank.is_empty());
}
