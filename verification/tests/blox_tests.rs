use vibe_lox::vm::blox::{blox_payload, frame_blox, has_blox_magic};

#[test]
fn frame_starts_with_magic() {
    let bytes = frame_blox(&[1, 2, 3]);
    assert_eq!(bytes, b"blox\x01\x02\x03".to_vec());
    assert!(has_blox_magic(&bytes));
}

#[test]
fn payload_round_trips() {
    let payload = vec![9u8, 0, 255, 7];
    assert_eq!(blox_payload(&frame_blox(&payload)), Some(payload));
    assert_eq!(blox_payload(b"blox"), Some(vec![]));
}

#[test]
fn missing_magic_is_rejected() {
    assert_eq!(blox_payload(b"blo"), None);
    assert_eq!(blox_payload(b"bloxy"), Some(vec![b'y']));
    assert_eq!(blox_payload(b"BLOX1"), None);
    assert!(!has_blox_magic(b"print 1;"));
    assert!(!has_blox_magic(b""));
}
