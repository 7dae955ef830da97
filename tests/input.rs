use ysos_proc::input::{is_utf8, pop_key, push_key, to_utf8, trailing_count_of, try_pop_key, InputBuffer, INPUT_BUF_SIZE, REPLACEMENT};

fn buffer_with(bytes: &[u8]) -> InputBuffer {
    let mut buf = InputBuffer::new();
    for &b in bytes {
        push_key(&mut buf, b);
    }
    buf
}

#[test]
fn keys_come_out_in_order() {
    let mut buf = buffer_with(b"ab");
    assert_eq!(buf.len(), 2);
    assert_eq!(try_pop_key(&mut buf), Some(b'a'));
    assert_eq!(pop_key(&mut buf), b'b');
    assert_eq!(try_pop_key(&mut buf), None);
    assert_eq!(buf.len(), 0);
}

#[test]
fn full_buffer_drops_new_keys() {
    let mut buf = InputBuffer::new();
    for i in 0..INPUT_BUF_SIZE {
        push_key(&mut buf, i as u8);
    }
    push_key(&mut buf, 0xEE);
    assert_eq!(buf.len(), INPUT_BUF_SIZE);
    assert_eq!(pop_key(&mut buf), 0);
    let mut last = 0;
    while let Some(k) = try_pop_key(&mut buf) {
        last = k;
    }
    assert_eq!(last, (INPUT_BUF_SIZE - 1) as u8);
}

#[test]
fn utf8_ascii_and_multibyte() {
    let mut buf = InputBuffer::new();
    assert_eq!(to_utf8(&mut buf, b'A'), 0x41);
    // U+00E9, U+4E2D, U+1F600
    let mut buf = buffer_with(&[0xA9]);
    assert_eq!(to_utf8(&mut buf, 0xC3), 0xE9);
    assert_eq!(buf.len(), 0);
    let mut buf = buffer_with(&[0xB8, 0xAD]);
    assert_eq!(to_utf8(&mut buf, 0xE4), 0x4E2D);
    let mut buf = buffer_with(&[0x9F, 0x98, 0x80, b'x']);
    assert_eq!(to_utf8(&mut buf, 0xF0), 0x1F600);
    assert_eq!(try_pop_key(&mut buf), Some(b'x'));
}

#[test]
fn utf8_invalid_sequences() {
    // a continuation byte cannot lead
    let mut buf = buffer_with(&[b'z']);
    assert_eq!(to_utf8(&mut buf, 0x80), REPLACEMENT);
    assert_eq!(buf.len(), 1);
    // a broken sequence stops at the offending byte, which is consumed
    let mut buf = buffer_with(&[0x41, 0x42]);
    assert_eq!(to_utf8(&mut buf, 0xE4), REPLACEMENT);
    assert_eq!(try_pop_key(&mut buf), Some(0x42));
    // overlong encoding of '/'
    let mut buf = buffer_with(&[0xAF]);
    assert_eq!(to_utf8(&mut buf, 0xC0), REPLACEMENT);
    // surrogate U+D800
    let mut buf = buffer_with(&[0xA0, 0x80]);
    assert_eq!(to_utf8(&mut buf, 0xED), REPLACEMENT);
    // past U+10FFFF
    let mut buf = buffer_with(&[0x90, 0x80, 0x80]);
    assert_eq!(to_utf8(&mut buf, 0xF4), REPLACEMENT);
}

#[test]
fn utf8_lead_bytes() {
    assert!(is_utf8(b'a'));
    assert!(is_utf8(0xC3));
    assert!(is_utf8(0xF7));
    assert!(!is_utf8(0x80));
    assert!(!is_utf8(0xF8));
    assert_eq!(trailing_count_of(0x41), 0);
    assert_eq!(trailing_count_of(0xC3), 1);
    assert_eq!(trailing_count_of(0xE4), 2);
    assert_eq!(trailing_count_of(0xF0), 3);
}
