use touch_proxy::touchbuffer::TouchBuffer;

#[test]
fn test_buf() {
    let mut buf = TouchBuffer::default();

    let input = vec![b'(', 65, 66, 67, 68, 69, 70, 71, b')'];
    buf.store(&input);

    let mut output = Vec::new();
    buf.load(&mut output);
    assert_eq!(input, output);
}

#[test]
fn default_slot_is_all_zero_sample() {
    let buf = TouchBuffer::default();
    let mut output = vec![1, 2, 3];
    buf.load(&mut output);
    assert_eq!(output, vec![b'(', 0, 0, 0, 0, 0, 0, 0, b')']);
    assert_eq!(buf.word(), 0);
}

#[test]
fn round_trip_of_high_bytes() {
    let mut buf = TouchBuffer::default();
    let input = vec![b'(', 255, 0, 128, 1, 254, 127, 9, b')'];
    buf.store(&input);
    let mut output = Vec::new();
    buf.load(&mut output);
    assert_eq!(input, output);
}

#[test]
fn packed_word_layout() {
    let mut buf = TouchBuffer::default();
    buf.store(&[b'(', 1, 2, 3, 4, 5, 6, 7, b')']);
    assert_eq!(buf.word(), 0x0102_0304_0506_0700);
    let copy = TouchBuffer::from_word(buf.word());
    let mut output = Vec::new();
    copy.load(&mut output);
    assert_eq!(output, vec![b'(', 1, 2, 3, 4, 5, 6, 7, b')']);
}

#[test]
fn wrong_length_leaves_slot_unchanged() {
    let mut buf = TouchBuffer::default();
    buf.store(&[b'(', 65, 66, 67, 68, 69, 70, 71, b')']);
    buf.store(&[b'(', 1, 2, b')']);
    buf.store(&[b'(', 1, 2, 3, 4, 5, 6, 7, 8, b')']);
    buf.store(&[]);
    let mut output = Vec::new();
    buf.load(&mut output);
    assert_eq!(output, vec![b'(', 65, 66, 67, 68, 69, 70, 71, b')']);
}

#[test]
fn latest_sample_wins() {
    let mut buf = TouchBuffer::default();
    buf.store(b"(1111111)");
    buf.store(b"(1234567)");
    let mut output = Vec::new();
    buf.load(&mut output);
    assert_eq!(output, b"(1234567)".to_vec());
}
