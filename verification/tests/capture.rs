use rust_honeypot::capture::{capture, decode_payload, BUFFER_SIZE};

#[test]
fn buffer_is_1024_bytes() {
    assert_eq!(BUFFER_SIZE, 1024);
}

#[test]
fn nothing_received_gives_empty_payload() {
    assert_eq!(decode_payload(&[]), "");
}

#[test]
fn text_is_kept_as_it_is() {
    assert_eq!(decode_payload(b"hello honeypot\n"), "hello honeypot\n");
    assert_eq!(decode_payload("caf\u{e9} \u{1f600}".as_bytes()), "caf\u{e9} \u{1f600}");
}

#[test]
fn bytes_that_are_no_text_become_replacement_characters() {
    assert_eq!(decode_payload(&[0xff]), "\u{fffd}");
    assert_eq!(decode_payload(b"ab\xffcd"), "ab\u{fffd}cd");
    assert_eq!(decode_payload(&[0xc3]), "\u{fffd}");
    assert_eq!(decode_payload(&[0x80, 0x41, 0xfe]), "\u{fffd}A\u{fffd}");
}

#[test]
fn a_full_buffer_is_kept_whole() {
    let received = vec![b'a'; BUFFER_SIZE];
    assert_eq!(capture(&received), &received[..]);
    assert_eq!(decode_payload(&received), "a".repeat(BUFFER_SIZE));
}

#[test]
fn more_than_the_buffer_is_cut_to_its_beginning() {
    let mut received = vec![b'a'; BUFFER_SIZE];
    received.extend_from_slice(b"bcd");
    assert_eq!(capture(&received).len(), BUFFER_SIZE);
    assert_eq!(capture(&received), &received[..BUFFER_SIZE]);
    assert_eq!(decode_payload(&received), "a".repeat(BUFFER_SIZE));
}

#[test]
fn short_reads_are_kept_whole() {
    assert_eq!(capture(b"xyz"), b"xyz");
    assert_eq!(capture(&[]), b"");
}

#[test]
fn payload_has_no_more_characters_than_bytes_were_kept() {
    let mut samples: Vec<Vec<u8>> = vec![
        vec![0xff; BUFFER_SIZE],
        vec![0xff; BUFFER_SIZE + 100],
        vec![0xc3; 700],
        vec![0xe2, 0x82],
        vec![0xf0, 0x9f, 0x98],
        vec![0xed, 0xa0, 0x80],
        vec![0xc0, 0x80],
        vec![0xf4, 0x90, 0x80, 0x80],
        "\u{20ac}".repeat(400).into_bytes(),
    ];
    for byte in 0u8..=255 {
        samples.push(vec![byte]);
        samples.push(vec![byte, 0x80]);
        samples.push(vec![0xe2, byte, 0xac]);
    }
    for received in samples {
        let kept = capture(&received).len();
        let data = decode_payload(&received);
        assert!(data.chars().count() <= kept, "{:?}", received);
        assert!(kept <= BUFFER_SIZE);
        assert!(data.len() <= 3 * kept);
    }
    assert_eq!(decode_payload(&vec![0xff; BUFFER_SIZE + 100]).chars().count(), BUFFER_SIZE);
}
