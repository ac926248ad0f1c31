use rust_honeypot::reader::parse_line;
use rust_honeypot::record::ConnectionLog;
use rust_honeypot::text::chars_of;

fn record(timestamp: &str, ip_address: &str, port: u16, data: &str) -> ConnectionLog {
    ConnectionLog {
        timestamp: timestamp.to_string(),
        ip_address: ip_address.to_string(),
        port,
        data: data.to_string(),
    }
}

fn line_with_data(data: &str) -> String {
    format!("{{\"timestamp\":\"t\",\"ip_address\":\"i\",\"port\":1,\"data\":\"{}\"}}", data)
}

fn line_with_port(port: &str) -> String {
    format!("{{\"timestamp\":\"t\",\"ip_address\":\"i\",\"port\":{},\"data\":\"\"}}", port)
}

#[test]
fn chars_are_taken_one_by_one() {
    assert_eq!(chars_of(""), Vec::<char>::new());
    assert_eq!(chars_of("a\u{e9}\u{1f600}\n"), vec!['a', '\u{e9}', '\u{1f600}', '\n']);
}

#[test]
fn a_plain_line_is_read() {
    let line = "{\"timestamp\":\"2024-05-06T07:08:09+00:00\",\"ip_address\":\"192.0.2.7\",\"port\":54321,\"data\":\"hello honeypot\\n\"}";
    assert_eq!(
        parse_line(line),
        Some(record("2024-05-06T07:08:09+00:00", "192.0.2.7", 54321, "hello honeypot\n"))
    );
}

#[test]
fn every_line_that_is_written_is_read_back() {
    let samples = [
        record("", "", 0, ""),
        record("2024-05-06T07:08:09.5+00:00", "::1", 65535, "hello honeypot\n"),
        record("t", "10.0.0.1", 22, "\"quoted\" \\ back / slash"),
        record("t", "10.0.0.1", 10, "\u{0}\u{1}\u{8}\t\n\u{b}\u{c}\r\u{1f}\u{7f}"),
        record("t", "10.0.0.1", 100, "caf\u{e9} \u{fffd} \u{1f600}"),
        record("\n\"", "\\", 9, "{\"timestamp\":\"x\",\"data\":\"y\"}"),
    ];
    for sample in samples {
        let line = sample.to_line().unwrap();
        assert_eq!(parse_line(&line), Some(sample));
    }
}

#[test]
fn every_byte_comes_back() {
    for byte in 0u8..=255 {
        let data = rust_honeypot::capture::decode_payload(&[b'<', byte, b'>']);
        let sample = record("t", "i", byte as u16, &data);
        let line = sample.to_line().unwrap();
        assert_eq!(parse_line(&line), Some(sample));
    }
}

#[test]
fn escapes_are_read() {
    assert_eq!(
        parse_line(&line_with_data("\\\"\\\\\\/\\b\\f\\n\\r\\t")).unwrap().data,
        "\"\\/\u{8}\u{c}\n\r\t"
    );
    assert_eq!(parse_line(&line_with_data("\\u0041\\u00e9\\u00E9\\u20AC\\uffFD")).unwrap().data, "A\u{e9}\u{e9}\u{20ac}\u{fffd}");
    assert_eq!(parse_line(&line_with_data("\\u0000")).unwrap().data, "\u{0}");
}

#[test]
fn broken_strings_are_refused() {
    for data in [
        "\\",
        "\\x",
        "\\u",
        "\\u12",
        "\\u12g4",
        "\\ud800",
        "\\udfff",
        "\\uD83D\\uDE00",
        "raw\nfeed",
        "raw\ttab",
        "\u{1f}",
        "un\"quoted",
    ] {
        assert_eq!(parse_line(&line_with_data(data)), None, "{:?}", data);
    }
}

#[test]
fn ports_are_read_within_their_range() {
    assert_eq!(parse_line(&line_with_port("0")).unwrap().port, 0);
    assert_eq!(parse_line(&line_with_port("9")).unwrap().port, 9);
    assert_eq!(parse_line(&line_with_port("65535")).unwrap().port, 65535);
    for port in ["", "65536", "70000", "100000", "4294967296", "99999999999999999999999", "00", "01", "022", "-1", "+1", "1.0", "1e3", " 1", "1 ", "x", "\"22\""] {
        assert_eq!(parse_line(&line_with_port(port)), None, "{:?}", port);
    }
}

#[test]
fn lines_of_another_form_are_refused() {
    let good = "{\"timestamp\":\"t\",\"ip_address\":\"i\",\"port\":1,\"data\":\"d\"}";
    assert!(parse_line(good).is_some());
    for line in [
        "",
        "{}",
        "{",
        "{\"timestamp\":\"t\",\"ip_address\":\"i\",\"port\":1,\"data\":\"d\"",
        "{\"timestamp\":\"t\",\"ip_address\":\"i\",\"port\":1,\"data\":\"d\"}\n",
        "{\"timestamp\":\"t\",\"ip_address\":\"i\",\"port\":1,\"data\":\"d\"} ",
        " {\"timestamp\":\"t\",\"ip_address\":\"i\",\"port\":1,\"data\":\"d\"}",
        "{\"timestamp\": \"t\",\"ip_address\":\"i\",\"port\":1,\"data\":\"d\"}",
        "{\"ip_address\":\"i\",\"timestamp\":\"t\",\"port\":1,\"data\":\"d\"}",
        "{\"timestamp\":\"t\",\"ip_address\":\"i\",\"port\":1}",
        "{\"timestamp\":\"t\",\"ip_address\":\"i\",\"data\":\"d\"}",
        "{\"timestamp\":\"t\",\"ip_address\":\"i\",\"port\":1,\"data\":\"d\",\"more\":1}",
        "{\"timestamp\":t,\"ip_address\":\"i\",\"port\":1,\"data\":\"d\"}",
        "{\"timestamp\":\"t\",\"ip_address\":\"i\",\"port\":1,\"data\":\"d}",
    ] {
        assert_eq!(parse_line(line), None, "{:?}", line);
    }
}

#[test]
fn read_fields_agree_with_a_json_parser() {
    let sample = record("2024-05-06T07:08:09+00:00", "2001:db8::1", 8080, "GET / HTTP/1.1\r\nHost: \"x\"\r\n\r\n\u{0}");
    let line = sample.to_line().unwrap();
    let value: serde_json::Value = serde_json::from_str(&line).unwrap();
    let read = parse_line(&line).unwrap();
    assert_eq!(value["timestamp"].as_str(), Some(read.timestamp.as_str()));
    assert_eq!(value["ip_address"].as_str(), Some(read.ip_address.as_str()));
    assert_eq!(value["port"].as_u64(), Some(read.port as u64));
    assert_eq!(value["data"].as_str(), Some(read.data.as_str()));
}
