use rust_honeypot::connection::{Action, Connection, Event};
use rust_honeypot::listener::{Honeypot, ListenerAction, ListenerEvent};
use rust_honeypot::reader::parse_line;
use rust_honeypot::record::{ConnectionLog, PeerAddr};
use rust_honeypot::sink::{LogTask, SinkAction, SinkEvent};

const BANNER: &str = "SSH-2.0-OpenSSH_8.2p1 Ubuntu-4ubuntu0.5\r\n";
const TIME: &str = "2024-01-01T00:00:00+00:00";

fn listening(port: u16) -> Honeypot {
    let mut honeypot = Honeypot::new();
    assert_eq!(honeypot.step(ListenerEvent::Start(port)), ListenerAction::Bind(port));
    assert_eq!(honeypot.step(ListenerEvent::Bound), ListenerAction::Accept);
    honeypot
}

fn accept(honeypot: &mut Honeypot, ip: &str, port: u16) -> Connection {
    let peer = PeerAddr { ip: ip.to_string(), port };
    match honeypot.step(ListenerEvent::Accepted(peer)) {
        ListenerAction::Dispatch(connection) => connection,
        other => panic!("not dispatched: {:?}", other),
    }
}

fn greet(connection: &mut Connection) {
    assert_eq!(connection.step(Event::Opened), Action::Send(BANNER.to_string()));
    assert_eq!(connection.step(Event::BannerSent), Action::Read(1024));
}

fn record_of(connection: &mut Connection, sent: &[u8]) -> ConnectionLog {
    match connection.step_at(Event::Received(sent.to_vec()), TIME.to_string()) {
        Action::Persist(record) => record,
        other => panic!("no record: {:?}", other),
    }
}

fn appended(record: &ConnectionLog) -> String {
    let (mut task, action) = LogTask::begin(record);
    assert_eq!(action, SinkAction::Open);
    let entry = match task.step(SinkEvent::Opened) {
        SinkAction::Append(entry) => entry,
        other => panic!("nothing to append: {:?}", other),
    };
    assert_eq!(task.step(SinkEvent::Written), SinkAction::Finish);
    assert!(task.is_closed());
    entry
}

#[test]
fn hello_is_logged_as_one_line() {
    let mut honeypot = listening(2222);
    let mut connection = accept(&mut honeypot, "127.0.0.1", 40000);
    greet(&mut connection);
    let record = record_of(&mut connection, b"hello honeypot\n");
    assert_eq!(
        appended(&record),
        "{\"timestamp\":\"2024-01-01T00:00:00+00:00\",\"ip_address\":\"127.0.0.1\",\"port\":40000,\"data\":\"hello honeypot\\n\"}\n"
    );
    assert!(connection.is_closed());
}

#[test]
fn a_silent_peer_is_logged_with_empty_data() {
    let mut honeypot = listening(2222);
    let mut connection = accept(&mut honeypot, "127.0.0.1", 40001);
    greet(&mut connection);
    let record = record_of(&mut connection, b"");
    assert_eq!(
        appended(&record),
        "{\"timestamp\":\"2024-01-01T00:00:00+00:00\",\"ip_address\":\"127.0.0.1\",\"port\":40001,\"data\":\"\"}\n"
    );
}

#[test]
fn two_peers_at_once_are_logged_apart() {
    let mut honeypot = listening(2222);
    let mut first = accept(&mut honeypot, "192.0.2.1", 50001);
    let mut second = accept(&mut honeypot, "192.0.2.2", 50002);
    greet(&mut second);
    let late = record_of(&mut second, b"b \xff");
    greet(&mut first);
    let early = record_of(&mut first, b"a");
    assert_eq!(
        appended(&late),
        "{\"timestamp\":\"2024-01-01T00:00:00+00:00\",\"ip_address\":\"192.0.2.2\",\"port\":50002,\"data\":\"b \u{fffd}\"}\n"
    );
    assert_eq!(
        appended(&early),
        "{\"timestamp\":\"2024-01-01T00:00:00+00:00\",\"ip_address\":\"192.0.2.1\",\"port\":50001,\"data\":\"a\"}\n"
    );
    assert_eq!((first.number, second.number), (1, 2));
}

#[test]
fn what_is_appended_reads_back_as_the_record() {
    let mut honeypot = listening(2222);
    let mut connection = accept(&mut honeypot, "2001:db8::7", 40002);
    greet(&mut connection);
    let record = record_of(&mut connection, b"GET / HTTP/1.1\r\n\x00\x1b[31m\"\\\xc3\x28");
    let entry = appended(&record);
    let line = entry.strip_suffix('\n').unwrap();
    assert!(!line.contains('\n'));
    assert_eq!(parse_line(line), Some(record));
}

#[test]
fn every_record_has_a_line_and_an_entry() {
    for byte in 0u8..=255 {
        let text = rust_honeypot::capture::decode_payload(&[byte, byte, b'x']);
        let record = ConnectionLog {
            timestamp: text.clone(),
            ip_address: text.clone(),
            port: byte as u16 * 257,
            data: text,
        };
        let line = record.to_line().unwrap();
        assert_eq!(record.to_entry(), Ok(format!("{}\n", line)));
        let (task, action) = LogTask::begin(&record);
        assert_eq!(action, SinkAction::Open);
        assert_eq!(task.entry, format!("{}\n", line));
    }
}

fn digits(text: &[u8]) -> bool {
    !text.is_empty() && text.iter().all(|b| b.is_ascii_digit())
}

#[test]
fn the_time_of_a_record_has_the_form_of_rfc_3339() {
    for _ in 0..50 {
        let mut connection = Connection::new(PeerAddr { ip: "::1".to_string(), port: 1 }, 1);
        greet(&mut connection);
        let record = match connection.step(Event::Received(Vec::new())) {
            Action::Persist(record) => record,
            other => panic!("no record: {:?}", other),
        };
        let text = record.timestamp.as_bytes();
        assert!(record.timestamp.ends_with("+00:00"));
        let year = record.timestamp.find('-').unwrap();
        assert_eq!(year, 4);
        assert!(digits(&text[..4]));
        assert_eq!(text[4], b'-');
        assert!(digits(&text[5..7]));
        assert_eq!(text[7], b'-');
        assert!(digits(&text[8..10]));
        assert_eq!(text[10], b'T');
        assert!(digits(&text[11..13]));
        assert_eq!(text[13], b':');
        assert!(digits(&text[14..16]));
        assert_eq!(text[16], b':');
        assert!(digits(&text[17..19]));
        let fraction = &text[19..text.len() - 6];
        if !fraction.is_empty() {
            assert_eq!(fraction[0], b'.');
            assert!(digits(&fraction[1..]));
            assert!([3, 6, 9].contains(&(fraction.len() - 1)));
        }
    }
}
