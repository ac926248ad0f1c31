use rust_honeypot::connection::{Action, Connection, Event, Stage};
use rust_honeypot::engine::{default_ports, launch};
use rust_honeypot::error::HoneypotError;
use rust_honeypot::listener::{Honeypot, ListenerAction, ListenerEvent, ListenerStage};
use rust_honeypot::record::PeerAddr;

fn peer(port: u16) -> PeerAddr {
    PeerAddr { ip: "198.51.100.20".to_string(), port }
}

fn serving() -> Honeypot {
    let mut honeypot = Honeypot::new();
    honeypot.step(ListenerEvent::Start(2222));
    honeypot.step(ListenerEvent::Bound);
    honeypot
}

fn dispatched(action: ListenerAction) -> Connection {
    match action {
        ListenerAction::Dispatch(connection) => connection,
        other => panic!("not dispatched: {:?}", other),
    }
}

#[test]
fn new_listener_is_idle_and_has_counted_nothing() {
    let honeypot = Honeypot::new();
    assert_eq!(honeypot.stage, ListenerStage::Idle);
    assert_eq!(honeypot.connection_count(), 0);
}

#[test]
fn start_binds_and_a_bound_port_is_served() {
    let mut honeypot = Honeypot::new();
    assert_eq!(honeypot.step(ListenerEvent::Start(22)), ListenerAction::Bind(22));
    assert_eq!(honeypot.stage, ListenerStage::Binding);
    assert_eq!(honeypot.step(ListenerEvent::Bound), ListenerAction::Accept);
    assert_eq!(honeypot.stage, ListenerStage::Serving);
}

#[test]
fn a_port_that_cannot_be_bound_ends_the_listener() {
    let mut honeypot = Honeypot::new();
    honeypot.step(ListenerEvent::Start(22));
    assert_eq!(
        honeypot.step(ListenerEvent::BindFailed),
        ListenerAction::Fail(HoneypotError::Bind)
    );
    assert_eq!(honeypot.stage, ListenerStage::Failed);
    assert_eq!(honeypot.step(ListenerEvent::Accepted(peer(1))), ListenerAction::Ignore);
    assert_eq!(honeypot.step(ListenerEvent::Bound), ListenerAction::Ignore);
    assert_eq!(honeypot.connection_count(), 0);
}

#[test]
fn connections_are_numbered_in_the_order_of_acceptance() {
    let mut honeypot = serving();
    let mut numbers = Vec::new();
    for i in 0..50u16 {
        let connection = dispatched(honeypot.step(ListenerEvent::Accepted(peer(1000 + i))));
        assert_eq!(connection.peer, peer(1000 + i));
        assert_eq!(connection.stage, Stage::Accepted);
        numbers.push(connection.number);
    }
    let expected: Vec<u64> = (1..=50).collect();
    assert_eq!(numbers, expected);
    assert_eq!(honeypot.connection_count(), 50);
    assert_eq!(honeypot.stage, ListenerStage::Serving);
}

#[test]
fn two_clients_are_served_apart() {
    let mut honeypot = serving();
    let mut first = dispatched(honeypot.step(ListenerEvent::Accepted(peer(40001))));
    let mut second = dispatched(honeypot.step(ListenerEvent::Accepted(peer(40002))));
    assert_eq!(first.number, 1);
    assert_eq!(second.number, 2);
    let banner = "SSH-2.0-OpenSSH_8.2p1 Ubuntu-4ubuntu0.5\r\n".to_string();
    assert_eq!(second.step(Event::Opened), Action::Send(banner.clone()));
    assert_eq!(first.step(Event::Opened), Action::Send(banner));
    second.step(Event::BannerSent);
    first.step(Event::BannerSent);
    let late = second.step_at(Event::Received(b"second".to_vec()), "t2".to_string());
    let early = first.step_at(Event::Received(b"first".to_vec()), "t1".to_string());
    match (early, late) {
        (Action::Persist(early), Action::Persist(late)) => {
            assert_eq!(early.port, 40001);
            assert_eq!(early.data, "first");
            assert_eq!(late.port, 40002);
            assert_eq!(late.data, "second");
            assert_ne!(early.to_line().unwrap(), late.to_line().unwrap());
        }
        other => panic!("no two records: {:?}", other),
    }
    assert_eq!(first.number, 1);
    assert_eq!(second.number, 2);
    assert_eq!(honeypot.connection_count(), 2);
}

#[test]
fn a_failed_accept_is_reported_and_not_counted() {
    let mut honeypot = serving();
    dispatched(honeypot.step(ListenerEvent::Accepted(peer(1))));
    assert_eq!(
        honeypot.step(ListenerEvent::AcceptFailed),
        ListenerAction::Report(HoneypotError::Accept)
    );
    assert_eq!(honeypot.stage, ListenerStage::Serving);
    assert_eq!(honeypot.connection_count(), 1);
    let next = dispatched(honeypot.step(ListenerEvent::Accepted(peer(2))));
    assert_eq!(next.number, 2);
}

#[test]
fn listener_events_out_of_turn_are_ignored() {
    let mut honeypot = Honeypot::new();
    assert_eq!(honeypot.step(ListenerEvent::Bound), ListenerAction::Ignore);
    assert_eq!(honeypot.step(ListenerEvent::Accepted(peer(1))), ListenerAction::Ignore);
    assert_eq!(honeypot.step(ListenerEvent::AcceptFailed), ListenerAction::Ignore);
    assert_eq!(honeypot.stage, ListenerStage::Idle);
    assert_eq!(honeypot.connection_count(), 0);
    let mut honeypot = serving();
    assert_eq!(honeypot.step(ListenerEvent::Start(80)), ListenerAction::Ignore);
    assert_eq!(honeypot.step(ListenerEvent::BindFailed), ListenerAction::Ignore);
    assert_eq!(honeypot.stage, ListenerStage::Serving);
}

#[test]
fn a_full_counter_takes_no_more_connections() {
    let mut honeypot = serving();
    honeypot.state.connection_count = u64::MAX - 1;
    assert!(honeypot.accepts(&ListenerEvent::Accepted(peer(1))));
    let last = dispatched(honeypot.step(ListenerEvent::Accepted(peer(1))));
    assert_eq!(last.number, u64::MAX);
    assert!(!honeypot.accepts(&ListenerEvent::Accepted(peer(2))));
    assert!(honeypot.accepts(&ListenerEvent::AcceptFailed));
}

#[test]
fn default_ports_are_the_six_services() {
    assert_eq!(default_ports(), vec![22, 23, 80, 443, 3306, 5432]);
}

#[test]
fn launch_starts_one_listener_for_each_port() {
    let listeners = launch(&default_ports());
    assert_eq!(listeners.len(), 6);
    for ((honeypot, action), port) in listeners.iter().zip(default_ports()) {
        assert_eq!(honeypot.stage, ListenerStage::Binding);
        assert_eq!(honeypot.connection_count(), 0);
        assert_eq!(*action, ListenerAction::Bind(port));
    }
    assert!(launch(&[]).is_empty());
}

#[test]
fn listeners_count_apart() {
    let mut listeners = launch(&[22, 80]);
    let (mut second, _) = listeners.pop().unwrap();
    let (mut first, _) = listeners.pop().unwrap();
    first.step(ListenerEvent::Bound);
    second.step(ListenerEvent::Bound);
    dispatched(first.step(ListenerEvent::Accepted(peer(1))));
    dispatched(first.step(ListenerEvent::Accepted(peer(2))));
    let other = dispatched(second.step(ListenerEvent::Accepted(peer(3))));
    assert_eq!(other.number, 1);
    assert_eq!(first.connection_count(), 2);
    assert_eq!(second.connection_count(), 1);
}
