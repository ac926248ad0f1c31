//! The protocol of one connection: greet, read once, record.
//!
//! A `Connection` is told what happened on its socket and answers with what is
//! to be done next. It never waits and never touches a socket itself.

use crate::capture::{captured, decode_payload, payload_text, BUFFER_SIZE};
use crate::clock::{is_utc_timestamp, utc_now_rfc3339};
use crate::error::HoneypotError;
use crate::record::{ConnectionLog, ConnectionLogView, PeerAddr, PeerAddrView};
use vstd::prelude::*;
use vstd::string::StringExecFns;
use vstd::utf8::{decode_utf8, valid_utf8};

verus! {

/// The greeting: the version line of an SSH server, ended by CR LF.
pub open spec fn greeting() -> Seq<char> {
    "SSH-2.0-OpenSSH_8.2p1 Ubuntu-4ubuntu0.5\r\n"@
}

/// The greeting that every connection is sent first.
pub fn banner() -> (text: &'static str)
    ensures
        text@ == greeting(),
{
    "SSH-2.0-OpenSSH_8.2p1 Ubuntu-4ubuntu0.5\r\n"
}

/// The greeting is plain ASCII and ends with CR LF.
pub proof fn lemma_greeting_shape()
    ensures
        greeting().len() == 41,
        greeting()[39] == '\r',
        greeting()[40] == '\n',
        forall|i: int| 0 <= i < greeting().len() ==> (#[trigger] greeting()[i] as int) < 128,
{
    reveal_strlit("SSH-2.0-OpenSSH_8.2p1 Ubuntu-4ubuntu0.5\r\n");
}

/// How far a connection has come.
#[derive(Debug, Clone, Copy, PartialEq, Eq, Structural)]
pub enum Stage {
    /// Accepted; nothing was sent yet.
    Accepted,
    /// The greeting is on its way.
    Greeting,
    /// The one read is under way.
    Reading,
    /// The interaction is over and the socket released.
    Closed,
}

/// What happened on the socket of a connection.
#[derive(Debug, Clone, PartialEq, Eq)]
pub enum Event {
    /// The task of the connection has started.
    Opened,
    /// The greeting was written.
    BannerSent,
    /// Writing the greeting failed.
    BannerFailed,
    /// The read returned these bytes; none, where the peer closed first.
    Received(Vec<u8>),
    /// The read failed.
    ReadFailed,
}

/// What an `Event` is in contracts.
pub enum EventView {
    Opened,
    BannerSent,
    BannerFailed,
    Received(Seq<u8>),
    ReadFailed,
}

impl View for Event {
    type V = EventView;

    open spec fn view(&self) -> EventView {
        match self {
            Event::Opened => EventView::Opened,
            Event::BannerSent => EventView::BannerSent,
            Event::BannerFailed => EventView::BannerFailed,
            Event::Received(bytes) => EventView::Received(bytes@),
            Event::ReadFailed => EventView::ReadFailed,
        }
    }
}

/// What is to be done for a connection next.
#[derive(Debug, Clone, PartialEq, Eq)]
pub enum Action {
    /// Write this text to the peer.
    Send(String),
    /// Read once, at most this many bytes, however long it takes.
    Read(usize),
    /// Hand this record to the log and release the socket.
    Persist(ConnectionLog),
    /// Report this failure and release the socket; there is no record.
    Abort(HoneypotError),
    /// Nothing: the event does not belong to the stage the connection is in.
    Ignore,
}

/// What an `Action` is in contracts.
pub enum ActionView {
    Send(Seq<char>),
    Read(usize),
    Persist(ConnectionLogView),
    Abort(HoneypotError),
    Ignore,
}

impl View for Action {
    type V = ActionView;

    open spec fn view(&self) -> ActionView {
        match self {
            Action::Send(text) => ActionView::Send(text@),
            Action::Read(limit) => ActionView::Read(*limit),
            Action::Persist(record) => ActionView::Persist(record@),
            Action::Abort(error) => ActionView::Abort(*error),
            Action::Ignore => ActionView::Ignore,
        }
    }
}

/// One accepted connection.
#[derive(Debug, Clone, PartialEq, Eq)]
pub struct Connection {
    pub peer: PeerAddr,
    pub number: u64,
    pub stage: Stage,
}

/// What a `Connection` is in contracts.
pub struct ConnectionView {
    pub peer: PeerAddrView,
    pub number: u64,
    pub stage: Stage,
}

impl View for Connection {
    type V = ConnectionView;

    open spec fn view(&self) -> ConnectionView {
        ConnectionView { peer: self.peer@, number: self.number, stage: self.stage }
    }
}

/// The stage that `event` takes a connection in `stage` to.
pub open spec fn next_stage(stage: Stage, event: EventView) -> Stage {
    match (stage, event) {
        (Stage::Accepted, EventView::Opened) => Stage::Greeting,
        (Stage::Greeting, EventView::BannerSent) => Stage::Reading,
        (Stage::Greeting, EventView::BannerFailed) => Stage::Closed,
        (Stage::Reading, EventView::Received(_)) => Stage::Closed,
        (Stage::Reading, EventView::ReadFailed) => Stage::Closed,
        _ => stage,
    }
}

/// The record of a connection from `peer` that `received` was read from, made
/// at the time `now`.
pub open spec fn record_of(peer: PeerAddrView, received: Seq<u8>, now: Seq<char>)
    -> ConnectionLogView {
    ConnectionLogView {
        timestamp: now,
        ip_address: peer.ip,
        port: peer.port,
        data: payload_text(received),
    }
}

/// What is to be done when `event` happens to `connection` at the time `now`.
pub open spec fn response(connection: ConnectionView, event: EventView, now: Seq<char>)
    -> ActionView {
    match (connection.stage, event) {
        (Stage::Accepted, EventView::Opened) => ActionView::Send(greeting()),
        (Stage::Greeting, EventView::BannerSent) => ActionView::Read(BUFFER_SIZE),
        (Stage::Greeting, EventView::BannerFailed) => ActionView::Abort(HoneypotError::Write),
        (Stage::Reading, EventView::Received(received)) => ActionView::Persist(
            record_of(connection.peer, received, now),
        ),
        (Stage::Reading, EventView::ReadFailed) => ActionView::Abort(HoneypotError::Read),
        _ => ActionView::Ignore,
    }
}

/// The stage of a connection after `events`, one after another.
pub open spec fn stage_after(stage: Stage, events: Seq<EventView>) -> Stage
    decreases events.len(),
{
    if events.len() == 0 {
        stage
    } else {
        stage_after(next_stage(stage, events[0]), events.drop_first())
    }
}

/// How many records a connection in `stage` makes over `events`.
pub open spec fn records_made(stage: Stage, events: Seq<EventView>) -> nat
    decreases events.len(),
{
    if events.len() == 0 {
        0
    } else {
        let later = records_made(next_stage(stage, events[0]), events.drop_first());
        if stage == Stage::Reading && events[0] is Received {
            1 + later
        } else {
            later
        }
    }
}

/// A connection makes one record or none, whatever happens to it: none once
/// it is closed, and with its record it is closed.
pub proof fn lemma_at_most_one_record(stage: Stage, events: Seq<EventView>)
    ensures
        records_made(stage, events) <= 1,
        stage == Stage::Closed ==> records_made(stage, events) == 0,
        stage == Stage::Closed ==> stage_after(stage, events) == Stage::Closed,
        records_made(stage, events) == 1 ==> stage_after(stage, events) == Stage::Closed,
    decreases events.len(),
{
    if events.len() > 0 {
        lemma_at_most_one_record(next_stage(stage, events[0]), events.drop_first());
    }
}

/// What holds of the payload `data` of a record for what a read handed over:
/// there is always one; it is empty where nothing came; it has no more
/// characters than bytes were kept; it is the text itself where the kept
/// bytes are UTF-8; and it holds the replacement character where they are
/// not.
pub open spec fn payload_of(data: Seq<char>, received: Seq<u8>) -> bool {
    &&& data == payload_text(received)
    &&& received.len() == 0 ==> data.len() == 0
    &&& data.len() <= captured(received).len() <= BUFFER_SIZE
    &&& valid_utf8(captured(received)) ==> data == decode_utf8(captured(received))
    &&& !valid_utf8(captured(received)) ==> data.contains('\u{FFFD}')
}

impl Connection {
    /// The connection from `peer` that was accepted as the `number`-th of its
    /// listener.
    pub fn new(peer: PeerAddr, number: u64) -> (connection: Connection)
        ensures
            connection@ == (ConnectionView { peer: peer@, number, stage: Stage::Accepted }),
    {
        Connection { peer, number, stage: Stage::Accepted }
    }

    /// Whether the interaction is over.
    pub fn is_closed(&self) -> (closed: bool)
        ensures
            closed == (self@.stage == Stage::Closed),
    {
        match self.stage {
            Stage::Closed => true,
            _ => false,
        }
    }

    /// Whether the answer to `event` is a record, which needs the time.
    pub fn makes_record(&self, event: &Event) -> (makes: bool)
        ensures
            makes == (self@.stage == Stage::Reading && event@ is Received),
    {
        match (self.stage, event) {
            (Stage::Reading, Event::Received(_)) => true,
            _ => false,
        }
    }

    /// Takes the connection through `event`, which happened at the time `now`,
    /// and returns what is to be done. Peer and number stay as they are.
    pub fn step_at(&mut self, event: Event, now: String) -> (action: Action)
        ensures
            final(self)@.peer == old(self)@.peer,
            final(self)@.number == old(self)@.number,
            final(self)@.stage == next_stage(old(self)@.stage, event@),
            action@ == response(old(self)@, event@, now@),
            old(self)@.stage == Stage::Reading && event@ is Received ==> action@ is Persist
                && payload_of(action@->Persist_0.data, event@->Received_0),
    {
        match (self.stage, event) {
            (Stage::Accepted, Event::Opened) => {
                self.stage = Stage::Greeting;
                Action::Send(String::from_str(banner()))
            },
            (Stage::Greeting, Event::BannerSent) => {
                self.stage = Stage::Reading;
                Action::Read(BUFFER_SIZE)
            },
            (Stage::Greeting, Event::BannerFailed) => {
                self.stage = Stage::Closed;
                Action::Abort(HoneypotError::Write)
            },
            (Stage::Reading, Event::Received(received)) => {
                self.stage = Stage::Closed;
                let data = decode_payload(received.as_slice());
                let peer = PeerAddr { ip: self.peer.ip.clone(), port: self.peer.port };
                Action::Persist(ConnectionLog::new(now, peer, data))
            },
            (Stage::Reading, Event::ReadFailed) => {
                self.stage = Stage::Closed;
                Action::Abort(HoneypotError::Read)
            },
            _ => Action::Ignore,
        }
    }

    /// Takes the connection through `event` and returns what is to be done. A
    /// record is given the time at which this is called, in UTC and in the
    /// form of RFC 3339.
    pub fn step(&mut self, event: Event) -> (action: Action)
        ensures
            final(self)@.peer == old(self)@.peer,
            final(self)@.number == old(self)@.number,
            final(self)@.stage == next_stage(old(self)@.stage, event@),
            exists|now: Seq<char>| action@ == response(old(self)@, event@, now),
            old(self)@.stage == Stage::Reading && event@ is Received ==> {
                &&& action@ is Persist
                &&& is_utc_timestamp(action@->Persist_0.timestamp)
                &&& action@->Persist_0.ip_address == old(self)@.peer.ip
                &&& action@->Persist_0.port == old(self)@.peer.port
                &&& payload_of(action@->Persist_0.data, event@->Received_0)
            },
    {
        let now = if self.makes_record(&event) {
            utc_now_rfc3339()
        } else {
            String::new()
        };
        let action = self.step_at(event, now);
        proof {
            assert(action@ == response(old(self)@, event@, now@));
        }
        action
    }
}

} // verus!
