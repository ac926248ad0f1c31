//! One listener: bind a port, then accept without end.
//!
//! A `Honeypot` is told what its socket did and answers with what is to be
//! done next. Every accepted connection gets the next number of the listener
//! and a `Connection` of its own, which runs apart from the listener.

use crate::connection::{Connection, ConnectionView, Stage};
use crate::error::HoneypotError;
use crate::record::PeerAddr;
use crate::state::{lemma_numbers_from, HoneypotState};
use vstd::prelude::*;

verus! {

/// How far a listener has come.
#[derive(Debug, Clone, Copy, PartialEq, Eq, Structural)]
pub enum ListenerStage {
    /// Made, not started.
    Idle,
    /// The port is being bound.
    Binding,
    /// Bound and accepting.
    Serving,
    /// The port could not be bound; the listener is over.
    Failed,
}

/// What happened to a listener.
#[derive(Debug, Clone, PartialEq, Eq)]
pub enum ListenerEvent {
    /// The listener is to serve this port.
    Start(u16),
    /// The port was bound.
    Bound,
    /// The port could not be bound.
    BindFailed,
    /// A connection from this peer was accepted.
    Accepted(PeerAddr),
    /// Accepting failed.
    AcceptFailed,
}

/// What is to be done for a listener next.
#[derive(Debug, Clone, PartialEq, Eq)]
pub enum ListenerAction {
    /// Bind this port on all interfaces.
    Bind(u16),
    /// Wait for the next connection.
    Accept,
    /// Start a task of its own for this connection, and wait for the next one
    /// without waiting for that task.
    Dispatch(Connection),
    /// Report this failure and wait for the next connection.
    Report(HoneypotError),
    /// Report this failure and end the listener.
    Fail(HoneypotError),
    /// Nothing: the event does not belong to the stage the listener is in.
    Ignore,
}

/// One listener and its counter. Listeners share nothing.
#[derive(Debug)]
pub struct Honeypot {
    pub state: HoneypotState,
    pub stage: ListenerStage,
}

impl Honeypot {
    /// Whether `event` can be taken in `self`: a connection can be counted
    /// only while the counter has room.
    pub open spec fn can_take(self, event: ListenerEvent) -> bool {
        self.stage == ListenerStage::Serving && event is Accepted
            ==> self.state.connection_count < u64::MAX
    }

    /// The stage that `event` takes a listener in `stage` to.
    pub open spec fn next_stage(stage: ListenerStage, event: ListenerEvent) -> ListenerStage {
        match (stage, event) {
            (ListenerStage::Idle, ListenerEvent::Start(_)) => ListenerStage::Binding,
            (ListenerStage::Binding, ListenerEvent::Bound) => ListenerStage::Serving,
            (ListenerStage::Binding, ListenerEvent::BindFailed) => ListenerStage::Failed,
            _ => stage,
        }
    }

    /// The counter after `event` in `self`: one more for a connection accepted
    /// while serving, and otherwise unchanged.
    pub open spec fn next_state(self, event: ListenerEvent) -> HoneypotState {
        if self.stage == ListenerStage::Serving && event is Accepted {
            self.state.after_accept()
        } else {
            self.state
        }
    }

    /// Whether `event` is counted in `self`: it is a connection, accepted
    /// while serving.
    pub open spec fn counts(self, event: ListenerEvent) -> bool {
        self.stage == ListenerStage::Serving && event is Accepted
    }

    /// The listener after `event`.
    pub open spec fn after(self, event: ListenerEvent) -> Honeypot {
        Honeypot {
            state: self.next_state(event),
            stage: Honeypot::next_stage(self.stage, event),
        }
    }

    /// The listener after `events`, one after another.
    pub open spec fn after_all(self, events: Seq<ListenerEvent>) -> Honeypot
        decreases events.len(),
    {
        if events.len() == 0 {
            self
        } else {
            self.after(events[0]).after_all(events.drop_first())
        }
    }

    /// The numbers that the listener gives to the connections among `events`,
    /// in their order.
    pub open spec fn numbers_given(self, events: Seq<ListenerEvent>) -> Seq<u64>
        decreases events.len(),
    {
        if events.len() == 0 {
            Seq::empty()
        } else {
            let later = self.after(events[0]).numbers_given(events.drop_first());
            if self.counts(events[0]) {
                seq![self.state.next_number()] + later
            } else {
                later
            }
        }
    }

    /// A listener that has not started, with its counter at zero.
    pub fn new() -> (honeypot: Honeypot)
        ensures
            honeypot.state == HoneypotState::initial(),
            honeypot.stage == ListenerStage::Idle,
    {
        Honeypot { state: HoneypotState::new(), stage: ListenerStage::Idle }
    }

    /// How many connections the listener has accepted.
    pub fn connection_count(&self) -> (count: u64)
        ensures
            count == self.state.connection_count,
    {
        self.state.connection_count
    }

    /// Whether `event` can be taken now.
    pub fn accepts(&self, event: &ListenerEvent) -> (can: bool)
        ensures
            can == self.can_take(*event),
    {
        match (self.stage, event) {
            (ListenerStage::Serving, ListenerEvent::Accepted(_)) => {
                self.state.connection_count < u64::MAX
            },
            _ => true,
        }
    }

    /// Takes the listener through `event` and returns what is to be done.
    ///
    /// A start binds the port; a bound port is served; a port that cannot be
    /// bound ends the listener. While serving, an accepted connection is
    /// counted, numbered with the new count and dispatched, and a failed accept
    /// is reported; after either the listener goes on accepting.
    pub fn step(&mut self, event: ListenerEvent) -> (action: ListenerAction)
        requires
            old(self).can_take(event),
        ensures
            *final(self) == old(self).after(event),
            match (old(self).stage, event) {
                (ListenerStage::Idle, ListenerEvent::Start(port)) => action
                    == ListenerAction::Bind(port),
                (ListenerStage::Binding, ListenerEvent::Bound) => action == ListenerAction::Accept,
                (ListenerStage::Binding, ListenerEvent::BindFailed) => action
                    == ListenerAction::Fail(HoneypotError::Bind),
                (ListenerStage::Serving, ListenerEvent::Accepted(peer)) => {
                    &&& action is Dispatch
                    &&& action->Dispatch_0@ == (ConnectionView {
                        peer: peer@,
                        number: old(self).state.next_number(),
                        stage: Stage::Accepted,
                    })
                },
                (ListenerStage::Serving, ListenerEvent::AcceptFailed) => action
                    == ListenerAction::Report(HoneypotError::Accept),
                _ => action == ListenerAction::Ignore,
            },
    {
        match (self.stage, event) {
            (ListenerStage::Idle, ListenerEvent::Start(port)) => {
                self.stage = ListenerStage::Binding;
                ListenerAction::Bind(port)
            },
            (ListenerStage::Binding, ListenerEvent::Bound) => {
                self.stage = ListenerStage::Serving;
                ListenerAction::Accept
            },
            (ListenerStage::Binding, ListenerEvent::BindFailed) => {
                self.stage = ListenerStage::Failed;
                ListenerAction::Fail(HoneypotError::Bind)
            },
            (ListenerStage::Serving, ListenerEvent::Accepted(peer)) => {
                let number = self.state.register_connection();
                ListenerAction::Dispatch(Connection::new(peer, number))
            },
            (ListenerStage::Serving, ListenerEvent::AcceptFailed) => {
                ListenerAction::Report(HoneypotError::Accept)
            },
            _ => ListenerAction::Ignore,
        }
    }
}

/// Whatever happens to a listener, the connections it accepts get the
/// numbers that follow its count, one by one, and its count ends with the last
/// of them: what else happens in between, a failed accept or an event out of
/// turn, takes no number and leaves no gap.
pub proof fn lemma_listener_numbers(listener: Honeypot, events: Seq<ListenerEvent>)
    requires
        listener.state.connection_count + listener.numbers_given(events).len() <= u64::MAX,
    ensures
        listener.numbers_given(events).len() <= events.len(),
        listener.numbers_given(events) == listener.state.numbers(
            listener.numbers_given(events).len(),
        ),
        listener.after_all(events).state.connection_count == listener.state.connection_count
            + listener.numbers_given(events).len(),
    decreases events.len(),
{
    if events.len() > 0 {
        let next = listener.after(events[0]);
        let later = events.drop_first();
        lemma_listener_numbers(next, later);
        let given = next.numbers_given(later);
        if listener.counts(events[0]) {
            let all = listener.numbers_given(events);
            assert(all == seq![listener.state.next_number()] + given);
            assert(listener.state.numbers(all.len()) == seq![listener.state.next_number()]
                + next.state.numbers((all.len() - 1) as nat));
        }
    }
}

/// The connections that a new listener accepts get exactly the numbers 1 to
/// N, where N is how many they are: each number once, none left out, in the
/// order of acceptance, whatever else happens to the listener and in whatever
/// order the connections end.
pub proof fn lemma_new_listener_numbers(listener: Honeypot, events: Seq<ListenerEvent>)
    requires
        listener.state == HoneypotState::initial(),
        listener.numbers_given(events).len() <= u64::MAX,
    ensures
        forall|i: int|
            0 <= i < listener.numbers_given(events).len() ==> #[trigger] listener.numbers_given(
                events,
            )[i] == i + 1,
        listener.numbers_given(events).no_duplicates(),
        listener.numbers_given(events).to_set() =~= Set::new(
            |v: u64| 1 <= v <= listener.numbers_given(events).len(),
        ),
        listener.after_all(events).state.connection_count == listener.numbers_given(events).len(),
{
    let given = listener.numbers_given(events);
    lemma_listener_numbers(listener, events);
    lemma_numbers_from(listener.state, given.len());
    assert forall|v: u64| given.to_set().contains(v) <==> 1 <= v <= given.len() by {
        if 1 <= v <= given.len() {
            assert(given[v - 1] == v);
        }
    }
}

} // verus!
