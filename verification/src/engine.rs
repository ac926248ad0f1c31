//! The engine: one listener for each port.

use crate::listener::{Honeypot, ListenerAction, ListenerEvent, ListenerStage};
use crate::state::HoneypotState;
use vstd::prelude::*;

verus! {

/// The ports that are served when nothing else is asked for.
pub fn default_ports() -> (ports: Vec<u16>)
    ensures
        ports@ == seq![22u16, 23u16, 80u16, 443u16, 3306u16, 5432u16],
{
    let mut ports: Vec<u16> = Vec::new();
    ports.push(22);
    ports.push(23);
    ports.push(80);
    ports.push(443);
    ports.push(3306);
    ports.push(5432);
    proof {
        assert(ports@ =~= seq![22u16, 23u16, 80u16, 443u16, 3306u16, 5432u16]);
    }
    ports
}

/// Whether `listener` was just started for `port`: it is binding, its counter
/// is at zero, and what is to be done for it is to bind `port`.
pub open spec fn started_for(listener: (Honeypot, ListenerAction), port: u16) -> bool {
    &&& listener.0.stage == ListenerStage::Binding
    &&& listener.0.state == HoneypotState::initial()
    &&& listener.1 == ListenerAction::Bind(port)
}

/// Starts one listener for each of `ports`, in their order. Every listener has
/// a counter of its own.
pub fn launch(ports: &[u16]) -> (listeners: Vec<(Honeypot, ListenerAction)>)
    ensures
        listeners@.len() == ports@.len(),
        forall|i: int| 0 <= i < ports@.len() ==> started_for(#[trigger] listeners@[i], ports@[i]),
{
    let mut listeners: Vec<(Honeypot, ListenerAction)> = Vec::new();
    let mut i: usize = 0;
    while i < ports.len()
        invariant
            0 <= i <= ports@.len(),
            listeners@.len() == i,
            forall|j: int| 0 <= j < i ==> started_for(#[trigger] listeners@[j], ports@[j]),
        decreases ports.len() - i,
    {
        let mut listener = Honeypot::new();
        let action = listener.step(ListenerEvent::Start(ports[i]));
        listeners.push((listener, action));
        i = i + 1;
    }
    listeners
}

} // verus!
