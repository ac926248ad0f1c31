//! One captured interaction, and the peer it came from.

use vstd::prelude::*;

verus! {

/// The address of the far end of a connection, as text and number.
#[derive(Debug, Clone, PartialEq, Eq)]
pub struct PeerAddr {
    pub ip: String,
    pub port: u16,
}

/// What a `PeerAddr` is in contracts.
pub struct PeerAddrView {
    pub ip: Seq<char>,
    pub port: u16,
}

impl View for PeerAddr {
    type V = PeerAddrView;

    open spec fn view(&self) -> PeerAddrView {
        PeerAddrView { ip: self.ip@, port: self.port }
    }
}

/// One interaction: when it happened, who connected, and what they sent.
#[derive(Debug, Clone, PartialEq, Eq)]
pub struct ConnectionLog {
    pub timestamp: String,
    pub ip_address: String,
    pub port: u16,
    pub data: String,
}

/// What a `ConnectionLog` is in contracts.
pub struct ConnectionLogView {
    pub timestamp: Seq<char>,
    pub ip_address: Seq<char>,
    pub port: u16,
    pub data: Seq<char>,
}

impl View for ConnectionLog {
    type V = ConnectionLogView;

    open spec fn view(&self) -> ConnectionLogView {
        ConnectionLogView {
            timestamp: self.timestamp@,
            ip_address: self.ip_address@,
            port: self.port,
            data: self.data@,
        }
    }
}

impl ConnectionLog {
    /// The record of an interaction with `peer` at `timestamp` in which `data`
    /// was received.
    pub fn new(timestamp: String, peer: PeerAddr, data: String) -> (record: ConnectionLog)
        ensures
            record@ == (ConnectionLogView {
                timestamp: timestamp@,
                ip_address: peer@.ip,
                port: peer@.port,
                data: data@,
            }),
    {
        ConnectionLog { timestamp, ip_address: peer.ip, port: peer.port, data }
    }
}

} // verus!
