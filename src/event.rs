//! What connection workers tell the coordinator, and what the coordinator
//! asks the transport layer to do.

use vstd::prelude::*;

verus! {

/// One unit of communication from a connection's worker to the coordinator.
/// Each carries the identity of the connection it comes from.
#[derive(Debug, Clone, PartialEq, Eq)]
pub enum Event {
    /// The connection finished its handshake under this nickname.
    Join(usize, String),
    /// The connection sent a chat line.
    Chat(usize, String),
    /// The connection ended, for this reason.
    Disconnect(usize, String),
}

/// One thing for the transport layer to do on a connection.
#[derive(Debug, Clone, PartialEq, Eq)]
pub enum Action {
    /// Write this line, followed by a newline, to the connection.
    Send(usize, String),
    /// Shut the connection down in both directions.
    Shutdown(usize),
}

/// The mathematical form of an `Action`.
pub enum Delivery {
    Line(usize, Seq<char>),
    Close(usize),
}

impl View for Action {
    type V = Delivery;

    open spec fn view(&self) -> Delivery {
        match self {
            Action::Send(to, line) => Delivery::Line(*to, line@),
            Action::Shutdown(to) => Delivery::Close(*to),
        }
    }
}

/// The mathematical form of a list of actions.
pub open spec fn deliveries(v: Seq<Action>) -> Seq<Delivery> {
    v.map_values(|a: Action| a@)
}

} // verus!
