//! A line-oriented chat relay: nickname handshake, line checks, and the
//! coordinator that owns the roster and decides every broadcast.

pub mod coordinator;
pub mod event;
pub mod laws;
pub mod nick;
pub mod roster;
pub mod text;
pub mod worker;

pub use coordinator::MessageHandler;
pub use event::{Action, Event};
pub use worker::ConnectionHandler;
