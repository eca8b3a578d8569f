//! The decisions of a connection's worker: the handshake answer it accepts,
//! and what each read of the connection leads to.

use vstd::prelude::*;
use crate::event::Event;
use crate::nick::{check_nick, is_valid_nick, nick_of, NickError};
use crate::text::{char_is_control, char_is_space, is_control, is_space, trim, trimmed};

verus! {

/// A character that a chat line may not hold: a control character that is
/// not whitespace.
pub open spec fn is_forbidden(c: char) -> bool {
    is_control(c) && !is_space(c)
}

/// A chat line is accepted when it holds no forbidden character.
pub open spec fn is_clean_line(s: Seq<char>) -> bool {
    forall|i: int| 0 <= i < s.len() ==> !is_forbidden(#[trigger] s[i])
}

/// The result of one attempt to read a line from the connection.
#[derive(Debug, Clone, PartialEq, Eq)]
pub enum ReadOutcome {
    /// One or more bytes were read: the line as read, newline included.
    Line(String),
    /// The peer closed the stream: zero bytes were read.
    Eof,
    /// Nothing to read yet.
    WouldBlock,
    /// The read failed; the error's category.
    Failed(String),
}

/// What the worker does after one read.
#[derive(Debug, Clone, PartialEq, Eq)]
pub enum WorkerStep {
    /// Pass the event on to the coordinator and read again.
    Forward(Event),
    /// Drop the line and read again.
    Ignore,
    /// Sleep briefly, then read again.
    Wait,
    /// Pass the event on to the coordinator and stop reading.
    Finish(Event),
}

/// One connection after a successful handshake.
#[derive(Debug)]
pub struct ConnectionHandler {
    id: usize,
    nick: String,
}

impl ConnectionHandler {
    pub closed spec fn spec_id(&self) -> usize {
        self.id
    }

    pub closed spec fn spec_nick(&self) -> Seq<char> {
        self.nick@
    }

    /// Takes the client's answer to the nickname prompt. On success the
    /// connection is known under the nickname the answer stands for.
    pub fn new(id: usize, answer: &str) -> (r: Result<Self, NickError>)
        ensures
            r is Ok <==> is_valid_nick(nick_of(answer@)),
            r matches Ok(h) ==> h.spec_id() == id && h.spec_nick() == nick_of(answer@),
            r matches Err(e) ==> (e == NickError::Empty <==> nick_of(answer@).len() == 0),
    {
        match check_nick(answer) {
            Ok(nick) => Ok(ConnectionHandler { id, nick }),
            Err(e) => Err(e),
        }
    }

    pub fn id(&self) -> (r: usize)
        ensures
            r == self.spec_id(),
    {
        self.id
    }

    pub fn nick(&self) -> (r: String)
        ensures
            r@ == self.spec_nick(),
    {
        self.nick.clone()
    }

    /// The event that announces this connection to the coordinator.
    pub fn join_event(&self) -> (r: Event)
        ensures
            r matches Event::Join(id, n) && id == self.spec_id() && n@ == self.spec_nick(),
    {
        Event::Join(self.id, self.nick.clone())
    }

    /// The chat event for a line read from the connection: none when the line
    /// holds a forbidden character, else the line trimmed.
    pub fn message(&self, msg: &str) -> (r: Option<Event>)
        ensures
            r is Some <==> is_clean_line(msg@),
            r matches Some(e) ==> (e matches Event::Chat(id, t) && id == self.spec_id() && t@
                == trimmed(msg@)),
    {
        let n = msg.unicode_len();
        let mut i: usize = 0;
        while i < n
            invariant
                n == msg@.len(),
                i <= n,
                forall|k: int| 0 <= k < i ==> !is_forbidden(#[trigger] msg@[k]),
            decreases n - i,
        {
            let c = msg.get_char(i);
            if char_is_control(c) && !char_is_space(c) {
                return None;
            }
            i = i + 1;
        }
        Some(Event::Chat(self.id, String::from_str(trim(msg))))
    }

    /// What follows one read of the connection: a clean line becomes a chat
    /// event; the end of the stream or a failure ends the connection with a
    /// disconnect event that gives the reason.
    pub fn on_read(&self, outcome: ReadOutcome) -> (r: WorkerStep)
        ensures
            outcome matches ReadOutcome::Line(l) ==> if is_clean_line(l@) {
                r matches WorkerStep::Forward(Event::Chat(id, t)) && id == self.spec_id() && t@
                    == trimmed(l@)
            } else {
                r is Ignore
            },
            outcome is Eof ==> (r matches WorkerStep::Finish(Event::Disconnect(id, why)) && id
                == self.spec_id() && why@ == "Disconnected"@),
            outcome is WouldBlock ==> r is Wait,
            outcome matches ReadOutcome::Failed(reason) ==> (r matches WorkerStep::Finish(
                Event::Disconnect(id, why),
            ) && id == self.spec_id() && why@ == reason@),
    {
        match outcome {
            ReadOutcome::Line(l) => match self.message(l.as_str()) {
                Some(e) => WorkerStep::Forward(e),
                None => WorkerStep::Ignore,
            },
            ReadOutcome::Eof => WorkerStep::Finish(
                Event::Disconnect(self.id, String::from_str("Disconnected")),
            ),
            ReadOutcome::WouldBlock => WorkerStep::Wait,
            ReadOutcome::Failed(reason) => WorkerStep::Finish(Event::Disconnect(self.id, reason)),
        }
    }
}

} // verus!
