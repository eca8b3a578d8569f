//! The roster model and the rule by which the coordinator applies one event.

use vstd::prelude::*;
use crate::event::{Delivery, Event};

verus! {

/// The roster as a sequence of (identity, nickname) entries, oldest first.
pub type Entries = Seq<(usize, Seq<char>)>;

pub open spec fn has_id(r: Entries, id: usize) -> bool {
    exists|i: int| 0 <= i < r.len() && (#[trigger] r[i]).0 == id
}

pub open spec fn has_nick(r: Entries, nick: Seq<char>) -> bool {
    exists|i: int| 0 <= i < r.len() && (#[trigger] r[i]).1 == nick
}

/// At most one entry per identity and at most one entry per nickname.
pub open spec fn well_formed(r: Entries) -> bool {
    &&& forall|i: int, j: int| 0 <= i < j < r.len() ==> (#[trigger] r[i]).0 != (#[trigger] r[j]).0
    &&& forall|i: int, j: int| 0 <= i < j < r.len() ==> (#[trigger] r[i]).1 != (#[trigger] r[j]).1
}

/// Where the entry of `id` stands (meaningful when `has_id(r, id)`).
pub open spec fn index_of(r: Entries, id: usize) -> int {
    choose|i: int| 0 <= i < r.len() && (#[trigger] r[i]).0 == id
}

/// One line to every entry of the roster, in roster order.
pub open spec fn broadcast_to(r: Entries, line: Seq<char>) -> Seq<Delivery> {
    r.map_values(|e: (usize, Seq<char>)| Delivery::Line(e.0, line))
}

/// The nicknames of the roster, in roster order, separated by single spaces.
pub open spec fn nick_list(r: Entries) -> Seq<char>
    decreases r.len(),
{
    if r.len() == 0 {
        Seq::empty()
    } else if r.len() == 1 {
        r[0].1
    } else {
        nick_list(r.drop_last()) + " "@ + r.last().1
    }
}

pub open spec fn joined_line(nick: Seq<char>) -> Seq<char> {
    "[+] "@ + nick
}

pub open spec fn left_line(nick: Seq<char>, reason: Seq<char>) -> Seq<char> {
    "[-] "@ + nick + " ("@ + reason + ")"@
}

pub open spec fn chat_line(nick: Seq<char>, text: Seq<char>) -> Seq<char> {
    "<"@ + nick + "> "@ + text
}

pub open spec fn online_line(r: Entries) -> Seq<char> {
    "online: "@ + nick_list(r)
}

pub open spec fn rejected_line() -> Seq<char> {
    "Already present."@
}

/// The roster after `e`, and what is sent because of it, in order.
/// - A join under a nickname already present sends the rejection to the new
///   connection and closes it; nothing else changes.
/// - Any other join is announced to the present entries, then inserted, then
///   told who is online (itself included).
/// - A chat line goes to every entry, the sender included.
/// - A disconnect removes the entry, then tells the remaining entries.
/// - A chat or disconnect from an identity without an entry does nothing, nor
///   does a join from an identity that already has one.
pub open spec fn step(r: Entries, e: Event) -> (Entries, Seq<Delivery>) {
    match e {
        Event::Join(id, nick) => {
            if has_id(r, id) {
                (r, Seq::empty())
            } else if has_nick(r, nick@) {
                (r, seq![Delivery::Line(id, rejected_line()), Delivery::Close(id)])
            } else {
                let r2 = r.push((id, nick@));
                (r2, broadcast_to(r, joined_line(nick@)).push(Delivery::Line(id, online_line(r2))))
            }
        },
        Event::Chat(id, text) => {
            if has_id(r, id) {
                (r, broadcast_to(r, chat_line(r[index_of(r, id)].1, text@)))
            } else {
                (r, Seq::empty())
            }
        },
        Event::Disconnect(id, reason) => {
            if has_id(r, id) {
                let r2 = r.remove(index_of(r, id));
                (r2, broadcast_to(r2, left_line(r[index_of(r, id)].1, reason@)))
            } else {
                (r, Seq::empty())
            }
        },
    }
}

} // verus!
