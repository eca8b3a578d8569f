//! What holds of the coordinator over every roster and every run of events.

use vstd::prelude::*;
use crate::event::{Delivery, Event};
use crate::roster::{
    broadcast_to, chat_line, has_id, has_nick, index_of, joined_line, left_line, rejected_line,
    step, well_formed, Entries,
};

verus! {

/// The roster and everything sent after applying `events` in order.
pub open spec fn run(r: Entries, events: Seq<Event>) -> (Entries, Seq<Delivery>)
    decreases events.len(),
{
    if events.len() == 0 {
        (r, Seq::empty())
    } else {
        let p = run(r, events.drop_last());
        let s = step(p.0, events.last());
        (s.0, p.1 + s.1)
    }
}

/// The lines sent to connection `c`, in order.
pub open spec fn received(c: usize, d: Seq<Delivery>) -> Seq<Seq<char>>
    decreases d.len(),
{
    if d.len() == 0 {
        Seq::empty()
    } else {
        let p = received(c, d.drop_last());
        match d.last() {
            Delivery::Line(to, line) => if to == c {
                p.push(line)
            } else {
                p
            },
            Delivery::Close(_) => p,
        }
    }
}

/// The line that every connected user is sent because of `e`, if any: an
/// accepted join, a chat line from a connected user, or a departure.
pub open spec fn announcement(r: Entries, e: Event) -> Option<Seq<char>> {
    match e {
        Event::Join(id, nick) => if !has_id(r, id) && !has_nick(r, nick@) {
            Some(joined_line(nick@))
        } else {
            None
        },
        Event::Chat(id, text) => if has_id(r, id) {
            Some(chat_line(r[index_of(r, id)].1, text@))
        } else {
            None
        },
        Event::Disconnect(id, reason) => if has_id(r, id) {
            Some(left_line(r[index_of(r, id)].1, reason@))
        } else {
            None
        },
    }
}

/// The announcements of `events`, in the order the events came.
pub open spec fn announcements(r: Entries, events: Seq<Event>) -> Seq<Seq<char>>
    decreases events.len(),
{
    if events.len() == 0 {
        Seq::empty()
    } else {
        let a = announcements(r, events.drop_last());
        match announcement(run(r, events.drop_last()).0, events.last()) {
            Some(line) => a.push(line),
            None => a,
        }
    }
}

/// Appending an entry whose identity and nickname are both new keeps the
/// roster well formed.
pub proof fn lemma_push_keeps_well_formed(r: Entries, id: usize, nick: Seq<char>)
    requires
        well_formed(r),
        !has_id(r, id),
        !has_nick(r, nick),
    ensures
        well_formed(r.push((id, nick))),
{
    let s = r.push((id, nick));
    assert forall|i: int, j: int| 0 <= i < j < s.len() implies (#[trigger] s[i]).0 != (
    #[trigger] s[j]).0 && s[i].1 != s[j].1 by {
        assert(s[i] == r[i]);
        if j < r.len() {
            assert(s[j] == r[j]);
        }
    }
}

/// Removing an entry keeps the roster well formed.
pub proof fn lemma_remove_keeps_well_formed(r: Entries, k: int)
    requires
        well_formed(r),
        0 <= k < r.len(),
    ensures
        well_formed(r.remove(k)),
{
    let s = r.remove(k);
    assert forall|a: int, b: int| 0 <= a < b < s.len() implies (#[trigger] s[a]).0 != (
    #[trigger] s[b]).0 && s[a].1 != s[b].1 by {
        let a2 = if a < k { a } else { a + 1 };
        let b2 = if b < k { b } else { b + 1 };
        assert(s[a] == r[a2]);
        assert(s[b] == r[b2]);
    }
}

/// Uniqueness: every event keeps the roster free of two entries with one
/// identity or one nickname. A join under a nickname already present is
/// turned away, whatever came before it: the new connection is sent the
/// rejection and closed, the roster stays as it was, and nobody else hears
/// of it.
pub proof fn lemma_step_keeps_well_formed(r: Entries, e: Event)
    requires
        well_formed(r),
    ensures
        well_formed(step(r, e).0),
        e matches Event::Join(id, nick) ==> (!has_id(r, id) && has_nick(r, nick@) ==> step(r, e)
            == (r, seq![Delivery::Line(id, rejected_line()), Delivery::Close(id)])),
{
    match e {
        Event::Join(id, nick) => {
            if !has_id(r, id) && !has_nick(r, nick@) {
                lemma_push_keeps_well_formed(r, id, nick@);
            }
        },
        Event::Disconnect(id, _) => {
            if has_id(r, id) {
                lemma_remove_keeps_well_formed(r, index_of(r, id));
            }
        },
        Event::Chat(_, _) => {},
    }
}

/// Every run of events keeps the roster well formed.
pub proof fn lemma_run_keeps_well_formed(r: Entries, events: Seq<Event>)
    requires
        well_formed(r),
    ensures
        well_formed(run(r, events).0),
    decreases events.len(),
{
    if events.len() > 0 {
        lemma_run_keeps_well_formed(r, events.drop_last());
        lemma_step_keeps_well_formed(run(r, events.drop_last()).0, events.last());
    }
}

/// What `c` is sent over two stretches is what it is sent over each, in turn.
pub proof fn lemma_received_append(c: usize, a: Seq<Delivery>, b: Seq<Delivery>)
    ensures
        received(c, a + b) == received(c, a) + received(c, b),
    decreases b.len(),
{
    if b.len() == 0 {
        assert(a + b =~= a);
        assert(received(c, a) + received(c, b) =~= received(c, a));
    } else {
        assert((a + b).drop_last() =~= a + b.drop_last());
        lemma_received_append(c, a, b.drop_last());
        assert((a + b).last() == b.last());
        match b.last() {
            Delivery::Line(to, line) => {
                if to == c {
                    assert(received(c, a + b) =~= received(c, a) + received(c, b));
                }
            },
            Delivery::Close(_) => {},
        }
    }
}

/// A broadcast reaches each connection in the roster once, and no other.
pub proof fn lemma_received_broadcast(r: Entries, line: Seq<char>, c: usize)
    requires
        well_formed(r),
    ensures
        received(c, broadcast_to(r, line)) == if has_id(r, c) {
            seq![line]
        } else {
            Seq::<Seq<char>>::empty()
        },
    decreases r.len(),
{
    if r.len() == 0 {
        assert(!has_id(r, c));
    } else {
        let p = r.drop_last();
        assert(broadcast_to(r, line).drop_last() =~= broadcast_to(p, line));
        assert(well_formed(p)) by {
            assert forall|i: int, j: int| 0 <= i < j < p.len() implies (#[trigger] p[i]).0 != (
            #[trigger] p[j]).0 && p[i].1 != p[j].1 by {
                assert(p[i] == r[i] && p[j] == r[j]);
            }
        }
        lemma_received_broadcast(p, line, c);
        if r.last().0 == c {
            assert(has_id(r, c));
            assert forall|i: int| 0 <= i < p.len() implies (#[trigger] p[i]).0 != c by {
                assert(p[i] == r[i]);
                assert(r[i].0 != r[r.len() - 1].0);
            }
            assert(!has_id(p, c));
            assert(received(c, broadcast_to(r, line)) =~= seq![line]);
        } else {
            if has_id(r, c) {
                let i = choose|i: int| 0 <= i < r.len() && (#[trigger] r[i]).0 == c;
                assert(p[i] == r[i]);
                assert(has_id(p, c));
            }
            if has_id(p, c) {
                let i = choose|i: int| 0 <= i < p.len() && (#[trigger] p[i]).0 == c;
                assert(r[i] == p[i]);
            }
        }
    }
}

/// A connection present before and after an event is sent exactly that
/// event's announcement, if it has one, and nothing else.
pub proof fn lemma_received_step(r: Entries, e: Event, c: usize)
    requires
        well_formed(r),
        has_id(r, c),
        has_id(step(r, e).0, c),
    ensures
        received(c, step(r, e).1) == match announcement(r, e) {
            Some(line) => seq![line],
            None => Seq::<Seq<char>>::empty(),
        },
{
    match e {
        Event::Join(id, nick) => {
            if has_id(r, id) {
            } else if has_nick(r, nick@) {
                assert(id != c);
                let d = seq![Delivery::Line(id, rejected_line()), Delivery::Close(id)];
                assert(d.drop_last().drop_last() =~= Seq::<Delivery>::empty());
                assert(received(c, d.drop_last()) == received(c, d.drop_last().drop_last()));
                assert(received(c, d) == received(c, d.drop_last()));
            } else {
                assert(id != c);
                let b = broadcast_to(r, joined_line(nick@));
                lemma_received_broadcast(r, joined_line(nick@), c);
                assert(step(r, e).1.drop_last() =~= b);
                assert(received(c, step(r, e).1) == received(c, b));
            }
        },
        Event::Chat(id, text) => {
            if has_id(r, id) {
                lemma_received_broadcast(r, chat_line(r[index_of(r, id)].1, text@), c);
            }
        },
        Event::Disconnect(id, reason) => {
            if has_id(r, id) {
                let r2 = r.remove(index_of(r, id));
                lemma_remove_keeps_well_formed(r, index_of(r, id));
                lemma_received_broadcast(r2, left_line(r[index_of(r, id)].1, reason@), c);
            }
        },
    }
}

/// Ordering: a connection that stays in the roster throughout a run of
/// events is sent, in the order the events arrived, the announcement of each
/// event that has one, each exactly once, and nothing else.
pub proof fn lemma_run_order(r: Entries, events: Seq<Event>, c: usize)
    requires
        well_formed(r),
        forall|k: int| 0 <= k <= events.len() ==> has_id(#[trigger] run(r, events.take(k)).0, c),
    ensures
        received(c, run(r, events).1) == announcements(r, events),
    decreases events.len(),
{
    assert(events.take(0) =~= Seq::<Event>::empty());
    assert(events.take(events.len() as int) =~= events);
    if events.len() > 0 {
        let ev = events.drop_last();
        assert forall|k: int| 0 <= k <= ev.len() implies has_id(
            #[trigger] run(r, ev.take(k)).0,
            c,
        ) by {
            assert(ev.take(k) =~= events.take(k));
        }
        lemma_run_order(r, ev, c);
        assert(has_id(run(r, events.take(events.len() as int)).0, c));
        assert(run(r, events.take(events.len() as int)) == run(r, events));
        assert(events.take(ev.len() as int) =~= ev);
        assert(has_id(run(r, events.take(ev.len() as int)).0, c));
        lemma_run_keeps_well_formed(r, ev);
        let p = run(r, ev);
        lemma_received_step(p.0, events.last(), c);
        lemma_received_append(c, p.1, step(p.0, events.last()).1);
        match announcement(p.0, events.last()) {
            Some(line) => {},
            None => {
                assert(announcements(r, ev) + Seq::<Seq<char>>::empty() =~= announcements(r, ev));
            },
        }
    }
}

/// Disconnect idempotence: a disconnect from an identity without an entry
/// changes nothing and sends nothing, so a second disconnect right after a
/// first never announces a second departure.
pub proof fn lemma_disconnect_idempotent(r: Entries, id: usize, reason: String)
    requires
        well_formed(r),
    ensures
        !has_id(r, id) ==> step(r, Event::Disconnect(id, reason)) == (r, Seq::<Delivery>::empty()),
        ({
            let r1 = step(r, Event::Disconnect(id, reason)).0;
            step(r1, Event::Disconnect(id, reason)) == (r1, Seq::<Delivery>::empty())
        }),
{
    if has_id(r, id) {
        let k = index_of(r, id);
        let r1 = r.remove(k);
        assert forall|i: int| 0 <= i < r1.len() implies (#[trigger] r1[i]).0 != id by {
            let i2 = if i < k { i } else { i + 1 };
            assert(r1[i] == r[i2]);
        }
    }
}

/// Broadcast completeness: a chat line from a connected user reaches every
/// connected user exactly once, and the roster is left as it was. The
/// roster after any event depends on the roster and the event alone, so a
/// write that fails on one connection cannot remove it, nor keep the line
/// from the others.
pub proof fn lemma_chat_reaches_everyone(r: Entries, id: usize, text: String, c: usize)
    requires
        well_formed(r),
        has_id(r, id),
        has_id(r, c),
    ensures
        step(r, Event::Chat(id, text)).0 == r,
        received(c, step(r, Event::Chat(id, text)).1) == seq![chat_line(r[index_of(r, id)].1, text@)],
{
    lemma_received_broadcast(r, chat_line(r[index_of(r, id)].1, text@), c);
}

} // verus!
