//! The coordinator: sole owner of the roster. It applies events one at a
//! time and returns, for each, the writes and shutdowns to perform.

use vstd::prelude::*;
use crate::event::{deliveries, Action, Delivery, Event};
use crate::laws::{lemma_push_keeps_well_formed, lemma_remove_keeps_well_formed};
use crate::roster::{
    broadcast_to, chat_line, has_id, has_nick, index_of, joined_line, left_line, nick_list,
    online_line, rejected_line, step, well_formed, Entries,
};

verus! {

/// A connected user: its connection identity and its nickname.
#[derive(Debug, Clone)]
pub struct User {
    pub id: usize,
    pub nick: String,
}

/// Owns the roster of connected users and decides what every event causes.
#[derive(Debug)]
pub struct MessageHandler {
    users: Vec<User>,
}

impl View for MessageHandler {
    type V = Entries;

    closed spec fn view(&self) -> Entries {
        self.users@.map_values(|u: User| (u.id, u.nick@))
    }
}

impl MessageHandler {
    /// At most one entry per identity and per nickname.
    pub open spec fn inv(&self) -> bool {
        well_formed(self@)
    }

    /// An empty roster.
    pub fn new() -> (r: Self)
        ensures
            r@ == Seq::<(usize, Seq<char>)>::empty(),
            r.inv(),
    {
        let r = MessageHandler { users: Vec::new() };
        assert(r@ =~= Seq::<(usize, Seq<char>)>::empty());
        r
    }

    /// The number of connected users.
    pub fn len(&self) -> (r: usize)
        ensures
            r == self@.len(),
    {
        self.users.len()
    }

    /// The nickname of the user with identity `id`, if connected.
    pub fn nick(&self, id: usize) -> (r: Option<String>)
        requires
            self.inv(),
        ensures
            r is Some <==> has_id(self@, id),
            r matches Some(n) ==> n@ == self@[index_of(self@, id)].1,
    {
        match self.find(id) {
            Some(i) => Some(self.users[i].nick.clone()),
            None => None,
        }
    }

    /// Where the entry of `id` stands.
    fn find(&self, id: usize) -> (r: Option<usize>)
        requires
            self.inv(),
        ensures
            r is Some <==> has_id(self@, id),
            r matches Some(i) ==> i < self@.len() && self@[i as int].0 == id && i == index_of(
                self@,
                id,
            ),
    {
        let mut i: usize = 0;
        while i < self.users.len()
            invariant
                self.inv(),
                i <= self.users@.len(),
                forall|k: int| 0 <= k < i ==> (#[trigger] self@[k]).0 != id,
            decreases self.users@.len() - i,
        {
            assert(self@[i as int].0 == self.users@[i as int].id);
            if self.users[i].id == id {
                assert(self@[i as int].0 == id);
                let ghost j = index_of(self@, id);
                assert(0 <= j < self@.len() && self@[j].0 == id);
                proof {
                    if j < i {
                        assert(self@[j].0 != self@[i as int].0);
                    } else if j > i {
                        assert(self@[i as int].0 != self@[j].0);
                    }
                }
                return Some(i);
            }
            i = i + 1;
        }
        None
    }

    /// Whether some user already holds `nick`.
    fn nick_taken(&self, nick: &String) -> (r: bool)
        ensures
            r == has_nick(self@, nick@),
    {
        let mut i: usize = 0;
        while i < self.users.len()
            invariant
                i <= self.users@.len(),
                forall|k: int| 0 <= k < i ==> (#[trigger] self@[k]).1 != nick@,
            decreases self.users@.len() - i,
        {
            assert(self@[i as int].1 == self.users@[i as int].nick@);
            if self.users[i].nick == *nick {
                return true;
            }
            i = i + 1;
        }
        false
    }

    /// `line` for every connected user, in roster order.
    fn broadcast(&self, line: &String) -> (r: Vec<Action>)
        ensures
            deliveries(r@) == broadcast_to(self@, line@),
    {
        let mut out: Vec<Action> = Vec::new();
        let mut i: usize = 0;
        while i < self.users.len()
            invariant
                i <= self.users@.len(),
                deliveries(out@) =~= broadcast_to(self@.subrange(0, i as int), line@),
            decreases self.users@.len() - i,
        {
            let a = Action::Send(self.users[i].id, line.clone());
            let ghost before = out@;
            out.push(a);
            assert(deliveries(out@) =~= deliveries(before).push(a@));
            assert(self@.subrange(0, i + 1) =~= self@.subrange(0, i as int).push(self@[i as int]));
            assert(a@ == Delivery::Line(self@[i as int].0, line@));
            i = i + 1;
        }
        assert(self@.subrange(0, i as int) =~= self@);
        out
    }

    /// The nicknames of all connected users, separated by single spaces.
    pub fn user_list(&self) -> (r: String)
        ensures
            r@ == nick_list(self@),
    {
        let mut s = String::new();
        let mut i: usize = 0;
        while i < self.users.len()
            invariant
                i <= self.users@.len(),
                s@ == nick_list(self@.subrange(0, i as int)),
            decreases self.users@.len() - i,
        {
            let ghost pre = self@.subrange(0, i as int);
            let ghost post = self@.subrange(0, i + 1);
            assert(post.drop_last() =~= pre);
            if i > 0 {
                s.append(" ");
            }
            s.append(self.users[i].nick.as_str());
            proof {
                if i == 0 {
                    assert(pre =~= Seq::<(usize, Seq<char>)>::empty());
                    assert(s@ =~= nick_list(post));
                } else {
                    assert(s@ =~= nick_list(post));
                }
            }
            i = i + 1;
        }
        assert(self@.subrange(0, i as int) =~= self@);
        s
    }

    /// Applies one event: updates the roster and returns what to send, in
    /// the order it is to be sent. Write failures are the transport layer's
    /// concern; they never feed back into the roster.
    pub fn handle_event(&mut self, event: Event) -> (r: Vec<Action>)
        requires
            old(self).inv(),
        ensures
            final(self).inv(),
            (final(self)@, deliveries(r@)) == step(old(self)@, event),
    {
        match event {
            Event::Join(id, nick) => self.join(id, nick),
            Event::Disconnect(id, reason) => self.disconnect(id, reason),
            Event::Chat(id, text) => self.chat(id, text),
        }
    }

    /// Inserts a user under a free nickname, or turns the connection away.
    fn join(&mut self, id: usize, nick: String) -> (r: Vec<Action>)
        requires
            old(self).inv(),
        ensures
            final(self).inv(),
            (final(self)@, deliveries(r@)) == step(old(self)@, Event::Join(id, nick)),
    {
        if self.find(id).is_some() {
            let r: Vec<Action> = Vec::new();
            assert(deliveries(r@) =~= Seq::<Delivery>::empty());
            return r;
        }
        if self.nick_taken(&nick) {
            let r = vec![Action::Send(id, String::from_str("Already present.")), Action::Shutdown(id)];
            assert(deliveries(r@) =~= seq![Delivery::Line(id, rejected_line()), Delivery::Close(id)]);
            return r;
        }
        let ghost before = self@;
        let mut line = String::from_str("[+] ");
        line.append(nick.as_str());
        let mut out = self.broadcast(&line);
        let ghost entry = (id, nick@);
        self.users.push(User { id, nick });
        assert(self@ =~= before.push(entry));
        let mut online = String::from_str("online: ");
        let list = self.user_list();
        online.append(list.as_str());
        let a = Action::Send(id, online);
        let ghost sent = out@;
        out.push(a);
        assert(deliveries(out@) =~= deliveries(sent).push(a@));
        assert(line@ == joined_line(entry.1));
        assert(online@ == online_line(self@));
        proof {
            lemma_push_keeps_well_formed(before, id, entry.1);
        }
        out
    }

    /// Removes a user and tells the others why it left.
    fn disconnect(&mut self, id: usize, reason: String) -> (r: Vec<Action>)
        requires
            old(self).inv(),
        ensures
            final(self).inv(),
            (final(self)@, deliveries(r@)) == step(old(self)@, Event::Disconnect(id, reason)),
    {
        match self.find(id) {
            None => {
                let r: Vec<Action> = Vec::new();
                assert(deliveries(r@) =~= Seq::<Delivery>::empty());
                r
            },
            Some(i) => {
                let ghost before = self@;
                let user = self.users.remove(i);
                assert(self@ =~= before.remove(i as int));
                let mut line = String::from_str("[-] ");
                line.append(user.nick.as_str());
                line.append(" (");
                line.append(reason.as_str());
                line.append(")");
                assert(line@ =~= left_line(before[i as int].1, reason@));
                proof {
                    lemma_remove_keeps_well_formed(before, i as int);
                }
                self.broadcast(&line)
            },
        }
    }

    /// Sends a chat line from a connected user to everyone.
    fn chat(&mut self, id: usize, text: String) -> (r: Vec<Action>)
        requires
            old(self).inv(),
        ensures
            *final(self) == *old(self),
            (final(self)@, deliveries(r@)) == step(old(self)@, Event::Chat(id, text)),
    {
        match self.find(id) {
            None => {
                let r: Vec<Action> = Vec::new();
                assert(deliveries(r@) =~= Seq::<Delivery>::empty());
                r
            },
            Some(i) => {
                let mut line = String::from_str("<");
                line.append(self.users[i].nick.as_str());
                line.append("> ");
                line.append(text.as_str());
                assert(self@[i as int].1 == self.users@[i as int].nick@);
                assert(line@ =~= chat_line(self@[i as int].1, text@));
                self.broadcast(&line)
            },
        }
    }
}

impl Default for MessageHandler {
    fn default() -> (r: Self)
        ensures
            r@ == Seq::<(usize, Seq<char>)>::empty(),
            r.inv(),
    {
        Self::new()
    }
}

} // verus!
