//! The chat room: who is in it, recent history, and the events to announce.
//!
//! Every event gets a sequence number. A session that joins receives a
//! snapshot stamped with the latest sequence number and ignores announced
//! events at or below it, so nothing is shown twice and nothing is missed
//! between taking the snapshot and listening.

use std::collections::VecDeque;

use vstd::prelude::*;

use crate::chars;
use crate::chars::{le_text, same, to_lowercase};

verus! {

/// Events kept for people who join later.
pub const HISTORY_LEN: usize = 100;

/// Events a slow listener may fall behind by before it has to resync.
pub const CHANNEL_CAPACITY: usize = 256;

#[derive(Debug, PartialEq, Eq)]
pub enum ChatKind {
    Message {
        from: String,
        is_sysop: bool,
        text: String,
        /// `/me`-style action rather than a spoken line.
        action: bool,
    },
    Join { name: String, is_sysop: bool },
    Leave { name: String },
}

#[derive(Debug, PartialEq, Eq)]
pub struct ChatEvent {
    pub seq: u64,
    /// Unix time in seconds.
    pub at: u64,
    pub kind: ChatKind,
}

#[derive(Debug, PartialEq, Eq)]
pub struct Member {
    pub name: String,
    pub is_sysop: bool,
}

#[derive(Debug)]
pub struct ChatSnapshot {
    /// Sequence number of the newest event included.
    pub seq: u64,
    pub history: Vec<ChatEvent>,
    /// One entry per person, sorted by name (several sessions of the same
    /// user count once).
    pub members: Vec<Member>,
}

impl Clone for ChatKind {
    fn clone(&self) -> (r: ChatKind)
        ensures
            r == *self,
    {
        match self {
            ChatKind::Message { from, is_sysop, text, action } => ChatKind::Message {
                from: from.clone(),
                is_sysop: *is_sysop,
                text: text.clone(),
                action: *action,
            },
            ChatKind::Join { name, is_sysop } => ChatKind::Join {
                name: name.clone(),
                is_sysop: *is_sysop,
            },
            ChatKind::Leave { name } => ChatKind::Leave { name: name.clone() },
        }
    }
}

impl Clone for ChatEvent {
    fn clone(&self) -> (r: ChatEvent)
        ensures
            r == *self,
    {
        ChatEvent { seq: self.seq, at: self.at, kind: self.kind.clone() }
    }
}

impl Clone for Member {
    fn clone(&self) -> (r: Member)
        ensures
            r == *self,
    {
        Member { name: self.name.clone(), is_sysop: self.is_sysop }
    }
}

impl Default for ChatSnapshot {
    fn default() -> (r: ChatSnapshot)
        ensures
            r@ == (Snapshot { seq: 0, history: Seq::empty(), members: Seq::empty() }),
    {
        let r = ChatSnapshot { seq: 0, history: Vec::new(), members: Vec::new() };
        assert(r@.history =~= Seq::empty());
        assert(r@.members =~= Seq::empty());
        r
    }
}

// --------------------------------------------------------------- the model

/// What happened, over the texts themselves.
pub enum Happening {
    Message { from: Seq<char>, is_sysop: bool, text: Seq<char>, action: bool },
    Join { name: Seq<char>, is_sysop: bool },
    Leave { name: Seq<char> },
}

pub struct Entry {
    pub seq: int,
    pub at: u64,
    pub kind: Happening,
}

pub struct Person {
    pub name: Seq<char>,
    pub is_sysop: bool,
}

pub struct Snapshot {
    pub seq: int,
    pub history: Seq<Entry>,
    pub members: Seq<Person>,
}

impl View for ChatKind {
    type V = Happening;

    open spec fn view(&self) -> Happening {
        match self {
            ChatKind::Message { from, is_sysop, text, action } => Happening::Message {
                from: from@,
                is_sysop: *is_sysop,
                text: text@,
                action: *action,
            },
            ChatKind::Join { name, is_sysop } => Happening::Join {
                name: name@,
                is_sysop: *is_sysop,
            },
            ChatKind::Leave { name } => Happening::Leave { name: name@ },
        }
    }
}

impl View for ChatEvent {
    type V = Entry;

    open spec fn view(&self) -> Entry {
        Entry { seq: self.seq as int, at: self.at, kind: self.kind@ }
    }
}

impl View for Member {
    type V = Person;

    open spec fn view(&self) -> Person {
        Person { name: self.name@, is_sysop: self.is_sysop }
    }
}

pub open spec fn entries(events: Seq<ChatEvent>) -> Seq<Entry> {
    events.map_values(|e: ChatEvent| e@)
}

pub open spec fn people(members: Seq<Member>) -> Seq<Person> {
    members.map_values(|m: Member| m@)
}

impl View for ChatSnapshot {
    type V = Snapshot;

    open spec fn view(&self) -> Snapshot {
        Snapshot {
            seq: self.seq as int,
            history: entries(self.history@),
            members: people(self.members@),
        }
    }
}

/// The room: the last number given, the recent events, who holds which
/// seat (a user with two sessions holds two), and what has not been
/// announced yet.
pub struct Room {
    pub seq: int,
    pub history: Seq<Entry>,
    pub seats: Seq<(u64, Person)>,
    pub outbox: Seq<Entry>,
    pub next_id: u64,
}

/// `name` holds a seat.
pub open spec fn seated(seats: Seq<(u64, Person)>, name: Seq<char>) -> bool {
    exists|i: int| 0 <= i < seats.len() && (#[trigger] seats[i]).1.name == name
}

/// The first seat of `id`, or the number of seats.
pub open spec fn seat_of(seats: Seq<(u64, Person)>, id: u64) -> int
    decreases seats.len(),
{
    if seats.len() == 0 {
        0
    } else if seat_of(seats.drop_last(), id) < seats.len() - 1 {
        seat_of(seats.drop_last(), id)
    } else if seats.last().0 == id {
        seats.len() - 1
    } else {
        seats.len() as int
    }
}

pub open spec fn named(people: Seq<Person>, name: Seq<char>) -> bool {
    exists|i: int| 0 <= i < people.len() && (#[trigger] people[i]).name == name
}

/// Everyone who holds a seat, once, in order of their first seat.
pub open spec fn distinct(seats: Seq<(u64, Person)>) -> Seq<Person>
    decreases seats.len(),
{
    if seats.len() == 0 {
        Seq::empty()
    } else {
        let before = distinct(seats.drop_last());
        if named(before, seats.last().1.name) {
            before
        } else {
            before.push(seats.last().1)
        }
    }
}

/// Sorted by name, whatever the case of its letters.
pub open spec fn name_le(a: Person, b: Person) -> bool {
    chars::text_le(chars::lowercase(a.name), chars::lowercase(b.name))
}

/// Where `p` goes in a sorted list: behind all that are not greater.
pub open spec fn place(sorted: Seq<Person>, p: Person) -> int
    decreases sorted.len(),
{
    if sorted.len() > 0 && !name_le(sorted.last(), p) {
        place(sorted.drop_last(), p)
    } else {
        sorted.len() as int
    }
}

/// `people` in order of name; those with equal names stay in their order.
pub open spec fn by_name(people: Seq<Person>) -> Seq<Person>
    decreases people.len(),
{
    if people.len() == 0 {
        Seq::empty()
    } else {
        let before = by_name(people.drop_last());
        before.insert(place(before, people.last()), people.last())
    }
}

impl Room {
    pub open spec fn empty() -> Room {
        Room {
            seq: 0,
            history: Seq::empty(),
            seats: Seq::empty(),
            outbox: Seq::empty(),
            next_id: 1,
        }
    }

    /// The history is capped, and numbered without a gap up to `seq`.
    pub open spec fn wf(self) -> bool {
        &&& self.history.len() <= HISTORY_LEN
        &&& self.history.len() <= self.seq
        &&& forall|i: int|
            0 <= i < self.history.len() ==> (#[trigger] self.history[i]).seq == self.seq
                - self.history.len() + 1 + i
    }

    /// An event is numbered, remembered and announced.
    pub open spec fn emitted(self, kind: Happening, at: u64) -> Room {
        let event = Entry { seq: self.seq + 1, at, kind };
        let all = self.history.push(event);
        Room {
            seq: self.seq + 1,
            history: if all.len() > HISTORY_LEN {
                all.skip(all.len() - HISTORY_LEN)
            } else {
                all
            },
            outbox: self.outbox.push(event),
            ..self
        }
    }

    pub open spec fn is_member(self, id: u64) -> bool {
        seat_of(self.seats, id) < self.seats.len()
    }

    pub open spec fn snapshot(self) -> Snapshot {
        Snapshot {
            seq: self.seq,
            history: self.history,
            members: by_name(distinct(self.seats)),
        }
    }

    /// A session takes a seat; others are told only when this is the
    /// person's first.
    pub open spec fn joined(self, id: u64, p: Person, at: u64) -> Room {
        if self.is_member(id) {
            self
        } else {
            let inside = Room { seats: self.seats.push((id, p)), ..self };
            if seated(self.seats, p.name) {
                inside
            } else {
                inside.emitted(Happening::Join { name: p.name, is_sysop: p.is_sysop }, at)
            }
        }
    }

    /// A session gives up its seat; others are told only when it was the
    /// person's last.
    pub open spec fn left(self, id: u64, at: u64) -> Room {
        if self.is_member(id) {
            let i = seat_of(self.seats, id);
            let name = self.seats[i].1.name;
            let outside = Room { seats: self.seats.remove(i), ..self };
            if seated(outside.seats, name) {
                outside
            } else {
                outside.emitted(Happening::Leave { name }, at)
            }
        } else {
            self
        }
    }
}

pub proof fn lemma_emitted_wf(room: Room, kind: Happening, at: u64)
    requires
        room.wf(),
    ensures
        room.emitted(kind, at).wf(),
{
    let after = room.emitted(kind, at);
    let all = room.history.push(Entry { seq: room.seq + 1, at, kind });
    assert forall|i: int| 0 <= i < after.history.len() implies (#[trigger] after.history[i]).seq
        == after.seq - after.history.len() + 1 + i by {
        if all.len() > HISTORY_LEN {
            assert(after.history[i] == all[i + 1]);
            if i + 1 < room.history.len() {
                assert(all[i + 1] == room.history[i + 1]);
            }
        } else if i < room.history.len() {
            assert(after.history[i] == room.history[i]);
        }
    }
}

// ---------------------------------------------------------------- the room

pub struct ChatRoom {
    seq: u64,
    history: VecDeque<ChatEvent>,
    /// (session id, member) - a user with two sessions appears twice here.
    seats: Vec<(u64, Member)>,
    /// Events to announce, oldest first.
    outbox: Vec<ChatEvent>,
    next_id: u64,
}

spec fn seat_models(seats: Seq<(u64, Member)>) -> Seq<(u64, Person)> {
    seats.map_values(|s: (u64, Member)| (s.0, s.1@))
}

impl View for ChatRoom {
    type V = Room;

    closed spec fn view(&self) -> Room {
        Room {
            seq: self.seq as int,
            history: entries(self.history@),
            seats: seat_models(self.seats@),
            outbox: entries(self.outbox@),
            next_id: self.next_id,
        }
    }
}

impl Default for ChatRoom {
    fn default() -> (r: ChatRoom)
        ensures
            r@ == Room::empty(),
            r.wf(),
    {
        ChatRoom::new()
    }
}

impl ChatRoom {
    pub open spec fn wf(&self) -> bool {
        self@.wf()
    }

    pub fn new() -> (r: ChatRoom)
        ensures
            r@ == Room::empty(),
            r.wf(),
    {
        let r = ChatRoom {
            seq: 0,
            history: VecDeque::new(),
            seats: Vec::new(),
            outbox: Vec::new(),
            next_id: 1,
        };
        proof {
            assert(r@.history =~= Seq::empty());
            assert(r@.seats =~= Seq::empty());
            assert(r@.outbox =~= Seq::empty());
        }
        r
    }

    /// A fresh id to identify one session in the room.
    pub fn new_id(&mut self) -> (r: u64)
        ensures
            r == old(self)@.next_id,
            final(self)@ == (Room {
                next_id: if r == u64::MAX {
                    0
                } else {
                    (r + 1) as u64
                },
                ..old(self)@
            }),
    {
        let id: u64 = self.next_id;
        self.next_id = if id == u64::MAX {
            0
        } else {
            id + 1
        };
        id
    }

    /// Hands out the events to announce, oldest first.
    pub fn take_outbox(&mut self) -> (r: Vec<ChatEvent>)
        ensures
            entries(r@) == old(self)@.outbox,
            final(self)@ == (Room { outbox: Seq::empty(), ..old(self)@ }),
    {
        let mut out: Vec<ChatEvent> = Vec::new();
        std::mem::swap(&mut out, &mut self.outbox);
        assert(self@.outbox =~= Seq::empty());
        out
    }

    /// Records an event and puts it up for announcement, in the order of
    /// the sequence numbers.
    fn emit(&mut self, kind: ChatKind, now: u64)
        requires
            old(self).wf(),
            old(self)@.seq < u64::MAX,
        ensures
            final(self)@ == old(self)@.emitted(kind@, now),
            final(self).wf(),
    {
        proof {
            lemma_emitted_wf(self@, kind@, now);
        }
        self.seq += 1;
        let event = ChatEvent { seq: self.seq, at: now, kind };
        self.history.push_back(event.clone());
        let ghost all = self.history@;
        assert(entries(all) =~= old(self)@.history.push(event@));
        if self.history.len() > HISTORY_LEN {
            self.history.pop_front();
            assert(self.history@ =~= all.skip(1));
        }
        self.outbox.push(event);
        proof {
            let goal = old(self)@.emitted(event.kind@, now);
            assert(self@.history =~= goal.history);
            assert(self@.outbox =~= goal.outbox);
        }
    }

    pub fn snapshot(&self) -> (r: ChatSnapshot)
        ensures
            r@ == self@.snapshot(),
    {
        let members = sort_members(self.distinct_members());
        let mut history: Vec<ChatEvent> = Vec::new();
        let mut i: usize = 0;
        while i < self.history.len()
            invariant
                i <= self.history@.len(),
                history@ =~= self.history@.take(i as int),
            decreases self.history@.len() - i,
        {
            let event = self.history[i].clone();
            history.push(event);
            i += 1;
        }
        assert(history@ =~= self.history@);
        ChatSnapshot { seq: self.seq, history, members }
    }

    fn distinct_members(&self) -> (r: Vec<Member>)
        ensures
            people(r@) == distinct(self@.seats),
    {
        let mut members: Vec<Member> = Vec::new();
        let ghost seats = self@.seats;
        let mut i: usize = 0;
        assert(people(members@) =~= distinct(seats.take(0)));
        while i < self.seats.len()
            invariant
                i <= self.seats@.len(),
                seats == self@.seats,
                people(members@) == distinct(seats.take(i as int)),
            decreases self.seats@.len() - i,
        {
            assert(seats.take(i + 1).drop_last() =~= seats.take(i as int));
            assert(seats[i as int] == (self.seats@[i as int].0, self.seats@[i as int].1@));
            let m = &self.seats[i].1;
            if !has_member(&members, m.name.as_str()) {
                let ghost before = members@;
                members.push(m.clone());
                assert(people(members@) =~= people(before).push(m@));
            }
            i += 1;
        }
        assert(seats.take(i as int) =~= seats);
        members
    }

    fn find_seat(&self, id: u64) -> (r: usize)
        ensures
            r == seat_of(self@.seats, id),
            r <= self.seats@.len(),
            r < self.seats@.len() ==> self.seats@[r as int].0 == id,
    {
        let ghost seats = self@.seats;
        let mut i: usize = 0;
        let mut found = false;
        let mut at: usize = 0;
        while i < self.seats.len()
            invariant
                i <= self.seats@.len(),
                seats == self@.seats,
                found ==> at < i && self.seats@[at as int].0 == id,
                seat_of(seats.take(i as int), id) == if found {
                    at as int
                } else {
                    i as int
                },
            decreases self.seats@.len() - i,
        {
            assert(seats.take(i + 1).drop_last() =~= seats.take(i as int));
            assert(seats[i as int].0 == self.seats@[i as int].0);
            if !found && self.seats[i].0 == id {
                found = true;
                at = i;
            }
            i += 1;
        }
        assert(seats.take(i as int) =~= seats);
        if found {
            at
        } else {
            i
        }
    }

    fn has_seat(&self, name: &str) -> (r: bool)
        ensures
            r == seated(self@.seats, name@),
    {
        let ghost seats = self@.seats;
        let mut i: usize = 0;
        while i < self.seats.len()
            invariant
                i <= self.seats@.len(),
                seats == self@.seats,
                forall|j: int| 0 <= j < i ==> (#[trigger] seats[j]).1.name != name@,
            decreases self.seats@.len() - i,
        {
            assert(seats[i as int].1.name == self.seats@[i as int].1.name@);
            if same(self.seats[i].1.name.as_str(), name) {
                return true;
            }
            i += 1;
        }
        false
    }

    pub fn is_member(&self, id: u64) -> (r: bool)
        ensures
            r == self@.is_member(id),
    {
        self.find_seat(id) < self.seats.len()
    }

    /// Adds a session to the room and returns the current snapshot. Others
    /// are told only when this is the person's first session.
    pub fn join(&mut self, id: u64, name: &str, is_sysop: bool, now: u64) -> (r: ChatSnapshot)
        requires
            old(self).wf(),
            old(self)@.seq < u64::MAX,
        ensures
            final(self)@ == old(self)@.joined(id, (Person { name: name@, is_sysop }), now),
            final(self).wf(),
            r@ == final(self)@.snapshot(),
    {
        if !self.is_member(id) {
            let first = !self.has_seat(name);
            self.seats.push((id, Member { name: name.to_owned(), is_sysop }));
            assert(self@.seats =~= old(self)@.seats.push((id, Person { name: name@, is_sysop })));
            if first {
                self.emit(ChatKind::Join { name: name.to_owned(), is_sysop }, now);
            }
        }
        self.snapshot()
    }

    /// Removes a session. Safe to call for sessions that never joined.
    pub fn leave(&mut self, id: u64, now: u64)
        requires
            old(self).wf(),
            old(self)@.seq < u64::MAX,
        ensures
            final(self)@ == old(self)@.left(id, now),
            final(self).wf(),
    {
        let pos: usize = self.find_seat(id);
        if pos >= self.seats.len() {
            return ;
        }
        assert(self@.seats[pos as int].1.name == self.seats@[pos as int].1.name@);
        let (_, member) = self.seats.remove(pos);
        assert(self@.seats =~= old(self)@.seats.remove(pos as int));
        if !self.has_seat(member.name.as_str()) {
            self.emit(ChatKind::Leave { name: member.name }, now);
        }
    }

    pub fn say(&mut self, from: &str, is_sysop: bool, text: &str, action: bool, now: u64)
        requires
            old(self).wf(),
            old(self)@.seq < u64::MAX,
        ensures
            final(self)@ == old(self)@.emitted(
                (Happening::Message { from: from@, is_sysop, text: text@, action }),
                now,
            ),
            final(self).wf(),
    {
        self.emit(
            ChatKind::Message { from: from.to_owned(), is_sysop, text: text.to_owned(), action },
            now,
        );
    }
}

fn has_member(members: &Vec<Member>, name: &str) -> (r: bool)
    ensures
        r == named(people(members@), name@),
{
    let ghost all = people(members@);
    let mut i: usize = 0;
    while i < members.len()
        invariant
            i <= members@.len(),
            all == people(members@),
            forall|j: int| 0 <= j < i ==> (#[trigger] all[j]).name != name@,
        decreases members@.len() - i,
    {
        assert(all[i as int].name == members@[i as int].name@);
        if same(members[i].name.as_str(), name) {
            return true;
        }
        i += 1;
    }
    false
}

/// Sorts by name, whatever the case of its letters. Members whose names
/// differ in case alone stay in their order.
pub fn sort_members(members: Vec<Member>) -> (r: Vec<Member>)
    ensures
        people(r@) == by_name(people(members@)),
{
    let ghost all = people(members@);
    let mut sorted: Vec<Member> = Vec::new();
    let mut i: usize = 0;
    assert(people(sorted@) =~= by_name(all.take(0)));
    while i < members.len()
        invariant
            i <= members@.len(),
            all == people(members@),
            people(sorted@) == by_name(all.take(i as int)),
        decreases members@.len() - i,
    {
        assert(all.take(i + 1).drop_last() =~= all.take(i as int));
        let m = members[i].clone();
        let ghost before = people(sorted@);
        let key = to_lowercase(m.name.as_str());
        let mut at: usize = sorted.len();
        assert(before.take(at as int) =~= before);
        while at > 0 && !le_text(to_lowercase(sorted[at - 1].name.as_str()).as_str(), key.as_str())
            invariant
                at <= sorted@.len(),
                before == people(sorted@),
                key@ == chars::lowercase(m@.name),
                place(before, m@) == place(before.take(at as int), m@),
            decreases at,
        {
            assert(before.take(at as int).drop_last() =~= before.take(at - 1));
            assert(before[at - 1] == sorted@[at - 1]@);
            at -= 1;
        }
        proof {
            if at > 0 {
                assert(before[at - 1] == sorted@[at - 1]@);
            }
        }
        sorted.insert(at, m);
        assert(people(sorted@) =~= before.insert(at as int, m@));
        i += 1;
    }
    assert(all.take(i as int) =~= all);
    sorted
}

} // verus!
