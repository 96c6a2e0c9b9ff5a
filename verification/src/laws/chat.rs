//! Laws of the chat room.

use vstd::prelude::*;

use crate::chars;
use crate::chat;
use crate::chat::{Entry, Happening, Person, Room};
use crate::ui::chat as screen;
use crate::ui::chat::Chatting;

verus! {

/// Events are numbered one after the other: a snapshot covers every event
/// up to its number, and whatever happens later has a higher one. So a
/// session that ignores announcements at or below its snapshot's number
/// sees nothing twice and misses nothing.
pub proof fn law_snapshots_and_announcements_meet(room: Room, kind: Happening, at: u64)
    requires
        room.wf(),
    ensures
        ({
            let snapshot = room.snapshot();
            let after = room.emitted(kind, at);
            &&& forall|i: int|
                0 <= i < snapshot.history.len() ==> (#[trigger] snapshot.history[i]).seq
                    <= snapshot.seq
            &&& after.wf()
            &&& after.seq == snapshot.seq + 1
            &&& after.outbox == room.outbox.push(after.outbox.last())
            &&& after.outbox.last().seq == snapshot.seq + 1
            &&& after.history.last() == after.outbox.last()
        }),
{
    chat::lemma_emitted_wf(room, kind, at);
}

proof fn lemma_seat_of(seats: Seq<(u64, Person)>, id: u64)
    ensures
        0 <= chat::seat_of(seats, id) <= seats.len(),
        chat::seat_of(seats, id) < seats.len() ==> seats[chat::seat_of(seats, id)].0 == id,
    decreases seats.len(),
{
    if seats.len() > 0 {
        lemma_seat_of(seats.drop_last(), id);
    }
}

/// A session that has joined is a member, and joining again changes
/// nothing.
pub proof fn law_joining_is_idempotent(room: Room, id: u64, p: Person, q: Person, at: u64, later: u64)
    ensures
        room.joined(id, p, at).is_member(id),
        room.joined(id, p, at).joined(id, q, later) == room.joined(id, p, at),
{
    if !room.is_member(id) {
        lemma_seat_of(room.seats, id);
        assert(room.seats.push((id, p)).drop_last() =~= room.seats);
    }
}

/// Several sessions of one person are announced once: a join is announced
/// only when the person had no seat, a leave only when it has none left.
pub proof fn law_people_are_announced_once(room: Room, id: u64, p: Person, at: u64)
    ensures
        room.joined(id, p, at).outbox == room.outbox <==> room.is_member(id) || chat::seated(
            room.seats,
            p.name,
        ),
        room.left(id, at).outbox == room.outbox <==> !room.is_member(id) || chat::seated(
            room.seats.remove(chat::seat_of(room.seats, id)),
            room.seats[chat::seat_of(room.seats, id)].1.name,
        ),
{
    let joined = room.joined(id, p, at);
    let left = room.left(id, at);
    assert(joined.outbox.len() == room.outbox.len() || joined.outbox.len() == room.outbox.len()
        + 1);
    assert(left.outbox.len() == room.outbox.len() || left.outbox.len() == room.outbox.len() + 1);
}

/// Leaving without having joined is harmless.
pub proof fn law_leaving_unjoined_is_harmless(room: Room, id: u64, at: u64)
    requires
        !room.is_member(id),
    ensures
        room.left(id, at) == room,
{
}

/// No two of `people` have the same name.
pub open spec fn names_differ(people: Seq<Person>) -> bool {
    forall|i: int, j: int|
        0 <= i < j < people.len() ==> (#[trigger] people[i]).name != (#[trigger] people[j]).name
}

pub open spec fn sorted(people: Seq<Person>) -> bool {
    forall|i: int, j: int|
        0 <= i < j < people.len() ==> chat::name_le(#[trigger] people[i], #[trigger] people[j])
}

proof fn lemma_distinct(seats: Seq<(u64, Person)>)
    ensures
        names_differ(chat::distinct(seats)),
        forall|name: Seq<char>| #[trigger]
            chat::named(chat::distinct(seats), name) == chat::seated(seats, name),
    decreases seats.len(),
{
    let all = chat::distinct(seats);
    if seats.len() > 0 {
        let front = seats.drop_last();
        let last = seats.last().1;
        lemma_distinct(front);
        let before = chat::distinct(front);
        assert forall|name: Seq<char>| #[trigger] chat::named(all, name) == chat::seated(
            seats,
            name,
        ) by {
            assert(chat::named(before, name) == chat::seated(front, name));
            if chat::named(all, name) {
                let i = choose|i: int| 0 <= i < all.len() && (#[trigger] all[i]).name == name;
                if i < before.len() {
                    assert(before[i].name == name);
                    let k = choose|k: int|
                        0 <= k < front.len() && (#[trigger] front[k]).1.name == name;
                    assert(seats[k].1.name == name);
                } else {
                    assert(seats[seats.len() - 1].1.name == name);
                }
            }
            if chat::seated(seats, name) {
                let k = choose|k: int| 0 <= k < seats.len() && (#[trigger] seats[k]).1.name == name;
                if k < front.len() {
                    assert(front[k].1.name == name);
                    let i = choose|i: int|
                        0 <= i < before.len() && (#[trigger] before[i]).name == name;
                    assert(all[i].name == name);
                } else if chat::named(before, last.name) {
                    let i = choose|i: int|
                        0 <= i < before.len() && (#[trigger] before[i]).name == last.name;
                    assert(all[i].name == name);
                } else {
                    assert(all[all.len() - 1].name == name);
                }
            }
        }
        if !chat::named(before, last.name) {
            assert forall|i: int, j: int| 0 <= i < j < all.len() implies (#[trigger] all[i]).name
                != (#[trigger] all[j]).name by {
                assert(before[i] == all[i]);
                if j < before.len() {
                    assert(before[j] == all[j]);
                }
            }
        }
    }
}

proof fn lemma_place(list: Seq<Person>, p: Person)
    requires
        sorted(list),
    ensures
        0 <= chat::place(list, p) <= list.len(),
        forall|i: int| 0 <= i < chat::place(list, p) ==> chat::name_le(#[trigger] list[i], p),
        forall|i: int|
            chat::place(list, p) <= i < list.len() ==> chat::name_le(p, #[trigger] list[i]),
    decreases list.len(),
{
    if list.len() > 0 {
        let front = list.drop_last();
        assert forall|i: int, j: int| 0 <= i < j < front.len() implies chat::name_le(
            #[trigger] front[i],
            #[trigger] front[j],
        ) by {
            assert(list[i] == front[i] && list[j] == front[j]);
        }
        if !chat::name_le(list.last(), p) {
            lemma_place(front, p);
            chars::lemma_text_le_total(
                chars::lowercase(list.last().name),
                chars::lowercase(p.name),
            );
            assert forall|i: int| 0 <= i < chat::place(list, p) implies chat::name_le(
                #[trigger] list[i],
                p,
            ) by {
                assert(front[i] == list[i]);
            }
            assert forall|i: int| chat::place(list, p) <= i < list.len() implies chat::name_le(
                p,
                #[trigger] list[i],
            ) by {
                if i < front.len() {
                    assert(front[i] == list[i]);
                }
            }
        } else {
            assert forall|i: int| 0 <= i < list.len() implies chat::name_le(
                #[trigger] list[i],
                p,
            ) by {
                if i < list.len() - 1 {
                    assert(chat::name_le(list[i], list[list.len() - 1]));
                    chars::lemma_text_le_transitive(
                        chars::lowercase(list[i].name),
                        chars::lowercase(list.last().name),
                        chars::lowercase(p.name),
                    );
                }
            }
        }
    }
}

proof fn lemma_by_name(list: Seq<Person>)
    requires
        names_differ(list),
    ensures
        sorted(chat::by_name(list)),
        names_differ(chat::by_name(list)),
        chat::by_name(list).len() == list.len(),
        forall|name: Seq<char>| #[trigger]
            chat::named(chat::by_name(list), name) == chat::named(list, name),
    decreases list.len(),
{
    let all = chat::by_name(list);
    if list.len() > 0 {
        let front = list.drop_last();
        let p = list.last();
        assert forall|i: int, j: int| 0 <= i < j < front.len() implies (#[trigger] front[i]).name
            != (#[trigger] front[j]).name by {
            assert(list[i] == front[i] && list[j] == front[j]);
        }
        lemma_by_name(front);
        let before = chat::by_name(front);
        lemma_place(before, p);
        let at = chat::place(before, p);
        assert(!chat::named(front, p.name)) by {
            if chat::named(front, p.name) {
                let i = choose|i: int| 0 <= i < front.len() && (#[trigger] front[i]).name == p.name;
                assert(list[i].name == p.name);
                assert(list[list.len() - 1] == p);
            }
        }
        assert(!chat::named(before, p.name));
        assert forall|i: int, j: int| 0 <= i < j < all.len() implies chat::name_le(
            #[trigger] all[i],
            #[trigger] all[j],
        ) && all[i].name != all[j].name by {
            let x = if i < at { i } else { i - 1 };
            let y = if j < at { j } else { j - 1 };
            if i != at {
                assert(all[i] == before[x]);
            }
            if j != at {
                assert(all[j] == before[y]);
            }
        }
        assert forall|name: Seq<char>| #[trigger] chat::named(all, name) == chat::named(
            list,
            name,
        ) by {
            assert(chat::named(before, name) == chat::named(front, name));
            if chat::named(all, name) {
                let i = choose|i: int| 0 <= i < all.len() && (#[trigger] all[i]).name == name;
                if i == at {
                    assert(list[list.len() - 1].name == name);
                } else {
                    let x = if i < at { i } else { i - 1 };
                    assert(before[x].name == name);
                    let k = choose|k: int| 0 <= k < front.len() && (#[trigger] front[k]).name == name;
                    assert(list[k].name == name);
                }
            }
            if chat::named(list, name) {
                let k = choose|k: int| 0 <= k < list.len() && (#[trigger] list[k]).name == name;
                if k < front.len() {
                    assert(front[k].name == name);
                    let x = choose|x: int|
                        0 <= x < before.len() && (#[trigger] before[x]).name == name;
                    let i = if x < at { x } else { x + 1 };
                    assert(all[i].name == name);
                } else {
                    assert(all[at].name == name);
                }
            }
        }
    }
}

/// A snapshot lists everyone who holds a seat, each person once, in order
/// of name.
pub proof fn law_snapshot_lists_everyone_once(room: Room)
    ensures
        ({
            let members = room.snapshot().members;
            &&& names_differ(members)
            &&& sorted(members)
            &&& forall|name: Seq<char>| #[trigger]
                chat::named(members, name) == chat::seated(room.seats, name)
        }),
{
    lemma_distinct(room.seats);
    lemma_by_name(chat::distinct(room.seats));
    let members = room.snapshot().members;
    assert forall|name: Seq<char>| #[trigger] chat::named(members, name) == chat::seated(
        room.seats,
        name,
    ) by {
        assert(chat::named(chat::distinct(room.seats), name) == chat::seated(room.seats, name));
    }
}

// ------------------------------------------------------------- on the screen

/// A live event that the snapshot covers is ignored.
pub proof fn law_covered_events_are_ignored(chat: Chatting, event: Entry)
    requires
        chat.loaded,
        event.seq <= chat.last_seq,
    ensures
        chat.after_event(event) == chat,
{
}

proof fn lemma_after_events_split(chat: Chatting, a: Seq<Entry>, b: Seq<Entry>)
    ensures
        chat.after_events(a + b) == chat.after_events(a).after_events(b),
    decreases b.len(),
{
    if b.len() == 0 {
        assert(a + b =~= a);
    } else {
        assert((a + b).drop_last() =~= a + b.drop_last());
        assert((a + b).last() == b.last());
        lemma_after_events_split(chat, a, b.drop_last());
    }
}

proof fn lemma_waiting(chat: Chatting, events: Seq<Entry>)
    requires
        !chat.loaded,
        chat.pending.len() + events.len() <= screen::MAX_PENDING,
    ensures
        chat.after_events(events) == (Chatting { pending: chat.pending + events, ..chat }),
    decreases events.len(),
{
    if events.len() == 0 {
        assert(chat.pending + events =~= chat.pending);
    } else {
        lemma_waiting(chat, events.drop_last());
        assert((chat.pending + events.drop_last()).push(events.last()) =~= chat.pending + events);
    }
}

/// Events that arrive before the snapshot are replayed, not lost: the screen
/// is the same as if the snapshot had come first.
pub proof fn law_early_events_are_replayed(
    chat: Chatting,
    events: Seq<Entry>,
    snapshot: chat::Snapshot,
)
    requires
        !chat.loaded,
        chat.pending.len() + events.len() <= screen::MAX_PENDING,
    ensures
        chat.after_events(events).with_snapshot(snapshot) == chat.with_snapshot(
            snapshot,
        ).after_events(events),
{
    lemma_waiting(chat, events);
    let early = chat.after_events(events);
    let cleared = Chatting {
        lines: Seq::empty(),
        members: snapshot.members,
        last_seq: 0,
        offset: 0,
        ..chat
    };
    let cleared_early = Chatting { pending: early.pending, ..cleared };
    lemma_applied_all_pending(cleared, snapshot.history, early.pending);
    let loaded = Chatting {
        last_seq: snapshot.seq,
        loaded: true,
        pending: Seq::empty(),
        ..cleared.applied_all(snapshot.history)
    };
    assert(early.with_snapshot(snapshot) == loaded.after_events(early.pending));
    lemma_after_events_split(loaded, chat.pending, events);
}

/// What is waiting plays no part in showing an event.
proof fn lemma_applied_all_pending(chat: Chatting, events: Seq<Entry>, pending: Seq<Entry>)
    ensures
        (Chatting { pending, ..chat }).applied_all(events) == (Chatting {
            pending,
            ..chat.applied_all(events)
        }),
    decreases events.len(),
{
    if events.len() > 0 {
        lemma_applied_all_pending(chat, events.drop_last(), pending);
    }
}

/// No event of `events` is newer than `seq`.
pub open spec fn up_to(events: Seq<Entry>, seq: int) -> bool {
    forall|i: int| 0 <= i < events.len() ==> (#[trigger] events[i]).seq <= seq
}

proof fn lemma_covered(chat: Chatting, events: Seq<Entry>)
    requires
        chat.loaded,
        up_to(events, chat.last_seq),
    ensures
        chat.after_events(events) == chat,
    decreases events.len(),
{
    if events.len() > 0 {
        let front = events.drop_last();
        assert(up_to(front, chat.last_seq)) by {
            assert forall|i: int| 0 <= i < front.len() implies (#[trigger] front[i]).seq
                <= chat.last_seq by {
                assert(front[i] == events[i]);
            }
        }
        lemma_covered(chat, front);
        assert(events[events.len() - 1].seq <= chat.last_seq);
    }
}

proof fn lemma_seen(chat: Chatting, events: Seq<Entry>)
    requires
        chat.loaded,
    ensures
        ({
            let after = chat.after_events(events);
            &&& after.loaded
            &&& chat.last_seq <= after.last_seq
            &&& up_to(events, after.last_seq)
        }),
    decreases events.len(),
{
    if events.len() > 0 {
        let front = events.drop_last();
        lemma_seen(chat, front);
        let before = chat.after_events(front);
        let after = chat.after_events(events);
        assert forall|i: int| 0 <= i < events.len() implies (#[trigger] events[i]).seq
            <= after.last_seq by {
            if i < front.len() {
                assert(front[i] == events[i]);
            }
        }
    }
}

/// Nothing is shown twice: the same events once more change nothing.
pub proof fn law_events_are_shown_once(chat: Chatting, events: Seq<Entry>)
    requires
        chat.loaded,
    ensures
        chat.after_events(events).after_events(events) == chat.after_events(events),
{
    lemma_seen(chat, events);
    lemma_covered(chat.after_events(events), events);
}

/// `members` are the people who hold a seat, each once.
pub open spec fn tracks(members: Seq<Person>, seats: Seq<(u64, Person)>) -> bool {
    &&& names_differ(members)
    &&& forall|name: Seq<char>| #[trigger]
        chat::named(members, name) == chat::seated(seats, name)
}

/// What a room announces on its way to `next`.
pub open spec fn news(room: Room, next: Room) -> Seq<Entry> {
    next.outbox.skip(room.outbox.len() as int)
}

pub proof fn lemma_without(people: Seq<Person>, name: Seq<char>)
    requires
        names_differ(people),
    ensures
        names_differ(screen::without(people, name)),
        forall|n: Seq<char>| #[trigger]
            chat::named(screen::without(people, name), n) == (chat::named(people, n) && n != name),
    decreases people.len(),
{
    let all = screen::without(people, name);
    if people.len() > 0 {
        let front = people.drop_last();
        let last = people.last();
        assert forall|i: int, j: int| 0 <= i < j < front.len() implies (#[trigger] front[i]).name
            != (#[trigger] front[j]).name by {
            assert(people[i] == front[i] && people[j] == front[j]);
        }
        lemma_without(front, name);
        let before = screen::without(front, name);
        assert(!chat::named(front, last.name)) by {
            if chat::named(front, last.name) {
                let i = choose|i: int|
                    0 <= i < front.len() && (#[trigger] front[i]).name == last.name;
                assert(people[i].name == last.name);
                assert(people[people.len() - 1] == last);
            }
        }
        assert(!chat::named(before, last.name));
        assert forall|n: Seq<char>| #[trigger] chat::named(all, n) == (chat::named(people, n) && n
            != name) by {
            assert(chat::named(before, n) == (chat::named(front, n) && n != name));
            if chat::named(people, n) {
                let i = choose|i: int| 0 <= i < people.len() && (#[trigger] people[i]).name == n;
                if i < front.len() {
                    assert(front[i].name == n);
                }
            }
            if chat::named(front, n) {
                let i = choose|i: int| 0 <= i < front.len() && (#[trigger] front[i]).name == n;
                assert(people[i].name == n);
            }
            if last.name == n {
                assert(people[people.len() - 1].name == n);
            }
            if last.name != name {
                if chat::named(before, n) {
                    let i = choose|i: int| 0 <= i < before.len() && (#[trigger] before[i]).name
                        == n;
                    assert(all[i].name == n);
                }
                if last.name == n {
                    assert(all[all.len() - 1].name == n);
                }
                if chat::named(all, n) {
                    let i = choose|i: int| 0 <= i < all.len() && (#[trigger] all[i]).name == n;
                    if i < before.len() {
                        assert(before[i].name == n);
                    }
                }
            }
        }
        assert forall|i: int, j: int| 0 <= i < j < all.len() implies (#[trigger] all[i]).name != (
        #[trigger] all[j]).name by {
            if last.name != name {
                assert(before[i] == all[i]);
                if j < before.len() {
                    assert(before[j] == all[j]);
                } else if all[i].name == last.name {
                    assert(before[i].name == last.name);
                }
            }
        }
    }
}

proof fn lemma_seats_joined(room: Room, id: u64, p: Person, at: u64, name: Seq<char>)
    ensures
        chat::seated(room.joined(id, p, at).seats, name) == (chat::seated(room.seats, name) || (
        !room.is_member(id) && name == p.name)),
{
    let seats = room.joined(id, p, at).seats;
    if !room.is_member(id) {
        if chat::seated(room.seats, name) {
            let i = choose|i: int|
                0 <= i < room.seats.len() && (#[trigger] room.seats[i]).1.name == name;
            assert(seats[i].1.name == name);
        }
        if name == p.name {
            assert(seats[seats.len() - 1].1.name == name);
        }
        if chat::seated(seats, name) {
            let i = choose|i: int| 0 <= i < seats.len() && (#[trigger] seats[i]).1.name == name;
            if i < room.seats.len() {
                assert(room.seats[i].1.name == name);
            }
        }
    }
}

proof fn lemma_seats_left(room: Room, id: u64, at: u64, name: Seq<char>)
    requires
        room.is_member(id),
        name != room.seats[chat::seat_of(room.seats, id)].1.name,
    ensures
        chat::seated(room.left(id, at).seats, name) == chat::seated(room.seats, name),
{
    lemma_seat_of(room.seats, id);
    let k = chat::seat_of(room.seats, id);
    let seats = room.seats.remove(k);
    assert(room.left(id, at).seats == seats);
    if chat::seated(room.seats, name) {
        let i = choose|i: int| 0 <= i < room.seats.len() && (#[trigger] room.seats[i]).1.name
            == name;
        if i < k {
            assert(seats[i].1.name == name);
        } else {
            assert(seats[i - 1].1.name == name);
        }
    }
    if chat::seated(seats, name) {
        let i = choose|i: int| 0 <= i < seats.len() && (#[trigger] seats[i]).1.name == name;
        if i < k {
            assert(room.seats[i].1.name == name);
        } else {
            assert(room.seats[i + 1].1.name == name);
        }
    }
}

pub proof fn lemma_joined_members(members: Seq<Person>, person: Person)
    requires
        names_differ(members),
        !chat::named(members, person.name),
    ensures
        names_differ(chat::by_name(members.push(person))),
        forall|n: Seq<char>| #[trigger]
            chat::named(chat::by_name(members.push(person)), n) == (chat::named(members, n) || n
                == person.name),
{
    let more = members.push(person);
    assert(names_differ(more)) by {
        assert forall|i: int, j: int| 0 <= i < j < more.len() implies (#[trigger] more[i]).name
            != (#[trigger] more[j]).name by {
            assert(members[i] == more[i]);
            if j < members.len() {
                assert(members[j] == more[j]);
            } else if more[i].name == person.name {
                assert(members[i].name == person.name);
            }
        }
    }
    lemma_by_name(more);
    assert forall|n: Seq<char>| #[trigger] chat::named(chat::by_name(more), n) == (chat::named(
        members,
        n,
    ) || n == person.name) by {
        assert(chat::named(chat::by_name(more), n) == chat::named(more, n));
        if chat::named(members, n) {
            let i = choose|i: int| 0 <= i < members.len() && (#[trigger] members[i]).name == n;
            assert(more[i].name == n);
        }
        if n == person.name {
            assert(more[more.len() - 1].name == n);
        }
        if chat::named(more, n) {
            let i = choose|i: int| 0 <= i < more.len() && (#[trigger] more[i]).name == n;
            if i < members.len() {
                assert(members[i].name == n);
            }
        }
    }
}

/// The member list follows the room: a screen that has seen everything so
/// far and sees what is announced when a session joins shows exactly the
/// people who are in the room then.
pub proof fn law_members_follow_joins(chat: Chatting, room: Room, id: u64, p: Person, at: u64)
    requires
        chat.loaded,
        chat.last_seq == room.seq,
        tracks(chat.members, room.seats),
    ensures
        ({
            let next = room.joined(id, p, at);
            let seen = chat.after_events(news(room, next));
            &&& seen.loaded
            &&& seen.last_seq == next.seq
            &&& tracks(seen.members, next.seats)
        }),
{
    let next = room.joined(id, p, at);
    let told = news(room, next);
    let seen = chat.after_events(told);
    if room.is_member(id) || chat::seated(room.seats, p.name) {
        assert(told =~= Seq::empty());
    } else {
        let event = next.outbox.last();
        assert(told =~= seq![event]);
        assert(told.drop_last() =~= Seq::empty());
        assert(chat.after_events(Seq::empty()) == chat);
        assert(seen == chat.after_event(event));
        assert(!chat::named(chat.members, p.name));
        lemma_joined_members(chat.members, Person { name: p.name, is_sysop: p.is_sysop });
    }
    assert forall|name: Seq<char>| #[trigger] chat::named(seen.members, name) == chat::seated(
        next.seats,
        name,
    ) by {
        assert(chat::named(chat.members, name) == chat::seated(room.seats, name));
        lemma_seats_joined(room, id, p, at, name);
    }
}

/// The same when a session leaves.
pub proof fn law_members_follow_leaves(chat: Chatting, room: Room, id: u64, at: u64)
    requires
        chat.loaded,
        chat.last_seq == room.seq,
        tracks(chat.members, room.seats),
    ensures
        ({
            let next = room.left(id, at);
            let seen = chat.after_events(news(room, next));
            &&& seen.loaded
            &&& seen.last_seq == next.seq
            &&& tracks(seen.members, next.seats)
        }),
{
    let next = room.left(id, at);
    let told = news(room, next);
    let seen = chat.after_events(told);
    if !room.is_member(id) {
        assert(told =~= Seq::empty());
    } else {
        lemma_seat_of(room.seats, id);
        let gone = room.seats[chat::seat_of(room.seats, id)].1.name;
        assert(chat::seated(room.seats, gone));
        if chat::seated(next.seats, gone) {
            assert(told =~= Seq::empty());
        } else {
            let event = next.outbox.last();
            assert(told =~= seq![event]);
            assert(told.drop_last() =~= Seq::empty());
            assert(chat.after_events(Seq::empty()) == chat);
            assert(seen == chat.after_event(event));
            lemma_without(chat.members, gone);
        }
        assert forall|name: Seq<char>| #[trigger] chat::named(seen.members, name) == chat::seated(
            next.seats,
            name,
        ) by {
            assert(chat::named(chat.members, name) == chat::seated(room.seats, name));
            if name != gone {
                lemma_seats_left(room, id, at, name);
            }
        }
    }
}

/// What the events say last of somebody: that they came, that they went, or
/// nothing.
pub open spec fn last_word(events: Seq<Entry>, name: Seq<char>) -> Option<bool>
    decreases events.len(),
{
    if events.len() == 0 {
        None
    } else {
        match events.last().kind {
            Happening::Join { name: n, .. } => if n == name {
                Some(true)
            } else {
                last_word(events.drop_last(), name)
            },
            Happening::Leave { name: n } => if n == name {
                Some(false)
            } else {
                last_word(events.drop_last(), name)
            },
            Happening::Message { .. } => last_word(events.drop_last(), name),
        }
    }
}

/// What was said last, if anything, is how it is.
pub open spec fn agrees(said: Option<bool>, inside: bool) -> bool {
    said matches Some(b) ==> b == inside
}

/// The history agrees with the seats: whoever it saw come last is in the
/// room, and whoever it saw go last is not.
pub open spec fn honest(room: Room) -> bool {
    forall|name: Seq<char>|
        agrees(#[trigger] last_word(room.history, name), chat::seated(room.seats, name))
}

/// Forgetting old events makes the last word no other.
proof fn lemma_last_word_skip(events: Seq<Entry>, k: int, name: Seq<char>)
    requires
        0 <= k <= events.len(),
    ensures
        last_word(events.skip(k), name) is Some ==> last_word(events.skip(k), name) == last_word(
            events,
            name,
        ),
    decreases events.len(),
{
    let rest = events.skip(k);
    if rest.len() > 0 {
        assert(rest.drop_last() =~= events.drop_last().skip(k));
        assert(rest.last() == events.last());
        lemma_last_word_skip(events.drop_last(), k, name);
    }
}

proof fn lemma_emitted_last_word(room: Room, kind: Happening, at: u64, name: Seq<char>)
    ensures
        ({
            let said = last_word(room.emitted(kind, at).history, name);
            said is Some ==> said == match kind {
                Happening::Join { name: n, .. } => if n == name {
                    Some(true)
                } else {
                    last_word(room.history, name)
                },
                Happening::Leave { name: n } => if n == name {
                    Some(false)
                } else {
                    last_word(room.history, name)
                },
                Happening::Message { .. } => last_word(room.history, name),
            }
        }),
{
    let event = Entry { seq: room.seq + 1, at, kind };
    let all = room.history.push(event);
    assert(all.drop_last() =~= room.history);
    if all.len() > chat::HISTORY_LEN {
        lemma_last_word_skip(all, all.len() - chat::HISTORY_LEN, name);
    }
}

/// The history of a room always agrees with its seats: it does at first,
/// and after everything that can happen.
pub proof fn law_history_agrees_with_the_seats(
    room: Room,
    id: u64,
    p: Person,
    said: Happening,
    at: u64,
)
    requires
        honest(room),
        said is Message,
    ensures
        honest(Room::empty()),
        honest(room.joined(id, p, at)),
        honest(room.left(id, at)),
        honest(room.emitted(said, at)),
{
    assert forall|name: Seq<char>| #[trigger]
        last_word(Room::empty().history, name) is None by {}
    let joined = room.joined(id, p, at);
    assert forall|name: Seq<char>|
        agrees(#[trigger] last_word(joined.history, name), chat::seated(joined.seats, name)) by {
        lemma_seats_joined(room, id, p, at, name);
        let before = last_word(room.history, name);
        assert(agrees(before, chat::seated(room.seats, name)));
        if !room.is_member(id) && !chat::seated(room.seats, p.name) {
            let kind = Happening::Join { name: p.name, is_sysop: p.is_sysop };
            let taken = Room { seats: room.seats.push((id, p)), ..room };
            lemma_emitted_last_word(taken, kind, at, name);
        }
    }
    let left = room.left(id, at);
    assert forall|name: Seq<char>|
        agrees(#[trigger] last_word(left.history, name), chat::seated(left.seats, name)) by {
        let before = last_word(room.history, name);
        assert(agrees(before, chat::seated(room.seats, name)));
        if room.is_member(id) {
            lemma_seat_of(room.seats, id);
            let k = chat::seat_of(room.seats, id);
            let gone = room.seats[k].1.name;
            if name != gone {
                lemma_seats_left(room, id, at, name);
            } else {
                assert(chat::seated(room.seats, name));
            }
            let given = Room { seats: room.seats.remove(k), ..room };
            if !chat::seated(given.seats, gone) {
                lemma_emitted_last_word(given, Happening::Leave { name: gone }, at, name);
            }
        }
    }
    let after = room.emitted(said, at);
    assert forall|name: Seq<char>|
        agrees(#[trigger] last_word(after.history, name), chat::seated(after.seats, name)) by {
        lemma_emitted_last_word(room, said, at, name);
        assert(agrees(last_word(room.history, name), chat::seated(room.seats, name)));
    }
}

/// Who is listed after some events: whoever they say came last, and whoever
/// was listed that they don't mention.
proof fn lemma_applied_members(chat: Chatting, events: Seq<Entry>)
    requires
        names_differ(chat.members),
    ensures
        names_differ(chat.applied_all(events).members),
        forall|n: Seq<char>| #[trigger]
            chat::named(chat.applied_all(events).members, n) == match last_word(events, n) {
                Some(inside) => inside,
                None => chat::named(chat.members, n),
            },
    decreases events.len(),
{
    if events.len() > 0 {
        let front = events.drop_last();
        lemma_applied_members(chat, front);
        let before = chat.applied_all(front);
        let after = chat.applied_all(events);
        match events.last().kind {
            Happening::Join { name, is_sysop } => {
                if !chat::named(before.members, name) {
                    lemma_joined_members(before.members, Person { name, is_sysop });
                }
            },
            Happening::Leave { name } => {
                lemma_without(before.members, name);
            },
            Happening::Message { .. } => {},
        }
        assert forall|n: Seq<char>| #[trigger] chat::named(after.members, n) == match last_word(
            events,
            n,
        ) {
            Some(inside) => inside,
            None => chat::named(chat.members, n),
        } by {
            assert(chat::named(before.members, n) == match last_word(front, n) {
                Some(inside) => inside,
                None => chat::named(chat.members, n),
            });
        }
    }
}

/// A snapshot brings a screen up to date: although the history is played
/// over the member list that came with it, the screen lists exactly who is
/// in the room.
pub proof fn law_snapshot_brings_up_to_date(chat: Chatting, room: Room)
    requires
        chat.pending.len() == 0,
        honest(room),
    ensures
        ({
            let seen = chat.with_snapshot(room.snapshot());
            &&& seen.loaded
            &&& seen.last_seq == room.seq
            &&& tracks(seen.members, room.seats)
        }),
{
    law_snapshot_lists_everyone_once(room);
    let cleared = Chatting {
        lines: Seq::empty(),
        members: room.snapshot().members,
        last_seq: 0,
        offset: 0,
        ..chat
    };
    lemma_applied_members(cleared, room.history);
    let seen = chat.with_snapshot(room.snapshot());
    assert(seen.members == cleared.applied_all(room.history).members);
    assert forall|name: Seq<char>| #[trigger] chat::named(seen.members, name) == chat::seated(
        room.seats,
        name,
    ) by {
        assert(chat::named(cleared.members, name) == chat::seated(room.seats, name));
        assert(agrees(last_word(room.history, name), chat::seated(room.seats, name)));
    }
}

} // verus!
