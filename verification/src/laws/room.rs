//! Laws of the live chat room: what everyone in it gets to see of what the
//! others do.

use vstd::prelude::*;

use crate::chars;
use crate::chat;
use crate::chat::{ChatEvent, ChatKind, ChatRoom, ChatSnapshot, Entry, Happening, Member, Person, Room};

verus! {

/// The room after an event: it is the newest in the history, of which the
/// last 100 are kept, and the newest to be announced, and it has the next
/// number; nobody has moved.
pub open spec fn told(before: Room, after: Room, kind: Happening, at: u64) -> bool {
    &&& after.seq == before.seq + 1
    &&& after.outbox.len() == before.outbox.len() + 1
    &&& after.outbox.last().kind == kind
    &&& after.outbox.last().at == at
    &&& after.outbox.last().seq == before.seq + 1
    &&& forall|i: int|
        0 <= i < before.outbox.len() ==> #[trigger] after.outbox[i] == before.outbox[i]
    &&& after.history.len() > 0
    &&& after.history.last() == after.outbox.last()
    &&& before.history.len() < 100 ==> after.history.drop_last() == before.history
    &&& before.history.len() == 100 ==> after.history.drop_last() == before.history.drop_first()
    &&& after.next_id == before.next_id
}

/// What is said is heard by everyone, from whoever said it: the newest event
/// carries the name and the rank of the speaker, the words, whether they
/// were an action, and the time.
pub proof fn law_what_is_said_is_heard(
    room: &mut ChatRoom,
    from: &str,
    is_sysop: bool,
    text: &str,
    action: bool,
    now: u64,
    r: (),
)
    requires
        old(room).wf(),
        call_ensures(ChatRoom::say, (room, from, is_sysop, text, action, now), r),
    ensures
        told(
            old(room)@,
            final(room)@,
            Happening::Message { from: from@, is_sysop, text: text@, action },
            now,
        ),
        final(room)@.seats == old(room)@.seats,
{
    lemma_told(
        old(room)@,
        Happening::Message { from: from@, is_sysop, text: text@, action },
        now,
    );
}

proof fn lemma_told(room: Room, kind: Happening, at: u64)
    requires
        room.wf(),
    ensures
        told(room, room.emitted(kind, at), kind, at),
        room.emitted(kind, at).seats == room.seats,
{
    let after = room.emitted(kind, at);
    assert(after.history.drop_last() =~= if room.history.len() < 100 {
        room.history
    } else {
        room.history.drop_first()
    });
}

proof fn lemma_seat(seats: Seq<(u64, Person)>, id: u64)
    ensures
        0 <= chat::seat_of(seats, id) <= seats.len(),
        chat::seat_of(seats, id) < seats.len() ==> seats[chat::seat_of(seats, id)].0 == id,
        forall|i: int|
            0 <= i < seats.len() && (#[trigger] seats[i]).0 == id ==> chat::seat_of(seats, id) <= i,
    decreases seats.len(),
{
    if seats.len() > 0 {
        let front = seats.drop_last();
        lemma_seat(front, id);
        assert forall|i: int| 0 <= i < seats.len() && (#[trigger] seats[i]).0 == id implies
            chat::seat_of(seats, id) <= i by {
            if i < front.len() {
                assert(front[i] == seats[i]);
            }
        }
    }
}

/// The session has a seat.
pub open spec fn holds_seat(seats: Seq<(u64, Person)>, id: u64) -> bool {
    exists|i: int| 0 <= i < seats.len() && (#[trigger] seats[i]).0 == id
}

/// Somebody of that name has a seat.
pub open spec fn is_there(seats: Seq<(u64, Person)>, name: Seq<char>) -> bool {
    exists|i: int| 0 <= i < seats.len() && (#[trigger] seats[i]).1.name == name
}

/// Whether a session is in the room.
pub proof fn law_members_hold_seats(room: &ChatRoom, id: u64, r: bool)
    requires
        call_ensures(ChatRoom::is_member, (room, id), r),
    ensures
        r <==> holds_seat(room@.seats, id),
{
    lemma_seat(room@.seats, id);
    if r {
        let i = chat::seat_of(room@.seats, id);
        assert(room@.seats[i].0 == id);
    }
}

/// A session that joins gets a seat under its own name and rank. Everyone is
/// told of it, with that name and rank, if nobody of that name was there
/// before; else nobody is told. A session that is there already changes
/// nothing.
pub proof fn law_joining(
    room: &mut ChatRoom,
    id: u64,
    name: &str,
    is_sysop: bool,
    now: u64,
    r: ChatSnapshot,
)
    requires
        old(room).wf(),
        call_ensures(ChatRoom::join, (room, id, name, is_sysop, now), r),
    ensures
        holds_seat(old(room)@.seats, id) ==> final(room)@ == old(room)@,
        !holds_seat(old(room)@.seats, id) ==> final(room)@.seats == old(room)@.seats.push(
            (id, Person { name: name@, is_sysop }),
        ),
        !holds_seat(old(room)@.seats, id) && !is_there(old(room)@.seats, name@) ==> told(
            old(room)@,
            final(room)@,
            Happening::Join { name: name@, is_sysop },
            now,
        ),
        !holds_seat(old(room)@.seats, id) && is_there(old(room)@.seats, name@) ==> final(room)@.outbox == old(room)@.outbox && final(room)@.history == old(room)@.history && final(room)@.seq == old(room)@.seq,
        // the newcomer gets to see the room as it is then
        r.seq == final(room)@.seq,
        listed(r.history@, final(room)@.history),
{
    let before = old(room)@;
    lemma_seat(before.seats, id);
    if before.is_member(id) {
        assert(before.seats[chat::seat_of(before.seats, id)].0 == id);
    }
    let inside = Room { seats: before.seats.push((id, Person { name: name@, is_sysop })), ..before };
    lemma_told(inside, Happening::Join { name: name@, is_sysop }, now);
    assert(chat::seated(before.seats, name@) == is_there(before.seats, name@));
    lemma_listed(r, final(room)@);
}

/// A session that leaves gives up its seat, and no other. Everyone is told
/// who left if it was the last seat of that name; else nobody is told. A
/// session that has no seat changes nothing.
pub proof fn law_leaving(room: &mut ChatRoom, id: u64, i: int, now: u64, r: ())
    requires
        old(room).wf(),
        call_ensures(ChatRoom::leave, (room, id, now), r),
    ensures
        !holds_seat(old(room)@.seats, id) ==> final(room)@ == old(room)@,
        0 <= i < old(room)@.seats.len() && old(room)@.seats[i].0 == id && (forall|j: int|
            0 <= j < i ==> (#[trigger] old(room)@.seats[j]).0 != id) ==> {
            let name = old(room)@.seats[i].1.name;
            &&& final(room)@.seats == old(room)@.seats.remove(i)
            &&& !is_there(final(room)@.seats, name) ==> told(
                old(room)@,
                final(room)@,
                Happening::Leave { name },
                now,
            )
            &&& is_there(final(room)@.seats, name) ==> final(room)@.outbox == old(room)@.outbox
                && final(room)@.history == old(room)@.history && final(room)@.seq == old(room)@.seq
        },
{
    let before = old(room)@;
    lemma_seat(before.seats, id);
    let k = chat::seat_of(before.seats, id);
    if before.is_member(id) {
        assert(before.seats[k].0 == id);
        let name = before.seats[k].1.name;
        let outside = Room { seats: before.seats.remove(k), ..before };
        lemma_told(outside, Happening::Leave { name }, now);
        assert(chat::seated(outside.seats, name) == is_there(outside.seats, name));
        if 0 <= i < before.seats.len() && before.seats[i].0 == id && (forall|j: int|
            0 <= j < i ==> (#[trigger] before.seats[j]).0 != id) {
            assert(k == i) by {
                if k < i {
                    assert(before.seats[k].0 != id);
                }
            }
        }
    }
}

// -------------------------------------------------------------------- showing

/// An event that is handed out is the one that happened.
pub open spec fn shows(event: ChatEvent, entry: Entry) -> bool {
    &&& event.seq == entry.seq
    &&& event.at == entry.at
    &&& match entry.kind {
        Happening::Message { from, is_sysop, text, action } => event.kind matches ChatKind::Message {
            from: f,
            is_sysop: s,
            text: t,
            action: a,
        } && f@ == from && s == is_sysop && t@ == text && a == action,
        Happening::Join { name, is_sysop } => event.kind matches ChatKind::Join {
            name: n,
            is_sysop: s,
        } && n@ == name && s == is_sysop,
        Happening::Leave { name } => event.kind matches ChatKind::Leave { name: n } && n@ == name,
    }
}

/// Events that are handed out are the ones that happened, in their order.
pub open spec fn listed(events: Seq<ChatEvent>, entries: Seq<Entry>) -> bool {
    &&& events.len() == entries.len()
    &&& forall|i: int| 0 <= i < entries.len() ==> shows(#[trigger] events[i], entries[i])
}

proof fn lemma_entries(events: Seq<ChatEvent>, entries: Seq<Entry>)
    requires
        chat::entries(events) == entries,
    ensures
        listed(events, entries),
{
    assert forall|i: int| 0 <= i < entries.len() implies shows(#[trigger] events[i], entries[i]) by {
        assert(chat::entries(events)[i] == events[i]@);
    }
}

proof fn lemma_listed(r: ChatSnapshot, room: Room)
    requires
        r@ == room.snapshot(),
    ensures
        r.seq == room.seq,
        listed(r.history@, room.history),
{
    lemma_entries(r.history@, room.history);
}

/// What is announced is what happened since the last time, in its order, and
/// it is announced once.
pub proof fn law_everything_is_announced_once(room: &mut ChatRoom, r: Vec<ChatEvent>)
    requires
        call_ensures(ChatRoom::take_outbox, (room,), r),
    ensures
        listed(r@, old(room)@.outbox),
        final(room)@.outbox.len() == 0,
        final(room)@.history == old(room)@.history,
        final(room)@.seats == old(room)@.seats,
        final(room)@.seq == old(room)@.seq,
        final(room)@.next_id == old(room)@.next_id,
{
    lemma_entries(r@, old(room)@.outbox);
}

proof fn lemma_distinct_seated(seats: Seq<(u64, Person)>, i: int)
    requires
        0 <= i < chat::distinct(seats).len(),
    ensures
        exists|j: int| 0 <= j < seats.len() && (#[trigger] seats[j]).1 == chat::distinct(seats)[i],
    decreases seats.len(),
{
    let front = seats.drop_last();
    let before = chat::distinct(front);
    if i < before.len() {
        lemma_distinct_seated(front, i);
        let j = choose|j: int| 0 <= j < front.len() && (#[trigger] front[j]).1 == before[i];
        assert(seats[j].1 == chat::distinct(seats)[i]);
    } else {
        assert(seats[seats.len() - 1].1 == chat::distinct(seats)[i]);
    }
}

proof fn lemma_place_bounds(list: Seq<Person>, p: Person)
    ensures
        0 <= chat::place(list, p) <= list.len(),
    decreases list.len(),
{
    if list.len() > 0 {
        lemma_place_bounds(list.drop_last(), p);
    }
}

proof fn lemma_by_name_keeps(list: Seq<Person>)
    ensures
        chat::by_name(list).to_multiset() == list.to_multiset(),
        chat::by_name(list).len() == list.len(),
    decreases list.len(),
{
    broadcast use vstd::seq_lib::group_to_multiset_ensures;

    if list.len() > 0 {
        let front = list.drop_last();
        lemma_by_name_keeps(front);
        let before = chat::by_name(front);
        lemma_place_bounds(before, list.last());
        assert(front.push(list.last()) =~= list);
    } else {
        assert(chat::by_name(list) =~= list);
    }
}

/// A snapshot shows the history as it happened, and of everyone in the room
/// the name and the rank they joined with, each name once, in the order of a
/// dictionary whatever the case of its letters.
pub proof fn law_snapshots_show_the_room(room: &ChatRoom, r: ChatSnapshot)
    requires
        call_ensures(ChatRoom::snapshot, (room,), r),
    ensures
        r.seq == room@.seq,
        listed(r.history@, room@.history),
        forall|k: int|
            0 <= k < r.members@.len() ==> exists|j: int|
                0 <= j < room@.seats.len() && (#[trigger] room@.seats[j]).1.name == (
                #[trigger] r.members@[k]).name@ && room@.seats[j].1.is_sysop
                    == r.members@[k].is_sysop,
        forall|j: int|
            0 <= j < room@.seats.len() ==> exists|k: int|
                0 <= k < r.members@.len() && (#[trigger] r.members@[k]).name@ == (
                #[trigger] room@.seats[j]).1.name,
        forall|k: int, l: int|
            0 <= k < l < r.members@.len() ==> (#[trigger] r.members@[k]).name@ != (
            #[trigger] r.members@[l]).name@ && chars::text_le(
                chars::lowercase(r.members@[k].name@),
                chars::lowercase(r.members@[l].name@),
            ),
{
    broadcast use vstd::seq_lib::group_to_multiset_ensures;

    lemma_listed(r, room@);
    let seats = room@.seats;
    let people = chat::distinct(seats);
    let members = chat::by_name(people);
    lemma_by_name_keeps(people);
    crate::laws::chat::law_snapshot_lists_everyone_once(room@);
    assert(chat::people(r.members@) == members);
    assert forall|k: int| 0 <= k < r.members@.len() implies exists|j: int|
        0 <= j < seats.len() && (#[trigger] seats[j]).1.name == (#[trigger] r.members@[k]).name@
            && seats[j].1.is_sysop == r.members@[k].is_sysop by {
        assert(chat::people(r.members@)[k] == r.members@[k]@);
        assert(members.to_multiset().contains(members[k]));
        assert(people.contains(members[k]));
        let i = people.index_of(members[k]);
        lemma_distinct_seated(seats, i);
        let j = choose|j: int| 0 <= j < seats.len() && (#[trigger] seats[j]).1 == people[i];
        assert(seats[j].1 == members[k]);
    }
    assert forall|j: int| 0 <= j < seats.len() implies exists|k: int|
        0 <= k < r.members@.len() && (#[trigger] r.members@[k]).name@ == (
        #[trigger] seats[j]).1.name by {
        assert(chat::seated(seats, seats[j].1.name));
        assert(chat::named(members, seats[j].1.name));
        let k = choose|k: int|
            0 <= k < members.len() && (#[trigger] members[k]).name == seats[j].1.name;
        assert(chat::people(r.members@)[k] == r.members@[k]@);
        assert(r.members@[k].name@ == seats[j].1.name);
    }
    assert forall|k: int, l: int| 0 <= k < l < r.members@.len() implies (
    #[trigger] r.members@[k]).name@ != (#[trigger] r.members@[l]).name@ && chars::text_le(
        chars::lowercase(r.members@[k].name@),
        chars::lowercase(r.members@[l].name@),
    ) by {
        assert(chat::people(r.members@)[k] == r.members@[k]@);
        assert(chat::people(r.members@)[l] == r.members@[l]@);
        assert(members[k].name != members[l].name);
        assert(chat::name_le(members[k], members[l]));
    }
}

/// Sorting the members loses nobody and adds nobody.
pub proof fn law_sorting_keeps_everyone(members: Vec<Member>, r: Vec<Member>)
    requires
        call_ensures(chat::sort_members, (members,), r),
    ensures
        r@.len() == members@.len(),
        chat::people(r@).to_multiset() == chat::people(members@).to_multiset(),
{
    lemma_by_name_keeps(chat::people(members@));
}

/// A new room is empty, and no two sessions get the same number in a row.
pub proof fn law_new_rooms_are_empty(fresh: ChatRoom, room: &mut ChatRoom, r: u64)
    ensures
        call_ensures(ChatRoom::new, (), fresh) ==> fresh@.seats.len() == 0 && fresh@.history.len()
            == 0 && fresh@.outbox.len() == 0 && fresh@.seq == 0,
        call_ensures(ChatRoom::new_id, (room,), r) ==> r == old(room)@.next_id && final(room)@.next_id != r && final(room)@.seats == old(room)@.seats && final(room)@.history == old(room)@.history && final(room)@.outbox == old(room)@.outbox && final(room)@.seq == old(room)@.seq,
{
}

} // verus!
