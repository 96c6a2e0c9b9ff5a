//! Laws of the limits and of the registry of sessions: what their functions
//! answer, whatever has happened before.

use vstd::prelude::*;

use crate::db::Role;
use crate::laws::state as limits;
use crate::state;
use crate::state::{
    ConnectionGuard, Event, Identity, IpAddr, Limiter, Online, OnlineEntry, OnlineGuard, OnlineUser,
    Presence, Seen, Subject,
};

verus! {

// --------------------------------------------------------------------- the limits

/// How many of an event are allowed within how many seconds.
pub open spec fn allowance(event: Event) -> (int, int) {
    match event {
        Event::AuthFailure => (10, 600),
        Event::Registration => (3, 3600),
        Event::Post => (10, 600),
        Event::NewThread => (3, 3600),
        Event::ChatMessage => (8, 10),
        Event::PasswordAttempt => (5, 600),
        Event::MailSend => (10, 600),
    }
}

/// The times of the last `secs` seconds before `now`.
pub open spec fn recent(times: Seq<u64>, now: u64, secs: int) -> Seq<u64> {
    times.filter(|t: u64| t > now || now - t < secs * 1_000_000_000)
}

proof fn lemma_recent(times: Seq<u64>, now: u64, event: Event)
    ensures
        state::live(times, now, event.window()) == recent(times, now, allowance(event).1),
        event.max() == allowance(event).0,
    decreases times.len(),
{
    reveal(Seq::filter);
    if times.len() > 0 {
        lemma_recent(times.drop_last(), now, event);
    }
}

/// Something is allowed as long as it has not happened too often of late, and
/// no longer.
pub proof fn law_what_is_allowed(
    limiter: &Limiter,
    subject: Subject,
    event: Event,
    now: u64,
    r: bool,
    limit: (usize, u64),
)
    requires
        call_ensures(Limiter::allowed, (limiter, subject, event, now), r),
        call_ensures(Event::limit, (event,), limit),
    ensures
        r <==> recent(
            limiter@.hits_of(subject, event),
            now,
            allowance(event).1,
        ).len() < allowance(event).0,
        limit.0 == allowance(event).0,
        limit.1 == allowance(event).1 * 1_000_000_000,
{
    lemma_recent(limiter@.hits_of(subject, event), now, event);
}

/// What is recorded counts once from then on, for its subject and its kind,
/// and every other count stays.
pub proof fn law_what_is_recorded_counts(
    limiter: &mut Limiter,
    subject: Subject,
    event: Event,
    now: u64,
    later: u64,
    other: Subject,
    kind: Event,
)
    requires
        call_ensures(Limiter::record, (limiter, subject, event, now), ()),
        now <= later,
    ensures
        recent(final(limiter)@.hits_of(subject, event), later, allowance(event).1) == recent(
            old(limiter)@.hits_of(subject, event).push(now),
            later,
            allowance(event).1,
        ),
        (other, kind) != (subject, event) ==> recent(
            final(limiter)@.hits_of(other, kind),
            later,
            allowance(kind).1,
        ) == recent(old(limiter)@.hits_of(other, kind), later, allowance(kind).1),
        final(limiter)@.connections == old(limiter)@.connections,
{
    let before = old(limiter)@;
    let after = final(limiter)@;
    limits::law_recording_adds_one_event(before, subject, event, now, later);
    lemma_recent(after.hits_of(subject, event), later, event);
    lemma_recent(before.hits_of(subject, event).push(now), later, event);
    if (other, kind) != (subject, event) {
        limits::law_limits_are_independent(before, subject, event, now, other, kind, later);
        lemma_recent(after.hits_of(other, kind), later, kind);
        lemma_recent(before.hits_of(other, kind), later, kind);
    }
}

/// An address, or the network of an IPv6 address, may hold eight connections;
/// each that it is given counts, and what others hold stays.
pub proof fn law_connections_are_counted(
    limiter: &mut Limiter,
    ip: IpAddr,
    r: Option<ConnectionGuard>,
    other: IpAddr,
)
    requires
        call_ensures(Limiter::connect, (limiter, ip), r),
    ensures
        r is Some <==> old(limiter)@.connections_of(ip) < 8,
        final(limiter)@.connections_of(ip) == old(limiter)@.connections_of(ip) + if r is Some {
            1int
        } else {
            0int
        },
        other.bucketed() != ip.bucketed() ==> final(limiter)@.connections_of(other)
            == old(limiter)@.connections_of(other),
        final(limiter)@.hits == old(limiter)@.hits,
{
}

/// A connection that ends is counted no longer, and only that.
pub proof fn law_ended_connections_are_not_counted(
    limiter: &mut Limiter,
    guard: ConnectionGuard,
    other: IpAddr,
)
    requires
        call_ensures(Limiter::disconnect, (limiter, guard), ()),
    ensures
        final(limiter)@.connections_of(guard.addr()) == if old(limiter)@.connections_of(
            guard.addr(),
        ) > 0 {
            old(limiter)@.connections_of(guard.addr()) - 1
        } else {
            0
        },
        other.bucketed() != guard.addr().bucketed() ==> final(limiter)@.connections_of(other)
            == old(limiter)@.connections_of(other),
        final(limiter)@.hits == old(limiter)@.hits,
{
}

/// IPv4 addresses count one by one, IPv6 addresses by their network.
pub proof fn law_addresses_are_grouped(ip: IpAddr, r: IpAddr, subject: Subject)
    requires
        call_ensures(state::bucket, (ip,), r),
        call_ensures(Subject::ip, (ip,), subject),
    ensures
        subject == Subject::Ip(r),
        ip is V4 ==> r == ip,
        ip matches IpAddr::V6 { network, host } ==> r == (IpAddr::V6 { network, host: 0 }),
{
}

// ------------------------------------------------------------------ who is online

/// Guests have no account and are called guest; users have their own id, name
/// and rank.
pub proof fn law_who_one_is(
    who: &Identity,
    id: Option<i64>,
    sysop: bool,
    name: &str,
    since: u64,
    entry: OnlineEntry,
)
    requires
        call_ensures(Identity::user_id, (who,), id),
        call_ensures(Identity::is_sysop, (who,), sysop),
        call_ensures(Identity::display_name, (who,), name),
        call_ensures(OnlineEntry::new, (who, since), entry),
    ensures
        match *who {
            Identity::Guest => id is None && !sysop && name@ == "guest"@,
            Identity::User { id: i, name: n, role } => id == Some(i) && sysop == (role
                == Role::Sysop) && name@ == n@,
        },
        entry.name@ == name@,
        entry.user_id == id,
        (entry.role is Sysop) == sysop,
        entry.since == since,
{
}

/// A session that joins comes last, under a number of its own.
pub proof fn law_sessions_join(online: &mut Online, entry: OnlineEntry, r: OnlineGuard, id: u64)
    requires
        call_ensures(Online::join, (online, entry), r),
        call_ensures(OnlineGuard::id, (&r,), id),
        old(online)@.wf(),
    ensures
        final(online)@.entries.len() == old(online)@.entries.len() + 1,
        final(online)@.entries.last() == (id, entry@),
        final(online)@.entries.drop_last() == old(online)@.entries,
        forall|i: int| 0 <= i < old(online)@.entries.len() ==> (#[trigger] old(online)@.entries[i]).0 != id,
{
    assert(final(online)@.entries.drop_last() =~= old(online)@.entries);
}

/// A session that leaves is gone, and all others stay, in their order.
pub proof fn law_sessions_leave(online: &mut Online, guard: OnlineGuard, k: int)
    requires
        call_ensures(Online::leave, (online, guard), ()),
        old(online)@.wf(),
        0 <= k < old(online)@.entries.len(),
        old(online)@.entries[k].0 == guard.session(),
    ensures
        final(online)@.entries == old(online)@.entries.take(k) + old(online)@.entries.skip(k + 1),
        forall|i: int|
            0 <= i < final(online)@.entries.len() ==> (#[trigger] final(online)@.entries[i]).0
                != guard.session(),
{
    limits::lemma_index_of(old(online)@, k);
    assert(final(online)@.entries =~= old(online)@.entries.take(k) + old(online)@.entries.skip(
        k + 1,
    ));
}

/// What a session is doing, and who it acts as, change for that session alone,
/// and nothing else about it does.
pub proof fn law_sessions_change(
    online: &mut Online,
    guard: &OnlineGuard,
    doing: &'static str,
    who: &Identity,
    k: int,
    i: int,
)
    requires
        old(online)@.wf(),
        0 <= k < old(online)@.entries.len(),
        old(online)@.entries[k].0 == guard.session(),
        0 <= i < old(online)@.entries.len(),
    ensures
        call_ensures(Online::set_activity, (online, guard, doing), ()) ==> {
            let from = old(online)@.entries[k].1;
            let to = final(online)@.entries[k].1;
            &&& final(online)@.entries.len() == old(online)@.entries.len()
            &&& to.activity == doing@
            &&& to.name == from.name && to.user_id == from.user_id && to.role == from.role
                && to.since == from.since
            &&& i != k ==> final(online)@.entries[i] == old(online)@.entries[i]
            &&& final(online)@.entries[k].0 == guard.session()
        },
        call_ensures(Online::set_identity, (online, guard, who), ()) ==> {
            let from = old(online)@.entries[k].1;
            let to = final(online)@.entries[k].1;
            &&& final(online)@.entries.len() == old(online)@.entries.len()
            &&& match *who {
                Identity::Guest => to.name == "guest"@ && to.user_id is None && to.role is User,
                Identity::User { id, name, role } => to.name == name@ && to.user_id == Some(id)
                    && (to.role is Sysop) == (role is Sysop),
            }
            &&& to.activity == from.activity && to.since == from.since
            &&& i != k ==> final(online)@.entries[i] == old(online)@.entries[i]
            &&& final(online)@.entries[k].0 == guard.session()
        },
{
    limits::lemma_index_of(old(online)@, k);
}

/// How a session looks from outside.
pub open spec fn looks(user: OnlineUser, entry: Presence, now: u64) -> bool {
    &&& user.name@ == entry.name
    &&& user.user_id == entry.user_id
    &&& user.role == entry.role
    &&& user.activity@ == entry.activity
    &&& user.connected == if entry.since <= now {
        now - entry.since
    } else {
        0
    }
}

proof fn lemma_same_items(a: Seq<Seen>, b: Seq<Seen>, x: Seen)
    requires
        a.to_multiset() == b.to_multiset(),
        a.contains(x),
    ensures
        b.contains(x),
{
    a.to_multiset_ensures();
    b.to_multiset_ensures();
    assert(a.to_multiset().count(x) > 0);
    assert(b.to_multiset().count(x) > 0);
}

/// Everyone online is in the list, as they are, and nobody else; those who
/// came first are first.
pub proof fn law_everyone_online_is_listed(online: &Online, now: u64, r: Vec<OnlineUser>)
    requires
        call_ensures(Online::snapshot, (online, now), r),
    ensures
        r@.len() == online@.entries.len(),
        forall|k: int|
            0 <= k < r@.len() ==> exists|j: int|
                0 <= j < online@.entries.len() && looks(
                    #[trigger] r@[k],
                    (#[trigger] online@.entries[j]).1,
                    now,
                ),
        forall|j: int|
            0 <= j < online@.entries.len() ==> exists|k: int|
                0 <= k < r@.len() && looks(
                    #[trigger] r@[k],
                    (#[trigger] online@.entries[j]).1,
                    now,
                ),
        forall|i: int, j: int|
            0 <= i < j < r@.len() ==> (#[trigger] r@[i]).connected >= (#[trigger] r@[j]).connected,
{
    let entries = online@.entries;
    let users = r@.map_values(|u: OnlineUser| u@);
    limits::law_snapshot_is_sorted(entries, now);
    let seen = entries.map_values(|e: (u64, Presence)| e.1.seen(now));
    assert(users.to_multiset() == seen.to_multiset());
    assert forall|k: int| 0 <= k < r@.len() implies exists|j: int|
        0 <= j < entries.len() && looks(#[trigger] r@[k], (#[trigger] entries[j]).1, now) by {
        assert(users.contains(users[k]));
        lemma_same_items(users, seen, users[k]);
        let j = choose|j: int| 0 <= j < seen.len() && seen[j] == users[k];
        assert(users[k] == r@[k]@);
        assert(looks(r@[k], entries[j].1, now));
    }
    assert forall|j: int| 0 <= j < entries.len() implies exists|k: int|
        0 <= k < r@.len() && looks(#[trigger] r@[k], (#[trigger] entries[j]).1, now) by {
        assert(seen.contains(seen[j]));
        lemma_same_items(seen, users, seen[j]);
        let k = choose|k: int| 0 <= k < users.len() && users[k] == seen[j];
        assert(users[k] == r@[k]@);
        assert(looks(r@[k], entries[j].1, now));
    }
    assert forall|i: int, j: int| 0 <= i < j < r@.len() implies (#[trigger] r@[i]).connected >= (
    #[trigger] r@[j]).connected by {
        assert(users[i] == r@[i]@ && users[j] == r@[j]@);
    }
}

proof fn lemma_ids(entries: Seq<(u64, Presence)>, user: i64, id: u64)
    ensures
        state::ids_of(entries, user).contains(id) <==> exists|i: int|
            0 <= i < entries.len() && #[trigger] entries[i].0 == id && entries[i].1.user_id == Some(
                user,
            ),
    decreases entries.len(),
{
    let ids = state::ids_of(entries, user);
    if entries.len() > 0 {
        let front = entries.drop_last();
        let last = entries.last();
        lemma_ids(front, user, id);
        let before = state::ids_of(front, user);
        let n = front.len() as int;
        assert(entries[n] == last);
        if exists|i: int|
            0 <= i < entries.len() && #[trigger] entries[i].0 == id && entries[i].1.user_id == Some(
                user,
            ) {
            let i = choose|i: int|
                0 <= i < entries.len() && #[trigger] entries[i].0 == id && entries[i].1.user_id
                    == Some(user);
            if i < n {
                assert(front[i].0 == id);
                let k = choose|k: int| 0 <= k < before.len() && before[k] == id;
                assert(ids[k] == id);
            } else {
                assert(ids[before.len() as int] == id);
            }
        }
        if ids.contains(id) {
            let k = choose|k: int| 0 <= k < ids.len() && ids[k] == id;
            if k < before.len() {
                assert(before[k] == id);
                let i = choose|i: int|
                    0 <= i < front.len() && #[trigger] front[i].0 == id && front[i].1.user_id
                        == Some(user);
                assert(entries[i].0 == id);
            } else {
                assert(entries[n].0 == id);
            }
        }
    }
}

proof fn lemma_users(entries: Seq<(u64, Presence)>, id: u64, user: i64)
    ensures
        state::users_of(entries).contains((id, user)) <==> exists|i: int|
            0 <= i < entries.len() && #[trigger] entries[i].0 == id && entries[i].1.user_id == Some(
                user,
            ),
    decreases entries.len(),
{
    let all = state::users_of(entries);
    if entries.len() > 0 {
        let front = entries.drop_last();
        let last = entries.last();
        lemma_users(front, id, user);
        let before = state::users_of(front);
        let n = front.len() as int;
        assert(entries[n] == last);
        if exists|i: int|
            0 <= i < entries.len() && #[trigger] entries[i].0 == id && entries[i].1.user_id == Some(
                user,
            ) {
            let i = choose|i: int|
                0 <= i < entries.len() && #[trigger] entries[i].0 == id && entries[i].1.user_id
                    == Some(user);
            if i < n {
                assert(front[i].0 == id);
                let k = choose|k: int| 0 <= k < before.len() && before[k] == (id, user);
                assert(all[k] == (id, user));
            } else {
                assert(all[before.len() as int] == (id, user));
            }
        }
        if all.contains((id, user)) {
            let k = choose|k: int| 0 <= k < all.len() && all[k] == (id, user);
            if k < before.len() {
                assert(before[k] == (id, user));
                let i = choose|i: int|
                    0 <= i < front.len() && #[trigger] front[i].0 == id && front[i].1.user_id
                        == Some(user);
                assert(entries[i].0 == id);
            } else {
                assert(entries[n].0 == id);
            }
        }
    }
}

/// The sessions of a user are all of theirs and nobody else's, and so it is
/// with those of all users.
pub proof fn law_sessions_of_a_user(
    online: &Online,
    user: i64,
    id: u64,
    theirs: Vec<u64>,
    all: Vec<(u64, i64)>,
)
    requires
        call_ensures(Online::sessions_of, (online, user), theirs),
        call_ensures(Online::user_sessions, (online,), all),
    ensures
        theirs@.contains(id) <==> exists|i: int|
            0 <= i < online@.entries.len() && #[trigger] online@.entries[i].0 == id
                && online@.entries[i].1.user_id == Some(user),
        all@.contains((id, user)) <==> exists|i: int|
            0 <= i < online@.entries.len() && #[trigger] online@.entries[i].0 == id
                && online@.entries[i].1.user_id == Some(user),
{
    lemma_ids(online@.entries, user, id);
    lemma_users(online@.entries, id, user);
}

} // verus!
