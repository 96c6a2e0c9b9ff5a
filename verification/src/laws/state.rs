//! Laws of the limits and of the session registry.

use vstd::prelude::*;

use crate::state;
use crate::state::{Event, IpAddr, Limits, Presence, Registry, Subject};

verus! {

proof fn lemma_live_live(hits: Seq<u64>, now: u64, later: u64, window: int)
    requires
        now <= later,
    ensures
        state::live(state::live(hits, now, window), later, window) == state::live(
            hits,
            later,
            window,
        ),
    decreases hits.len(),
{
    if hits.len() > 0 {
        let front = hits.drop_last();
        let t = hits.last();
        lemma_live_live(front, now, later, window);
        if state::age(now, t) < window {
            let kept = state::live(front, now, window).push(t);
            assert(kept.drop_last() =~= state::live(front, now, window));
        }
    }
}

proof fn lemma_live_push(hits: Seq<u64>, t: u64, now: u64, window: int)
    ensures
        state::age(now, t) < window ==> state::live(hits.push(t), now, window) == state::live(
            hits,
            now,
            window,
        ).push(t),
        state::age(now, t) >= window ==> state::live(hits.push(t), now, window) == state::live(
            hits,
            now,
            window,
        ),
{
    assert(hits.push(t).drop_last() =~= hits);
}

/// What a limit counts at any later time is what had happened, and the
/// event that was recorded: that older times are forgotten along the way
/// changes no answer.
pub proof fn law_recording_adds_one_event(
    l: Limits,
    subject: Subject,
    event: Event,
    now: u64,
    later: u64,
)
    requires
        now <= later,
    ensures
        state::live(
            l.recorded(subject, event, now).hits_of(subject, event),
            later,
            event.window(),
        ) == state::live(l.hits_of(subject, event).push(now), later, event.window()),
{
    let times = l.hits_of(subject, event).push(now);
    lemma_live_live(times, now, later, event.window());
    lemma_live_push(l.hits_of(subject, event), now, now, event.window());
}

/// A limit that was kept is never exceeded: an event recorded while it was
/// allowed leaves no more than the limit within its window.
pub proof fn law_limit_is_never_exceeded(l: Limits, subject: Subject, event: Event, now: u64)
    requires
        l.under_limit(subject, event, now),
    ensures
        state::live(
            l.recorded(subject, event, now).hits_of(subject, event),
            now,
            event.window(),
        ).len() <= event.max(),
{
    law_recording_adds_one_event(l, subject, event, now, now);
    lemma_live_push(l.hits_of(subject, event), now, now, event.window());
}

/// Recording an event of one subject leaves every other limit as it was.
pub proof fn law_limits_are_independent(
    l: Limits,
    subject: Subject,
    event: Event,
    now: u64,
    other: Subject,
    other_event: Event,
    later: u64,
)
    requires
        (other, other_event) != (subject, event),
        now <= later,
    ensures
        state::live(
            l.recorded(subject, event, now).hits_of(other, other_event),
            later,
            other_event.window(),
        ) == state::live(l.hits_of(other, other_event), later, other_event.window()),
        l.recorded(subject, event, now).under_limit(other, other_event, later) == l.under_limit(
            other,
            other_event,
            later,
        ),
{
    lemma_live_live(l.hits_of(other, other_event), now, later, other_event.window());
}

/// Time frees what was used up: once every recorded time is out of the
/// window, the subject is under the limit.
pub proof fn law_limits_expire(l: Limits, subject: Subject, event: Event, now: u64)
    requires
        forall|i: int|
            0 <= i < l.hits_of(subject, event).len() ==> state::age(
                now,
                #[trigger] l.hits_of(subject, event)[i],
            ) >= event.window(),
    ensures
        l.under_limit(subject, event, now),
{
    lemma_all_expired(l.hits_of(subject, event), now, event.window());
}

proof fn lemma_all_expired(hits: Seq<u64>, now: u64, window: int)
    requires
        forall|i: int| 0 <= i < hits.len() ==> state::age(now, #[trigger] hits[i]) >= window,
    ensures
        state::live(hits, now, window).len() == 0,
    decreases hits.len(),
{
    if hits.len() > 0 {
        let front = hits.drop_last();
        assert(state::age(now, hits[hits.len() - 1]) >= window);
        assert forall|i: int| 0 <= i < front.len() implies state::age(now, #[trigger] front[i])
            >= window by {
            assert(front[i] == hits[i]);
        }
        lemma_all_expired(front, now, window);
    }
}

/// A connection that ends leaves its address as it was before.
pub proof fn law_disconnecting_undoes_connecting(l: Limits, ip: IpAddr)
    requires
        l.connections.contains_key(ip.bucketed()) ==> l.connections[ip.bucketed()] > 0,
    ensures
        l.connected(ip).disconnected(ip) == l,
{
    let back = l.connected(ip).disconnected(ip);
    assert(back.connections =~= l.connections);
}

/// Addresses of one /64 share their connections and their limits.
pub proof fn law_one_network_is_one_subject(
    network: u64,
    a: u64,
    b: u64,
    l: Limits,
    event: Event,
    now: u64,
)
    ensures
        ({
            let x = IpAddr::V6 { network, host: a };
            let y = IpAddr::V6 { network, host: b };
            &&& x.bucketed() == y.bucketed()
            &&& l.connections_of(x) == l.connections_of(y)
            &&& l.connected(x) == l.connected(y)
            &&& l.under_limit(Subject::Ip(x.bucketed()), event, now) == l.under_limit(
                Subject::Ip(y.bucketed()),
                event,
                now,
            )
            &&& l.recorded(Subject::Ip(x.bucketed()), event, now) == l.recorded(
                Subject::Ip(y.bucketed()),
                event,
                now,
            )
        }),
{
}

pub proof fn lemma_index_of(r: Registry, i: int)
    requires
        r.wf(),
        0 <= i < r.entries.len(),
    ensures
        r.index_of(r.entries[i].0) == i,
{
    let id = r.entries[i].0;
    let j = r.index_of(id);
    assert(0 <= j < r.entries.len() && r.entries[j].0 == id);
}

/// A session that joins and leaves again leaves the others as they were.
pub proof fn law_leaving_undoes_joining(r: Registry, entry: Presence)
    requires
        r.wf(),
        r.next_id < u64::MAX,
    ensures
        ({
            let joined = Registry {
                next_id: (r.next_id + 1) as u64,
                entries: r.entries.push((r.next_id, entry)),
            };
            &&& joined.contains(r.next_id)
            &&& joined.entries.remove(joined.index_of(r.next_id)) == r.entries
        }),
{
    let joined = Registry {
        next_id: (r.next_id + 1) as u64,
        entries: r.entries.push((r.next_id, entry)),
    };
    lemma_index_of(joined, r.entries.len() as int);
    assert(joined.entries.remove(r.entries.len() as int) =~= r.entries);
}

/// The snapshot lists every session once, longest connected first.
pub proof fn law_snapshot_is_sorted(entries: Seq<(u64, Presence)>, now: u64)
    ensures
        ({
            let users = state::longest_first(entries, now);
            &&& users.len() == entries.len()
            &&& users.to_multiset() == entries.map_values(
                |e: (u64, Presence)| e.1.seen(now),
            ).to_multiset()
            &&& forall|i: int, j: int|
                0 <= i < j < users.len() ==> (#[trigger] users[i]).connected >= (
                #[trigger] users[j]).connected
        }),
    decreases entries.len(),
{
    broadcast use vstd::seq_lib::group_to_multiset_ensures;

    let users = state::longest_first(entries, now);
    let seen = |e: (u64, Presence)| e.1.seen(now);
    if entries.len() > 0 {
        let front = entries.drop_last();
        law_snapshot_is_sorted(front, now);
        let before = state::longest_first(front, now);
        let user = entries.last().1.seen(now);
        lemma_place(before, user.connected);
        let at = state::place(before, user.connected);
        assert(entries.map_values(seen) =~= front.map_values(seen).push(user));
        assert forall|i: int, j: int| 0 <= i < j < users.len() implies (
        #[trigger] users[i]).connected >= (#[trigger] users[j]).connected by {
            if i < at {
                assert(users[i] == before[i]);
            } else if i > at {
                assert(users[i] == before[i - 1]);
            }
            if j < at {
                assert(users[j] == before[j]);
            } else if j > at {
                assert(users[j] == before[j - 1]);
            }
        }
    } else {
        assert(users =~= entries.map_values(seen));
    }
}

proof fn lemma_place(users: Seq<state::Seen>, n: int)
    requires
        forall|i: int, j: int|
            0 <= i < j < users.len() ==> (#[trigger] users[i]).connected >= (
            #[trigger] users[j]).connected,
    ensures
        0 <= state::place(users, n) <= users.len(),
        forall|i: int| 0 <= i < state::place(users, n) ==> (#[trigger] users[i]).connected >= n,
        forall|i: int|
            state::place(users, n) <= i < users.len() ==> (#[trigger] users[i]).connected < n,
    decreases users.len(),
{
    if users.len() > 0 {
        if users.last().connected < n {
            let front = users.drop_last();
            assert forall|i: int, j: int| 0 <= i < j < front.len() implies (
            #[trigger] front[i]).connected >= (#[trigger] front[j]).connected by {
                assert(users[i] == front[i] && users[j] == front[j]);
            }
            lemma_place(front, n);
            assert forall|i: int| 0 <= i < state::place(users, n) implies (
            #[trigger] users[i]).connected >= n by {
                assert(front[i] == users[i]);
            }
            assert forall|i: int| state::place(users, n) <= i < users.len() implies (
            #[trigger] users[i]).connected < n by {
                if i < front.len() {
                    assert(front[i] == users[i]);
                }
            }
        } else {
            assert forall|i: int| 0 <= i < users.len() implies (#[trigger] users[i]).connected
                >= n by {
                if i < users.len() - 1 {
                    assert(users[i].connected >= users[users.len() - 1].connected);
                }
            }
        }
    }
}

} // verus!
