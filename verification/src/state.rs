//! What the sessions share: who they are, the limits on what they may do,
//! and the registry of who is connected. Times are in nanoseconds from a
//! fixed start, taken from a clock that never runs backwards.

use vstd::prelude::*;

pub use crate::db::Role;

verus! {

/// Who a session is acting as. This is BBS-level identity, separate from the
/// SSH login name: a guest can register mid-session and become a `User`
/// without reconnecting.
#[derive(Debug)]
pub enum Identity {
    Guest,
    User { id: i64, name: String, role: Role },
}

impl Clone for Identity {
    fn clone(&self) -> (r: Identity)
        ensures
            r == *self,
    {
        match self {
            Identity::Guest => Identity::Guest,
            Identity::User { id, name, role } => Identity::User {
                id: *id,
                name: name.clone(),
                role: *role,
            },
        }
    }
}

impl Identity {
    pub open spec fn account_id(self) -> Option<i64> {
        match self {
            Identity::Guest => None,
            Identity::User { id, .. } => Some(id),
        }
    }

    pub open spec fn sysop(self) -> bool {
        self matches Identity::User { role, .. } && role == Role::Sysop
    }

    pub open spec fn shown_name(self) -> Seq<char> {
        match self {
            Identity::Guest => "guest"@,
            Identity::User { name, .. } => name@,
        }
    }

    /// The account id, or `None` for guests.
    pub fn user_id(&self) -> (r: Option<i64>)
        ensures
            r == self.account_id(),
    {
        match self {
            Identity::Guest => None,
            Identity::User { id, .. } => Some(*id),
        }
    }

    /// For display only. Anything that grants power must re-check the
    /// database, since roles can be changed while a session is running.
    pub fn is_sysop(&self) -> (r: bool)
        ensures
            r == self.sysop(),
    {
        match self {
            Identity::Guest => false,
            Identity::User { role, .. } => *role == Role::Sysop,
        }
    }

    pub fn display_name(&self) -> (r: &str)
        ensures
            r@ == self.shown_name(),
    {
        match self {
            Identity::Guest => "guest",
            Identity::User { name, .. } => name.as_str(),
        }
    }
}

// ---------------------------------------------------------------- limits

#[derive(Clone, Copy, Debug, PartialEq, Eq, Hash, Structural)]
pub enum Event {
    AuthFailure,
    Registration,
    /// Any new post, including the first post of a new thread.
    Post,
    NewThread,
    ChatMessage,
    /// A wrong "current password" while changing the password.
    PasswordAttempt,
    MailSend,
}

/// Nanoseconds in a second.
pub const SECOND: u64 = 1_000_000_000;

impl Event {
    /// How often it may happen.
    pub open spec fn max(self) -> nat {
        match self {
            Event::AuthFailure => 10,
            Event::Registration => 3,
            Event::Post => 10,
            Event::NewThread => 3,
            Event::ChatMessage => 8,
            Event::PasswordAttempt => 5,
            Event::MailSend => 10,
        }
    }

    /// Within how many nanoseconds.
    pub open spec fn window(self) -> int {
        match self {
            Event::AuthFailure => 600 * SECOND,
            Event::Registration => 3600 * SECOND,
            Event::Post => 600 * SECOND,
            Event::NewThread => 3600 * SECOND,
            Event::ChatMessage => 10 * SECOND,
            Event::PasswordAttempt => 600 * SECOND,
            Event::MailSend => 600 * SECOND,
        }
    }

    pub fn limit(self) -> (r: (usize, u64))
        ensures
            r.0 == self.max(),
            r.1 == self.window(),
    {
        match self {
            Event::AuthFailure => (10, 600 * SECOND),
            Event::Registration => (3, 3600 * SECOND),
            Event::Post => (10, 600 * SECOND),
            Event::NewThread => (3, 3600 * SECOND),
            Event::ChatMessage => (8, 10 * SECOND),
            Event::PasswordAttempt => (5, 600 * SECOND),
            Event::MailSend => (10, 600 * SECOND),
        }
    }
}

pub const MAX_CONNECTIONS_PER_IP: usize = 8;

pub const PRUNE_THRESHOLD: usize = 10_000;

/// A network address. An IPv6 address is its network half and its host half.
#[derive(Clone, Copy, Debug, PartialEq, Eq, Hash, Structural)]
pub enum IpAddr {
    V4(u32),
    V6 { network: u64, host: u64 },
}

impl IpAddr {
    /// The address that stands for its bucket.
    pub open spec fn bucketed(self) -> IpAddr {
        match self {
            IpAddr::V4(a) => IpAddr::V4(a),
            IpAddr::V6 { network, .. } => IpAddr::V6 { network, host: 0 },
        }
    }
}

/// IPv6 addresses are grouped by /64, since a single subscriber usually
/// controls a whole /64.
pub fn bucket(ip: IpAddr) -> (r: IpAddr)
    ensures
        r == ip.bucketed(),
{
    match ip {
        IpAddr::V4(a) => IpAddr::V4(a),
        IpAddr::V6 { network, .. } => IpAddr::V6 { network, host: 0 },
    }
}

/// Who a limit applies to: a network address or a logged-in user.
#[derive(Clone, Copy, Debug, PartialEq, Eq, Hash, Structural)]
pub enum Subject {
    Ip(IpAddr),
    User(i64),
}

impl Subject {
    pub fn ip(ip: IpAddr) -> (r: Subject)
        ensures
            r == Subject::Ip(ip.bucketed()),
    {
        Subject::Ip(bucket(ip))
    }
}

/// The times something happened, oldest first.
struct Hits {
    subject: Subject,
    event: Event,
    times: Vec<u64>,
}

/// The connections of one address.
struct Slot {
    ip: IpAddr,
    count: usize,
}

/// In-memory sliding-window limits. IPv6 addresses are grouped by /64, since
/// a single subscriber usually controls a whole /64.
pub struct Limiter {
    events: Vec<Hits>,
    connections: Vec<Slot>,
}

/// What a `Limiter` remembers.
pub struct Limits {
    pub hits: Map<(Subject, Event), Seq<u64>>,
    pub connections: Map<IpAddr, nat>,
}

/// How long ago `t` was.
pub open spec fn age(now: u64, t: u64) -> int {
    if t <= now {
        now - t
    } else {
        0
    }
}

/// The times of `hits` that still count.
pub open spec fn live(hits: Seq<u64>, now: u64, window: int) -> Seq<u64>
    decreases hits.len(),
{
    if hits.len() == 0 {
        Seq::empty()
    } else if age(now, hits.last()) < window {
        live(hits.drop_last(), now, window).push(hits.last())
    } else {
        live(hits.drop_last(), now, window)
    }
}

impl Limits {
    pub open spec fn empty() -> Limits {
        Limits { hits: Map::empty(), connections: Map::empty() }
    }

    pub open spec fn hits_of(self, subject: Subject, event: Event) -> Seq<u64> {
        if self.hits.contains_key((subject, event)) {
            self.hits[(subject, event)]
        } else {
            Seq::empty()
        }
    }

    pub open spec fn under_limit(self, subject: Subject, event: Event, now: u64) -> bool {
        live(self.hits_of(subject, event), now, event.window()).len() < event.max()
    }

    /// With one more event, and what no longer counts forgotten: of this
    /// subject and event, or of all once there are many.
    pub open spec fn recorded(self, subject: Subject, event: Event, now: u64) -> Limits {
        let key = (subject, event);
        let times = self.hits_of(subject, event).push(now);
        let all = self.hits.insert(key, times);
        Limits {
            hits: if all.dom().len() > PRUNE_THRESHOLD {
                pruned(all, now)
            } else {
                all.insert(key, live(times, now, event.window()))
            },
            ..self
        }
    }

    pub open spec fn connections_of(self, ip: IpAddr) -> nat {
        if self.connections.contains_key(ip.bucketed()) {
            self.connections[ip.bucketed()]
        } else {
            0
        }
    }

    pub open spec fn connected(self, ip: IpAddr) -> Limits {
        Limits {
            connections: self.connections.insert(ip.bucketed(), self.connections_of(ip) + 1),
            ..self
        }
    }

    pub open spec fn disconnected(self, ip: IpAddr) -> Limits {
        let n = self.connections_of(ip);
        Limits {
            connections: if n > 1 {
                self.connections.insert(ip.bucketed(), (n - 1) as nat)
            } else {
                self.connections.remove(ip.bucketed())
            },
            ..self
        }
    }
}

/// Only what still counts.
pub open spec fn pruned(hits: Map<(Subject, Event), Seq<u64>>, now: u64) -> Map<
    (Subject, Event),
    Seq<u64>,
> {
    Map::new(
        |k: (Subject, Event)|
            hits.contains_key(k) && live(hits[k], now, k.1.window()).len() > 0,
        |k: (Subject, Event)| live(hits[k], now, k.1.window()),
    )
}

spec fn hits_map(events: Seq<Hits>) -> Map<(Subject, Event), Seq<u64>>
    decreases events.len(),
{
    if events.len() == 0 {
        Map::empty()
    } else {
        let e = events.last();
        hits_map(events.drop_last()).insert((e.subject, e.event), e.times@)
    }
}

spec fn slots_map(slots: Seq<Slot>) -> Map<IpAddr, nat>
    decreases slots.len(),
{
    if slots.len() == 0 {
        Map::empty()
    } else {
        slots_map(slots.drop_last()).insert(slots.last().ip, slots.last().count as nat)
    }
}

spec fn hits_unique(events: Seq<Hits>) -> bool {
    forall|i: int, j: int|
        0 <= i < j < events.len() ==> (#[trigger] events[i].subject, events[i].event) != (
            #[trigger] events[j].subject,
            events[j].event,
        )
}

spec fn slots_unique(slots: Seq<Slot>) -> bool {
    forall|i: int, j: int|
        0 <= i < j < slots.len() ==> #[trigger] slots[i].ip != #[trigger] slots[j].ip
}

proof fn lemma_hits_map(events: Seq<Hits>)
    requires
        hits_unique(events),
    ensures
        forall|i: int|
            0 <= i < events.len() ==> hits_map(events).contains_key(
                (#[trigger] events[i].subject, events[i].event),
            ) && hits_map(events)[(events[i].subject, events[i].event)] == events[i].times@,
        forall|k: (Subject, Event)| #[trigger]
            hits_map(events).contains_key(k) ==> exists|i: int|
                0 <= i < events.len() && k == (#[trigger] events[i].subject, events[i].event),
        hits_map(events).dom().finite(),
        hits_map(events).dom().len() == events.len(),
    decreases events.len(),
{
    if events.len() > 0 {
        let front = events.drop_last();
        let e = events.last();
        let n = events.len() - 1;
        assert(hits_unique(front)) by {
            assert forall|i: int, j: int| 0 <= i < j < front.len() implies (
                #[trigger] front[i].subject,
                front[i].event,
            ) != (#[trigger] front[j].subject, front[j].event) by {
                assert(events[i].subject == front[i].subject);
                assert(events[j].subject == front[j].subject);
            }
        }
        lemma_hits_map(front);
        let key = (e.subject, e.event);
        assert(!hits_map(front).contains_key(key)) by {
            if hits_map(front).contains_key(key) {
                let i = choose|i: int|
                    0 <= i < front.len() && key == (#[trigger] front[i].subject, front[i].event);
                assert(events[i].subject == front[i].subject);
                assert(events[n].subject == e.subject);
            }
        }
        assert forall|i: int| 0 <= i < events.len() implies hits_map(events).contains_key(
            (#[trigger] events[i].subject, events[i].event),
        ) && hits_map(events)[(events[i].subject, events[i].event)] == events[i].times@ by {
            if i < n {
                assert(front[i].subject == events[i].subject);
                assert(events[n].subject == e.subject);
            }
        }
        assert forall|k: (Subject, Event)| #[trigger]
            hits_map(events).contains_key(k) implies exists|i: int|
            0 <= i < events.len() && k == (#[trigger] events[i].subject, events[i].event) by {
            if k != key {
                assert(hits_map(front).contains_key(k));
                let i = choose|i: int|
                    0 <= i < front.len() && k == (#[trigger] front[i].subject, front[i].event);
                assert(events[i].subject == front[i].subject);
            } else {
                assert(events[n].subject == e.subject);
            }
        }
    }
}

proof fn lemma_slots_map(slots: Seq<Slot>)
    requires
        slots_unique(slots),
    ensures
        forall|i: int|
            0 <= i < slots.len() ==> slots_map(slots).contains_key(#[trigger] slots[i].ip)
                && slots_map(slots)[slots[i].ip] == slots[i].count,
        forall|k: IpAddr| #[trigger]
            slots_map(slots).contains_key(k) ==> exists|i: int|
                0 <= i < slots.len() && k == #[trigger] slots[i].ip,
    decreases slots.len(),
{
    if slots.len() > 0 {
        let front = slots.drop_last();
        let n = slots.len() - 1;
        assert(slots_unique(front)) by {
            assert forall|i: int, j: int| 0 <= i < j < front.len() implies #[trigger] front[i].ip
                != #[trigger] front[j].ip by {
                assert(slots[i].ip == front[i].ip);
                assert(slots[j].ip == front[j].ip);
            }
        }
        lemma_slots_map(front);
        assert forall|i: int| 0 <= i < slots.len() implies slots_map(slots).contains_key(
            #[trigger] slots[i].ip,
        ) && slots_map(slots)[slots[i].ip] == slots[i].count by {
            if i < n {
                assert(front[i].ip == slots[i].ip);
                assert(slots[n].ip == slots.last().ip);
            }
        }
        assert forall|k: IpAddr| #[trigger] slots_map(slots).contains_key(k) implies exists|i: int|
            0 <= i < slots.len() && k == #[trigger] slots[i].ip by {
            if k != slots.last().ip {
                assert(slots_map(front).contains_key(k));
                let i = choose|i: int| 0 <= i < front.len() && k == #[trigger] front[i].ip;
                assert(slots[i].ip == front[i].ip);
            } else {
                assert(slots[n].ip == k);
            }
        }
    }
}

impl View for Limiter {
    type V = Limits;

    closed spec fn view(&self) -> Limits {
        Limits { hits: hits_map(self.events@), connections: slots_map(self.connections@) }
    }
}

impl Default for Limiter {
    fn default() -> (r: Limiter)
        ensures
            r@ == Limits::empty(),
            r.wf(),
    {
        Limiter { events: Vec::new(), connections: Vec::new() }
    }
}

fn retain_live(times: &Vec<u64>, now: u64, window: u64) -> (r: Vec<u64>)
    ensures
        r@ == live(times@, now, window as int),
{
    let mut r: Vec<u64> = Vec::new();
    let mut i: usize = 0;
    while i < times.len()
        invariant
            i <= times@.len(),
            r@ == live(times@.take(i as int), now, window as int),
        decreases times@.len() - i,
    {
        assert(times@.take(i + 1).drop_last() =~= times@.take(i as int));
        let t: u64 = times[i];
        if now.saturating_sub(t) < window {
            r.push(t);
        }
        i += 1;
    }
    assert(times@.take(i as int) =~= times@);
    r
}

impl Limiter {
    pub closed spec fn wf(&self) -> bool {
        &&& hits_unique(self.events@)
        &&& slots_unique(self.connections@)
        &&& forall|i: int|
            0 <= i < self.connections@.len() ==> 1 <= #[trigger] self.connections@[i].count
                <= MAX_CONNECTIONS_PER_IP
    }

    fn find(&self, subject: Subject, event: Event) -> (r: Option<usize>)
        ensures
            match r {
                Some(i) => i < self.events@.len() && self.events@[i as int].subject == subject
                    && self.events@[i as int].event == event,
                None => forall|i: int|
                    0 <= i < self.events@.len() ==> (
                        #[trigger] self.events@[i].subject,
                        self.events@[i].event,
                    ) != (subject, event),
            },
    {
        let mut i: usize = 0;
        while i < self.events.len()
            invariant
                i <= self.events@.len(),
                forall|j: int|
                    0 <= j < i ==> (#[trigger] self.events@[j].subject, self.events@[j].event) != (
                        subject,
                        event,
                    ),
            decreases self.events@.len() - i,
        {
            if self.events[i].subject == subject && self.events[i].event == event {
                return Some(i);
            }
            i += 1;
        }
        None
    }

    /// True if `subject` is still under the limit for `event`.
    pub fn allowed(&self, subject: Subject, event: Event, now: u64) -> (r: bool)
        requires
            self.wf(),
        ensures
            r == self@.under_limit(subject, event, now),
    {
        let (max, window) = event.limit();
        proof {
            lemma_hits_map(self.events@);
        }
        match self.find(subject, event) {
            Some(i) => {
                let times = retain_live(&self.events[i].times, now, window);
                times.len() < max
            },
            None => true,
        }
    }

    pub fn record(&mut self, subject: Subject, event: Event, now: u64)
        requires
            old(self).wf(),
        ensures
            final(self)@ == old(self)@.recorded(subject, event, now),
            final(self).wf(),
    {
        let ghost key = (subject, event);
        let ghost before = self@;
        let ghost times = before.hits_of(subject, event).push(now);
        let ghost all = before.hits.insert(key, times);
        proof {
            lemma_hits_map(self.events@);
        }
        let at: usize = match self.find(subject, event) {
            Some(i) => {
                let ghost old_events = self.events@;
                self.events[i].times.push(now);
                proof {
                    lemma_hits_update(old_events, i as int, self.events@);
                    lemma_hits_map(self.events@);
                }
                i
            },
            None => {
                let mut first: Vec<u64> = Vec::new();
                first.push(now);
                let ghost old_events = self.events@;
                self.events.push(Hits { subject, event, times: first });
                proof {
                    assert(self.events@.drop_last() =~= old_events);
                    assert(times =~= first@);
                    assert(hits_map(self.events@) == all);
                    assert(hits_unique(self.events@)) by {
                        assert forall|a: int, b: int| 0 <= a < b < self.events@.len() implies (
                            #[trigger] self.events@[a].subject,
                            self.events@[a].event,
                        ) != (#[trigger] self.events@[b].subject, self.events@[b].event) by {
                            assert(old_events[a].subject == self.events@[a].subject);
                            if b < old_events.len() {
                                assert(old_events[b].subject == self.events@[b].subject);
                            }
                        }
                    }
                    lemma_hits_map(self.events@);
                }
                self.events.len() - 1
            },
        };
        assert(hits_map(self.events@) =~= all);
        if self.events.len() > PRUNE_THRESHOLD {
            self.prune(now);
            assert(self@ == before.recorded(subject, event, now));
        } else {
            let (_, window) = event.limit();
            let kept = retain_live(&self.events[at].times, now, window);
            let ghost old_events = self.events@;
            self.events[at].times = kept;
            proof {
                lemma_hits_update(old_events, at as int, self.events@);
            }
        }
    }

    /// Forgets everything that no longer counts.
    fn prune(&mut self, now: u64)
        requires
            old(self).wf(),
        ensures
            final(self)@.hits == pruned(old(self)@.hits, now),
            final(self)@.connections == old(self)@.connections,
            final(self).wf(),
    {
        let ghost from = self.events@;
        proof {
            lemma_hits_map(from);
        }
        let mut kept: Vec<Hits> = Vec::new();
        let ghost mut origin: Seq<int> = Seq::empty();
        let mut i: usize = 0;
        while i < self.events.len()
            invariant
                i <= self.events@.len(),
                self.events@ == from,
                self.connections == old(self).connections,
                hits_unique(from),
                origin.len() == kept@.len(),
                forall|j: int| 0 <= j < origin.len() ==> 0 <= #[trigger] origin[j] < i,
                forall|j: int, k: int|
                    0 <= j < k < origin.len() ==> #[trigger] origin[j] < #[trigger] origin[k],
                forall|j: int|
                    0 <= j < kept@.len() ==> (#[trigger] kept@[j]).subject
                        == from[origin[j]].subject && kept@[j].event == from[origin[j]].event
                        && kept@[j].times@ == live(
                        from[origin[j]].times@,
                        now,
                        kept@[j].event.window(),
                    ) && kept@[j].times@.len() > 0,
                forall|j: int|
                    #![trigger from[j]]
                    0 <= j < i && live(from[j].times@, now, from[j].event.window()).len() > 0
                        ==> exists|k: int| 0 <= k < origin.len() && #[trigger] origin[k] == j,
            decreases self.events@.len() - i,
        {
            let (_, window) = self.events[i].event.limit();
            let times = retain_live(&self.events[i].times, now, window);
            if times.len() > 0 {
                let ghost before = origin;
                kept.push(
                    Hits { subject: self.events[i].subject, event: self.events[i].event, times },
                );
                proof {
                    origin = origin.push(i as int);
                    assert(origin[origin.len() - 1] == i);
                    assert forall|j: int|
                        #![trigger from[j]]
                        0 <= j < i + 1 && live(
                            from[j].times@,
                            now,
                            from[j].event.window(),
                        ).len() > 0 implies exists|k: int|
                        0 <= k < origin.len() && #[trigger] origin[k] == j by {
                        if j < i {
                            let k = choose|k: int| 0 <= k < before.len() && #[trigger] before[k] == j;
                            assert(origin[k] == j);
                        }
                    }
                }
            }
            i += 1;
        }
        self.events = kept;
        proof {
            let to = self.events@;
            assert(hits_unique(to)) by {
                assert forall|a: int, b: int| 0 <= a < b < to.len() implies (
                    #[trigger] to[a].subject,
                    to[a].event,
                ) != (#[trigger] to[b].subject, to[b].event) by {
                    assert(origin[a] < origin[b]);
                    assert(from[origin[a]].subject == to[a].subject);
                    assert(from[origin[b]].subject == to[b].subject);
                }
            }
            lemma_hits_map(to);
            let goal = pruned(hits_map(from), now);
            assert forall|k: (Subject, Event)|
                #![trigger goal.contains_key(k)]
                hits_map(to).contains_key(k) == goal.contains_key(k) && (goal.contains_key(k)
                    ==> hits_map(to)[k] == goal[k]) by {
                if hits_map(to).contains_key(k) {
                    let j = choose|j: int|
                        0 <= j < to.len() && k == (#[trigger] to[j].subject, to[j].event);
                    assert(from[origin[j]].subject == to[j].subject);
                }
                if goal.contains_key(k) {
                    assert(hits_map(from).contains_key(k));
                    let j = choose|j: int|
                        0 <= j < from.len() && k == (#[trigger] from[j].subject, from[j].event);
                    assert(hits_map(from)[k] == from[j].times@);
                    let m = choose|m: int| 0 <= m < origin.len() && #[trigger] origin[m] == j;
                    assert(to[m].subject == from[j].subject);
                }
            }
            assert(hits_map(to) =~= goal);
        }
    }
}

/// New times of one entry are new times of its key.
proof fn lemma_hits_update(from: Seq<Hits>, at: int, to: Seq<Hits>)
    requires
        hits_unique(from),
        0 <= at < from.len(),
        to.len() == from.len(),
        forall|i: int|
            0 <= i < from.len() ==> (#[trigger] to[i]).subject == from[i].subject && to[i].event
                == from[i].event,
        forall|i: int| 0 <= i < from.len() && i != at ==> #[trigger] to[i] == from[i],
    ensures
        hits_unique(to),
        hits_map(to) == hits_map(from).insert((to[at].subject, to[at].event), to[at].times@),
{
    assert forall|a: int, b: int| 0 <= a < b < to.len() implies (
        #[trigger] to[a].subject,
        to[a].event,
    ) != (#[trigger] to[b].subject, to[b].event) by {
        assert(from[a].subject == to[a].subject);
        assert(from[b].subject == to[b].subject);
    }
    lemma_hits_map(from);
    lemma_hits_map(to);
    let key = (to[at].subject, to[at].event);
    let m = hits_map(from).insert(key, to[at].times@);
    assert forall|k: (Subject, Event)|
        #![trigger m.contains_key(k)]
        hits_map(to).contains_key(k) == m.contains_key(k) && (m.contains_key(k) ==> hits_map(to)[k]
            == m[k]) by {
        if hits_map(to).contains_key(k) {
            let i = choose|i: int|
                0 <= i < to.len() && k == (#[trigger] to[i].subject, to[i].event);
            assert(from[i].subject == to[i].subject);
        }
        if m.contains_key(k) && k != key {
            assert(hits_map(from).contains_key(k));
            let i = choose|i: int|
                0 <= i < from.len() && k == (#[trigger] from[i].subject, from[i].event);
            assert(to[i].subject == from[i].subject);
        }
    }
    assert(hits_map(to) =~= m);
}

/// A held connection slot of an address.
#[derive(Debug)]
pub struct ConnectionGuard {
    ip: IpAddr,
}

impl ConnectionGuard {
    /// The address whose slot is held.
    pub closed spec fn addr(&self) -> IpAddr {
        self.ip
    }
}

proof fn lemma_slots_update(from: Seq<Slot>, at: int, to: Seq<Slot>)
    requires
        slots_unique(from),
        0 <= at < from.len(),
        to =~= from.update(at, to[at]),
        to[at].ip == from[at].ip,
    ensures
        slots_unique(to),
        slots_map(to) == slots_map(from).insert(to[at].ip, to[at].count as nat),
{
    assert forall|a: int, b: int| 0 <= a < b < to.len() implies #[trigger] to[a].ip
        != #[trigger] to[b].ip by {
        assert(from[a].ip == to[a].ip);
        assert(from[b].ip == to[b].ip);
    }
    lemma_slots_map(from);
    lemma_slots_map(to);
    let m = slots_map(from).insert(to[at].ip, to[at].count as nat);
    assert forall|k: IpAddr|
        #![trigger m.contains_key(k)]
        slots_map(to).contains_key(k) == m.contains_key(k) && (m.contains_key(k) ==> slots_map(
            to,
        )[k] == m[k]) by {
        if slots_map(to).contains_key(k) {
            let i = choose|i: int| 0 <= i < to.len() && k == #[trigger] to[i].ip;
            assert(from[i].ip == to[i].ip);
        }
        if m.contains_key(k) && k != to[at].ip {
            assert(slots_map(from).contains_key(k));
            let i = choose|i: int| 0 <= i < from.len() && k == #[trigger] from[i].ip;
            assert(to[i].ip == from[i].ip);
        }
    }
    assert(slots_map(to) =~= m);
}

proof fn lemma_slots_remove(from: Seq<Slot>, at: int)
    requires
        slots_unique(from),
        0 <= at < from.len(),
    ensures
        slots_unique(from.remove(at)),
        slots_map(from.remove(at)) == slots_map(from).remove(from[at].ip),
{
    let to = from.remove(at);
    assert forall|a: int, b: int| 0 <= a < b < to.len() implies #[trigger] to[a].ip
        != #[trigger] to[b].ip by {
        let x = if a < at { a } else { a + 1 };
        let y = if b < at { b } else { b + 1 };
        assert(from[x].ip == to[a].ip);
        assert(from[y].ip == to[b].ip);
    }
    lemma_slots_map(from);
    lemma_slots_map(to);
    let m = slots_map(from).remove(from[at].ip);
    assert forall|k: IpAddr|
        #![trigger m.contains_key(k)]
        slots_map(to).contains_key(k) == m.contains_key(k) && (m.contains_key(k) ==> slots_map(
            to,
        )[k] == m[k]) by {
        if slots_map(to).contains_key(k) {
            let i = choose|i: int| 0 <= i < to.len() && k == #[trigger] to[i].ip;
            let x = if i < at { i } else { i + 1 };
            assert(from[x].ip == k);
            assert(from[at].ip == from[at].ip);
        }
        if m.contains_key(k) {
            assert(slots_map(from).contains_key(k));
            let i = choose|i: int| 0 <= i < from.len() && k == #[trigger] from[i].ip;
            let x = if i < at { i } else { i - 1 };
            assert(i != at);
            assert(to[x].ip == k);
        }
    }
    assert(slots_map(to) =~= m);
}

impl Limiter {
    fn find_slot(&self, ip: IpAddr) -> (r: Option<usize>)
        ensures
            match r {
                Some(i) => i < self.connections@.len() && self.connections@[i as int].ip == ip,
                None => forall|i: int|
                    0 <= i < self.connections@.len() ==> #[trigger] self.connections@[i].ip != ip,
            },
    {
        let mut i: usize = 0;
        while i < self.connections.len()
            invariant
                i <= self.connections@.len(),
                forall|j: int| 0 <= j < i ==> #[trigger] self.connections@[j].ip != ip,
            decreases self.connections@.len() - i,
        {
            if self.connections[i].ip == ip {
                return Some(i);
            }
            i += 1;
        }
        None
    }

    /// Registers a new connection. Returns `None` if `ip` already has too many.
    pub fn connect(&mut self, ip: IpAddr) -> (r: Option<ConnectionGuard>)
        requires
            old(self).wf(),
        ensures
            final(self).wf(),
            match r {
                Some(guard) => {
                    &&& old(self)@.connections_of(ip) < MAX_CONNECTIONS_PER_IP
                    &&& guard.addr() == ip.bucketed()
                    &&& final(self)@ == old(self)@.connected(ip)
                },
                None => old(self)@.connections_of(ip) >= MAX_CONNECTIONS_PER_IP && final(self)@
                    == old(self)@,
            },
    {
        let ip = bucket(ip);
        let ghost from = self.connections@;
        proof {
            lemma_slots_map(from);
        }
        match self.find_slot(ip) {
            Some(i) => {
                if self.connections[i].count >= MAX_CONNECTIONS_PER_IP {
                    return None;
                }
                self.connections[i].count += 1;
                proof {
                    lemma_slots_update(from, i as int, self.connections@);
                }
            },
            None => {
                self.connections.push(Slot { ip, count: 1 });
                proof {
                    let to = self.connections@;
                    assert(to.drop_last() =~= from);
                    assert forall|a: int, b: int| 0 <= a < b < to.len() implies #[trigger] to[a].ip
                        != #[trigger] to[b].ip by {
                        assert(from[a].ip == to[a].ip);
                        if b < from.len() {
                            assert(from[b].ip == to[b].ip);
                        }
                    }
                }
            },
        }
        Some(ConnectionGuard { ip })
    }

    /// Releases the per-address connection slot when the connection ends.
    pub fn disconnect(&mut self, guard: ConnectionGuard)
        requires
            old(self).wf(),
        ensures
            final(self)@ == old(self)@.disconnected(guard.addr()),
            final(self).wf(),
    {
        let ip = bucket(guard.ip);
        let ghost from = self.connections@;
        proof {
            lemma_slots_map(from);
        }
        match self.find_slot(ip) {
            Some(i) => {
                if self.connections[i].count > 1 {
                    self.connections[i].count -= 1;
                    proof {
                        lemma_slots_update(from, i as int, self.connections@);
                    }
                } else {
                    self.connections.remove(i);
                    proof {
                        lemma_slots_remove(from, i as int);
                    }
                }
            },
            None => {
                assert(slots_map(from).remove(ip) =~= slots_map(from));
            },
        }
    }
}

// ---------------------------------------------------------------- online

/// A connected session, as shown on the "Who's online" screen.
pub struct OnlineEntry {
    pub name: String,
    /// `None` for guests.
    pub user_id: Option<i64>,
    pub role: Role,
    pub since: u64,
    /// What the session is currently doing, e.g. "Reading boards".
    pub activity: &'static str,
}

pub struct OnlineUser {
    pub name: String,
    pub user_id: Option<i64>,
    pub role: Role,
    /// Nanoseconds since the session began.
    pub connected: u64,
    pub activity: &'static str,
}

/// An `OnlineEntry`, for contracts.
pub struct Presence {
    pub name: Seq<char>,
    pub user_id: Option<i64>,
    pub role: Role,
    pub since: u64,
    pub activity: Seq<char>,
}

impl View for OnlineEntry {
    type V = Presence;

    open spec fn view(&self) -> Presence {
        Presence {
            name: self.name@,
            user_id: self.user_id,
            role: self.role,
            since: self.since,
            activity: self.activity@,
        }
    }
}

impl OnlineEntry {
    /// A session that has just begun, at the main menu.
    pub fn new(identity: &Identity, since: u64) -> (r: OnlineEntry)
        ensures
            r@ == (Presence {
                name: identity.shown_name(),
                user_id: identity.account_id(),
                role: if identity.sysop() {
                    Role::Sysop
                } else {
                    Role::User
                },
                since,
                activity: "Main menu"@,
            }),
    {
        OnlineEntry {
            name: identity.display_name().to_owned(),
            user_id: identity.user_id(),
            role: if identity.is_sysop() {
                Role::Sysop
            } else {
                Role::User
            },
            since,
            activity: "Main menu",
        }
    }
}

/// An `OnlineUser`, for contracts.
pub struct Seen {
    pub name: Seq<char>,
    pub user_id: Option<i64>,
    pub role: Role,
    pub connected: int,
    pub activity: Seq<char>,
}

impl View for OnlineUser {
    type V = Seen;

    open spec fn view(&self) -> Seen {
        Seen {
            name: self.name@,
            user_id: self.user_id,
            role: self.role,
            connected: self.connected as int,
            activity: self.activity@,
        }
    }
}

impl Presence {
    pub open spec fn seen(self, now: u64) -> Seen {
        Seen {
            name: self.name,
            user_id: self.user_id,
            role: self.role,
            connected: age(now, self.since),
            activity: self.activity,
        }
    }
}

/// Where one connected for `n` goes: behind all who have been longer, or as
/// long.
pub open spec fn place(users: Seq<Seen>, n: int) -> int
    decreases users.len(),
{
    if users.len() > 0 && users.last().connected < n {
        place(users.drop_last(), n)
    } else {
        users.len() as int
    }
}

/// The sessions, longest connected first; in order of registration among
/// those connected equally long.
pub open spec fn longest_first(entries: Seq<(u64, Presence)>, now: u64) -> Seq<Seen>
    decreases entries.len(),
{
    if entries.len() == 0 {
        Seq::empty()
    } else {
        let before = longest_first(entries.drop_last(), now);
        let user = entries.last().1.seen(now);
        before.insert(place(before, user.connected), user)
    }
}

/// Registry of live sessions. Sessions add themselves with `join` and are
/// removed with `leave`.
pub struct Online {
    next_id: u64,
    entries: Vec<(u64, OnlineEntry)>,
}

/// The sessions that are registered, in order of registration, and the id
/// that the next one gets.
pub struct Registry {
    pub next_id: u64,
    pub entries: Seq<(u64, Presence)>,
}

impl Registry {
    /// Every session has an id of its own, below the next one.
    pub open spec fn wf(self) -> bool {
        &&& forall|i: int| 0 <= i < self.entries.len() ==> (#[trigger] self.entries[i]).0
            < self.next_id
        &&& forall|i: int, j: int|
            0 <= i < j < self.entries.len() ==> (#[trigger] self.entries[i]).0 < (
            #[trigger] self.entries[j]).0
    }

    /// Where `id` stands, or the length.
    pub open spec fn index_of(self, id: u64) -> int {
        if exists|i: int| 0 <= i < self.entries.len() && (#[trigger] self.entries[i]).0 == id {
            choose|i: int| 0 <= i < self.entries.len() && (#[trigger] self.entries[i]).0 == id
        } else {
            self.entries.len() as int
        }
    }

    pub open spec fn contains(self, id: u64) -> bool {
        self.index_of(id) < self.entries.len()
    }
}

/// The sessions of one user, by registry id.
pub open spec fn ids_of(entries: Seq<(u64, Presence)>, user_id: i64) -> Seq<u64>
    decreases entries.len(),
{
    if entries.len() == 0 {
        Seq::empty()
    } else if entries.last().1.user_id == Some(user_id) {
        ids_of(entries.drop_last(), user_id).push(entries.last().0)
    } else {
        ids_of(entries.drop_last(), user_id)
    }
}

/// Sessions of logged-in users: registry id and user.
pub open spec fn users_of(entries: Seq<(u64, Presence)>) -> Seq<(u64, i64)>
    decreases entries.len(),
{
    if entries.len() == 0 {
        Seq::empty()
    } else {
        match entries.last().1.user_id {
            Some(user) => users_of(entries.drop_last()).push((entries.last().0, user)),
            None => users_of(entries.drop_last()),
        }
    }
}

/// A session's entry in the registry.
#[derive(Debug)]
pub struct OnlineGuard {
    id: u64,
}

impl OnlineGuard {
    pub closed spec fn session(&self) -> u64 {
        self.id
    }

    pub fn id(&self) -> (r: u64)
        ensures
            r == self.session(),
    {
        self.id
    }
}

spec fn presences(entries: Seq<(u64, OnlineEntry)>) -> Seq<(u64, Presence)> {
    entries.map_values(|e: (u64, OnlineEntry)| (e.0, e.1@))
}

impl View for Online {
    type V = Registry;

    closed spec fn view(&self) -> Registry {
        Registry { next_id: self.next_id, entries: presences(self.entries@) }
    }
}

impl Default for Online {
    fn default() -> (r: Online)
        ensures
            r@ == (Registry { next_id: 0, entries: Seq::empty() }),
            r.wf(),
    {
        let r = Online { next_id: 0, entries: Vec::new() };
        assert(r@.entries =~= Seq::empty());
        r
    }
}

impl Online {
    pub open spec fn wf(&self) -> bool {
        self@.wf()
    }

    fn find(&self, id: u64) -> (r: Option<usize>)
        requires
            self.wf(),
        ensures
            match r {
                Some(i) => i < self.entries@.len() && i == self@.index_of(id),
                None => self@.index_of(id) == self@.entries.len(),
            },
    {
        let mut i: usize = 0;
        while i < self.entries.len()
            invariant
                i <= self.entries@.len(),
                self.wf(),
                forall|j: int| 0 <= j < i ==> (#[trigger] self@.entries[j]).0 != id,
            decreases self.entries@.len() - i,
        {
            assert(self@.entries[i as int].0 == self.entries@[i as int].0);
            if self.entries[i].0 == id {
                return Some(i);
            }
            i += 1;
        }
        None
    }

    /// Whether there is an id left for another session.
    pub fn has_room(&self) -> (r: bool)
        ensures
            r == (self@.next_id < u64::MAX),
    {
        self.next_id < u64::MAX
    }

    /// Adds a session.
    pub fn join(&mut self, entry: OnlineEntry) -> (r: OnlineGuard)
        requires
            old(self).wf(),
            old(self)@.next_id < u64::MAX,
        ensures
            final(self).wf(),
            r.session() == old(self)@.next_id,
            final(self)@ == (Registry {
                next_id: (old(self)@.next_id + 1) as u64,
                entries: old(self)@.entries.push((old(self)@.next_id, entry@)),
            }),
    {
        let id: u64 = self.next_id;
        self.next_id = id + 1;
        self.entries.push((id, entry));
        proof {
            assert(self@.entries =~= old(self)@.entries.push((id, entry@)));
        }
        OnlineGuard { id }
    }

    /// Removes a session from the registry.
    pub fn leave(&mut self, guard: OnlineGuard)
        requires
            old(self).wf(),
        ensures
            final(self).wf(),
            final(self)@.next_id == old(self)@.next_id,
            final(self)@.entries == (if old(self)@.contains(guard.session()) {
                old(self)@.entries.remove(old(self)@.index_of(guard.session()))
            } else {
                old(self)@.entries
            }),
    {
        match self.find(guard.id) {
            Some(i) => {
                self.entries.remove(i);
                assert(self@.entries =~= old(self)@.entries.remove(i as int));
            },
            None => {},
        }
    }

    /// Notes what a session is doing.
    pub fn set_activity(&mut self, guard: &OnlineGuard, activity: &'static str)
        requires
            old(self).wf(),
        ensures
            final(self).wf(),
            final(self)@.next_id == old(self)@.next_id,
            final(self)@.entries == (if old(self)@.contains(guard.session()) {
                let i = old(self)@.index_of(guard.session());
                old(self)@.entries.update(
                    i,
                    (
                        guard.session(),
                        Presence { activity: activity@, ..old(self)@.entries[i].1 },
                    ),
                )
            } else {
                old(self)@.entries
            }),
    {
        match self.find(guard.id) {
            Some(i) => {
                self.entries[i].1.activity = activity;
                assert(self@.entries =~= old(self)@.entries.update(
                    i as int,
                    (
                        guard.session(),
                        Presence { activity: activity@, ..old(self)@.entries[i as int].1 },
                    ),
                ));
            },
            None => {},
        }
    }

    /// A guest session became a user's.
    pub fn set_identity(&mut self, guard: &OnlineGuard, identity: &Identity)
        requires
            old(self).wf(),
        ensures
            final(self).wf(),
            final(self)@.next_id == old(self)@.next_id,
            final(self)@.entries == (if old(self)@.contains(guard.session()) {
                let i = old(self)@.index_of(guard.session());
                old(self)@.entries.update(
                    i,
                    (
                        guard.session(),
                        Presence {
                            name: identity.shown_name(),
                            user_id: identity.account_id(),
                            role: if identity.sysop() {
                                Role::Sysop
                            } else {
                                Role::User
                            },
                            ..old(self)@.entries[i].1
                        },
                    ),
                )
            } else {
                old(self)@.entries
            }),
    {
        match self.find(guard.id) {
            Some(i) => {
                let name = identity.display_name().to_owned();
                let role = if identity.is_sysop() {
                    Role::Sysop
                } else {
                    Role::User
                };
                self.entries[i].1.name = name;
                self.entries[i].1.user_id = identity.user_id();
                self.entries[i].1.role = role;
                proof {
                    let goal = old(self)@.entries.update(
                        i as int,
                        (
                            guard.session(),
                            Presence {
                                name: identity.shown_name(),
                                user_id: identity.account_id(),
                                role,
                                ..old(self)@.entries[i as int].1
                            },
                        ),
                    );
                    assert(self@.entries =~= goal);
                }
            },
            None => {},
        }
    }

    /// Who is connected, longest connected first.
    pub fn snapshot(&self, now: u64) -> (r: Vec<OnlineUser>)
        ensures
            r@.map_values(|u: OnlineUser| u@) == longest_first(self@.entries, now),
    {
        let mut users: Vec<OnlineUser> = Vec::new();
        let ghost seen = |u: OnlineUser| u@;
        let mut i: usize = 0;
        assert(users@.map_values(seen) =~= longest_first(self@.entries.take(0), now));
        while i < self.entries.len()
            invariant
                i <= self.entries@.len(),
                seen == (|u: OnlineUser| u@),
                users@.map_values(seen) == longest_first(self@.entries.take(i as int), now),
            decreases self.entries@.len() - i,
        {
            let ghost before = users@.map_values(seen);
            assert(self@.entries.take(i + 1).drop_last() =~= self@.entries.take(i as int));
            let e = &self.entries[i].1;
            let user = OnlineUser {
                name: e.name.clone(),
                user_id: e.user_id,
                role: e.role,
                connected: now.saturating_sub(e.since),
                activity: e.activity,
            };
            assert(user@ == self@.entries[i as int].1.seen(now));
            let mut at: usize = users.len();
            assert(before.take(at as int) =~= before);
            while at > 0 && users[at - 1].connected < user.connected
                invariant
                    at <= users@.len(),
                    seen == (|u: OnlineUser| u@),
                    before == users@.map_values(seen),
                    place(before, user@.connected) == place(
                        before.take(at as int),
                        user@.connected,
                    ),
                decreases at,
            {
                assert(before.take(at as int).drop_last() =~= before.take(at - 1));
                assert(before[at - 1] == users@[at - 1]@);
                at -= 1;
            }
            proof {
                if at > 0 {
                    assert(before[at - 1] == users@[at - 1]@);
                }
            }
            users.insert(at, user);
            assert(users@.map_values(seen) =~= before.insert(at as int, user@));
            i += 1;
        }
        assert(self@.entries.take(i as int) =~= self@.entries);
        users
    }

    /// The sessions of one user, by registry id.
    pub fn sessions_of(&self, user_id: i64) -> (r: Vec<u64>)
        ensures
            r@ == ids_of(self@.entries, user_id),
    {
        let mut r: Vec<u64> = Vec::new();
        let mut i: usize = 0;
        while i < self.entries.len()
            invariant
                i <= self.entries@.len(),
                r@ == ids_of(self@.entries.take(i as int), user_id),
            decreases self.entries@.len() - i,
        {
            assert(self@.entries.take(i + 1).drop_last() =~= self@.entries.take(i as int));
            if let Some(id) = self.entries[i].1.user_id {
                if id == user_id {
                    r.push(self.entries[i].0);
                }
            }
            i += 1;
        }
        assert(self@.entries.take(i as int) =~= self@.entries);
        r
    }

    /// Sessions of logged-in users: registry id and user.
    pub fn user_sessions(&self) -> (r: Vec<(u64, i64)>)
        ensures
            r@ == users_of(self@.entries),
    {
        let mut r: Vec<(u64, i64)> = Vec::new();
        let mut i: usize = 0;
        while i < self.entries.len()
            invariant
                i <= self.entries@.len(),
                r@ == users_of(self@.entries.take(i as int)),
            decreases self.entries@.len() - i,
        {
            assert(self@.entries.take(i + 1).drop_last() =~= self@.entries.take(i as int));
            if let Some(id) = self.entries[i].1.user_id {
                r.push((self.entries[i].0, id));
            }
            i += 1;
        }
        assert(self@.entries.take(i as int) =~= self@.entries);
        r
    }
}

} // verus!
