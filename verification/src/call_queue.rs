//! The call queues: their members, their waiting callers, member selection
//! by strategy and penalty, announcements, and the registry of queues.
use crate::queue::{
    available_after, MemberStatus, QueueAnnouncements, QueueCaller, QueueLogEntry, QueueLogEvent,
    QueueMember, QueueRule, QueueStatusVars, QueueStrategy, RealtimeMemberBackend, wrapup_checked,
    ConnectResult, QueueResult, rules_upto,
};
use crate::text::{
    chars_equal, chars_of, decimal, push_decimal, push_str, str_views, string_from_str,
};
use crate::time::{instant_elapsed, instant_now, Duration, NANOS_PER_SEC};
use std::collections::VecDeque;
use vstd::prelude::*;

verus! {

/// A call queue.
#[derive(Debug)]
pub struct CallQueue {
    pub name: String,
    pub strategy: QueueStrategy,
    /// The members, in the order they were added.
    pub members: Vec<QueueMember>,
    /// The waiting callers, first in line first.
    pub callers: VecDeque<QueueCaller>,
    /// How long one member is rung.
    pub member_timeout: Duration,
    /// The pause between ring attempts.
    pub retry_interval: Duration,
    /// The longest a caller waits; zero for no limit.
    pub max_wait_time: Duration,
    /// The most callers waiting; 0 for no limit.
    pub max_callers: usize,
    /// The wrap-up time after a call.
    pub wrap_up_time: Duration,
    pub music_class: String,
    pub weight: u32,
    pub completed_calls: u64,
    pub abandoned_calls: u64,
    /// Where round robin goes on.
    pub rr_index: usize,
    /// The service level threshold.
    pub service_level: Duration,
    pub calls_within_sl: u64,
    pub total_holdtime_secs: u64,
    pub holdtime_call_count: u64,
    pub announcements: QueueAnnouncements,
    /// The penalty rule applied when the caller names none.
    pub default_rule: Option<String>,
    pub persistent_members: bool,
    pub auto_pause: bool,
    pub queue_timeout: Duration,
    /// Callers may join when no member is available.
    pub join_empty: bool,
    /// Callers leave when every member is unavailable.
    pub leave_when_empty: bool,
    pub ring_timeout: Duration,
    /// Queue log entries written by this queue and not yet handed to the
    /// queue log.
    pub pending_log: Vec<QueueLogEntry>,
}

// ---------------------------------------------------------------------------
// Member lookups
// ---------------------------------------------------------------------------

/// Whether some member has the interface.
pub open spec fn has_interface(ms: Seq<QueueMember>, interface: Seq<char>) -> bool {
    exists|i: int| 0 <= i < ms.len() && (#[trigger] ms[i]).interface@ == interface
}

/// The position of the first member with the interface, or -1.
pub open spec fn member_index(ms: Seq<QueueMember>, interface: Seq<char>) -> int
    decreases ms.len(),
{
    if ms.len() == 0 {
        -1
    } else if ms[0].interface@ == interface {
        0
    } else {
        let k = member_index(ms.drop_first(), interface);
        if k < 0 {
            -1
        } else {
            k + 1
        }
    }
}

proof fn lemma_member_index(ms: Seq<QueueMember>, interface: Seq<char>)
    ensures
        -1 <= member_index(ms, interface) < ms.len(),
        member_index(ms, interface) >= 0 ==> ms[member_index(ms, interface)].interface@
            == interface,
        member_index(ms, interface) >= 0 ==> forall|j: int|
            0 <= j < member_index(ms, interface) ==> ms[j].interface@ != interface,
        member_index(ms, interface) < 0 <==> !has_interface(ms, interface),
    decreases ms.len(),
{
    if ms.len() > 0 {
        lemma_member_index(ms.drop_first(), interface);
        if ms[0].interface@ != interface {
            if has_interface(ms, interface) {
                let i = choose|i: int| 0 <= i < ms.len() && (#[trigger] ms[i]).interface@ == interface;
                assert(ms.drop_first()[i - 1] == ms[i]);
            }
            if has_interface(ms.drop_first(), interface) {
                let i = choose|i: int|
                    0 <= i < ms.drop_first().len() && (#[trigger] ms.drop_first()[i]).interface@
                        == interface;
                assert(ms[i + 1] == ms.drop_first()[i]);
            }
            assert forall|j: int| 0 < j < member_index(ms, interface) implies ms[j].interface@
                != interface by {
                assert(ms[j] == ms.drop_first()[j - 1]);
            }
        }
    }
}

fn find_member(ms: &Vec<QueueMember>, interface: &str) -> (r: Option<usize>)
    ensures
        match r {
            Some(i) => member_index(ms@, interface@) == i,
            None => member_index(ms@, interface@) < 0,
        },
{
    proof {
        lemma_member_index(ms@, interface@);
    }
    let want = chars_of(interface);
    let mut i: usize = 0;
    while i < ms.len()
        invariant
            i <= ms.len(),
            want@ == interface@,
            forall|j: int| 0 <= j < i ==> ms@[j].interface@ != interface@,
            -1 <= member_index(ms@, interface@) < ms@.len(),
            member_index(ms@, interface@) < 0 <==> !has_interface(ms@, interface@),
            member_index(ms@, interface@) >= 0 ==> ms@[member_index(ms@, interface@)].interface@
                == interface@,
            member_index(ms@, interface@) >= 0 ==> forall|j: int|
                0 <= j < member_index(ms@, interface@) ==> ms@[j].interface@ != interface@,
        decreases ms.len() - i,
    {
        let have = chars_of(ms[i].interface.as_str());
        if chars_equal(&have, &want) {
            assert(ms@[i as int].interface@ == interface@);
            assert(has_interface(ms@, interface@));
            proof {
                let mi = member_index(ms@, interface@);
                if mi < i {
                    assert(ms@[mi].interface@ != interface@);
                }
                if mi > i {
                    assert(ms@[i as int].interface@ != interface@);
                }
            }
            return Some(i);
        }
        i = i + 1;
    }
    None
}

/// The facts about a member that `QueueMember::new` made for the
/// interface, name and penalty.
pub open spec fn fresh_member(m: QueueMember, interface: Seq<char>, name: Seq<char>, penalty: u32) -> bool {
    &&& m.interface@ == interface
    &&& m.member_name@ == name
    &&& m.penalty == penalty
    &&& !m.paused
    &&& m.pause_reason is None
    &&& !m.in_call
    &&& m.calls_taken == 0
    &&& m.last_call_time is None
    &&& m.status == MemberStatus::Available
    &&& !m.ring_in_use
    &&& m.wrapup_start is None
}

/// The log entry a queue writes for a member event.
pub open spec fn member_log(e: QueueLogEntry, queue: Seq<char>, interface: Seq<char>, event: QueueLogEvent, data: Seq<Seq<char>>) -> bool {
    &&& e.call_id@ == "NONE"@
    &&& e.queue_name@ == queue
    &&& e.agent@ == interface
    &&& e.event == event
    &&& str_views(e.data@) == data
}

/// `q1` is `q0` after `add_member` with the interface, name and penalty
/// returned `r`: the member is added at the end, with the stock settings,
/// and logged, unless one had the interface already.
pub open spec fn member_added(q0: CallQueue, q1: CallQueue, interface: Seq<char>, member_name: Seq<char>, penalty: u32, r: bool) -> bool {
    &&& r == !has_interface(q0.members@, interface)
    &&& r ==> q1.members@.len() == q0.members@.len() + 1 && q1.members@.take(q0.members@.len() as int)
        == q0.members@ && fresh_member(q1.members@.last(), interface, member_name, penalty)
        && !q1.members@.last().dynamic && q1.members@.last().state_interface is None
        && q1.members@.last().wrapup_time is None
    &&& r ==> q1.pending_log@.len() == q0.pending_log@.len() + 1 && member_log(
        q1.pending_log@.last(),
        q0.name@,
        interface,
        QueueLogEvent::AddMember,
        seq![decimal(penalty as nat)],
    )
    &&& !r ==> q1 == q0
    &&& r ==> q1 == (CallQueue { members: q1.members, pending_log: q1.pending_log, ..q0 })
}

/// Whether a member has some other interface than `interface`.
pub open spec fn other_interface(interface: Seq<char>) -> spec_fn(QueueMember) -> bool {
    |m: QueueMember| m.interface@ != interface
}

/// `q1` is `q0` after `remove_member` with the interface returned `r`:
/// every member with the interface is gone, and the removal is logged if
/// there was one.
pub open spec fn member_removed(q0: CallQueue, q1: CallQueue, interface: Seq<char>, r: bool) -> bool {
    &&& r == has_interface(q0.members@, interface)
    &&& q1.members@ == q0.members@.filter(other_interface(interface))
    &&& r ==> q1.pending_log@.len() == q0.pending_log@.len() + 1 && member_log(
        q1.pending_log@.last(),
        q0.name@,
        interface,
        QueueLogEvent::RemoveMember,
        Seq::empty(),
    )
    &&& !r ==> q1.pending_log == q0.pending_log
    &&& q1 == (CallQueue { members: q1.members, pending_log: q1.pending_log, ..q0 })
}

/// `q1` is `q0` after `set_member_paused` with the interface, pause flag
/// and reason returned `r`: the first member with the interface is paused
/// or unpaused with the reason, and that is logged.
pub open spec fn member_paused(q0: CallQueue, q1: CallQueue, interface: Seq<char>, paused: bool, reason: Option<Seq<char>>, r: bool) -> bool {
    &&& r == has_interface(q0.members@, interface)
    &&& !r ==> q1 == q0
    &&& r ==> {
        let i = member_index(q0.members@, interface);
        let m = q1.members@[i];
        &&& q1.members@.len() == q0.members@.len()
        &&& forall|j: int| 0 <= j < q0.members@.len() && j != i ==> q1.members@[j] == q0.members@[j]
        &&& m == (QueueMember { paused: paused, pause_reason: m.pause_reason, ..q0.members@[i] })
        &&& match reason {
            Some(s) => m.pause_reason matches Some(p) && p@ == s,
            None => m.pause_reason is None,
        }
        &&& q1.pending_log@.len() == q0.pending_log@.len() + 1
        &&& member_log(
            q1.pending_log@.last(),
            q0.name@,
            interface,
            if paused {
                QueueLogEvent::Pause
            } else {
                QueueLogEvent::Unpause
            },
            seq![
                match reason {
                    Some(s) => s,
                    None => Seq::<char>::empty(),
                },
            ],
        )
        &&& q1 == (CallQueue { members: q1.members, pending_log: q1.pending_log, ..q0 })
    }
}

/// Every waiting caller's position is its place in line, from 1.
pub open spec fn positions_ok(cs: Seq<QueueCaller>) -> bool {
    forall|i: int| 0 <= i < cs.len() ==> #[trigger] cs[i].position == i + 1
}

/// The callers with their positions set to their places in line.
pub open spec fn renumbered(cs: Seq<QueueCaller>, out: Seq<QueueCaller>) -> bool {
    &&& out.len() == cs.len()
    &&& positions_ok(out)
    &&& forall|i: int|
        0 <= i < cs.len() ==> (#[trigger] out[i]) == (QueueCaller { position: out[i].position, ..cs[i] })
}

/// `q` is a queue as `CallQueue::new` makes it: the name and strategy,
/// no members or callers, and the stock settings.
pub open spec fn is_new_queue(q: CallQueue, name: Seq<char>, strategy: QueueStrategy) -> bool {
    &&& q.name@ == name
    &&& q.strategy == strategy
    &&& q.members@.len() == 0
    &&& q.callers@.len() == 0
    &&& q.member_timeout.nanos == 15 * NANOS_PER_SEC
    &&& q.retry_interval.nanos == 5 * NANOS_PER_SEC
    &&& q.max_wait_time.nanos == 0
    &&& q.max_callers == 0
    &&& q.wrap_up_time.nanos == 0
    &&& q.music_class@ == "default"@
    &&& q.weight == 0
    &&& q.completed_calls == 0
    &&& q.abandoned_calls == 0
    &&& q.rr_index == 0
    &&& q.service_level.nanos == 60 * NANOS_PER_SEC
    &&& q.calls_within_sl == 0
    &&& q.total_holdtime_secs == 0
    &&& q.holdtime_call_count == 0
    &&& q.default_rule is None
    &&& !q.persistent_members
    &&& !q.auto_pause
    &&& q.queue_timeout.nanos == 0
    &&& q.join_empty
    &&& !q.leave_when_empty
    &&& q.ring_timeout.nanos == 15 * NANOS_PER_SEC
    &&& q.pending_log@.len() == 0
    &&& q.announcements.periodic_announce_interval.nanos == 0
    &&& str_views(q.announcements.periodic_announce_files@) == seq!["queue-periodic-announce"@]
    &&& q.announcements.periodic_announce_index == 0
    &&& !q.announcements.announce_position
    &&& q.announcements.announce_position_min == 0
    &&& q.announcements.announce_position_max == 0
    &&& !q.announcements.announce_holdtime
    &&& q.announcements.announce_holdtime_min_secs == 0
    &&& q.announcements.join_sound is None
    &&& q.announcements.leave_sound is None
    &&& q.announcements.agent_announce is None
    &&& !q.announcements.report_holdtime
}

fn decimal_string(n: u64) -> (r: String)
    ensures
        r@ == decimal(n as nat),
{
    let mut s = String::new();
    push_decimal(&mut s, n);
    assert(s@ =~= decimal(n as nat));
    s
}

impl CallQueue {
    /// A queue with the stock settings: 15 s rings, 5 s between attempts,
    /// no wait limit, no caller limit, no wrap-up, 60 s service level,
    /// callers may join an empty queue.
    pub fn new(name: String, strategy: QueueStrategy) -> (r: Self)
        ensures
            r.name == name,
            is_new_queue(r, name@, strategy),
    {
        CallQueue {
            name,
            strategy,
            members: Vec::new(),
            callers: VecDeque::new(),
            member_timeout: Duration::from_secs(15),
            retry_interval: Duration::from_secs(5),
            max_wait_time: Duration { nanos: 0 },
            max_callers: 0,
            wrap_up_time: Duration { nanos: 0 },
            music_class: string_from_str("default"),
            weight: 0,
            completed_calls: 0,
            abandoned_calls: 0,
            rr_index: 0,
            service_level: Duration::from_secs(60),
            calls_within_sl: 0,
            total_holdtime_secs: 0,
            holdtime_call_count: 0,
            announcements: QueueAnnouncements::default(),
            default_rule: None,
            persistent_members: false,
            auto_pause: false,
            queue_timeout: Duration { nanos: 0 },
            join_empty: true,
            leave_when_empty: false,
            ring_timeout: Duration::from_secs(15),
            pending_log: Vec::new(),
        }
    }

    /// The average hold time in whole seconds; 0 before any call.
    pub fn avg_holdtime_secs(&self) -> (r: u64)
        ensures
            r == if self.holdtime_call_count == 0 {
                0
            } else {
                self.total_holdtime_secs / self.holdtime_call_count
            },
    {
        if self.holdtime_call_count == 0 {
            return 0;
        }
        self.total_holdtime_secs / self.holdtime_call_count
    }

    /// The calls counted for the service level: completed and abandoned.
    pub fn service_level_total(&self) -> (r: u64)
        requires
            self.completed_calls + self.abandoned_calls <= u64::MAX,
        ensures
            r == self.completed_calls + self.abandoned_calls,
    {
        self.completed_calls + self.abandoned_calls
    }

    // -----------------------------------------------------------------------
    // Members
    // -----------------------------------------------------------------------

    fn log_member_event(&mut self, interface: &str, event: QueueLogEvent, data: Vec<String>)
        ensures
            final(self).pending_log@.len() == old(self).pending_log@.len() + 1,
            final(self).pending_log@.take(old(self).pending_log@.len() as int)
                == old(self).pending_log@,
            member_log(
                final(self).pending_log@.last(),
                old(self).name@,
                interface@,
                event,
                str_views(data@),
            ),
            *final(self) == (CallQueue { pending_log: final(self).pending_log, ..*old(self) }),
    {
        let e = QueueLogEntry::new("NONE", self.name.as_str(), interface, event, data);
        proof {
            reveal_strlit("NONE");
        }
        let ghost before = self.pending_log@;
        self.pending_log.push(e);
        assert(self.pending_log@.take(before.len() as int) =~= before);
    }

    /// Adds a member with the interface, unless one has it already;
    /// returns whether it was added (and logged as ADDMEMBER).
    pub fn add_member(&mut self, interface: String, member_name: String, penalty: u32) -> (r: bool)
        ensures
            member_added(*old(self), *final(self), interface@, member_name@, penalty, r),
    {
        proof {
            lemma_member_index(self.members@, interface@);
        }
        if find_member(&self.members, interface.as_str()).is_some() {
            return false;
        }
        let iface = interface.clone();
        let m = QueueMember::new(interface, member_name, penalty);
        let ghost before = self.members@;
        self.members.push(m);
        assert(self.members@.take(before.len() as int) =~= before);
        let mut data: Vec<String> = Vec::new();
        data.push(decimal_string(penalty as u64));
        assert(str_views(data@) =~= seq![decimal(penalty as nat)]);
        self.log_member_event(iface.as_str(), QueueLogEvent::AddMember, data);
        true
    }

    /// Adds a dynamic member with the interface, unless one has it already;
    /// returns whether it was added (and logged as ADDMEMBER).
    pub fn add_dynamic_member(
        &mut self,
        interface: String,
        member_name: String,
        penalty: u32,
        state_interface: Option<String>,
        wrapup_time: Option<Duration>,
    ) -> (r: bool)
        ensures
            r == !has_interface(old(self).members@, interface@),
            r ==> final(self).members@.len() == old(self).members@.len() + 1
                && final(self).members@.take(old(self).members@.len() as int)
                == old(self).members@ && fresh_member(
                final(self).members@.last(),
                interface@,
                member_name@,
                penalty,
            ) && final(self).members@.last().dynamic && final(self).members@.last().state_interface
                == state_interface && final(self).members@.last().wrapup_time == wrapup_time,
            r ==> final(self).pending_log@.len() == old(self).pending_log@.len() + 1 && member_log(
                final(self).pending_log@.last(),
                old(self).name@,
                interface@,
                QueueLogEvent::AddMember,
                seq![decimal(penalty as nat)],
            ),
            !r ==> *final(self) == *old(self),
            r ==> *final(self) == (CallQueue {
                members: final(self).members,
                pending_log: final(self).pending_log,
                ..*old(self)
            }),
    {
        proof {
            lemma_member_index(self.members@, interface@);
        }
        if find_member(&self.members, interface.as_str()).is_some() {
            return false;
        }
        let iface = interface.clone();
        let mut m = QueueMember::new(interface, member_name, penalty);
        m.dynamic = true;
        m.state_interface = state_interface;
        m.wrapup_time = wrapup_time;
        let ghost before = self.members@;
        self.members.push(m);
        assert(self.members@.take(before.len() as int) =~= before);
        let mut data: Vec<String> = Vec::new();
        data.push(decimal_string(penalty as u64));
        assert(str_views(data@) =~= seq![decimal(penalty as nat)]);
        self.log_member_event(iface.as_str(), QueueLogEvent::AddMember, data);
        true
    }

    /// Removes every member with the interface; returns whether one was
    /// removed (and logged as REMOVEMEMBER).
    pub fn remove_member(&mut self, interface: &str) -> (r: bool)
        ensures
            member_removed(*old(self), *final(self), interface@, r),
    {
        let want = chars_of(interface);
        let ghost old_members = self.members@;
        let mut kept: Vec<QueueMember> = Vec::new();
        let mut removed = false;
        let mut old_list: Vec<QueueMember> = Vec::new();
        std::mem::swap(&mut old_list, &mut self.members);
        let n = old_list.len();
        while old_list.len() > 0
            invariant
                old_list@.len() <= n,
                n == old_members.len(),
                old_list@ == old_members.skip(n - old_list@.len()),
                want@ == interface@,
                kept@ == old_members.take(n - old_list@.len()).filter(other_interface(interface@)),
                removed == has_interface(old_members.take(n - old_list@.len()), interface@),
            decreases old_list@.len(),
        {
            let ghost i: int = n - old_list@.len();
            let m = old_list.remove(0);
            assert(m == old_members[i]);
            assert(old_list@ =~= old_members.skip(i + 1));
            proof {
                assert(old_members.take(i + 1) =~= old_members.take(i).push(old_members[i]));
                old_members.take(i).lemma_filter_push(old_members[i], other_interface(interface@));
                if has_interface(old_members.take(i), interface@) {
                    let j = choose|j: int| 0 <= j < old_members.take(i).len() && (#[trigger] old_members.take(i)[j]).interface@ == interface@;
                    assert(old_members.take(i + 1)[j] == old_members[j]);
                }
            }
            let have = chars_of(m.interface.as_str());
            if chars_equal(&have, &want) {
                removed = true;
                assert(old_members.take(i + 1)[i] == old_members[i]);
            } else {
                kept.push(m);
                proof {
                    if has_interface(old_members.take(i + 1), interface@) {
                        let j = choose|j: int| 0 <= j < old_members.take(i + 1).len() && (#[trigger] old_members.take(i + 1)[j]).interface@ == interface@;
                        assert(old_members.take(i)[j] == old_members[j]);
                    }
                }
            }
        }
        assert(old_members.take(n as int) =~= old_members);
        self.members = kept;
        if removed {
            let data: Vec<String> = Vec::new();
            assert(str_views(data@) =~= Seq::<Seq<char>>::empty());
            self.log_member_event(interface, QueueLogEvent::RemoveMember, data);
        }
        removed
    }
}


/// The number of members that satisfy `f`.
pub open spec fn count_members(ms: Seq<QueueMember>, f: spec_fn(QueueMember) -> bool) -> nat
    decreases ms.len(),
{
    if ms.len() == 0 {
        0
    } else {
        count_members(ms.drop_last(), f) + if f(ms.last()) {
            1nat
        } else {
            0nat
        }
    }
}

pub open spec fn logged_in(m: QueueMember) -> bool {
    m.status != MemberStatus::Unavailable
}

pub open spec fn free_member(m: QueueMember) -> bool {
    !m.paused && (m.status == MemberStatus::Available || m.status == MemberStatus::WrapUp)
}

/// Surely available: not paused, not on a call, and available.
pub open spec fn ready_member(m: QueueMember) -> bool {
    !m.paused && !m.in_call && m.status == MemberStatus::Available
}

/// Possibly available: not paused, not on a call, available or in
/// wrap-up.
pub open spec fn maybe_ready_member(m: QueueMember) -> bool {
    !m.paused && !m.in_call && (m.status == MemberStatus::Available || m.status
        == MemberStatus::WrapUp)
}

/// The number of members that can take a call, member `i` checked at
/// `elapsed[i]`.
pub open spec fn count_available(ms: Seq<QueueMember>, w: Duration, elapsed: Seq<Duration>) -> nat
    decreases ms.len(),
{
    if ms.len() == 0 {
        0
    } else {
        count_available(ms.drop_last(), w, elapsed.drop_last()) + if available_after(
            ms.last(),
            w,
            elapsed.last(),
        ) {
            1nat
        } else {
            0nat
        }
    }
}

/// Whatever the wrap-up times, the members surely available count, and
/// only those possibly available do.
proof fn lemma_count_available_bounds(ms: Seq<QueueMember>, w: Duration, elapsed: Seq<Duration>)
    requires
        elapsed.len() == ms.len(),
    ensures
        count_members(ms, |m: QueueMember| ready_member(m)) <= count_available(ms, w, elapsed),
        count_available(ms, w, elapsed) <= count_members(ms, |m: QueueMember| maybe_ready_member(m)),
    decreases ms.len(),
{
    if ms.len() > 0 {
        lemma_count_available_bounds(ms.drop_last(), w, elapsed.drop_last());
    }
}

impl CallQueue {
    /// Pauses or unpauses the first member with the interface, with the
    /// reason (logged as PAUSE or UNPAUSE with the reason, or an empty
    /// one); returns whether there was such a member.
    pub fn set_member_paused(&mut self, interface: &str, paused: bool, reason: Option<&str>) -> (r: bool)
        ensures
            member_paused(
                *old(self),
                *final(self),
                interface@,
                paused,
                match reason {
                    Some(s) => Some(s@),
                    None => None,
                },
                r,
            ),
    {
        proof {
            lemma_member_index(self.members@, interface@);
        }
        let i = match find_member(&self.members, interface) {
            Some(i) => i,
            None => {
                return false;
            },
        };
        let ghost before = self.members@;
        let mut m = self.members.remove(i);
        m.paused = paused;
        m.pause_reason = match reason {
            Some(s) => Some(string_from_str(s)),
            None => None,
        };
        self.members.insert(i, m);
        assert forall|j: int| 0 <= j < before.len() && j != i implies self.members@[j] == before[j] by {
        }
        let event = if paused {
            QueueLogEvent::Pause
        } else {
            QueueLogEvent::Unpause
        };
        let mut data: Vec<String> = Vec::new();
        match reason {
            Some(s) => data.push(string_from_str(s)),
            None => data.push(String::new()),
        }
        self.log_member_event(interface, event, data);
        proof {
            let want = match reason {
                Some(s) => s@,
                None => Seq::<char>::empty(),
            };
            assert(str_views(data@) =~= seq![want]);
        }
        true
    }

    /// The number of members not marked unavailable.
    pub fn logged_in_count(&self) -> (r: usize)
        ensures
            r == count_members(self.members@, |m: QueueMember| logged_in(m)),
    {
        let mut c: usize = 0;
        let mut i: usize = 0;
        while i < self.members.len()
            invariant
                i <= self.members@.len(),
                c == count_members(self.members@.take(i as int), |m: QueueMember| logged_in(m)),
                c <= i,
            decreases self.members@.len() - i,
        {
            assert(self.members@.take(i + 1).drop_last() =~= self.members@.take(i as int));
            if self.members[i].status != MemberStatus::Unavailable {
                c = c + 1;
            }
            i = i + 1;
        }
        assert(self.members@.take(self.members@.len() as int) =~= self.members@);
        c
    }

    /// The number of members not paused and available or in wrap-up.
    pub fn free_member_count(&self) -> (r: usize)
        ensures
            r == count_members(self.members@, |m: QueueMember| free_member(m)),
    {
        let mut c: usize = 0;
        let mut i: usize = 0;
        while i < self.members.len()
            invariant
                i <= self.members@.len(),
                c == count_members(self.members@.take(i as int), |m: QueueMember| free_member(m)),
                c <= i,
            decreases self.members@.len() - i,
        {
            assert(self.members@.take(i + 1).drop_last() =~= self.members@.take(i as int));
            let m = &self.members[i];
            if !m.paused && (m.status == MemberStatus::Available || m.status == MemberStatus::WrapUp) {
                c = c + 1;
            }
            i = i + 1;
        }
        assert(self.members@.take(self.members@.len() as int) =~= self.members@);
        c
    }

    /// The number of members who can take a call, member `i` checked at
    /// `elapsed[i]` since its wrap-up began.
    pub fn available_member_count_at(&self, elapsed: &Vec<Duration>) -> (r: usize)
        requires
            elapsed@.len() == self.members@.len(),
        ensures
            r == count_available(self.members@, self.wrap_up_time, elapsed@),
    {
        let ghost ms = self.members@;
        let ghost el = elapsed@;
        let mut c: usize = 0;
        let mut i: usize = 0;
        while i < self.members.len()
            invariant
                i <= ms.len(),
                ms == self.members@,
                el == elapsed@,
                el.len() == ms.len(),
                c == count_available(ms.take(i as int), self.wrap_up_time, el.take(i as int)),
                c <= i,
            decreases ms.len() - i,
        {
            assert(ms.take(i + 1).drop_last() =~= ms.take(i as int));
            assert(el.take(i + 1).drop_last() =~= el.take(i as int));
            if self.members[i].available_at(self.wrap_up_time, elapsed[i]) {
                c = c + 1;
            }
            i = i + 1;
        }
        assert(ms.take(ms.len() as int) =~= ms);
        assert(el.take(el.len() as int) =~= el);
        c
    }

    /// The number of members who can take a call now. The clock decides
    /// the members in wrap-up: the count is the one at some wrap-up times,
    /// so it lies between the members surely available and those possibly
    /// available.
    pub fn available_member_count(&self) -> (r: usize)
        ensures
            exists|elapsed: Seq<Duration>|
                elapsed.len() == self.members@.len() && r == count_available(self.members@, self.wrap_up_time, elapsed),
            count_members(self.members@, |m: QueueMember| ready_member(m)) <= r,
            r <= count_members(self.members@, |m: QueueMember| maybe_ready_member(m)),
    {
        let mut elapsed: Vec<Duration> = Vec::new();
        let mut i: usize = 0;
        while i < self.members.len()
            invariant
                i <= self.members@.len(),
                elapsed@.len() == i,
            decreases self.members@.len() - i,
        {
            let e = match &self.members[i].wrapup_start {
                Some(start) => instant_elapsed(start),
                None => Duration { nanos: 0 },
            };
            elapsed.push(e);
            i = i + 1;
        }
        let r = self.available_member_count_at(&elapsed);
        proof {
            lemma_count_available_bounds(self.members@, self.wrap_up_time, elapsed@);
        }
        r
    }
}


/// Whether a caller is the one on the channel.
pub open spec fn caller_on(c: QueueCaller, channel_id: Seq<char>) -> bool {
    c.channel_id@ == channel_id
}

impl CallQueue {
    /// Sets every waiting caller's position to its place in line.
    fn renumber_callers(&mut self)
        ensures
            renumbered(old(self).callers@, final(self).callers@),
            *final(self) == (CallQueue { callers: final(self).callers, ..*old(self) }),
    {
        let ghost cs = self.callers@;
        let mut rest: VecDeque<QueueCaller> = VecDeque::new();
        std::mem::swap(&mut rest, &mut self.callers);
        let mut out: VecDeque<QueueCaller> = VecDeque::new();
        let n = rest.len();
        while rest.len() > 0
            invariant
                rest@.len() <= n,
                n == cs.len(),
                rest@ == cs.skip(n - rest@.len()),
                out@.len() == n - rest@.len(),
                positions_ok(out@),
                forall|i: int|
                    0 <= i < out@.len() ==> (#[trigger] out@[i]) == (QueueCaller {
                        position: out@[i].position,
                        ..cs[i]
                    }),
            decreases rest@.len(),
        {
            let ghost k: int = n - rest@.len();
            let mut c = match rest.pop_front() {
                Some(c) => c,
                None => {
                    return;
                },
            };
            assert(c == cs[k]);
            assert(rest@ =~= cs.skip(k + 1));
            c.position = out.len() + 1;
            out.push_back(c);
        }
        self.callers = out;
    }

    /// Puts a caller at the end of the line; returns its position.
    pub fn enqueue_caller(&mut self, caller: QueueCaller) -> (r: usize)
        requires
            old(self).callers@.len() < usize::MAX,
        ensures
            r == old(self).callers@.len() + 1,
            final(self).callers@ == old(self).callers@.push(QueueCaller { position: r, ..caller }),
            positions_ok(old(self).callers@) ==> positions_ok(final(self).callers@),
            *final(self) == (CallQueue { callers: final(self).callers, ..*old(self) }),
    {
        let position = self.callers.len() + 1;
        let mut caller = caller;
        caller.position = position;
        self.callers.push_back(caller);
        position
    }

    /// Puts a caller at position `desired_pos` (from 1), or at the end
    /// when that is 0 or past the end, and renumbers the line; returns the
    /// position.
    pub fn enqueue_caller_at(&mut self, caller: QueueCaller, desired_pos: usize) -> (r: usize)
        requires
            old(self).callers@.len() < usize::MAX,
        ensures
            r == if desired_pos == 0 || desired_pos > old(self).callers@.len() + 1 {
                old(self).callers@.len() + 1int
            } else {
                desired_pos as int
            },
            renumbered(old(self).callers@.insert(r - 1, caller), final(self).callers@),
            positions_ok(final(self).callers@),
            final(self).callers@[r - 1] == (QueueCaller { position: r, ..caller }),
            *final(self) == (CallQueue { callers: final(self).callers, ..*old(self) }),
    {
        let len = self.callers.len();
        let pos = if desired_pos == 0 || desired_pos > len + 1 {
            len + 1
        } else {
            desired_pos
        };
        let mut caller = caller;
        caller.position = pos;
        let idx = pos - 1;
        let ghost before = self.callers@;
        let ghost placed = QueueCaller { position: pos, ..caller };
        assert(caller == placed);
        if idx >= len {
            self.callers.push_back(caller);
            assert(self.callers@ =~= before.insert(idx as int, placed));
        } else {
            self.callers.insert(idx, caller);
        }
        assert(self.callers@ == before.insert(idx as int, placed));
        assert(before.insert(idx as int, placed) =~= before.insert(idx as int, QueueCaller { position: placed.position, ..caller }));
        self.renumber_callers();
        proof {
            let fin = self.callers@;
            assert(fin[idx as int] == (QueueCaller { position: fin[idx as int].position, ..before.insert(idx as int, placed)[idx as int] }));
            assert(fin[idx as int].position == idx + 1);
        }
        pos
    }

    /// Takes the first caller out of the line and renumbers the rest.
    pub fn dequeue_caller(&mut self) -> (r: Option<QueueCaller>)
        ensures
            match r {
                Some(c) => old(self).callers@.len() > 0 && c == old(self).callers@[0] && renumbered(
                    old(self).callers@.drop_first(),
                    final(self).callers@,
                ),
                None => old(self).callers@.len() == 0 && final(self).callers@.len() == 0,
            },
            positions_ok(final(self).callers@),
            *final(self) == (CallQueue { callers: final(self).callers, ..*old(self) }),
    {
        let ghost before = self.callers@;
        let c = self.callers.pop_front();
        proof {
            if before.len() > 0 {
                assert(self.callers@ =~= before.drop_first());
            }
        }
        self.renumber_callers();
        c
    }

    /// Takes every caller on the channel out of the line; when one was
    /// there, counts an abandoned call and renumbers the rest. Returns
    /// whether one was there.
    pub fn remove_caller(&mut self, channel_id: &str) -> (r: bool)
        requires
            old(self).abandoned_calls < u64::MAX,
        ensures
            r == exists|i: int|
                0 <= i < old(self).callers@.len() && caller_on(
                    #[trigger] old(self).callers@[i],
                    channel_id@,
                ),
            r ==> final(self).abandoned_calls == old(self).abandoned_calls + 1 && renumbered(
                old(self).callers@.filter(|c: QueueCaller| !caller_on(c, channel_id@)),
                final(self).callers@,
            ),
            !r ==> *final(self) == *old(self),
            r ==> *final(self) == (CallQueue {
                callers: final(self).callers,
                abandoned_calls: final(self).abandoned_calls,
                ..*old(self)
            }),
    {
        let want = chars_of(channel_id);
        let ghost cs = self.callers@;
        let mut found = false;
        let mut j: usize = 0;
        while j < self.callers.len()
            invariant
                j <= cs.len(),
                self.callers@ == cs,
                want@ == channel_id@,
                found == exists|i: int| 0 <= i < j && caller_on(#[trigger] cs[i], channel_id@),
            decreases cs.len() - j,
        {
            let have = chars_of(self.callers[j].channel_id.as_str());
            if chars_equal(&have, &want) {
                found = true;
                assert(caller_on(cs[j as int], channel_id@));
            }
            j = j + 1;
        }
        if !found {
            return false;
        }
        let mut rest: VecDeque<QueueCaller> = VecDeque::new();
        std::mem::swap(&mut rest, &mut self.callers);
        let mut kept: VecDeque<QueueCaller> = VecDeque::new();
        let n = rest.len();
        while rest.len() > 0
            invariant
                rest@.len() <= n,
                n == cs.len(),
                rest@ == cs.skip(n - rest@.len()),
                want@ == channel_id@,
                kept@ == cs.take(n - rest@.len()).filter(|c: QueueCaller| !caller_on(c, channel_id@)),
            decreases rest@.len(),
        {
            let ghost k: int = n - rest@.len();
            let c = match rest.pop_front() {
                Some(c) => c,
                None => {
                    return false;
                },
            };
            assert(c == cs[k]);
            assert(rest@ =~= cs.skip(k + 1));
            proof {
                assert(cs.take(k + 1) =~= cs.take(k).push(cs[k]));
                cs.take(k).lemma_filter_push(cs[k], |c: QueueCaller| !caller_on(c, channel_id@));
            }
            let have = chars_of(c.channel_id.as_str());
            if !chars_equal(&have, &want) {
                kept.push_back(c);
            }
        }
        assert(cs.take(n as int) =~= cs);
        self.callers = kept;
        self.abandoned_calls = self.abandoned_calls + 1;
        self.renumber_callers();
        true
    }
}


// ---------------------------------------------------------------------------
// Member selection
// ---------------------------------------------------------------------------

/// Strictly increasing member positions, all below `n`.
pub open spec fn index_list(a: Seq<usize>, n: nat) -> bool {
    &&& forall|i: int, j: int| 0 <= i < j < a.len() ==> a[i] < a[j]
    &&& forall|i: int| 0 <= i < a.len() ==> a[i] < n
}

/// The lowest penalty among the listed members (0 for none).
pub open spec fn min_penalty_of(ms: Seq<QueueMember>, a: Seq<usize>) -> u32
    decreases a.len(),
{
    if a.len() == 0 {
        0
    } else if a.len() == 1 {
        ms[a[0] as int].penalty
    } else {
        let m = min_penalty_of(ms, a.drop_last());
        if ms[a.last() as int].penalty < m {
            ms[a.last() as int].penalty
        } else {
            m
        }
    }
}

/// The listed members with the lowest penalty, in order.
pub open spec fn lowest_group(ms: Seq<QueueMember>, a: Seq<usize>) -> Seq<usize> {
    a.filter(|i: usize| ms[i as int].penalty == min_penalty_of(ms, a))
}

/// Member `a` comes before member `b` when ringing all: lower penalty
/// first, then list order.
pub open spec fn rings_before(ms: Seq<QueueMember>, a: usize, b: usize) -> bool {
    ms[a as int].penalty < ms[b as int].penalty || (ms[a as int].penalty == ms[b as int].penalty
        && a < b)
}

/// `r` holds the members of `a`, ordered by penalty and then list order.
pub open spec fn ring_all_order(ms: Seq<QueueMember>, a: Seq<usize>, r: Seq<usize>) -> bool {
    &&& r.len() == a.len()
    &&& forall|x: usize| r.contains(x) <==> a.contains(x)
    &&& forall|i: int, j: int| 0 <= i < j < r.len() ==> rings_before(ms, r[i], r[j])
}

/// The first member, in `g`'s order, that has been idle the longest.
pub open spec fn longest_idle(idle: Seq<Duration>, g: Seq<usize>, x: usize) -> bool {
    &&& g.contains(x)
    &&& forall|k: int| 0 <= k < g.len() ==> idle[g[k] as int].nanos <= idle[x as int].nanos
    &&& forall|k: int| 0 <= k < g.len() && g[k] < x ==> idle[g[k] as int].nanos < idle[x as int].nanos
}

/// The first member, in `g`'s order, that has taken the fewest calls.
pub open spec fn fewest_calls(ms: Seq<QueueMember>, g: Seq<usize>, x: usize) -> bool {
    &&& g.contains(x)
    &&& forall|k: int| 0 <= k < g.len() ==> ms[x as int].calls_taken <= ms[g[k] as int].calls_taken
    &&& forall|k: int| 0 <= k < g.len() && g[k] < x ==> ms[x as int].calls_taken < ms[g[k] as int].calls_taken
}

/// The member round robin rings: starting at `start` and going round the
/// `n` members, the first one in `g`.
pub open spec fn rr_from(start: int, n: int, g: Seq<usize>, off: int) -> Option<int>
    decreases n - off,
{
    if off >= n || off < 0 {
        None
    } else if g.contains(((start + off) % n) as usize) {
        Some((start + off) % n)
    } else {
        rr_from(start, n, g, off + 1)
    }
}

/// What the strategy picks from the available members `a` of `ms`, given
/// how long each member has been idle, a position drawn at random in the
/// lowest-penalty group, and the round-robin position.
pub open spec fn picked(
    ms: Seq<QueueMember>,
    strategy: QueueStrategy,
    rr_index: usize,
    a: Seq<usize>,
    idle: Seq<Duration>,
    random_pick: usize,
    r: Seq<usize>,
) -> bool {
    let g = lowest_group(ms, a);
    if a.len() == 0 {
        r.len() == 0
    } else {
        match strategy {
            QueueStrategy::RingAll => ring_all_order(ms, a, r),
            QueueStrategy::LeastRecent => r.len() == 1 && longest_idle(idle, g, r[0]),
            QueueStrategy::FewestCalls => r.len() == 1 && fewest_calls(ms, g, r[0]),
            QueueStrategy::Random => random_pick < g.len() && r == seq![g[random_pick as int]],
            QueueStrategy::RoundRobin => match rr_from(
                (rr_index as int) % (ms.len() as int),
                ms.len() as int,
                g,
                0,
            ) {
                Some(x) => r == seq![x as usize],
                None => r.len() == 0,
            },
            QueueStrategy::Linear => r == seq![g[0]],
        }
    }
}

/// The members after each one's wrap-up is checked, member `i` at
/// `elapsed[i]` since its wrap-up began.
pub open spec fn expired_members(ms: Seq<QueueMember>, queue_wrapup: Duration, elapsed: Seq<Duration>) -> Seq<QueueMember> {
    Seq::new(ms.len(), |i: int| wrapup_checked(ms[i], queue_wrapup, elapsed[i]).0)
}

/// Member `m` can take a call at `elapsed` and its penalty lies in
/// `min_penalty..=max_penalty`.
pub open spec fn eligible(m: QueueMember, queue_wrapup: Duration, elapsed: Duration, max_penalty: u32, min_penalty: u32) -> bool {
    available_after(m, queue_wrapup, elapsed) && min_penalty <= m.penalty && m.penalty <= max_penalty
}

/// `a` lists, in order, the positions of the eligible members.
pub open spec fn eligible_list(
    ms: Seq<QueueMember>,
    queue_wrapup: Duration,
    elapsed: Seq<Duration>,
    max_penalty: u32,
    min_penalty: u32,
    a: Seq<usize>,
) -> bool {
    &&& index_list(a, ms.len())
    &&& forall|j: usize| j < ms.len() ==> (a.contains(j) <==> eligible(ms[j as int], queue_wrapup, elapsed[j as int], max_penalty, min_penalty))
}

/// One selection: wrap-ups are checked at `elapsed`, the eligible members
/// `a` are listed, and the strategy picks `r` from them; round robin moves
/// on past its choice. Nothing else changes.
pub open spec fn selection(
    q: CallQueue,
    max_penalty: u32,
    min_penalty: u32,
    elapsed: Seq<Duration>,
    idle: Seq<Duration>,
    random_pick: usize,
    a: Seq<usize>,
    q2: CallQueue,
    r: Seq<usize>,
) -> bool {
    let ms = expired_members(q.members@, q.wrap_up_time, elapsed);
    &&& elapsed.len() == q.members@.len()
    &&& idle.len() == q.members@.len()
    &&& q2.members@ == ms
    &&& eligible_list(ms, q.wrap_up_time, elapsed, max_penalty, min_penalty, a)
    &&& picked(ms, q.strategy, q.rr_index, a, idle, random_pick, r)
    &&& q2.rr_index == if q.strategy == QueueStrategy::RoundRobin && r.len() == 1 {
        (r[0] + 1) as usize
    } else {
        q.rr_index
    }
    &&& q2 == (CallQueue { members: q2.members, rr_index: q2.rr_index, ..q })
}

proof fn lemma_min_penalty(ms: Seq<QueueMember>, a: Seq<usize>)
    requires
        a.len() > 0,
        forall|i: int| 0 <= i < a.len() ==> a[i] < ms.len(),
    ensures
        exists|i: int| 0 <= i < a.len() && ms[a[i] as int].penalty == min_penalty_of(ms, a),
        forall|i: int| 0 <= i < a.len() ==> min_penalty_of(ms, a) <= ms[a[i] as int].penalty,
    decreases a.len(),
{
    if a.len() > 1 {
        lemma_min_penalty(ms, a.drop_last());
        let w = choose|i: int| 0 <= i < a.drop_last().len() && ms[a.drop_last()[i] as int].penalty == min_penalty_of(ms, a.drop_last());
        assert(a.drop_last()[w] == a[w]);
        assert forall|i: int| 0 <= i < a.len() implies min_penalty_of(ms, a) <= ms[a[i] as int].penalty by {
            if i < a.len() - 1 {
                assert(a.drop_last()[i] == a[i]);
            }
        }
        if ms[a.last() as int].penalty < min_penalty_of(ms, a.drop_last()) {
            assert(ms[a[a.len() - 1] as int].penalty == min_penalty_of(ms, a));
        } else {
            assert(ms[a[w] as int].penalty == min_penalty_of(ms, a));
        }
    } else {
        assert(ms[a[0] as int].penalty == min_penalty_of(ms, a));
    }
}

fn contains_index(g: &Vec<usize>, x: usize) -> (r: bool)
    ensures
        r == g@.contains(x),
{
    let mut i: usize = 0;
    while i < g.len()
        invariant
            i <= g@.len(),
            forall|j: int| 0 <= j < i ==> g@[j] != x,
        decreases g@.len() - i,
    {
        if g[i] == x {
            assert(g@[i as int] == x);
            return true;
        }
        i = i + 1;
    }
    false
}

/// A random choice below `n`.
/// Calls `rand::seq::SliceRandom::shuffle` with `rand::thread_rng` on the
/// positions `0..n` (built here) and takes the first; the choice is
/// random and only its range is promised.
#[verifier::external_body]
fn shuffled_first(n: usize) -> (r: usize)
    requires
        n > 0,
    ensures
        r < n,
{
    let mut order: Vec<usize> = (0..n).collect();
    rand::seq::SliceRandom::shuffle(order.as_mut_slice(), &mut rand::thread_rng());
    order[0]
}

impl CallQueue {
    /// The available members with the lowest penalty, in order.
    pub fn lowest_penalty_group(&self, available: &Vec<usize>) -> (r: Vec<usize>)
        requires
            index_list(available@, self.members@.len()),
        ensures
            r@ == lowest_group(self.members@, available@),
            index_list(r@, self.members@.len()),
            available@.len() > 0 ==> r@.len() > 0,
    {
        let ghost ms = self.members@;
        let ghost a = available@;
        if available.len() == 0 {
            let r: Vec<usize> = Vec::new();
            assert(a.filter(|i: usize| ms[i as int].penalty == min_penalty_of(ms, a)) =~= Seq::<usize>::empty()) by {
                assert(a =~= Seq::<usize>::empty());
            }
            return r;
        }
        let mut m: u32 = self.members[available[0]].penalty;
        let mut k: usize = 1;
        assert(a.take(1).drop_last() =~= Seq::<usize>::empty());
        while k < available.len()
            invariant
                1 <= k <= a.len(),
                a == available@,
                ms == self.members@,
                index_list(a, ms.len()),
                m == min_penalty_of(ms, a.take(k as int)),
            decreases a.len() - k,
        {
            assert(a.take(k + 1).drop_last() =~= a.take(k as int));
            let p = self.members[available[k]].penalty;
            if p < m {
                m = p;
            }
            k = k + 1;
        }
        assert(a.take(a.len() as int) =~= a);
        let mut r: Vec<usize> = Vec::new();
        let mut i: usize = 0;
        while i < available.len()
            invariant
                i <= a.len(),
                a == available@,
                ms == self.members@,
                index_list(a, ms.len()),
                m == min_penalty_of(ms, a),
                r@ == a.take(i as int).filter(|x: usize| ms[x as int].penalty == min_penalty_of(ms, a)),
                index_list(r@, ms.len()),
                i < a.len() ==> forall|t: int| 0 <= t < r@.len() ==> r@[t] < a[i as int],
            decreases a.len() - i,
        {
            proof {
                assert(a.take(i + 1) =~= a.take(i as int).push(a[i as int]));
                a.take(i as int).lemma_filter_push(a[i as int], |x: usize| ms[x as int].penalty == min_penalty_of(ms, a));
            }
            let x = available[i];
            if self.members[x].penalty == m {
                r.push(x);
            }
            i = i + 1;
        }
        assert(a.take(a.len() as int) =~= a);
        proof {
            lemma_min_penalty(ms, a);
            let w = choose|w: int| 0 <= w < a.len() && ms[a[w] as int].penalty == min_penalty_of(ms, a);
            a.lemma_filter_contains(|x: usize| ms[x as int].penalty == min_penalty_of(ms, a), w);
        }
        r
    }

    /// The available members ordered for ringing all: penalty, then list
    /// order.
    fn ring_all(&self, available: &Vec<usize>) -> (r: Vec<usize>)
        requires
            index_list(available@, self.members@.len()),
        ensures
            ring_all_order(self.members@, available@, r@),
    {
        let ghost ms = self.members@;
        let ghost a = available@;
        let mut sorted: Vec<usize> = Vec::new();
        let mut k: usize = 0;
        while k < available.len()
            invariant
                k <= a.len(),
                a == available@,
                ms == self.members@,
                index_list(a, ms.len()),
                sorted@.len() == k,
                forall|x: usize| sorted@.contains(x) <==> a.take(k as int).contains(x),
                forall|i: int, j: int| 0 <= i < j < sorted@.len() ==> rings_before(ms, sorted@[i], sorted@[j]),
                forall|i: int| 0 <= i < sorted@.len() ==> sorted@[i] < ms.len(),
                k < a.len() ==> forall|i: int| 0 <= i < sorted@.len() ==> sorted@[i] < a[k as int],
            decreases a.len() - k,
        {
            let x = available[k];
            let p = self.members[x].penalty;
            let mut j: usize = 0;
            while j < sorted.len() && self.members[sorted[j]].penalty <= p
                invariant
                    j <= sorted@.len(),
                    ms == self.members@,
                    forall|i: int| 0 <= i < sorted@.len() ==> sorted@[i] < ms.len(),
                    forall|i: int| 0 <= i < j ==> ms[sorted@[i] as int].penalty <= p,
                decreases sorted@.len() - j,
            {
                j = j + 1;
            }
            let ghost before = sorted@;
            proof {
                // members after position j have a higher penalty than x
                assert forall|i: int| j <= i < before.len() implies ms[before[i] as int].penalty > p by {
                    if j < before.len() {
                        assert(ms[before[j as int] as int].penalty > p);
                        if i > j {
                            assert(rings_before(ms, before[j as int], before[i]));
                        }
                    }
                }
            }
            sorted.insert(j, x);
            proof {
                let s = sorted@;
                assert(s == before.insert(j as int, x));
                assert forall|i: int| 0 <= i < s.len() implies s[i] < ms.len() by {
                    if i < j {
                        assert(s[i] == before[i]);
                    } else if i > j {
                        assert(s[i] == before[i - 1]);
                    }
                }
                assert forall|i: int, l: int| 0 <= i < l < s.len() implies rings_before(ms, s[i], s[l]) by {
                    if l < j {
                        assert(s[i] == before[i] && s[l] == before[l]);
                    } else if l == j {
                        assert(s[i] == before[i]);
                        assert(before[i] < x);
                    } else if i == j {
                        assert(s[l] == before[l - 1]);
                    } else if i < j {
                        assert(s[i] == before[i] && s[l] == before[l - 1]);
                    } else {
                        assert(s[i] == before[i - 1] && s[l] == before[l - 1]);
                    }
                }
                assert(a.take(k + 1) =~= a.take(k as int).push(x));
                assert forall|y: usize| s.contains(y) <==> a.take(k + 1).contains(y) by {
                    lemma_insert_contains(before, j as int, x, y);
                    lemma_push_contains(a.take(k as int), x, y);
                }
                if k + 1 < a.len() {
                    assert forall|i: int| 0 <= i < s.len() implies s[i] < a[k + 1] by {
                        if i == j {
                            assert(x == a[k as int]);
                        } else if i < j {
                            assert(s[i] == before[i]);
                        } else {
                            assert(s[i] == before[i - 1]);
                        }
                    }
                }
            }
            k = k + 1;
        }
        assert(a.take(a.len() as int) =~= a);
        sorted
    }

    /// The first member of the group idle the longest.
    fn pick_longest_idle(&self, g: &Vec<usize>, idle: &Vec<Duration>) -> (r: usize)
        requires
            g@.len() > 0,
            index_list(g@, idle@.len()),
        ensures
            longest_idle(idle@, g@, r),
    {
        let mut bi: usize = 0;
        let mut best = g[0];
        let mut i: usize = 1;
        while i < g.len()
            invariant
                1 <= i <= g@.len(),
                index_list(g@, idle@.len()),
                bi < i,
                best == g@[bi as int],
                best < idle@.len(),
                forall|k: int| 0 <= k < i ==> idle@[g@[k] as int].nanos <= idle@[best as int].nanos,
                forall|k: int| 0 <= k < i && g@[k] < best ==> idle@[g@[k] as int].nanos < idle@[best as int].nanos,
            decreases g@.len() - i,
        {
            let x = g[i];
            if idle[x].nanos > idle[best].nanos {
                best = x;
                bi = i;
            }
            i = i + 1;
        }
        assert(g@.contains(g@[bi as int]));
        best
    }

    /// The first member of the group with the fewest calls.
    fn pick_fewest_calls(&self, g: &Vec<usize>) -> (r: usize)
        requires
            g@.len() > 0,
            index_list(g@, self.members@.len()),
        ensures
            fewest_calls(self.members@, g@, r),
    {
        let ghost ms = self.members@;
        let mut bi: usize = 0;
        let mut best = g[0];
        let mut i: usize = 1;
        while i < g.len()
            invariant
                1 <= i <= g@.len(),
                ms == self.members@,
                index_list(g@, ms.len()),
                bi < i,
                best == g@[bi as int],
                best < ms.len(),
                forall|k: int| 0 <= k < i ==> ms[best as int].calls_taken <= ms[g@[k] as int].calls_taken,
                forall|k: int| 0 <= k < i && g@[k] < best ==> ms[best as int].calls_taken < ms[g@[k] as int].calls_taken,
            decreases g@.len() - i,
        {
            let x = g[i];
            if self.members[x].calls_taken < self.members[best].calls_taken {
                best = x;
                bi = i;
            }
            i = i + 1;
        }
        assert(g@.contains(g@[bi as int]));
        best
    }

    /// The strategy's choice among the available members, given how long
    /// each member has been idle and, for the random strategy, a position
    /// in the lowest-penalty group. Round robin moves on past its choice.
    pub fn pick_members(&mut self, available: &Vec<usize>, idle: &Vec<Duration>, random_pick: usize) -> (r: Vec<usize>)
        requires
            index_list(available@, old(self).members@.len()),
            idle@.len() == old(self).members@.len(),
            old(self).strategy == QueueStrategy::Random && available@.len() > 0 ==> random_pick
                < lowest_group(old(self).members@, available@).len(),
        ensures
            picked(old(self).members@, old(self).strategy, old(self).rr_index, available@, idle@, random_pick, r@),
            old(self).strategy == QueueStrategy::RoundRobin && r@.len() == 1 ==> final(self).rr_index
                == r@[0] + 1,
            *final(self) == (CallQueue { rr_index: final(self).rr_index, ..*old(self) }),
            !(old(self).strategy == QueueStrategy::RoundRobin && r@.len() == 1) ==> *final(self)
                == *old(self),
    {
        let ghost ms = self.members@;
        if available.len() == 0 {
            return Vec::new();
        }
        let g = self.lowest_penalty_group(available);
        match self.strategy {
            QueueStrategy::RingAll => self.ring_all(available),
            QueueStrategy::LeastRecent => {
                let x = self.pick_longest_idle(&g, idle);
                let r = vec![x];
                r
            },
            QueueStrategy::FewestCalls => {
                let x = self.pick_fewest_calls(&g);
                let r = vec![x];
                r
            },
            QueueStrategy::Random => {
                let r = vec![g[random_pick]];
                assert(r@ =~= seq![g@[random_pick as int]]);
                r
            },
            QueueStrategy::Linear => {
                let r = vec![g[0]];
                assert(r@ =~= seq![g@[0]]);
                r
            },
            QueueStrategy::RoundRobin => {
                let n = self.members.len();
                let start = self.rr_index % n;
                let mut off: usize = 0;
                while off < n
                    invariant
                        n == ms.len(),
                        n > 0,
                        start == self.rr_index % n,
                        start < n,
                        off <= n,
                        rr_from(start as int, n as int, g@, 0) == rr_from(start as int, n as int, g@, off as int),
                        ms == self.members@,
                        *self == *old(self),
                        old(self).strategy == QueueStrategy::RoundRobin,
                        available@.len() > 0,
                        g@ == lowest_group(ms, available@),
                    decreases n - off,
                {
                    let idx = if off < n - start {
                        start + off
                    } else {
                        off - (n - start)
                    };
                    assert(idx == (start + off) % (n as int)) by (nonlinear_arith)
                        requires
                            start < n,
                            off < n,
                            idx == if off < n - start { start + off } else { off - (n - start) },
                    ;
                    if contains_index(&g, idx) {
                        assert(rr_from(start as int, n as int, g@, off as int) == Some(idx as int));
                        self.rr_index = idx + 1;
                        let r = vec![idx];
                        assert(r@ =~= seq![idx]);
                        return r;
                    }
                    off = off + 1;
                }
                assert(rr_from(start as int, n as int, g@, n as int) == None::<int>);
                Vec::new()
            },
        }
    }
}

impl CallQueue {
    /// Checks every member's wrap-up, member `i` at `elapsed[i]` since it
    /// began: finished wrap-ups make their members available again.
    pub fn expire_wrapups_at(&mut self, elapsed: &Vec<Duration>)
        requires
            elapsed@.len() == old(self).members@.len(),
        ensures
            final(self).members@ == expired_members(old(self).members@, old(self).wrap_up_time, elapsed@),
            *final(self) == (CallQueue { members: final(self).members, ..*old(self) }),
    {
        let ghost before = self.members@;
        let n = self.members.len();
        let mut i: usize = 0;
        while i < n
            invariant
                i <= n,
                n == before.len(),
                elapsed@.len() == n,
                self.members@.len() == n,
                forall|j: int| 0 <= j < i ==> self.members@[j] == wrapup_checked(before[j], self.wrap_up_time, elapsed@[j]).0,
                forall|j: int| i <= j < n ==> self.members@[j] == before[j],
                *self == (CallQueue { members: self.members, ..*old(self) }),
            decreases n - i,
        {
            let w = self.wrap_up_time;
            let ghost mid = self.members@;
            let mut m = self.members.remove(i);
            m.expire_wrapup_at(w, elapsed[i]);
            self.members.insert(i, m);
            assert forall|j: int| 0 <= j < n && j != i implies self.members@[j] == mid[j] by {}
            i = i + 1;
        }
        assert(self.members@ =~= expired_members(before, self.wrap_up_time, elapsed@));
    }

    /// The positions, in order, of the members who can take a call at
    /// `elapsed` (member `i` at `elapsed[i]` since its wrap-up began) with a
    /// penalty in `min_penalty..=max_penalty`.
    pub fn available_members_at(&self, max_penalty: u32, min_penalty: u32, elapsed: &Vec<Duration>) -> (r: Vec<usize>)
        requires
            elapsed@.len() == self.members@.len(),
        ensures
            eligible_list(self.members@, self.wrap_up_time, elapsed@, max_penalty, min_penalty, r@),
    {
        let ghost ms = self.members@;
        let n = self.members.len();
        let mut r: Vec<usize> = Vec::new();
        let mut i: usize = 0;
        while i < n
            invariant
                i <= n,
                n == ms.len(),
                ms == self.members@,
                elapsed@.len() == n,
                index_list(r@, n as nat),
                forall|t: int| 0 <= t < r@.len() ==> r@[t] < i,
                forall|j: usize| j < i ==> (r@.contains(j) <==> eligible(ms[j as int], self.wrap_up_time, elapsed@[j as int], max_penalty, min_penalty)),
            decreases n - i,
        {
            let m = &self.members[i];
            let ok = m.available_at(self.wrap_up_time, elapsed[i]) && min_penalty <= m.penalty && m.penalty <= max_penalty;
            let ghost before = r@;
            if ok {
                r.push(i);
            }
            proof {
                assert forall|j: usize| j < i + 1 implies (r@.contains(j) <==> eligible(ms[j as int], self.wrap_up_time, elapsed@[j as int], max_penalty, min_penalty)) by {
                    if ok {
                        lemma_push_contains(before, i, j);
                    }
                    if j == i && before.contains(j) {
                        let t = choose|t: int| 0 <= t < before.len() && before[t] == j;
                        assert(before[t] < i);
                    }
                }
            }
            i = i + 1;
        }
        r
    }

    /// Picks the members to ring: wrap-ups that are over end, the members
    /// who can take a call with a penalty in `min_penalty..=max_penalty`
    /// are gathered, and the strategy picks among them. The clock decides
    /// the wrap-ups and idle times, and chance the random strategy's pick:
    /// the result is a selection for some such times and draw.
    pub fn select_members_with_penalty(&mut self, max_penalty: u32, min_penalty: u32) -> (r: Vec<usize>)
        ensures
            exists|elapsed: Seq<Duration>, idle: Seq<Duration>, k: usize, a: Seq<usize>|
                selection(*old(self), max_penalty, min_penalty, elapsed, idle, k, a, *final(self), r@),
    {
        let n = self.members.len();
        let mut elapsed: Vec<Duration> = Vec::new();
        let mut idle: Vec<Duration> = Vec::new();
        let mut i: usize = 0;
        while i < n
            invariant
                i <= n,
                n == self.members@.len(),
                elapsed@.len() == i,
                idle@.len() == i,
            decreases n - i,
        {
            let m = &self.members[i];
            let e = match &m.wrapup_start {
                Some(start) => instant_elapsed(start),
                None => Duration { nanos: 0 },
            };
            let d = match &m.last_call_time {
                Some(t) => instant_elapsed(t),
                None => Duration::from_secs(u64::MAX),
            };
            elapsed.push(e);
            idle.push(d);
            i = i + 1;
        }
        let ghost q = *self;
        self.expire_wrapups_at(&elapsed);
        let available = self.available_members_at(max_penalty, min_penalty, &elapsed);
        let mut k: usize = 0;
        if available.len() > 0 {
            match self.strategy {
                QueueStrategy::Random => {
                    let g = self.lowest_penalty_group(&available);
                    k = shuffled_first(g.len());
                },
                _ => {},
            }
        }
        let ghost mid = *self;
        let r = self.pick_members(&available, &idle, k);
        assert(selection(q, max_penalty, min_penalty, elapsed@, idle@, k, available@, *self, r@));
        r
    }

    /// Picks the members to ring, whatever their penalty.
    pub fn select_members(&mut self) -> (r: Vec<usize>)
        ensures
            exists|elapsed: Seq<Duration>, idle: Seq<Duration>, k: usize, a: Seq<usize>|
                selection(*old(self), u32::MAX, 0, elapsed, idle, k, a, *final(self), r@),
    {
        self.select_members_with_penalty(u32::MAX, 0)
    }
}

// ---------------------------------------------------------------------------
// Announcements
// ---------------------------------------------------------------------------

/// The periodic announcement step for caller `caller_idx` when `due` says
/// whether its interval has passed: the next file in turn is returned, the
/// turn moves on and the caller's last announcement is set; otherwise
/// nothing happens.
pub open spec fn periodic_step(q: CallQueue, caller_idx: usize, due: bool, q2: CallQueue, r: Option<String>) -> bool {
    let files = q.announcements.periodic_announce_files@;
    if q.announcements.periodic_announce_interval.nanos == 0 || caller_idx >= q.callers@.len()
        || !due || files.len() == 0 {
        r is None && q2 == q
    } else {
        let idx = (q.announcements.periodic_announce_index as int) % (files.len() as int);
        let c = q2.callers@[caller_idx as int];
        &&& r matches Some(f) && f@ == files[idx]@
        &&& q2.announcements == (QueueAnnouncements {
            periodic_announce_index: (idx + 1) as usize,
            ..q.announcements
        })
        &&& q2.callers@.len() == q.callers@.len()
        &&& c == (QueueCaller { last_periodic_announce: c.last_periodic_announce, ..q.callers@[caller_idx as int] })
        &&& c.last_periodic_announce is Some
        &&& forall|j: int| 0 <= j < q.callers@.len() && j != caller_idx ==> q2.callers@[j] == q.callers@[j]
        &&& q2 == (CallQueue { callers: q2.callers, announcements: q2.announcements, ..q })
    }
}

/// The position announcement text for a caller at `pos`.
pub open spec fn position_text(q: CallQueue, pos: usize) -> Seq<char> {
    if q.announcements.announce_position_max > 0 && pos > q.announcements.announce_position_max {
        "You are experiencing a high call volume."@
    } else {
        "You are caller number "@ + decimal(pos as nat) + "."@
    }
}

/// The average hold time in whole seconds.
pub open spec fn avg_holdtime(q: CallQueue) -> int {
    if q.holdtime_call_count == 0 {
        0
    } else {
        (q.total_holdtime_secs / q.holdtime_call_count) as int
    }
}

/// The hold time announcement for an average of `avg` seconds, rounded to
/// the nearest minute.
pub open spec fn holdtime_text(avg: int) -> Seq<char> {
    let minutes = (avg + 30) / 60;
    if minutes == 0 {
        "Your call should be answered shortly."@
    } else if minutes == 1 {
        "The expected wait time is less than one minute."@
    } else {
        "The expected wait time is approximately "@ + decimal(minutes as nat) + " minutes."@
    }
}

impl CallQueue {
    /// The periodic announcement step with `due` saying whether the
    /// caller's interval has passed and `now` the time it is played.
    pub fn periodic_announce_at(&mut self, caller_idx: usize, due: bool, now: std::time::Instant) -> (r: Option<String>)
        ensures
            periodic_step(*old(self), caller_idx, due, *final(self), r),
            r is Some ==> final(self).callers@[caller_idx as int].last_periodic_announce == Some(now),
    {
        if self.announcements.periodic_announce_interval.is_zero() {
            return None;
        }
        if caller_idx >= self.callers.len() {
            return None;
        }
        if !due {
            return None;
        }
        let n = self.announcements.periodic_announce_files.len();
        if n == 0 {
            return None;
        }
        let idx = self.announcements.periodic_announce_index % n;
        let file = string_from_str(self.announcements.periodic_announce_files[idx].as_str());
        self.announcements.periodic_announce_index = idx + 1;
        let ghost before = self.callers@;
        let mut c = match self.callers.remove(caller_idx) {
            Some(c) => c,
            None => {
                return None;
            },
        };
        c.last_periodic_announce = Some(now);
        self.callers.insert(caller_idx, c);
        assert forall|j: int| 0 <= j < before.len() && j != caller_idx implies self.callers@[j] == before[j] by {}
        Some(file)
    }

    /// Returns the next periodic announcement for caller `caller_idx` if
    /// its interval has passed since its last one (or since it joined),
    /// and notes that it was played. The clock decides whether it is due.
    pub fn check_periodic_announce(&mut self, caller_idx: usize) -> (r: Option<String>)
        ensures
            exists|due: bool| periodic_step(*old(self), caller_idx, due, *final(self), r),
    {
        if caller_idx >= self.callers.len() {
            let r = None;
            assert(periodic_step(*old(self), caller_idx, false, *self, r));
            return r;
        }
        let interval = self.announcements.periodic_announce_interval;
        let c = &self.callers[caller_idx];
        let elapsed = match &c.last_periodic_announce {
            Some(last) => instant_elapsed(last),
            None => instant_elapsed(&c.enter_time),
        };
        let due = elapsed.nanos >= interval.nanos;
        let now = instant_now();
        self.periodic_announce_at(caller_idx, due, now)
    }

    /// The position announcement for caller `caller_idx`: none when turned
    /// off, for no such caller, or while fewer callers wait than the
    /// minimum; a high-volume notice past the highest position announced.
    pub fn position_announcement(&self, caller_idx: usize) -> (r: Option<String>)
        ensures
            (!self.announcements.announce_position || caller_idx >= self.callers@.len() || (
            self.announcements.announce_position_min > 0 && self.callers@.len()
                < self.announcements.announce_position_min)) ==> r is None,
            !(!self.announcements.announce_position || caller_idx >= self.callers@.len() || (
            self.announcements.announce_position_min > 0 && self.callers@.len()
                < self.announcements.announce_position_min)) ==> (r matches Some(t) && t@
                == position_text(*self, self.callers@[caller_idx as int].position)),
    {
        if !self.announcements.announce_position {
            return None;
        }
        if caller_idx >= self.callers.len() {
            return None;
        }
        let pos = self.callers[caller_idx].position;
        if self.announcements.announce_position_min > 0 && self.callers.len()
            < self.announcements.announce_position_min {
            return None;
        }
        if self.announcements.announce_position_max > 0 && pos > self.announcements.announce_position_max {
            return Some(string_from_str("You are experiencing a high call volume."));
        }
        let mut t = string_from_str("You are caller number ");
        push_decimal(&mut t, pos as u64);
        push_str(&mut t, ".");
        Some(t)
    }

    /// The hold time announcement: none when turned off or when the
    /// average hold time is below the minimum announced.
    pub fn holdtime_announcement(&self) -> (r: Option<String>)
        requires
            self.announcements.announce_holdtime && avg_holdtime(*self)
                >= self.announcements.announce_holdtime_min_secs ==> avg_holdtime(*self) + 30
                <= u64::MAX,
        ensures
            (!self.announcements.announce_holdtime || avg_holdtime(*self)
                < self.announcements.announce_holdtime_min_secs) ==> r is None,
            (self.announcements.announce_holdtime && avg_holdtime(*self)
                >= self.announcements.announce_holdtime_min_secs) ==> (r matches Some(t) && t@
                == holdtime_text(avg_holdtime(*self))),
    {
        if !self.announcements.announce_holdtime {
            return None;
        }
        let avg = self.avg_holdtime_secs();
        if avg < self.announcements.announce_holdtime_min_secs {
            return None;
        }
        let minutes = (avg + 30) / 60;
        if minutes == 0 {
            Some(string_from_str("Your call should be answered shortly."))
        } else if minutes == 1 {
            Some(string_from_str("The expected wait time is less than one minute."))
        } else {
            let mut t = string_from_str("The expected wait time is approximately ");
            push_decimal(&mut t, minutes);
            push_str(&mut t, " minutes.");
            Some(t)
        }
    }
}

// ---------------------------------------------------------------------------
// Realtime members
// ---------------------------------------------------------------------------

/// The members after merging in `rt` in order: each one whose interface is
/// not yet there is added at the end.
pub open spec fn merged(ms: Seq<QueueMember>, rt: Seq<QueueMember>) -> Seq<QueueMember>
    decreases rt.len(),
{
    if rt.len() == 0 {
        ms
    } else {
        let before = merged(ms, rt.drop_last());
        if has_interface(before, rt.last().interface@) {
            before
        } else {
            before.push(rt.last())
        }
    }
}

impl CallQueue {
    /// Adds the members of `rt`, in order, whose interfaces are not yet in
    /// the queue.
    pub fn merge_realtime_members(&mut self, rt: Vec<QueueMember>)
        ensures
            final(self).members@ == merged(old(self).members@, rt@),
            *final(self) == (CallQueue { members: final(self).members, ..*old(self) }),
    {
        let ghost all = rt@;
        let ghost ms0 = self.members@;
        let n = rt.len();
        let mut rest = rt;
        let mut i: usize = 0;
        while i < n
            invariant
                i <= n,
                n == all.len(),
                rest@ == all.skip(i as int),
                self.members@ == merged(ms0, all.take(i as int)),
                *self == (CallQueue { members: self.members, ..*old(self) }),
            decreases n - i,
        {
            assert(all.take(i + 1).drop_last() =~= all.take(i as int));
            assert(rest@[0] == all[i as int]);
            let m = rest.remove(0);
            assert(rest@ =~= all.skip(i + 1));
            proof {
                lemma_member_index(self.members@, m.interface@);
            }
            match find_member(&self.members, m.interface.as_str()) {
                Some(_) => {},
                None => {
                    self.members.push(m);
                },
            }
            i = i + 1;
        }
        assert(all.take(n as int) =~= all);
    }

    /// Loads the queue's members from a realtime backend and merges them
    /// in. The backend decides what is loaded.
    pub fn load_realtime_members<B: RealtimeMemberBackend>(&mut self, backend: &B)
        ensures
            exists|rt: Seq<QueueMember>| final(self).members@ == merged(old(self).members@, rt),
            *final(self) == (CallQueue { members: final(self).members, ..*old(self) }),
    {
        let rt = backend.load_members(self.name.as_str());
        self.merge_realtime_members(rt);
    }
}

// ---------------------------------------------------------------------------
// The decisions of a caller's stay in a queue
// ---------------------------------------------------------------------------

/// Whether a caller is turned away on joining: the queue is full, or it
/// has no members and callers may not join an empty queue.
pub open spec fn join_refused(q: CallQueue) -> bool {
    (q.max_callers > 0 && q.callers@.len() >= q.max_callers) || (!q.join_empty && q.members@.len() == 0)
}

/// Every member is unavailable or paused.
pub open spec fn all_members_away(ms: Seq<QueueMember>) -> bool {
    forall|i: int| 0 <= i < ms.len() ==> ms[i].status == MemberStatus::Unavailable || ms[i].paused
}

/// How the wait ends at this check, if it does: the caller hung up, the
/// caller's timeout or the queue's longest wait has passed, or every
/// member has left a queue that callers leave when empty.
pub open spec fn wait_outcome_spec(q: CallQueue, caller_down: bool, waited: Duration, timeout: Duration) -> Option<QueueResult> {
    if caller_down {
        Some(QueueResult::Abandoned)
    } else if timeout.nanos != 0 && waited.nanos >= timeout.nanos {
        Some(QueueResult::Timeout)
    } else if q.max_wait_time.nanos != 0 && waited.nanos >= q.max_wait_time.nanos {
        Some(QueueResult::Timeout)
    } else if q.leave_when_empty && all_members_away(q.members@) && q.members@.len() > 0 {
        Some(QueueResult::LeaveEmpty)
    } else {
        None
    }
}

/// How a wait ends, check by check: a caller who hung up has abandoned;
/// otherwise, once either the caller's own timeout or the queue's longest
/// wait (each when set) has passed, the wait times out, whichever of the
/// two it is; a queue left without members that callers leave when empty
/// sends the caller away; and the wait goes on only when none of these
/// holds.
pub proof fn lemma_wait_outcome(q: CallQueue, caller_down: bool, waited: Duration, timeout: Duration)
    ensures
        caller_down ==> wait_outcome_spec(q, caller_down, waited, timeout) == Some(QueueResult::Abandoned),
        !caller_down && q.max_wait_time.nanos != 0 && waited.nanos >= q.max_wait_time.nanos
            ==> wait_outcome_spec(q, caller_down, waited, timeout) == Some(QueueResult::Timeout),
        !caller_down && timeout.nanos != 0 && waited.nanos >= timeout.nanos
            ==> wait_outcome_spec(q, caller_down, waited, timeout) == Some(QueueResult::Timeout),
        wait_outcome_spec(q, caller_down, waited, timeout) is None <==> {
            &&& !caller_down
            &&& timeout.nanos == 0 || waited.nanos < timeout.nanos
            &&& q.max_wait_time.nanos == 0 || waited.nanos < q.max_wait_time.nanos
            &&& !(q.leave_when_empty && q.members@.len() > 0 && forall|i: int|
                0 <= i < q.members@.len() ==> q.members@[i].status == MemberStatus::Unavailable
                    || q.members@[i].paused)
        },
        wait_outcome_spec(q, caller_down, waited, timeout) == Some(QueueResult::LeaveEmpty) ==> {
            &&& !caller_down
            &&& q.leave_when_empty
            &&& q.members@.len() > 0
        },
{
}

/// The position of the first waiting caller on the channel, or none.
pub open spec fn caller_index_spec(cs: Seq<QueueCaller>, channel_id: Seq<char>) -> Option<int> {
    if exists|i: int| 0 <= i < cs.len() && caller_on(#[trigger] cs[i], channel_id) {
        Some(choose|i: int| 0 <= i < cs.len() && caller_on(#[trigger] cs[i], channel_id) && forall|j: int| 0 <= j < i ==> !caller_on(cs[j], channel_id))
    } else {
        None
    }
}

/// The log entry a queue writes for a caller event.
pub open spec fn caller_log(e: QueueLogEntry, call_id: Seq<char>, queue: Seq<char>, agent: Seq<char>, event: QueueLogEvent, data: Seq<Seq<char>>) -> bool {
    &&& e.call_id@ == call_id
    &&& e.queue_name@ == queue
    &&& e.agent@ == agent
    &&& e.event == event
    &&& str_views(e.data@) == data
}

/// `q1` is `q0` with one more log entry, which `f` describes.
pub open spec fn logged_one(q0: CallQueue, q1: CallQueue) -> bool {
    &&& q1.pending_log@.len() == q0.pending_log@.len() + 1
    &&& q1.pending_log@.take(q0.pending_log@.len() as int) == q0.pending_log@
}

impl CallQueue {
    fn log_caller_event(&mut self, call_id: &str, agent: &str, event: QueueLogEvent, data: Vec<String>)
        ensures
            logged_one(*old(self), *final(self)),
            caller_log(final(self).pending_log@.last(), call_id@, old(self).name@, agent@, event, str_views(data@)),
            *final(self) == (CallQueue { pending_log: final(self).pending_log, ..*old(self) }),
    {
        let e = QueueLogEntry::new(call_id, self.name.as_str(), agent, event, data);
        let ghost before = self.pending_log@;
        self.pending_log.push(e);
        assert(self.pending_log@.take(before.len() as int) =~= before);
    }

    /// Whether a caller is turned away on joining (with JOINEMPTY).
    pub fn join_refused(&self) -> (r: bool)
        ensures
            r == join_refused(*self),
    {
        (self.max_callers > 0 && self.callers.len() >= self.max_callers) || (!self.join_empty
            && self.members.len() == 0)
    }

    /// Puts a joining caller in line, at the position asked for or at the
    /// end, and logs ENTERQUEUE with the caller's number; returns the
    /// position.
    pub fn join(&mut self, caller: QueueCaller, desired_position: Option<usize>, caller_number: &str) -> (r: usize)
        requires
            old(self).callers@.len() < usize::MAX,
        ensures
            match desired_position {
                Some(p) => r == (if p == 0 || p > old(self).callers@.len() + 1 {
                    old(self).callers@.len() + 1int
                } else {
                    p as int
                }) && renumbered(old(self).callers@.insert(r - 1, caller), final(self).callers@),
                None => r == old(self).callers@.len() + 1 && final(self).callers@ == old(self).callers@.push(
                    QueueCaller { position: r, ..caller },
                ),
            },
            logged_one(*old(self), *final(self)),
            caller_log(
                final(self).pending_log@.last(),
                caller.channel_id@,
                old(self).name@,
                "NONE"@,
                QueueLogEvent::EnterQueue,
                seq![Seq::<char>::empty(), caller_number@],
            ),
            *final(self) == (CallQueue {
                callers: final(self).callers,
                pending_log: final(self).pending_log,
                ..*old(self)
            }),
    {
        let id = string_from_str(caller.channel_id.as_str());
        let pos = match desired_position {
            Some(p) => self.enqueue_caller_at(caller, p),
            None => self.enqueue_caller(caller),
        };
        let mut data: Vec<String> = Vec::new();
        data.push(String::new());
        data.push(string_from_str(caller_number));
        proof {
            reveal_strlit("NONE");
            assert(str_views(data@) =~= seq![Seq::<char>::empty(), caller_number@]);
        }
        self.log_caller_event(id.as_str(), "NONE", QueueLogEvent::EnterQueue, data);
        pos
    }

    /// Whether the wait ends at this check, given whether the caller hung
    /// up, how long it has waited and its own timeout (zero for none).
    pub fn wait_outcome(&self, caller_down: bool, waited: Duration, timeout: Duration) -> (r: Option<QueueResult>)
        ensures
            r == wait_outcome_spec(*self, caller_down, waited, timeout),
    {
        if caller_down {
            return Some(QueueResult::Abandoned);
        }
        if !timeout.is_zero() && waited.nanos >= timeout.nanos {
            return Some(QueueResult::Timeout);
        }
        if !self.max_wait_time.is_zero() && waited.nanos >= self.max_wait_time.nanos {
            return Some(QueueResult::Timeout);
        }
        if self.leave_when_empty {
            let mut all_away = true;
            let mut i: usize = 0;
            while i < self.members.len()
                invariant
                    i <= self.members@.len(),
                    all_away == forall|j: int| 0 <= j < i ==> self.members@[j].status == MemberStatus::Unavailable || self.members@[j].paused,
                decreases self.members@.len() - i,
            {
                let m = &self.members[i];
                if !(m.status == MemberStatus::Unavailable || m.paused) {
                    all_away = false;
                }
                i = i + 1;
            }
            if all_away && self.members.len() > 0 {
                return Some(QueueResult::LeaveEmpty);
            }
        }
        None
    }

    /// The position in line of the first caller on the channel.
    pub fn caller_index(&self, channel_id: &str) -> (r: Option<usize>)
        ensures
            match r {
                Some(i) => i < self.callers@.len() && caller_index_spec(self.callers@, channel_id@) == Some(i as int),
                None => caller_index_spec(self.callers@, channel_id@) is None,
            },
    {
        let ghost cs = self.callers@;
        let want = chars_of(channel_id);
        let mut i: usize = 0;
        while i < self.callers.len()
            invariant
                i <= cs.len(),
                cs == self.callers@,
                want@ == channel_id@,
                forall|j: int| 0 <= j < i ==> !caller_on(cs[j], channel_id@),
            decreases cs.len() - i,
        {
            let have = chars_of(self.callers[i].channel_id.as_str());
            if chars_equal(&have, &want) {
                proof {
                    let k = choose|k: int| 0 <= k < cs.len() && caller_on(#[trigger] cs[k], channel_id@) && forall|j: int| 0 <= j < k ==> !caller_on(cs[j], channel_id@);
                    assert(caller_on(cs[i as int], channel_id@));
                    if k < i {
                        assert(!caller_on(cs[k], channel_id@));
                    }
                    if k > i {
                        assert(!caller_on(cs[i as int], channel_id@));
                    }
                }
                return Some(i);
            }
            i = i + 1;
        }
        None
    }

    /// Logs ABANDON for the caller on the channel: its position (twice;
    /// 0 when it is no longer in line) and how long it waited.
    pub fn log_abandon(&mut self, channel_id: &str, waited_secs: u64)
        ensures
            logged_one(*old(self), *final(self)),
            ({
                let pos: nat = match caller_index_spec(old(self).callers@, channel_id@) {
                    Some(i) => old(self).callers@[i].position as nat,
                    None => 0,
                };
                caller_log(
                    final(self).pending_log@.last(),
                    channel_id@,
                    old(self).name@,
                    "NONE"@,
                    QueueLogEvent::Abandon,
                    seq![decimal(pos), decimal(pos), decimal(waited_secs as nat)],
                )
            }),
            *final(self) == (CallQueue { pending_log: final(self).pending_log, ..*old(self) }),
    {
        let pos: usize = match self.caller_index(channel_id) {
            Some(i) => self.callers[i].position,
            None => 0,
        };
        let mut data: Vec<String> = Vec::new();
        data.push(decimal_string(pos as u64));
        data.push(decimal_string(pos as u64));
        data.push(decimal_string(waited_secs));
        proof {
            reveal_strlit("NONE");
            assert(str_views(data@) =~= seq![decimal(pos as nat), decimal(pos as nat), decimal(waited_secs as nat)]);
        }
        self.log_caller_event(channel_id, "NONE", QueueLogEvent::Abandon, data);
    }

    /// Marks the members being rung as ringing.
    pub fn mark_ringing(&mut self, members: &Vec<usize>)
        ensures
            final(self).members@.len() == old(self).members@.len(),
            forall|i: int| 0 <= i < old(self).members@.len() ==> #[trigger] final(self).members@[i] == if members@.contains(i as usize) {
                QueueMember { status: MemberStatus::Ringing, ..old(self).members@[i] }
            } else {
                old(self).members@[i]
            },
            *final(self) == (CallQueue { members: final(self).members, ..*old(self) }),
    {
        self.set_members_status(members, MemberStatus::Ringing);
    }

    /// Marks the members that were rung as available again.
    pub fn clear_ringing(&mut self, members: &Vec<usize>)
        ensures
            final(self).members@.len() == old(self).members@.len(),
            forall|i: int| 0 <= i < old(self).members@.len() ==> #[trigger] final(self).members@[i] == if members@.contains(i as usize) {
                QueueMember { status: MemberStatus::Available, ..old(self).members@[i] }
            } else {
                old(self).members@[i]
            },
            *final(self) == (CallQueue { members: final(self).members, ..*old(self) }),
    {
        self.set_members_status(members, MemberStatus::Available);
    }

    fn set_members_status(&mut self, members: &Vec<usize>, status: MemberStatus)
        ensures
            final(self).members@.len() == old(self).members@.len(),
            forall|i: int| 0 <= i < old(self).members@.len() ==> #[trigger] final(self).members@[i] == if members@.contains(i as usize) {
                QueueMember { status: status, ..old(self).members@[i] }
            } else {
                old(self).members@[i]
            },
            *final(self) == (CallQueue { members: final(self).members, ..*old(self) }),
    {
        let ghost before = self.members@;
        let n = self.members.len();
        let mut i: usize = 0;
        while i < n
            invariant
                i <= n,
                n == before.len(),
                self.members@.len() == n,
                forall|j: int| 0 <= j < n ==> #[trigger] self.members@[j] == if members@.contains(j as usize) && j < i {
                    QueueMember { status: status, ..before[j] }
                } else {
                    before[j]
                },
                *self == (CallQueue { members: self.members, ..*old(self) }),
            decreases n - i,
        {
            if contains_index(members, i) {
                let ghost mid = self.members@;
                let mut m = self.members.remove(i);
                m.status = status;
                self.members.insert(i, m);
                assert forall|j: int| 0 <= j < n && j != i implies self.members@[j] == mid[j] by {}
            }
            i = i + 1;
        }
    }

    /// Settles a connect attempt for the caller on the channel after
    /// `waited`: a connected call is counted (completed, hold time, within
    /// the service level) and logged as CONNECT, and the queue is done; a
    /// member that was busy or did not answer is logged as RINGNOANSWER
    /// and the wait goes on; a caller that hung up has abandoned.
    pub fn after_connect(&mut self, result: ConnectResult, channel_id: &str, waited: Duration) -> (r: Option<QueueResult>)
        requires
            result == ConnectResult::Connected ==> old(self).completed_calls < u64::MAX
                && old(self).holdtime_call_count < u64::MAX && old(self).calls_within_sl < u64::MAX
                && old(self).total_holdtime_secs + waited.nanos / NANOS_PER_SEC <= u64::MAX,
            (result == ConnectResult::MemberBusy || result == ConnectResult::MemberNoAnswer)
                ==> old(self).ring_timeout.nanos / NANOS_PER_SEC <= u64::MAX,
        ensures
            result == ConnectResult::Connected ==> {
                let secs = waited.nanos / NANOS_PER_SEC;
                &&& r == Some(QueueResult::Completed)
                &&& final(self).completed_calls == old(self).completed_calls + 1
                &&& final(self).total_holdtime_secs == old(self).total_holdtime_secs + secs
                &&& final(self).holdtime_call_count == old(self).holdtime_call_count + 1
                &&& final(self).calls_within_sl == old(self).calls_within_sl + if waited.nanos
                    <= old(self).service_level.nanos {
                    1int
                } else {
                    0
                }
                &&& logged_one(*old(self), *final(self))
                &&& caller_log(
                    final(self).pending_log@.last(),
                    channel_id@,
                    old(self).name@,
                    "agent"@,
                    QueueLogEvent::Connect,
                    seq![decimal(secs as nat), "bridged_channel"@, "0"@],
                )
                &&& *final(self) == (CallQueue {
                    completed_calls: final(self).completed_calls,
                    total_holdtime_secs: final(self).total_holdtime_secs,
                    holdtime_call_count: final(self).holdtime_call_count,
                    calls_within_sl: final(self).calls_within_sl,
                    pending_log: final(self).pending_log,
                    ..*old(self)
                })
            },
            (result == ConnectResult::MemberBusy || result == ConnectResult::MemberNoAnswer) ==> {
                &&& r is None
                &&& logged_one(*old(self), *final(self))
                &&& caller_log(
                    final(self).pending_log@.last(),
                    channel_id@,
                    old(self).name@,
                    "agent"@,
                    QueueLogEvent::RingNoAnswer,
                    seq![decimal((old(self).ring_timeout.nanos / NANOS_PER_SEC) as nat)],
                )
                &&& *final(self) == (CallQueue { pending_log: final(self).pending_log, ..*old(self) })
            },
            result == ConnectResult::CallerHangup ==> r == Some(QueueResult::Abandoned) && *final(self)
                == *old(self),
    {
        proof {
            reveal_strlit("agent");
        }
        match result {
            ConnectResult::Connected => {
                let secs_wide = waited.nanos / NANOS_PER_SEC;
                let secs: u64 = secs_wide as u64;
                self.completed_calls = self.completed_calls + 1;
                self.total_holdtime_secs = self.total_holdtime_secs + secs;
                self.holdtime_call_count = self.holdtime_call_count + 1;
                if waited.nanos <= self.service_level.nanos {
                    self.calls_within_sl = self.calls_within_sl + 1;
                }
                let mut data: Vec<String> = Vec::new();
                data.push(decimal_string(secs));
                data.push(string_from_str("bridged_channel"));
                data.push(string_from_str("0"));
                assert(str_views(data@) =~= seq![decimal(secs as nat), "bridged_channel"@, "0"@]);
                self.log_caller_event(channel_id, "agent", QueueLogEvent::Connect, data);
                Some(QueueResult::Completed)
            },
            ConnectResult::MemberBusy | ConnectResult::MemberNoAnswer => {
                let ring_secs = self.ring_timeout.nanos / NANOS_PER_SEC;
                let mut data: Vec<String> = Vec::new();
                data.push(decimal_string(ring_secs as u64));
                assert(str_views(data@) =~= seq![decimal(ring_secs as nat)]);
                self.log_caller_event(channel_id, "agent", QueueLogEvent::RingNoAnswer, data);
                None
            },
            ConnectResult::CallerHangup => Some(QueueResult::Abandoned),
        }
    }

    /// The status variables Queue() sets when it ends with `result` after
    /// the caller waited `wait_secs`.
    pub fn status_vars(&self, result: QueueResult, wait_secs: u64, answered_time: u64) -> (r: QueueStatusVars)
        ensures
            r.queue_status@ == result.status_text(),
            r.queue_name@ == self.name@,
            r.queue_position == 0,
            r.queue_holdtime == avg_holdtime(*self),
            r.queue_completed == self.completed_calls,
            r.queue_abandoned == self.abandoned_calls,
            r.queue_wait == wait_secs,
            r.answered_time == answered_time,
    {
        QueueStatusVars {
            queue_status: string_from_str(result.as_status_var()),
            queue_name: string_from_str(self.name.as_str()),
            queue_position: 0,
            queue_holdtime: self.avg_holdtime_secs(),
            queue_completed: self.completed_calls,
            queue_abandoned: self.abandoned_calls,
            queue_wait: wait_secs,
            answered_time,
        }
    }
}

impl QueueRegistry {
    /// The penalty range after waiting `waited_secs`: from the caller's
    /// rule set if it named one (no limits when there is no such set),
    /// else from the queue's default rule set, else no limits.
    pub fn penalty_range(&self, rule_name: Option<&str>, default_rule: Option<&str>, waited_secs: u64) -> (r: (u32, u32))
        requires
            self.wf(),
        ensures
            r == match rule_name {
                Some(n) => match self.rule_set(n@) {
                    Some(rs) => rules_upto(rs, rs.len() as int, waited_secs),
                    None => (u32::MAX, 0u32),
                },
                None => match default_rule {
                    Some(n) => match self.rule_set(n@) {
                        Some(rs) => rules_upto(rs, rs.len() as int, waited_secs),
                        None => (u32::MAX, 0u32),
                    },
                    None => (u32::MAX, 0u32),
                },
            },
    {
        let name = match rule_name {
            Some(n) => n,
            None => match default_rule {
                Some(n) => n,
                None => {
                    return (u32::MAX, 0);
                },
            },
        };
        match self.rules_for(name) {
            Some(rs) => QueueRule::evaluate_rules(rs.as_slice(), waited_secs),
            None => (u32::MAX, 0),
        }
    }
}

/// Adding a member with a new interface and removing that interface again
/// leaves the members as they were, and the removal reports it found the
/// member.
pub proof fn lemma_add_then_remove_member(
    q0: CallQueue,
    q1: CallQueue,
    q2: CallQueue,
    interface: Seq<char>,
    member_name: Seq<char>,
    penalty: u32,
    added: bool,
    removed: bool,
)
    requires
        !has_interface(q0.members@, interface),
        member_added(q0, q1, interface, member_name, penalty, added),
        member_removed(q1, q2, interface, removed),
    ensures
        added,
        removed,
        q2.members@ == q0.members@,
{
    let ms = q0.members@;
    let x = q1.members@.last();
    assert(q1.members@ == ms.push(x)) by {
        assert(q1.members@ =~= q1.members@.take(ms.len() as int).push(x));
    }
    assert(has_interface(q1.members@, interface)) by {
        assert(q1.members@[ms.len() as int].interface@ == interface);
    }
    ms.lemma_filter_push(x, other_interface(interface));
    assert forall|i: int| 0 <= i < ms.len() implies other_interface(interface)(ms[i]) by {
        assert(!(ms[i].interface@ == interface));
    }
    lemma_filter_all(ms, other_interface(interface));
}

/// Filtering keeps a sequence whole when every element passes.
proof fn lemma_filter_all(s: Seq<QueueMember>, pred: spec_fn(QueueMember) -> bool)
    requires
        forall|i: int| 0 <= i < s.len() ==> pred(s[i]),
    ensures
        s.filter(pred) == s,
    decreases s.len(),
{
    reveal(Seq::filter);
    if s.len() > 0 {
        lemma_filter_all(s.drop_last(), pred);
        assert(s.drop_last().push(s.last()) =~= s);
    } else {
        assert(s.filter(pred) =~= s);
    }
}

/// The member round robin reaches is one of `g`.
proof fn lemma_rr_from_in(start: int, n: int, g: Seq<usize>, off: int)
    ensures
        rr_from(start, n, g, off) matches Some(x) ==> g.contains(x as usize),
    decreases n - off,
{
    if !(off >= n || off < 0) && !g.contains(((start + off) % n) as usize) {
        lemma_rr_from_in(start, n, g, off + 1);
    }
}

/// A selection only rings members that can take a call: every member
/// picked is one of the available ones, and every strategy but ring-all
/// picks at most one.
pub proof fn lemma_picked_available(
    ms: Seq<QueueMember>,
    strategy: QueueStrategy,
    rr_index: usize,
    a: Seq<usize>,
    idle: Seq<Duration>,
    random_pick: usize,
    r: Seq<usize>,
)
    requires
        index_list(a, ms.len()),
        picked(ms, strategy, rr_index, a, idle, random_pick, r),
    ensures
        forall|i: int| 0 <= i < r.len() ==> a.contains(#[trigger] r[i]),
        strategy != QueueStrategy::RingAll ==> r.len() <= 1,
{
    let pred = |x: usize| ms[x as int].penalty == min_penalty_of(ms, a);
    let g = lowest_group(ms, a);
    assert(g == a.filter(pred));
    assert forall|x: usize| g.contains(x) implies a.contains(x) by {
        a.lemma_filter_contains_rev(pred, x);
    }
    if a.len() > 0 {
        match strategy {
            QueueStrategy::RingAll => {
                assert forall|i: int| 0 <= i < r.len() implies a.contains(#[trigger] r[i]) by {
                    assert(r.contains(r[i]));
                }
            },
            QueueStrategy::LeastRecent => {},
            QueueStrategy::FewestCalls => {},
            QueueStrategy::Random => {
                assert(g.contains(g[random_pick as int]));
            },
            QueueStrategy::RoundRobin => {
                lemma_rr_from_in((rr_index as int) % (ms.len() as int), ms.len() as int, g, 0);
            },
            QueueStrategy::Linear => {
                a.filter_lemma(pred);
                assert(g.len() > 0) by {
                    lemma_min_penalty(ms, a);
                    let w = choose|w: int| 0 <= w < a.len() && ms[a[w] as int].penalty == min_penalty_of(ms, a);
                    a.lemma_filter_contains(pred, w);
                }
                assert(g.contains(g[0]));
            },
        }
    }
}

/// Round robin rings the member at its position (counted round the
/// members) whenever that member is one of the lowest-penalty available
/// ones.
pub proof fn lemma_round_robin_turn(
    ms: Seq<QueueMember>,
    rr_index: usize,
    a: Seq<usize>,
    idle: Seq<Duration>,
    random_pick: usize,
    r: Seq<usize>,
)
    requires
        ms.len() > 0,
        a.len() > 0,
        lowest_group(ms, a).contains(((rr_index as int) % (ms.len() as int)) as usize),
        picked(ms, QueueStrategy::RoundRobin, rr_index, a, idle, random_pick, r),
    ensures
        r == seq![((rr_index as int) % (ms.len() as int)) as usize],
{
    let n = ms.len() as int;
    let start = (rr_index as int) % n;
    assert(0 <= start < n);
    vstd::arithmetic::div_mod::lemma_small_mod(start as nat, n as nat);
    assert((start + 0) % n == start);
}

/// What a sequence holds after an insertion.
proof fn lemma_insert_contains(s: Seq<usize>, j: int, x: usize, y: usize)
    requires
        0 <= j <= s.len(),
    ensures
        s.insert(j, x).contains(y) <==> (s.contains(y) || y == x),
{
    s.insert_ensures(j, x);
    let t = s.insert(j, x);
    if t.contains(y) {
        let i = choose|i: int| 0 <= i < t.len() && t[i] == y;
        if i < j {
            assert(s[i] == y);
        } else if i > j {
            assert(t[(i - 1) + 1] == s[i - 1]);
            assert(s[i - 1] == y);
        }
    }
    if s.contains(y) {
        let i = choose|i: int| 0 <= i < s.len() && s[i] == y;
        if i < j {
            assert(t[i] == y);
        } else {
            assert(t[i + 1] == y);
        }
    }
    if y == x {
        assert(t[j] == y);
    }
}

/// What a sequence holds after a push.
proof fn lemma_push_contains(s: Seq<usize>, x: usize, y: usize)
    ensures
        s.push(x).contains(y) <==> (s.contains(y) || y == x),
{
    let t = s.push(x);
    if t.contains(y) {
        let i = choose|i: int| 0 <= i < t.len() && t[i] == y;
        if i < s.len() {
            assert(s[i] == y);
        }
    }
    if s.contains(y) {
        let i = choose|i: int| 0 <= i < s.len() && s[i] == y;
        assert(t[i] == y);
    }
    if y == x {
        assert(t[s.len() as int] == y);
    }
}

/// The queues and penalty rule sets of the system, each found by its
/// name.
#[derive(Debug)]
pub struct QueueRegistry {
    /// The queues, in the order they were first registered.
    pub queues: Vec<CallQueue>,
    /// The named penalty rule sets.
    pub rules: Vec<(String, Vec<QueueRule>)>,
}

/// Whether a queue has the name.
pub open spec fn named(q: CallQueue, name: Seq<char>) -> bool {
    q.name@ == name
}

/// The queues are summarised as (name, members, callers).
pub open spec fn queue_summary(q: CallQueue, t: (String, usize, usize)) -> bool {
    t.0@ == q.name@ && t.1 == q.members@.len() && t.2 == q.callers@.len()
}

/// The statistics reported for a queue.
pub open spec fn queue_stats_of(q: CallQueue, v: QueueStatusVars) -> bool {
    &&& v.queue_status@ == Seq::<char>::empty()
    &&& v.queue_name@ == q.name@
    &&& v.queue_position == 0
    &&& v.queue_holdtime == avg_holdtime(q)
    &&& v.queue_completed == q.completed_calls
    &&& v.queue_abandoned == q.abandoned_calls
    &&& v.queue_wait == 0
    &&& v.answered_time == 0
}

impl QueueRegistry {
    /// No two queues, and no two rule sets, share a name.
    pub open spec fn wf(&self) -> bool {
        &&& forall|i: int, j: int|
            0 <= i < j < self.queues@.len() ==> self.queues@[i].name@ != self.queues@[j].name@
        &&& forall|i: int, j: int|
            0 <= i < j < self.rules@.len() ==> self.rules@[i].0@ != self.rules@[j].0@
    }

    /// Whether a queue has the name.
    pub open spec fn has_queue(&self, name: Seq<char>) -> bool {
        exists|i: int| 0 <= i < self.queues@.len() && named(#[trigger] self.queues@[i], name)
    }

    /// The rule set with the name, if any.
    pub open spec fn rule_set(&self, name: Seq<char>) -> Option<Seq<QueueRule>> {
        if exists|i: int| 0 <= i < self.rules@.len() && (#[trigger] self.rules@[i]).0@ == name {
            let i = choose|i: int| 0 <= i < self.rules@.len() && (#[trigger] self.rules@[i]).0@ == name;
            Some(self.rules@[i].1@)
        } else {
            None
        }
    }

    /// An empty registry.
    pub fn new() -> (r: Self)
        ensures
            r.wf(),
            r.queues@.len() == 0,
            r.rules@.len() == 0,
    {
        QueueRegistry { queues: Vec::new(), rules: Vec::new() }
    }

    /// The position of the queue with the name.
    pub fn find_queue(&self, name: &str) -> (r: Option<usize>)
        ensures
            match r {
                Some(i) => i < self.queues@.len() && self.queues@[i as int].name@ == name@,
                None => !self.has_queue(name@),
            },
    {
        let want = chars_of(name);
        let mut i: usize = 0;
        while i < self.queues.len()
            invariant
                i <= self.queues@.len(),
                want@ == name@,
                forall|j: int| 0 <= j < i ==> !named(self.queues@[j], name@),
            decreases self.queues@.len() - i,
        {
            let have = chars_of(self.queues[i].name.as_str());
            if chars_equal(&have, &want) {
                return Some(i);
            }
            i = i + 1;
        }
        None
    }

    fn find_rule_set(&self, name: &str) -> (r: Option<usize>)
        ensures
            match r {
                Some(i) => i < self.rules@.len() && self.rules@[i as int].0@ == name@,
                None => forall|j: int| 0 <= j < self.rules@.len() ==> self.rules@[j].0@ != name@,
            },
    {
        let want = chars_of(name);
        let mut i: usize = 0;
        while i < self.rules.len()
            invariant
                i <= self.rules@.len(),
                want@ == name@,
                forall|j: int| 0 <= j < i ==> self.rules@[j].0@ != name@,
            decreases self.rules@.len() - i,
        {
            let have = chars_of(self.rules[i].0.as_str());
            if chars_equal(&have, &want) {
                return Some(i);
            }
            i = i + 1;
        }
        None
    }

    /// Registers a new queue with the name and strategy, replacing one with
    /// that name; returns its position.
    pub fn register_queue(&mut self, name: &str, strategy: QueueStrategy) -> (r: usize)
        requires
            old(self).wf(),
        ensures
            final(self).wf(),
            r < final(self).queues@.len(),
            is_new_queue(final(self).queues@[r as int], name@, strategy),
            old(self).has_queue(name@) ==> final(self).queues@.len() == old(self).queues@.len()
                && old(self).queues@[r as int].name@ == name@,
            !old(self).has_queue(name@) ==> final(self).queues@.len() == old(self).queues@.len() + 1
                && r == old(self).queues@.len(),
            forall|j: int| 0 <= j < old(self).queues@.len() && j != r ==> final(self).queues@[j] == old(self).queues@[j],
            final(self).rules == old(self).rules,
    {
        let q = CallQueue::new(string_from_str(name), strategy);
        match self.find_queue(name) {
            Some(i) => {
                let ghost before = self.queues@;
                self.queues.set(i, q);
                assert forall|a: int, b: int| 0 <= a < b < self.queues@.len() implies self.queues@[a].name@ != self.queues@[b].name@ by {
                    if a == i as int {
                        assert(before[a].name@ == name@);
                    } else if b == i as int {
                        assert(before[b].name@ == name@);
                    }
                }
                i
            },
            None => {
                let n = self.queues.len();
                self.queues.push(q);
                assert forall|a: int, b: int| 0 <= a < b < self.queues@.len() implies self.queues@[a].name@ != self.queues@[b].name@ by {
                    if b == n as int {
                        assert(!named(self.queues@[a], name@));
                    }
                }
                n
            },
        }
    }

    /// The position of the queue with the name, made with the stock
    /// settings and ring-all if there was none.
    pub fn get_or_create(&mut self, name: &str) -> (r: usize)
        requires
            old(self).wf(),
        ensures
            final(self).wf(),
            r < final(self).queues@.len(),
            final(self).queues@[r as int].name@ == name@,
            old(self).has_queue(name@) ==> *final(self) == *old(self),
            !old(self).has_queue(name@) ==> final(self).queues@.len() == old(self).queues@.len() + 1
                && r == old(self).queues@.len() && final(self).queues@.take(r as int)
                == old(self).queues@ && is_new_queue(
                final(self).queues@[r as int],
                name@,
                QueueStrategy::RingAll,
            ) && final(self).rules == old(self).rules,
    {
        match self.find_queue(name) {
            Some(i) => i,
            None => {
                let n = self.queues.len();
                let ghost before = self.queues@;
                self.queues.push(CallQueue::new(string_from_str(name), QueueStrategy::RingAll));
                assert(self.queues@.take(n as int) =~= before);
                assert forall|a: int, b: int| 0 <= a < b < self.queues@.len() implies self.queues@[a].name@ != self.queues@[b].name@ by {
                    if b == n as int {
                        assert(!named(self.queues@[a], name@));
                    }
                }
                n
            },
        }
    }

    /// Registers a penalty rule set under the name, replacing one with
    /// that name.
    pub fn register_rule(&mut self, name: &str, rules: Vec<QueueRule>)
        requires
            old(self).wf(),
        ensures
            final(self).wf(),
            final(self).rule_set(name@) == Some(rules@),
            forall|other: Seq<char>| other != name@ ==> final(self).rule_set(other) == old(self).rule_set(other),
            final(self).queues == old(self).queues,
    {
        let ghost before = self.rules@;
        let ghost want = rules@;
        match self.find_rule_set(name) {
            Some(i) => {
                let n = string_from_str(name);
                self.rules.set(i, (n, rules));
            },
            None => {
                let n = string_from_str(name);
                self.rules.push((n, rules));
            },
        }
        let ghost after = self.rules@;
        assert forall|a: int, b: int| 0 <= a < b < after.len() implies after[a].0@ != after[b].0@ by {
            if a < before.len() && b < before.len() {
                if after[a] != before[a] {
                    assert(before[a].0@ == name@);
                }
                if after[b] != before[b] {
                    assert(before[b].0@ == name@);
                }
            }
        }
        proof {
            let k = choose|k: int| 0 <= k < after.len() && (#[trigger] after[k]).0@ == name@;
            assert(exists|k: int| 0 <= k < after.len() && (#[trigger] after[k]).0@ == name@) by {
                if exists|k: int| 0 <= k < before.len() && (#[trigger] before[k]).0@ == name@ {
                    let k = choose|k: int| 0 <= k < before.len() && (#[trigger] before[k]).0@ == name@;
                    assert(after[k].0@ == name@);
                } else {
                    assert(after[before.len() as int].0@ == name@);
                }
            }
            assert forall|other: Seq<char>| other != name@ implies self.rule_set(other) == old(self).rule_set(other) by {
                if exists|k: int| 0 <= k < before.len() && (#[trigger] before[k]).0@ == other {
                    let k = choose|k: int| 0 <= k < before.len() && (#[trigger] before[k]).0@ == other;
                    assert(after[k] == before[k]);
                }
                if exists|k: int| 0 <= k < after.len() && (#[trigger] after[k]).0@ == other {
                    let k = choose|k: int| 0 <= k < after.len() && (#[trigger] after[k]).0@ == other;
                    assert(k < before.len() && after[k] == before[k]);
                }
            }
        }
    }

    /// The rule set with the name.
    pub fn rules_for(&self, name: &str) -> (r: Option<&Vec<QueueRule>>)
        requires
            self.wf(),
        ensures
            match r {
                Some(v) => self.rule_set(name@) == Some(v@),
                None => self.rule_set(name@) is None,
            },
    {
        match self.find_rule_set(name) {
            Some(i) => Some(&self.rules[i].1),
            None => None,
        }
    }

    /// Adds a member to the queue with the name; false for no such queue.
    pub fn add_member(&mut self, queue_name: &str, interface: &str, member_name: &str, penalty: u32) -> (r: bool)
        requires
            old(self).wf(),
        ensures
            final(self).wf(),
            !old(self).has_queue(queue_name@) ==> !r && *final(self) == *old(self),
            old(self).has_queue(queue_name@) ==> exists|i: int|
                0 <= i < old(self).queues@.len() && named(old(self).queues@[i], queue_name@)
                    && member_added(old(self).queues@[i], final(self).queues@[i], interface@, member_name@, penalty, r)
                    && final(self).queues@ == old(self).queues@.update(i, final(self).queues@[i]),
            final(self).rules == old(self).rules,
    {
        match self.find_queue(queue_name) {
            Some(i) => {
                let ghost before = self.queues@;
                let mut q = self.queues.remove(i);
                let r = q.add_member(string_from_str(interface), string_from_str(member_name), penalty);
                self.queues.insert(i, q);
                assert(self.queues@ =~= before.update(i as int, self.queues@[i as int]));
                r
            },
            None => false,
        }
    }

    /// Removes a member from the queue with the name; false for no such
    /// queue.
    pub fn remove_member(&mut self, queue_name: &str, interface: &str) -> (r: bool)
        requires
            old(self).wf(),
        ensures
            final(self).wf(),
            !old(self).has_queue(queue_name@) ==> !r && *final(self) == *old(self),
            old(self).has_queue(queue_name@) ==> exists|i: int|
                0 <= i < old(self).queues@.len() && named(old(self).queues@[i], queue_name@)
                    && member_removed(old(self).queues@[i], final(self).queues@[i], interface@, r)
                    && final(self).queues@ == old(self).queues@.update(i, final(self).queues@[i]),
            final(self).rules == old(self).rules,
    {
        match self.find_queue(queue_name) {
            Some(i) => {
                let ghost before = self.queues@;
                let mut q = self.queues.remove(i);
                let r = q.remove_member(interface);
                self.queues.insert(i, q);
                assert(self.queues@ =~= before.update(i as int, self.queues@[i as int]));
                r
            },
            None => false,
        }
    }

    /// Pauses or unpauses a member of the queue with the name, with an
    /// optional reason; false for no such queue or member.
    fn pause_in(&mut self, queue_name: &str, interface: &str, paused: bool, reason: Option<&str>) -> (r: bool)
        requires
            old(self).wf(),
        ensures
            final(self).wf(),
            !old(self).has_queue(queue_name@) ==> !r && *final(self) == *old(self),
            old(self).has_queue(queue_name@) ==> exists|i: int|
                0 <= i < old(self).queues@.len() && named(old(self).queues@[i], queue_name@)
                    && member_paused(
                    old(self).queues@[i],
                    final(self).queues@[i],
                    interface@,
                    paused,
                    match reason {
                        Some(s) => Some(s@),
                        None => None,
                    },
                    r,
                ) && final(self).queues@ == old(self).queues@.update(i, final(self).queues@[i]),
            final(self).rules == old(self).rules,
    {
        match self.find_queue(queue_name) {
            Some(i) => {
                let ghost before = self.queues@;
                let mut q = self.queues.remove(i);
                let r = q.set_member_paused(interface, paused, reason);
                self.queues.insert(i, q);
                assert(self.queues@ =~= before.update(i as int, self.queues@[i as int]));
                r
            },
            None => false,
        }
    }

    /// Pauses or unpauses a member of the queue with the name; false for no
    /// such queue or member.
    pub fn pause_member(&mut self, queue_name: &str, interface: &str, paused: bool) -> (r: bool)
        requires
            old(self).wf(),
        ensures
            final(self).wf(),
            !old(self).has_queue(queue_name@) ==> !r && *final(self) == *old(self),
            old(self).has_queue(queue_name@) ==> exists|i: int|
                0 <= i < old(self).queues@.len() && named(old(self).queues@[i], queue_name@)
                    && member_paused(old(self).queues@[i], final(self).queues@[i], interface@, paused, None, r)
                    && final(self).queues@ == old(self).queues@.update(i, final(self).queues@[i]),
            final(self).rules == old(self).rules,
    {
        self.pause_in(queue_name, interface, paused, None)
    }

    /// Pauses or unpauses a member of the queue with the name, giving a
    /// reason; false for no such queue or member.
    pub fn pause_member_with_reason(&mut self, queue_name: &str, interface: &str, paused: bool, reason: &str) -> (r: bool)
        requires
            old(self).wf(),
        ensures
            final(self).wf(),
            !old(self).has_queue(queue_name@) ==> !r && *final(self) == *old(self),
            old(self).has_queue(queue_name@) ==> exists|i: int|
                0 <= i < old(self).queues@.len() && named(old(self).queues@[i], queue_name@)
                    && member_paused(
                    old(self).queues@[i],
                    final(self).queues@[i],
                    interface@,
                    paused,
                    Some(reason@),
                    r,
                ) && final(self).queues@ == old(self).queues@.update(i, final(self).queues@[i]),
            final(self).rules == old(self).rules,
    {
        self.pause_in(queue_name, interface, paused, Some(reason))
    }

    /// Each queue's name, member count and caller count.
    pub fn list_queues(&self) -> (r: Vec<(String, usize, usize)>)
        ensures
            r@.len() == self.queues@.len(),
            forall|i: int| 0 <= i < r@.len() ==> queue_summary(self.queues@[i], #[trigger] r@[i]),
    {
        let mut r: Vec<(String, usize, usize)> = Vec::new();
        let mut i: usize = 0;
        while i < self.queues.len()
            invariant
                i <= self.queues@.len(),
                r@.len() == i,
                forall|j: int| 0 <= j < i ==> queue_summary(self.queues@[j], #[trigger] r@[j]),
            decreases self.queues@.len() - i,
        {
            let q = &self.queues[i];
            r.push((string_from_str(q.name.as_str()), q.members.len(), q.callers.len()));
            i = i + 1;
        }
        r
    }

    /// Whether a queue has the name.
    pub fn queue_exists(&self, name: &str) -> (r: bool)
        ensures
            r == self.has_queue(name@),
    {
        self.find_queue(name).is_some()
    }

    /// The statistics of the queue with the name: its name, average hold
    /// time, completed and abandoned calls.
    pub fn queue_stats(&self, name: &str) -> (r: Option<QueueStatusVars>)
        ensures
            match r {
                Some(v) => exists|i: int|
                    0 <= i < self.queues@.len() && named(self.queues@[i], name@) && queue_stats_of(
                        self.queues@[i],
                        v,
                    ),
                None => !self.has_queue(name@),
            },
    {
        match self.find_queue(name) {
            Some(i) => {
                let q = &self.queues[i];
                let v = QueueStatusVars {
                    queue_status: String::new(),
                    queue_name: string_from_str(q.name.as_str()),
                    queue_position: 0,
                    queue_holdtime: q.avg_holdtime_secs(),
                    queue_completed: q.completed_calls,
                    queue_abandoned: q.abandoned_calls,
                    queue_wait: 0,
                    answered_time: 0,
                };
                assert(named(self.queues@[i as int], name@));
                Some(v)
            },
            None => None,
        }
    }
}

} // verus!
