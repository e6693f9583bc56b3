//! Queue(): call queues with strategy-based member selection. This module
//! holds the strategies, the members and their wrap-up time, the penalty
//! rules, the queue log, the status variables, the options and the
//! arguments; the queues themselves are in `call_queue`.
use crate::text::{
    folds_to, chars_lower_is, chars_of, contains_char, decimal, lower_is, nonempty,
    nonempty_string, opt_str, parse_u64, parse_u64_spec, parse_usize, parse_usize_spec,
    push_char, push_decimal, push_joined, push_str, join, splitn, splitn_spec, str_views,
    string_from_str, string_of, trimmed_piece, trimmed_piece_of,
};
use crate::time::{instant_elapsed, instant_now, Duration, NANOS_PER_SEC};
use crate::{DialplanApp, PbxExecResult};
use vstd::prelude::*;

pub use crate::call_queue::{CallQueue, QueueRegistry};

verus! {

// ---------------------------------------------------------------------------
// Strategy
// ---------------------------------------------------------------------------

/// How calls are distributed to the members.
#[derive(Debug, Clone, Copy, PartialEq, Eq, Structural)]
pub enum QueueStrategy {
    /// Ring all available members at once.
    RingAll,
    /// Ring the member idle the longest.
    LeastRecent,
    /// Ring the member who has taken the fewest calls.
    FewestCalls,
    /// Ring a random available member.
    Random,
    /// Ring members in turn, remembering the position.
    RoundRobin,
    /// Ring members in list order.
    Linear,
}

impl QueueStrategy {
    pub open spec fn name_text(self) -> Seq<char> {
        match self {
            QueueStrategy::RingAll => "ringall"@,
            QueueStrategy::LeastRecent => "leastrecent"@,
            QueueStrategy::FewestCalls => "fewestcalls"@,
            QueueStrategy::Random => "random"@,
            QueueStrategy::RoundRobin => "roundrobin"@,
            QueueStrategy::Linear => "linear"@,
        }
    }

    /// The strategy a name selects, in any case; `rrmemory` is round robin
    /// and an unknown name rings all.
    pub open spec fn from_name(s: Seq<char>) -> QueueStrategy {
        if lower_is(s, "ringall"@) {
            QueueStrategy::RingAll
        } else if lower_is(s, "leastrecent"@) {
            QueueStrategy::LeastRecent
        } else if lower_is(s, "fewestcalls"@) {
            QueueStrategy::FewestCalls
        } else if lower_is(s, "random"@) {
            QueueStrategy::Random
        } else if lower_is(s, "roundrobin"@) || lower_is(s, "rrmemory"@) {
            QueueStrategy::RoundRobin
        } else if lower_is(s, "linear"@) {
            QueueStrategy::Linear
        } else {
            QueueStrategy::RingAll
        }
    }

    /// Parses a strategy name.
    pub fn from_str_name(s: &str) -> (r: Self)
        ensures
            r == QueueStrategy::from_name(s@),
    {
        let v = chars_of(s);
        if chars_lower_is(&v, &chars_of("ringall")) {
            QueueStrategy::RingAll
        } else if chars_lower_is(&v, &chars_of("leastrecent")) {
            QueueStrategy::LeastRecent
        } else if chars_lower_is(&v, &chars_of("fewestcalls")) {
            QueueStrategy::FewestCalls
        } else if chars_lower_is(&v, &chars_of("random")) {
            QueueStrategy::Random
        } else if chars_lower_is(&v, &chars_of("roundrobin")) || chars_lower_is(
            &v,
            &chars_of("rrmemory"),
        ) {
            QueueStrategy::RoundRobin
        } else if chars_lower_is(&v, &chars_of("linear")) {
            QueueStrategy::Linear
        } else {
            QueueStrategy::RingAll
        }
    }

    /// The strategy's name.
    pub fn as_str(&self) -> (r: &'static str)
        ensures
            r@ == self.name_text(),
    {
        match self {
            QueueStrategy::RingAll => "ringall",
            QueueStrategy::LeastRecent => "leastrecent",
            QueueStrategy::FewestCalls => "fewestcalls",
            QueueStrategy::Random => "random",
            QueueStrategy::RoundRobin => "roundrobin",
            QueueStrategy::Linear => "linear",
        }
    }
}

/// No text lower-cases to two words of the same length that differ in
/// their first letter, a lower-case ASCII one each.
proof fn lemma_first_letter_differs(t: Seq<char>, a: Seq<char>, b: Seq<char>)
    requires
        a.len() > 0,
        b.len() > 0,
        'a' <= a[0] <= 'z',
        'a' <= b[0] <= 'z',
        a[0] != b[0],
    ensures
        !(lower_is(t, a) && lower_is(t, b)),
{
    if lower_is(t, a) && lower_is(t, b) {
        assert(folds_to(t[0], a[0]));
        assert(folds_to(t[0], b[0]));
    }
}

/// A strategy's name reads back as the strategy, in any case: a text that
/// lower-cases to a strategy's name selects that strategy, one that
/// lower-cases to `rrmemory` selects round robin, and one that lower-cases
/// to none of these rings all.
pub proof fn lemma_strategy_name_round_trip(s: QueueStrategy, t: Seq<char>)
    ensures
        lower_is(t, s.name_text()) ==> QueueStrategy::from_name(t) == s,
        lower_is(t, "rrmemory"@) ==> QueueStrategy::from_name(t) == QueueStrategy::RoundRobin,
        (forall|u: QueueStrategy| !lower_is(t, #[trigger] u.name_text())) && !lower_is(
            t,
            "rrmemory"@,
        ) ==> QueueStrategy::from_name(t) == QueueStrategy::RingAll,
{
    reveal_strlit("ringall");
    reveal_strlit("leastrecent");
    reveal_strlit("fewestcalls");
    reveal_strlit("random");
    reveal_strlit("roundrobin");
    reveal_strlit("rrmemory");
    reveal_strlit("linear");
    lemma_first_letter_differs(t, "fewestcalls"@, "leastrecent"@);
    lemma_first_letter_differs(t, "linear"@, "random"@);
    assert(QueueStrategy::RingAll.name_text() == "ringall"@);
    assert(QueueStrategy::LeastRecent.name_text() == "leastrecent"@);
    assert(QueueStrategy::FewestCalls.name_text() == "fewestcalls"@);
    assert(QueueStrategy::Random.name_text() == "random"@);
    assert(QueueStrategy::RoundRobin.name_text() == "roundrobin"@);
    assert(QueueStrategy::Linear.name_text() == "linear"@);
}

// ---------------------------------------------------------------------------
// Members
// ---------------------------------------------------------------------------

/// Device state of a member.
#[derive(Debug, Clone, Copy, PartialEq, Eq, Structural)]
pub enum MemberStatus {
    Available,
    Busy,
    Ringing,
    Unavailable,
    WrapUp,
}

/// A member (agent) of a queue.
#[derive(Debug, Clone)]
pub struct QueueMember {
    /// Interface of the member, such as `SIP/alice`.
    pub interface: String,
    /// Interface whose device state is watched, when not the interface.
    pub state_interface: Option<String>,
    pub member_name: String,
    /// Penalty: lower is tried first.
    pub penalty: u32,
    pub paused: bool,
    pub pause_reason: Option<String>,
    /// On a call from this queue.
    pub in_call: bool,
    pub calls_taken: u64,
    /// When the last call ended.
    pub last_call_time: Option<std::time::Instant>,
    pub added_time: std::time::Instant,
    pub status: MemberStatus,
    /// Added at run time rather than from the configuration.
    pub dynamic: bool,
    pub ring_in_use: bool,
    /// The member's own wrap-up time, instead of the queue's.
    pub wrapup_time: Option<Duration>,
    /// When the current wrap-up began.
    pub wrapup_start: Option<std::time::Instant>,
}

/// The wrap-up time that applies to a member.
pub open spec fn effective_wrapup(m: QueueMember, queue_wrapup: Duration) -> Duration {
    match m.wrapup_time {
        Some(w) => w,
        None => queue_wrapup,
    }
}

/// Whether a member can take a call when `elapsed` has passed since its
/// wrap-up began: not paused, not on a call, and available or done with
/// wrap-up.
pub open spec fn available_after(m: QueueMember, queue_wrapup: Duration, elapsed: Duration) -> bool {
    !m.paused && !m.in_call && (m.status == MemberStatus::Available || (m.status
        == MemberStatus::WrapUp && (m.wrapup_start is None || elapsed.nanos >= effective_wrapup(
        m,
        queue_wrapup,
    ).nanos)))
}

/// The member after its wrap-up is checked at `elapsed` since it began: a
/// finished wrap-up makes it available again.
pub open spec fn wrapup_checked(m: QueueMember, queue_wrapup: Duration, elapsed: Duration) -> (QueueMember, bool) {
    if m.status == MemberStatus::WrapUp && m.wrapup_start is Some && elapsed.nanos
        >= effective_wrapup(m, queue_wrapup).nanos {
        (QueueMember { status: MemberStatus::Available, wrapup_start: None, ..m }, true)
    } else {
        (m, false)
    }
}

impl QueueMember {
    /// A new, available, static member added now.
    pub fn new(interface: String, member_name: String, penalty: u32) -> (r: Self)
        ensures
            r.interface == interface,
            r.member_name == member_name,
            r.penalty == penalty,
            r.state_interface is None,
            !r.paused,
            r.pause_reason is None,
            !r.in_call,
            r.calls_taken == 0,
            r.last_call_time is None,
            r.status == MemberStatus::Available,
            !r.dynamic,
            !r.ring_in_use,
            r.wrapup_time is None,
            r.wrapup_start is None,
    {
        QueueMember {
            interface,
            state_interface: None,
            member_name,
            penalty,
            paused: false,
            pause_reason: None,
            in_call: false,
            calls_taken: 0,
            last_call_time: None,
            added_time: instant_now(),
            status: MemberStatus::Available,
            dynamic: false,
            ring_in_use: false,
            wrapup_time: None,
            wrapup_start: None,
        }
    }

    /// Whether the member can take a call when `elapsed` has passed since
    /// its wrap-up began.
    pub fn available_at(&self, queue_wrapup: Duration, elapsed: Duration) -> (r: bool)
        ensures
            r == available_after(*self, queue_wrapup, elapsed),
    {
        if self.paused || self.in_call {
            return false;
        }
        match self.status {
            MemberStatus::Available => true,
            MemberStatus::WrapUp => match &self.wrapup_start {
                Some(_) => {
                    let w = match self.wrapup_time {
                        Some(w) => w,
                        None => queue_wrapup,
                    };
                    elapsed.nanos >= w.nanos
                },
                None => true,
            },
            _ => false,
        }
    }

    /// Whether the member can take a call now. The clock decides a
    /// wrap-up in progress; the rest is decided by the member's state.
    pub fn is_available(&self, queue_wrapup: Duration) -> (r: bool)
        ensures
            r ==> !self.paused && !self.in_call && (self.status == MemberStatus::Available
                || self.status == MemberStatus::WrapUp),
            (!self.paused && !self.in_call && (self.status == MemberStatus::Available || (
            self.status == MemberStatus::WrapUp && self.wrapup_start is None))) ==> r,
            exists|e: Duration| r == available_after(*self, queue_wrapup, e),
    {
        let elapsed = match &self.wrapup_start {
            Some(start) => instant_elapsed(start),
            None => Duration { nanos: 0 },
        };
        self.available_at(queue_wrapup, elapsed)
    }

    /// Starts the wrap-up after a call: the member leaves the call, one
    /// more call is counted, and the call end is now.
    pub fn begin_wrapup(&mut self)
        requires
            old(self).calls_taken < u64::MAX,
        ensures
            final(self).status == MemberStatus::WrapUp,
            final(self).wrapup_start is Some,
            !final(self).in_call,
            final(self).last_call_time is Some,
            final(self).calls_taken == old(self).calls_taken + 1,
            final(self).interface == old(self).interface,
            final(self).member_name == old(self).member_name,
            final(self).penalty == old(self).penalty,
            final(self).paused == old(self).paused,
            final(self).wrapup_time == old(self).wrapup_time,
    {
        self.status = MemberStatus::WrapUp;
        self.wrapup_start = Some(instant_now());
        self.in_call = false;
        self.last_call_time = Some(instant_now());
        self.calls_taken = self.calls_taken + 1;
    }

    /// Ends a wrap-up that has lasted `elapsed`, if it is over; returns
    /// whether it ended.
    pub fn expire_wrapup_at(&mut self, queue_wrapup: Duration, elapsed: Duration) -> (r: bool)
        ensures
            (*final(self), r) == wrapup_checked(*old(self), queue_wrapup, elapsed),
    {
        if self.status != MemberStatus::WrapUp {
            return false;
        }
        let over = match &self.wrapup_start {
            Some(_) => {
                let w = match self.wrapup_time {
                    Some(w) => w,
                    None => queue_wrapup,
                };
                elapsed.nanos >= w.nanos
            },
            None => false,
        };
        if over {
            self.status = MemberStatus::Available;
            self.wrapup_start = None;
        }
        over
    }

    /// Ends the wrap-up if it is over now; returns whether it ended. The
    /// clock decides; a member not in wrap-up, or without a start time, is
    /// left as it is.
    pub fn check_wrapup_expired(&mut self, queue_wrapup: Duration) -> (r: bool)
        ensures
            exists|e: Duration| (*final(self), r) == wrapup_checked(*old(self), queue_wrapup, e),
            (old(self).status != MemberStatus::WrapUp || old(self).wrapup_start is None) ==> (!r
                && *final(self) == *old(self)),
    {
        let elapsed = match &self.wrapup_start {
            Some(start) => instant_elapsed(start),
            None => Duration { nanos: 0 },
        };
        self.expire_wrapup_at(queue_wrapup, elapsed)
    }
}

// ---------------------------------------------------------------------------
// Callers
// ---------------------------------------------------------------------------

/// A caller waiting in a queue.
#[derive(Debug, Clone)]
pub struct QueueCaller {
    /// The caller's channel id.
    pub channel_id: String,
    pub channel_name: String,
    /// Position in the queue, from 1.
    pub position: usize,
    pub enter_time: std::time::Instant,
    pub caller_name: Option<String>,
    pub caller_number: Option<String>,
    pub last_periodic_announce: Option<std::time::Instant>,
    pub last_position_announce: Option<std::time::Instant>,
}

// ---------------------------------------------------------------------------
// Penalty rules
// ---------------------------------------------------------------------------

/// A rule that changes the penalty range once a caller has waited long
/// enough (`rule = 60,10` in queues.conf).
#[derive(Debug, Clone, Copy, PartialEq, Eq, Structural)]
pub struct QueueRule {
    /// Seconds of waiting before the rule applies.
    pub min_wait_secs: u64,
    /// Highest penalty tried; 0 for no limit.
    pub max_penalty: u32,
    /// Lowest penalty tried; 0 for no minimum.
    pub min_penalty: u32,
    /// Whether the change is relative.
    pub relative: bool,
}

/// A rule's highest penalty, with 0 meaning no limit.
pub open spec fn rule_max(r: QueueRule) -> u32 {
    if r.max_penalty == 0 {
        u32::MAX
    } else {
        r.max_penalty
    }
}

/// The penalty range after the first `k` rules are applied in order at a
/// wait of `wait` seconds: every rule whose wait has passed replaces the
/// range.
pub open spec fn rules_upto(rules: Seq<QueueRule>, k: int, wait: u64) -> (u32, u32)
    decreases k,
{
    if k <= 0 {
        (u32::MAX, 0u32)
    } else if wait >= rules[k - 1].min_wait_secs {
        (rule_max(rules[k - 1]), rules[k - 1].min_penalty)
    } else {
        rules_upto(rules, k - 1, wait)
    }
}

/// The last rule among the first `k` whose wait has passed.
pub open spec fn last_applicable(rules: Seq<QueueRule>, k: int, wait: u64) -> Option<int>
    decreases k,
{
    if k <= 0 {
        None
    } else if wait >= rules[k - 1].min_wait_secs {
        Some(k - 1)
    } else {
        last_applicable(rules, k - 1, wait)
    }
}

impl QueueRule {
    /// The penalty range `(max, min)` for a caller who has waited
    /// `wait_secs`: the last rule whose wait has passed decides, and with
    /// none there is no limit.
    pub fn evaluate_rules(rules: &[QueueRule], wait_secs: u64) -> (r: (u32, u32))
        ensures
            r == rules_upto(rules@, rules@.len() as int, wait_secs),
    {
        let mut max_penalty: u32 = u32::MAX;
        let mut min_penalty: u32 = 0;
        let mut i: usize = 0;
        while i < rules.len()
            invariant
                i <= rules@.len(),
                (max_penalty, min_penalty) == rules_upto(rules@, i as int, wait_secs),
            decreases rules@.len() - i,
        {
            let rule = rules[i];
            if wait_secs >= rule.min_wait_secs {
                max_penalty = if rule.max_penalty == 0 {
                    u32::MAX
                } else {
                    rule.max_penalty
                };
                min_penalty = rule.min_penalty;
            }
            i = i + 1;
        }
        (max_penalty, min_penalty)
    }
}

/// The range the rules give is that of the last rule whose wait has
/// passed, or no limit when none has.
pub proof fn lemma_rules_last_applicable(rules: Seq<QueueRule>, k: int, wait: u64)
    requires
        0 <= k <= rules.len(),
    ensures
        match last_applicable(rules, k, wait) {
            Some(j) => 0 <= j < k && rules[j].min_wait_secs <= wait && rules_upto(rules, k, wait)
                == (rule_max(rules[j]), rules[j].min_penalty) && forall|l: int|
                j < l < k ==> rules[l].min_wait_secs > wait,
            None => rules_upto(rules, k, wait) == (u32::MAX, 0u32) && forall|l: int|
                0 <= l < k ==> rules[l].min_wait_secs > wait,
        },
    decreases k,
{
    if k > 0 && wait < rules[k - 1].min_wait_secs {
        lemma_rules_last_applicable(rules, k - 1, wait);
    }
}

/// Waiting longer never goes back to an earlier rule: the rule that
/// applies at a longer wait is the same one or a later one in the list, and
/// once some rule applies, one always does.
pub proof fn lemma_rules_wait_monotone(rules: Seq<QueueRule>, k: int, w1: u64, w2: u64)
    requires
        0 <= k <= rules.len(),
        w1 <= w2,
    ensures
        match (last_applicable(rules, k, w1), last_applicable(rules, k, w2)) {
            (Some(a), Some(b)) => a <= b,
            (Some(_), None) => false,
            _ => true,
        },
    decreases k,
{
    if k > 0 {
        lemma_rules_wait_monotone(rules, k - 1, w1, w2);
        if w2 >= rules[k - 1].min_wait_secs {
            assert(last_applicable(rules, k, w2) == Some(k - 1));
            lemma_last_applicable_below(rules, k, w1);
        } else {
            assert(w1 < rules[k - 1].min_wait_secs);
        }
    }
}

proof fn lemma_last_applicable_below(rules: Seq<QueueRule>, k: int, w: u64)
    ensures
        match last_applicable(rules, k, w) {
            Some(a) => a < k,
            None => true,
        },
    decreases k,
{
    if k > 0 && w < rules[k - 1].min_wait_secs {
        lemma_last_applicable_below(rules, k - 1, w);
    }
}

// ---------------------------------------------------------------------------
// Announcements
// ---------------------------------------------------------------------------

/// What waiting callers hear.
#[derive(Debug, Clone)]
pub struct QueueAnnouncements {
    /// Time between periodic announcements; zero turns them off.
    pub periodic_announce_interval: Duration,
    /// The periodic announcements, played in turn.
    pub periodic_announce_files: Vec<String>,
    /// The next periodic announcement.
    pub periodic_announce_index: usize,
    pub announce_position: bool,
    /// Callers needed before positions are announced.
    pub announce_position_min: usize,
    /// Highest position announced; 0 for no limit.
    pub announce_position_max: usize,
    pub announce_holdtime: bool,
    /// Hold times below this are not announced.
    pub announce_holdtime_min_secs: u64,
    pub join_sound: Option<String>,
    pub leave_sound: Option<String>,
    pub agent_announce: Option<String>,
    pub report_holdtime: bool,
}

impl Default for QueueAnnouncements {
    /// No announcements; the periodic one, when turned on, is
    /// `queue-periodic-announce`.
    fn default() -> (r: Self)
        ensures
            r.periodic_announce_interval.nanos == 0,
            str_views(r.periodic_announce_files@) == seq!["queue-periodic-announce"@],
            r.periodic_announce_index == 0,
            !r.announce_position,
            r.announce_position_min == 0,
            r.announce_position_max == 0,
            !r.announce_holdtime,
            r.announce_holdtime_min_secs == 0,
            r.join_sound is None,
            r.leave_sound is None,
            r.agent_announce is None,
            !r.report_holdtime,
    {
        let mut files: Vec<String> = Vec::new();
        files.push(string_from_str("queue-periodic-announce"));
        assert(str_views(files@) =~= seq!["queue-periodic-announce"@]);
        QueueAnnouncements {
            periodic_announce_interval: Duration { nanos: 0 },
            periodic_announce_files: files,
            periodic_announce_index: 0,
            announce_position: false,
            announce_position_min: 0,
            announce_position_max: 0,
            announce_holdtime: false,
            announce_holdtime_min_secs: 0,
            join_sound: None,
            leave_sound: None,
            agent_announce: None,
            report_holdtime: false,
        }
    }
}

// ---------------------------------------------------------------------------
// Queue log
// ---------------------------------------------------------------------------

/// Queue log events (`timestamp|callid|queue|agent|event|data...`).
#[derive(Debug, Clone, PartialEq, Eq)]
pub enum QueueLogEvent {
    EnterQueue,
    Connect,
    CompleteCaller,
    CompleteAgent,
    Abandon,
    Transfer,
    RingNoAnswer,
    AddMember,
    RemoveMember,
    Pause,
    Unpause,
    ExitWithTimeout,
    ExitWithKey,
    Custom(String),
}

impl QueueLogEvent {
    pub open spec fn text(self) -> Seq<char> {
        match self {
            QueueLogEvent::EnterQueue => "ENTERQUEUE"@,
            QueueLogEvent::Connect => "CONNECT"@,
            QueueLogEvent::CompleteCaller => "COMPLETECALLER"@,
            QueueLogEvent::CompleteAgent => "COMPLETEAGENT"@,
            QueueLogEvent::Abandon => "ABANDON"@,
            QueueLogEvent::Transfer => "TRANSFER"@,
            QueueLogEvent::RingNoAnswer => "RINGNOANSWER"@,
            QueueLogEvent::AddMember => "ADDMEMBER"@,
            QueueLogEvent::RemoveMember => "REMOVEMEMBER"@,
            QueueLogEvent::Pause => "PAUSE"@,
            QueueLogEvent::Unpause => "UNPAUSE"@,
            QueueLogEvent::ExitWithTimeout => "EXITTIMEOUT"@,
            QueueLogEvent::ExitWithKey => "EXITWITHKEY"@,
            QueueLogEvent::Custom(s) => s@,
        }
    }

    /// The event's name in the log.
    pub fn as_str(&self) -> (r: &str)
        ensures
            r@ == self.text(),
    {
        match self {
            QueueLogEvent::EnterQueue => "ENTERQUEUE",
            QueueLogEvent::Connect => "CONNECT",
            QueueLogEvent::CompleteCaller => "COMPLETECALLER",
            QueueLogEvent::CompleteAgent => "COMPLETEAGENT",
            QueueLogEvent::Abandon => "ABANDON",
            QueueLogEvent::Transfer => "TRANSFER",
            QueueLogEvent::RingNoAnswer => "RINGNOANSWER",
            QueueLogEvent::AddMember => "ADDMEMBER",
            QueueLogEvent::RemoveMember => "REMOVEMEMBER",
            QueueLogEvent::Pause => "PAUSE",
            QueueLogEvent::Unpause => "UNPAUSE",
            QueueLogEvent::ExitWithTimeout => "EXITTIMEOUT",
            QueueLogEvent::ExitWithKey => "EXITWITHKEY",
            QueueLogEvent::Custom(s) => s.as_str(),
        }
    }
}

#[verifier::external_type_specification]
#[verifier::external_body]
pub struct ExSystemTime(std::time::SystemTime);

/// The current wall-clock time.
/// Calls `std::time::SystemTime::now`; nothing is promised of the value.
#[verifier::external_body]
fn system_now() -> (r: std::time::SystemTime) {
    std::time::SystemTime::now()
}

/// Whole seconds from the Unix epoch to `t`, or 0 for a time before it.
/// Calls `std::time::SystemTime::duration_since` with `UNIX_EPOCH` and
/// `Duration::as_secs`. The seconds are a function of `t` alone, but a
/// `SystemTime` is opaque here, so no contract relates them to it.
#[verifier::external_body]
fn unix_secs(t: &std::time::SystemTime) -> (r: u64) {
    t.duration_since(std::time::UNIX_EPOCH).unwrap_or_default().as_secs()
}

/// One line of the queue log.
#[derive(Debug, Clone)]
pub struct QueueLogEntry {
    /// When the entry was made, in whole seconds after the Unix epoch.
    pub timestamp: u64,
    pub call_id: String,
    pub queue_name: String,
    pub agent: String,
    pub event: QueueLogEvent,
    pub data: Vec<String>,
}

/// The log line of an entry stamped `ts` seconds after the epoch.
pub open spec fn log_line(ts: nat, e: QueueLogEntry) -> Seq<char> {
    decimal(ts) + seq!['|'] + e.call_id@ + seq!['|'] + e.queue_name@ + seq!['|'] + e.agent@
        + seq!['|'] + e.event.text() + seq!['|'] + join(str_views(e.data@), seq!['|'])
}

impl QueueLogEntry {
    /// An entry stamped with the current time.
    pub fn new(call_id: &str, queue_name: &str, agent: &str, event: QueueLogEvent, data: Vec<String>) -> (r: Self)
        ensures
            r.call_id@ == call_id@,
            r.queue_name@ == queue_name@,
            r.agent@ == agent@,
            r.event == event,
            r.data == data,
    {
        QueueLogEntry {
            timestamp: unix_secs(&system_now()),
            call_id: string_from_str(call_id),
            queue_name: string_from_str(queue_name),
            agent: string_from_str(agent),
            event,
            data,
        }
    }

    /// The log line (`timestamp|callid|queue|agent|event|data1|data2...`),
    /// with the entry's time in whole seconds after the epoch.
    pub fn format_line(&self) -> (r: String)
        ensures
            r@ == log_line(self.timestamp as nat, *self),
    {
        let mut out = String::new();
        push_decimal(&mut out, self.timestamp);
        push_char(&mut out, '|');
        push_str(&mut out, self.call_id.as_str());
        push_char(&mut out, '|');
        push_str(&mut out, self.queue_name.as_str());
        push_char(&mut out, '|');
        push_str(&mut out, self.agent.as_str());
        push_char(&mut out, '|');
        push_str(&mut out, self.event.as_str());
        push_char(&mut out, '|');
        push_joined(&mut out, &self.data, '|');
        assert(out@ =~= log_line(self.timestamp as nat, *self));
        out
    }
}

// ---------------------------------------------------------------------------
// Status variables
// ---------------------------------------------------------------------------

/// The channel variables Queue() sets when it ends.
#[derive(Debug, Clone, Default)]
pub struct QueueStatusVars {
    /// QUEUESTATUS
    pub queue_status: String,
    /// QUEUENAME
    pub queue_name: String,
    /// QUEUEPOSITION
    pub queue_position: usize,
    /// QUEUEHOLDTIME
    pub queue_holdtime: u64,
    /// QUEUECOMPLETED
    pub queue_completed: u64,
    /// QUEUEABANDONED
    pub queue_abandoned: u64,
    /// QUEUEWAIT
    pub queue_wait: u64,
    /// ANSWEREDTIME
    pub answered_time: u64,
}

/// The variables and their values, in the order they are set.
pub open spec fn status_variables(v: QueueStatusVars) -> Seq<(Seq<char>, Seq<char>)> {
    seq![
        ("QUEUESTATUS"@, v.queue_status@),
        ("QUEUENAME"@, v.queue_name@),
        ("QUEUEPOSITION"@, decimal(v.queue_position as nat)),
        ("QUEUEHOLDTIME"@, decimal(v.queue_holdtime as nat)),
        ("QUEUECOMPLETED"@, decimal(v.queue_completed as nat)),
        ("QUEUEABANDONED"@, decimal(v.queue_abandoned as nat)),
        ("QUEUEWAIT"@, decimal(v.queue_wait as nat)),
        ("ANSWEREDTIME"@, decimal(v.answered_time as nat)),
    ]
}

pub open spec fn pair_strs(v: Seq<(String, String)>) -> Seq<(Seq<char>, Seq<char>)> {
    v.map_values(|p: (String, String)| (p.0@, p.1@))
}

fn decimal_string(n: u64) -> (r: String)
    ensures
        r@ == decimal(n as nat),
{
    let mut s = String::new();
    push_decimal(&mut s, n);
    assert(s@ =~= decimal(n as nat));
    s
}

impl QueueStatusVars {
    /// The channel variables to set, with decimal values.
    pub fn variables(&self) -> (r: Vec<(String, String)>)
        ensures
            pair_strs(r@) == status_variables(*self),
    {
        let mut r: Vec<(String, String)> = Vec::new();
        r.push((string_from_str("QUEUESTATUS"), self.queue_status.clone()));
        r.push((string_from_str("QUEUENAME"), self.queue_name.clone()));
        r.push((string_from_str("QUEUEPOSITION"), decimal_string(self.queue_position as u64)));
        r.push((string_from_str("QUEUEHOLDTIME"), decimal_string(self.queue_holdtime)));
        r.push((string_from_str("QUEUECOMPLETED"), decimal_string(self.queue_completed)));
        r.push((string_from_str("QUEUEABANDONED"), decimal_string(self.queue_abandoned)));
        r.push((string_from_str("QUEUEWAIT"), decimal_string(self.queue_wait)));
        r.push((string_from_str("ANSWEREDTIME"), decimal_string(self.answered_time)));
        assert(pair_strs(r@) =~= status_variables(*self));
        r
    }
}

// ---------------------------------------------------------------------------
// Realtime members
// ---------------------------------------------------------------------------

/// Where queue members are loaded from and saved to when the queue is
/// configured for realtime (a database, in practice).
pub trait RealtimeMemberBackend {
    /// The members of a queue.
    fn load_members(&self, queue_name: &str) -> Vec<QueueMember>;

    /// Saves a member's state; returns whether it was saved.
    fn save_member(&self, queue_name: &str, member: &QueueMember) -> bool;

    /// Removes a member; returns whether it was removed.
    fn remove_member(&self, queue_name: &str, interface: &str) -> bool;
}

/// The backend used when realtime is not configured: no members, and
/// nothing is saved or removed.
#[derive(Debug)]
pub struct NoopRealtimeBackend;

impl RealtimeMemberBackend for NoopRealtimeBackend {
    fn load_members(&self, queue_name: &str) -> (r: Vec<QueueMember>)
        ensures
            r@.len() == 0,
    {
        Vec::new()
    }

    fn save_member(&self, queue_name: &str, member: &QueueMember) -> (r: bool)
        ensures
            !r,
    {
        false
    }

    fn remove_member(&self, queue_name: &str, interface: &str) -> (r: bool)
        ensures
            !r,
    {
        false
    }
}

// ---------------------------------------------------------------------------
// Results
// ---------------------------------------------------------------------------

/// How an attempt to connect a caller with a member ended.
#[derive(Debug, PartialEq, Eq, Structural)]
pub enum ConnectResult {
    Connected,
    MemberBusy,
    MemberNoAnswer,
    CallerHangup,
}

/// How Queue() ended.
#[derive(Debug, Clone, Copy, PartialEq, Eq, Structural)]
pub enum QueueResult {
    Completed,
    Timeout,
    Abandoned,
    JoinEmpty,
    LeaveEmpty,
    Error,
    ExitWithKey,
    Transfer,
}

impl QueueResult {
    pub open spec fn status_text(self) -> Seq<char> {
        match self {
            QueueResult::Completed => "CONTINUE"@,
            QueueResult::Timeout => "TIMEOUT"@,
            QueueResult::Abandoned => "ABANDON"@,
            QueueResult::JoinEmpty => "JOINEMPTY"@,
            QueueResult::LeaveEmpty => "LEAVEEMPTY"@,
            QueueResult::Error => "FAILED"@,
            QueueResult::ExitWithKey => "EXITWITHKEY"@,
            QueueResult::Transfer => "TRANSFER"@,
        }
    }

    /// The QUEUESTATUS text of this result.
    pub fn as_status_var(&self) -> (r: &'static str)
        ensures
            r@ == self.status_text(),
    {
        match self {
            QueueResult::Completed => "CONTINUE",
            QueueResult::Timeout => "TIMEOUT",
            QueueResult::Abandoned => "ABANDON",
            QueueResult::JoinEmpty => "JOINEMPTY",
            QueueResult::LeaveEmpty => "LEAVEEMPTY",
            QueueResult::Error => "FAILED",
            QueueResult::ExitWithKey => "EXITWITHKEY",
            QueueResult::Transfer => "TRANSFER",
        }
    }

    /// How the application ends: an abandoned call hangs up, an error
    /// fails, anything else goes on.
    pub fn exec_result(self) -> (r: PbxExecResult)
        ensures
            r == match self {
                QueueResult::Abandoned => PbxExecResult::Hangup,
                QueueResult::Error => PbxExecResult::Failed,
                _ => PbxExecResult::Success,
            },
    {
        match self {
            QueueResult::Abandoned => PbxExecResult::Hangup,
            QueueResult::Error => PbxExecResult::Failed,
            _ => PbxExecResult::Success,
        }
    }
}

/// Distinct results set distinct QUEUESTATUS values.
pub proof fn lemma_queue_status_distinct(a: QueueResult, b: QueueResult)
    requires
        a != b,
    ensures
        a.status_text() != b.status_text(),
{
    reveal_strlit("CONTINUE");
    reveal_strlit("TIMEOUT");
    reveal_strlit("ABANDON");
    reveal_strlit("JOINEMPTY");
    reveal_strlit("LEAVEEMPTY");
    reveal_strlit("FAILED");
    reveal_strlit("EXITWITHKEY");
    reveal_strlit("TRANSFER");
    if a.status_text() == b.status_text() {
        assert(a.status_text()[0] == b.status_text()[0]);
        assert(a.status_text()[1] == b.status_text()[1]);
        assert(a.status_text()[5] == b.status_text()[5]);
    }
}

// ---------------------------------------------------------------------------
// Options and arguments
// ---------------------------------------------------------------------------

/// The `Queue()` dialplan application.
#[derive(Debug)]
pub struct AppQueue;

impl DialplanApp for AppQueue {
    fn name(&self) -> (r: &str)
        ensures
            r@ == "Queue"@,
    {
        "Queue"
    }

    fn description(&self) -> (r: &str)
        ensures
            r@ == "Queue a call for a call queue"@,
    {
        "Queue a call for a call queue"
    }
}

/// The option letters of Queue().
#[derive(Debug, Clone, Default)]
pub struct QueueOptions {
    /// `c`: go on in the dialplan when the callee hangs up.
    pub continue_on_hangup: bool,
    /// `n`: no retries on timeout.
    pub no_retry: bool,
    /// `r`: ring instead of music on hold.
    pub ring_instead_of_moh: bool,
    /// `t`: the callee may transfer.
    pub allow_callee_transfer: bool,
    /// `T`: the caller may transfer.
    pub allow_caller_transfer: bool,
    /// `h`: the callee may hang up with `*`.
    pub allow_callee_hangup: bool,
    /// `H`: the caller may hang up with `*`.
    pub allow_caller_hangup: bool,
    /// `C`: mark the calls as answered elsewhere when cancelled.
    pub mark_answered_elsewhere: bool,
    pub moh_class: Option<String>,
}

/// The options an option string asks for: each letter sets its flag.
pub open spec fn queue_options_match(o: QueueOptions, s: Seq<char>) -> bool {
    &&& o.continue_on_hangup == s.contains('c')
    &&& o.mark_answered_elsewhere == s.contains('C')
    &&& o.no_retry == s.contains('n')
    &&& o.ring_instead_of_moh == s.contains('r')
    &&& o.allow_callee_transfer == s.contains('t')
    &&& o.allow_caller_transfer == s.contains('T')
    &&& o.allow_callee_hangup == s.contains('h')
    &&& o.allow_caller_hangup == s.contains('H')
    &&& o.moh_class is None
}

fn queue_options_of(v: &Vec<char>) -> (r: QueueOptions)
    ensures
        queue_options_match(r, v@),
{
    QueueOptions {
        continue_on_hangup: contains_char(v, 'c'),
        no_retry: contains_char(v, 'n'),
        ring_instead_of_moh: contains_char(v, 'r'),
        allow_callee_transfer: contains_char(v, 't'),
        allow_caller_transfer: contains_char(v, 'T'),
        allow_callee_hangup: contains_char(v, 'h'),
        allow_caller_hangup: contains_char(v, 'H'),
        mark_answered_elsewhere: contains_char(v, 'C'),
        moh_class: None,
    }
}

impl QueueOptions {
    /// Reads the option letters; unknown letters are ignored.
    pub fn parse(opts: &str) -> (r: Self)
        ensures
            queue_options_match(r, opts@),
    {
        queue_options_of(&chars_of(opts))
    }
}

/// What Queue() reads from
/// `queue[,options[,URL[,announce[,timeout[,AGI[,gosub[,rule[,position]]]]]]]]`.
#[derive(Debug)]
pub struct QueueRequest {
    pub queue_name: String,
    pub options: QueueOptions,
    /// Zero for no limit.
    pub timeout: Duration,
    pub rule_name: Option<String>,
    /// The position asked for, from 1.
    pub desired_position: Option<usize>,
}

pub open spec fn queue_parts(s: Seq<char>) -> Seq<Seq<char>> {
    splitn_spec(s, 9, ',')
}

impl AppQueue {
    /// Reads the arguments; `None` (the application fails with FAILED)
    /// when the queue name is blank.
    pub fn parse_args(args: &str) -> (r: Option<QueueRequest>)
        ensures
            ({
                let p = queue_parts(args@);
                match r {
                    None => trimmed_piece(p, 0).len() == 0,
                    Some(q) => {
                        &&& trimmed_piece(p, 0).len() > 0
                        &&& q.queue_name@ == trimmed_piece(p, 0)
                        &&& queue_options_match(q.options, trimmed_piece(p, 1))
                        &&& q.timeout.nanos == match parse_u64_spec(trimmed_piece(p, 4)) {
                            Some(t) => t * NANOS_PER_SEC,
                            None => 0,
                        }
                        &&& opt_str(q.rule_name) == nonempty(trimmed_piece(p, 7))
                        &&& q.desired_position == match parse_usize_spec(trimmed_piece(p, 8)) {
                            Some(n) => if n > 0 {
                                Some(n)
                            } else {
                                None
                            },
                            None => None,
                        }
                    },
                }
            }),
    {
        let v = chars_of(args);
        let parts = splitn(&v, 9, ',');
        let name = trimmed_piece_of(&parts, 0);
        if name.len() == 0 {
            return None;
        }
        let options = queue_options_of(&trimmed_piece_of(&parts, 1));
        let timeout = match parse_u64(&trimmed_piece_of(&parts, 4)) {
            Some(t) => Duration::from_secs(t),
            None => Duration { nanos: 0 },
        };
        let rule_name = nonempty_string(&trimmed_piece_of(&parts, 7));
        let desired_position = match parse_usize(&trimmed_piece_of(&parts, 8)) {
            Some(n) => if n > 0 {
                Some(n)
            } else {
                None
            },
            None => None,
        };
        Some(QueueRequest { queue_name: string_of(&name), options, timeout, rule_name, desired_position })
    }
}

} // verus!
