//! What Dial() does once its wait for an answer ends: which legs it hangs
//! up and with what cause, whether it answers the caller first, and the
//! variables it sets for an answered call.
use crate::dial::{unanswered_cause, DialLegState, DialOptions, DialResult};
use crate::text::{decimal, push_decimal, string_from_str};
use crate::time::{Duration, NANOS_PER_MILLI, NANOS_PER_SEC};
use crate::HangupCause;
use vstd::prelude::*;

verus! {

/// The legs, in order, that are still up once the wait ends, leaving out
/// the one at `keep` (the leg that answered, or -1 for none); counted over
/// the first `n` legs.
pub open spec fn legs_to_hang_up(legs: Seq<DialLegState>, keep: int, n: int) -> Seq<usize>
    decreases n,
{
    if n <= 0 {
        Seq::empty()
    } else {
        let before = legs_to_hang_up(legs, keep, n - 1);
        if legs[n - 1] != DialLegState::HungUp && n - 1 != keep {
            before.push((n - 1) as usize)
        } else {
            before
        }
    }
}

/// The leg that answered, or -1.
pub open spec fn answered_leg(result: DialResult) -> int {
    match result {
        DialResult::Answered(k) => k as int,
        _ => -1,
    }
}

/// What Dial() does with its legs and its caller once the wait ends.
#[derive(Debug, Clone)]
pub struct DialTeardown {
    /// The legs to hang up, in order.
    pub hang_up: Vec<usize>,
    /// The cause each of them is given.
    pub cause: HangupCause,
    /// Whether the caller is answered before the bridge.
    pub answer_caller: bool,
}

impl DialTeardown {
    /// When a leg answered, every other leg still up is hung up with the
    /// cause the options choose for unanswered legs, and the caller is
    /// answered if it is not up yet; otherwise every leg still up is
    /// cleared normally. The legs hung up are marked so.
    pub fn new(result: DialResult, caller_up: bool, options: &DialOptions, legs: &mut Vec<DialLegState>) -> (t: DialTeardown)
        ensures
            t.hang_up@ == legs_to_hang_up(old(legs)@, answered_leg(result), old(legs)@.len() as int),
            t.cause == match result {
                DialResult::Answered(_) => unanswered_cause(*options),
                _ => HangupCause::NormalClearing,
            },
            t.answer_caller == (result is Answered && !caller_up),
            final(legs)@.len() == old(legs)@.len(),
            forall|i: int|
                0 <= i < old(legs)@.len() ==> #[trigger] final(legs)@[i] == if i == answered_leg(result) {
                    old(legs)@[i]
                } else {
                    DialLegState::HungUp
                },
    {
        let ghost before = legs@;
        let keep: Option<usize> = match result {
            DialResult::Answered(k) => Some(k),
            _ => None,
        };
        let cause = match result {
            DialResult::Answered(_) => options.unanswered_hangup_cause(),
            _ => HangupCause::NormalClearing,
        };
        let mut hang_up: Vec<usize> = Vec::new();
        let mut i: usize = 0;
        while i < legs.len()
            invariant
                i <= legs@.len(),
                legs@.len() == before.len(),
                keep == match result {
                    DialResult::Answered(k) => Some(k),
                    _ => None::<usize>,
                },
                hang_up@ == legs_to_hang_up(before, answered_leg(result), i as int),
                forall|j: int| i <= j < before.len() ==> #[trigger] legs@[j] == before[j],
                forall|j: int|
                    0 <= j < i ==> #[trigger] legs@[j] == if j == answered_leg(result) {
                        before[j]
                    } else {
                        DialLegState::HungUp
                    },
            decreases before.len() - i,
        {
            let kept = match keep {
                Some(k) => k == i,
                None => false,
            };
            if !kept {
                if legs[i] != DialLegState::HungUp {
                    hang_up.push(i);
                }
                legs.set(i, DialLegState::HungUp);
            }
            i = i + 1;
        }
        let answer_caller = match result {
            DialResult::Answered(_) => !caller_up,
            _ => false,
        };
        DialTeardown { hang_up, cause, answer_caller }
    }
}

/// The variables Dial() sets for an answered call: the time since the
/// answer in whole seconds and in milliseconds, and the peer's channel name
/// and number.
pub open spec fn answered_variables(peer_name: Seq<char>, peer_number: Seq<char>, answered: Duration) -> Seq<(Seq<char>, Seq<char>)> {
    seq![
        ("ANSWEREDTIME"@, decimal((answered.nanos / NANOS_PER_SEC) as nat)),
        ("ANSWEREDTIME_MS"@, decimal((answered.nanos / NANOS_PER_MILLI) as nat)),
        ("DIALEDPEERNAME"@, peer_name),
        ("DIALEDPEERNUMBER"@, peer_number),
    ]
}

/// The variables Dial() sets for an answered call.
pub fn answered_vars(peer_name: &str, peer_number: &str, answered: Duration) -> (r: Vec<(String, String)>)
    requires
        answered.nanos / NANOS_PER_MILLI <= u64::MAX,
    ensures
        r@.len() == 4,
        forall|i: int| 0 <= i < 4 ==> (#[trigger] r@[i]).0@ == answered_variables(peer_name@, peer_number@, answered)[i].0
            && r@[i].1@ == answered_variables(peer_name@, peer_number@, answered)[i].1,
{
    let secs = answered.nanos / NANOS_PER_SEC;
    let ms = answered.nanos / NANOS_PER_MILLI;
    let mut t = String::new();
    push_decimal(&mut t, secs as u64);
    let mut m = String::new();
    push_decimal(&mut m, ms as u64);
    let mut r: Vec<(String, String)> = Vec::new();
    r.push((string_from_str("ANSWEREDTIME"), t));
    r.push((string_from_str("ANSWEREDTIME_MS"), m));
    r.push((string_from_str("DIALEDPEERNAME"), string_from_str(peer_name)));
    r.push((string_from_str("DIALEDPEERNUMBER"), string_from_str(peer_number)));
    r
}

} // verus!
