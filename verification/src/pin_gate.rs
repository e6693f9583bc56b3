//! PinGate(): authenticating a caller by a PIN without ever storing the
//! entered digits in a channel variable. This module holds the secret, its
//! constant-time comparison, the arguments, the digit collection rule and
//! the PINGATESTATUS values.
use crate::text::{chars_of, splitn, splitn_spec, string_from_str, string_of, trim, trimmed_piece, trimmed_piece_of};
use crate::time::{parse_positive_seconds, positive_seconds, Duration, NANOS_PER_SEC};
use crate::{DialplanApp, PbxExecResult};
use subtle::ConstantTimeEq;
use zeroize::Zeroize;
use vstd::prelude::*;

verus! {

/// The number of digits of the PIN.
pub const PIN_LENGTH: usize = 6;

/// Constant-time equality of two byte slices.
/// Calls `subtle::ConstantTimeEq::ct_eq` on `[u8]`, which is true exactly
/// when the lengths and all bytes are equal, and converts the `Choice`.
#[verifier::external_body]
fn ct_eq_bytes(a: &[u8], b: &[u8]) -> (r: bool)
    ensures
        r == (a@ == b@),
{
    a.ct_eq(b).into()
}

/// Constant-time equality of two integers.
/// Calls `subtle::ConstantTimeEq::ct_eq` on `u64` and converts the `Choice`.
#[verifier::external_body]
fn ct_eq_u64(a: u64, b: u64) -> (r: bool)
    ensures
        r == (a == b),
{
    a.ct_eq(&b).into()
}

/// Overwrites a PIN buffer with zeros.
/// Calls `zeroize::Zeroize::zeroize` on the array, which writes zero into
/// every byte.
#[verifier::external_body]
fn wipe_pin(a: &mut [u8; PIN_LENGTH])
    ensures
        forall|i: int| 0 <= i < final(a)@.len() ==> final(a)@[i] == 0,
        final(a)@.len() == PIN_LENGTH,
    opens_invariants none
    no_unwind
{
    a.zeroize();
}

/// Overwrites a byte vector with zeros and empties it.
/// Calls `zeroize::Zeroize::zeroize` on the `Vec`, which zeroes the bytes
/// and the spare capacity and then clears the vector.
#[verifier::external_body]
fn wipe_vec(v: &mut Vec<u8>)
    ensures
        final(v)@.len() == 0,
{
    v.zeroize();
}

/// A secret line without one trailing `\n` (and then one `\r`).
pub open spec fn pin_body(b: Seq<u8>) -> Seq<u8> {
    if b.len() > 0 && b.last() == 10 {
        let c = b.drop_last();
        if c.len() > 0 && c.last() == 13 {
            c.drop_last()
        } else {
            c
        }
    } else {
        b
    }
}

/// Exactly six ASCII digits.
pub open spec fn valid_pin(b: Seq<u8>) -> bool {
    b.len() == PIN_LENGTH && forall|i: int| 0 <= i < b.len() ==> 48 <= #[trigger] b[i] <= 57
}

/// A validated six-digit secret. Its bytes are never formatted or exposed,
/// and they are wiped when the value is dropped.
pub struct PinSecret([u8; PIN_LENGTH]);

impl PinSecret {
    /// The secret's digits.
    pub closed spec fn digits(&self) -> Seq<u8> {
        self.0@
    }

    /// Reads a secret from the bytes of a file: six ASCII digits, with at
    /// most one line ending after them. The input buffer is wiped.
    pub fn parse(bytes: Vec<u8>) -> (r: Result<Self, String>)
        ensures
            match r {
                Ok(s) => valid_pin(pin_body(bytes@)) && s.digits() == pin_body(bytes@),
                Err(e) => !valid_pin(pin_body(bytes@)) && e@
                    == "PIN secret must contain exactly 6 ASCII digits"@,
            },
    {
        let mut bytes = bytes;
        let ghost orig = bytes@;
        if bytes.len() > 0 && bytes[bytes.len() - 1] == 10 {
            bytes.pop();
            if bytes.len() > 0 && bytes[bytes.len() - 1] == 13 {
                bytes.pop();
            }
        }
        assert(bytes@ =~= pin_body(orig));
        let mut ok = bytes.len() == PIN_LENGTH;
        let mut i: usize = 0;
        while i < bytes.len()
            invariant
                i <= bytes.len(),
                ok == (bytes@.len() == PIN_LENGTH && forall|j: int|
                    0 <= j < i ==> 48 <= #[trigger] bytes@[j] <= 57),
            decreases bytes.len() - i,
        {
            if !(48 <= bytes[i] && bytes[i] <= 57) {
                ok = false;
            }
            i = i + 1;
        }
        if !ok {
            wipe_vec(&mut bytes);
            return Err(string_from_str("PIN secret must contain exactly 6 ASCII digits"));
        }
        let mut secret: [u8; PIN_LENGTH] = [0u8, 0u8, 0u8, 0u8, 0u8, 0u8];
        let mut k: usize = 0;
        while k < PIN_LENGTH
            invariant
                k <= PIN_LENGTH,
                bytes@.len() == PIN_LENGTH,
                secret@.len() == PIN_LENGTH,
                forall|j: int| 0 <= j < k ==> secret@[j] == bytes@[j],
            decreases PIN_LENGTH - k,
        {
            secret[k] = bytes[k];
            k = k + 1;
        }
        assert(secret@ =~= pin_body(orig));
        wipe_vec(&mut bytes);
        Ok(PinSecret(secret))
    }

    /// Whether `entered` is the secret. Exactly six positions are compared
    /// and the length is folded into the result, with no early return that
    /// depends on the digits.
    pub fn matches(&self, entered: &[u8]) -> (r: bool)
        ensures
            r == (entered@ == self.digits()),
    {
        let mut candidate: [u8; PIN_LENGTH] = [0u8, 0u8, 0u8, 0u8, 0u8, 0u8];
        let n = entered.len();
        let mut k: usize = 0;
        while k < PIN_LENGTH
            invariant
                k <= PIN_LENGTH,
                n == entered@.len(),
                candidate@.len() == PIN_LENGTH,
                forall|j: int| 0 <= j < k ==> candidate@[j] == if j < n {
                    entered@[j]
                } else {
                    0u8
                },
            decreases PIN_LENGTH - k,
        {
            candidate[k] = if k < n {
                entered[k]
            } else {
                0
            };
            k = k + 1;
        }
        let length_matches = ct_eq_u64(n as u64, PIN_LENGTH as u64);
        let same = ct_eq_bytes(&candidate, &self.0);
        let a: u8 = if same {
            1
        } else {
            0
        };
        let b: u8 = if length_matches {
            1
        } else {
            0
        };
        let both: u8 = a & b;
        assert(both == 1 <==> (a == 1 && b == 1)) by (bit_vector)
            requires
                a <= 1 && b <= 1 && both == a & b,
        ;
        let r = both == 1;
        proof {
            if n == PIN_LENGTH {
                assert(candidate@ =~= entered@ ==> true);
                if same {
                    assert(entered@ =~= self.0@);
                }
                if entered@ == self.0@ {
                    assert(candidate@ =~= self.0@);
                }
            }
        }
        wipe_pin(&mut candidate);
        r
    }
}

impl Drop for PinSecret {
    fn drop(&mut self)
        opens_invariants none
        no_unwind
    {
        wipe_pin(&mut self.0);
    }
}

/// PINGATESTATUS values.
#[derive(Debug, Clone, Copy, PartialEq, Eq, Structural)]
pub enum PinGateStatus {
    Granted,
    Rejected,
    Timeout,
    Error,
}

impl PinGateStatus {
    pub open spec fn text(self) -> Seq<char> {
        match self {
            PinGateStatus::Granted => "GRANTED"@,
            PinGateStatus::Rejected => "REJECTED"@,
            PinGateStatus::Timeout => "TIMEOUT"@,
            PinGateStatus::Error => "ERROR"@,
        }
    }

    /// The PINGATESTATUS text of this status.
    pub fn as_str(self) -> (r: &'static str)
        ensures
            r@ == self.text(),
    {
        match self {
            PinGateStatus::Granted => "GRANTED",
            PinGateStatus::Rejected => "REJECTED",
            PinGateStatus::Timeout => "TIMEOUT",
            PinGateStatus::Error => "ERROR",
        }
    }

    /// How the application ends: a decided check (granted or rejected)
    /// lets the dialplan go on; a timeout or an error fails closed by
    /// hanging up.
    pub fn exec_result(self) -> (r: PbxExecResult)
        ensures
            r == match self {
                PinGateStatus::Granted | PinGateStatus::Rejected => PbxExecResult::Success,
                _ => PbxExecResult::Hangup,
            },
    {
        match self {
            PinGateStatus::Granted | PinGateStatus::Rejected => PbxExecResult::Success,
            _ => PbxExecResult::Hangup,
        }
    }
}

/// The arguments of
/// `PinGate(prompt[,absolute-deadline-seconds[,digit-timeout-seconds]])`.
#[derive(Debug)]
pub struct PinGateArgs {
    pub prompt: String,
    pub deadline: Duration,
    pub digit_timeout: Duration,
}

/// A timeout argument: blank gives the default; otherwise it must be a
/// positive number of seconds.
pub open spec fn timeout_arg(t: Seq<char>, default_secs: nat) -> Option<nat> {
    if t.len() == 0 {
        Some((default_secs * NANOS_PER_SEC) as nat)
    } else {
        positive_seconds(t)
    }
}

fn timeout_of(t: &Vec<char>, default_secs: u64) -> (r: Option<Duration>)
    ensures
        match timeout_arg(t@, default_secs as nat) {
            Some(n) => r == Some(Duration { nanos: n as u128 }),
            None => r is None,
        },
{
    if t.len() == 0 {
        Some(Duration::from_secs(default_secs))
    } else {
        parse_positive_seconds(t)
    }
}

impl PinGateArgs {
    /// Parses the arguments; the deadline defaults to 10 seconds and the
    /// wait between digits to 5.
    pub fn parse(args: &str) -> (r: Result<Self, String>)
        ensures
            ({
                let p = splitn_spec(args@, 3, ',');
                let d = timeout_arg(trimmed_piece(p, 1), 10);
                let g = timeout_arg(trimmed_piece(p, 2), 5);
                match r {
                    Ok(a) => d is Some && g is Some && a.prompt@ == trim(p[0])
                        && a.deadline.nanos == d.unwrap() as u128 && a.digit_timeout.nanos == g.unwrap() as u128,
                    Err(e) => (d is None || g is None) && e@
                        == "PinGate timeout must be a positive number"@,
                }
            }),
    {
        let v = chars_of(args);
        let parts = splitn(&v, 3, ',');
        let prompt = trimmed_piece_of(&parts, 0);
        let d_text = trimmed_piece_of(&parts, 1);
        let g_text = trimmed_piece_of(&parts, 2);
        let deadline = match timeout_of(&d_text, 10) {
            Some(d) => d,
            None => {
                return Err(string_from_str("PinGate timeout must be a positive number"));
            },
        };
        let digit_timeout = match timeout_of(&g_text, 5) {
            Some(d) => d,
            None => {
                return Err(string_from_str("PinGate timeout must be a positive number"));
            },
        };
        assert(parts.deep_view().len() >= 1);
        assert(prompt@ == trim(splitn_spec(args@, 3, ',')[0]));
        Ok(PinGateArgs { prompt: string_of(&prompt), deadline, digit_timeout })
    }
}

/// One DTMF digit during collection: `#` ends it, other non-digits are
/// ignored, a digit is kept, and six digits end it. Returns whether the
/// collection is over.
pub fn pin_digit_step(entered: &mut Vec<u8>, digit: char) -> (done: bool)
    requires
        old(entered)@.len() < PIN_LENGTH,
    ensures
        digit == '#' ==> done && final(entered)@ == old(entered)@,
        digit != '#' && !('0' <= digit <= '9') ==> !done && final(entered)@ == old(entered)@,
        '0' <= digit <= '9' ==> final(entered)@ == old(entered)@.push(digit as u8) && done == (
        final(entered)@.len() == PIN_LENGTH),
        final(entered)@.len() <= PIN_LENGTH,
{
    if digit == '#' {
        return true;
    }
    if !('0' <= digit && digit <= '9') {
        return false;
    }
    let b: u8 = digit as u8;
    entered.push(b);
    entered.len() == PIN_LENGTH
}

/// The `PinGate()` dialplan application.
#[derive(Debug)]
pub struct AppPinGate;

impl DialplanApp for AppPinGate {
    fn name(&self) -> (r: &str)
        ensures
            r@ == "PinGate"@,
    {
        "PinGate"
    }

    fn description(&self) -> (r: &str)
        ensures
            r@ == "Authenticate a caller without publishing entered digits"@,
    {
        "Authenticate a caller without publishing entered digits"
    }
}

} // verus!
