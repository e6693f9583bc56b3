//! Time spans, held as a whole number of nanoseconds, and the reading of
//! "seconds" arguments such as `S(30.5)` or a Dial() timeout.
use crate::text::{
    all_digits, copy_chars, digit_of, digit_val, digits_value, find_char, index_of, is_digit,
    lemma_digits_value_prefix, subchars,
};
use vstd::arithmetic::div_mod::lemma_fundamental_div_mod_converse;
use vstd::prelude::*;

verus! {

/// A span of time with nanosecond resolution.
#[derive(Debug, Clone, Copy, PartialEq, Eq, Structural, PartialOrd, Ord, Hash)]
pub struct Duration {
    pub nanos: u128,
}

pub const NANOS_PER_SEC: u128 = 1_000_000_000;

pub const NANOS_PER_MILLI: u128 = 1_000_000;

impl Duration {
    pub fn from_secs(secs: u64) -> (d: Duration)
        ensures
            d.nanos == secs * NANOS_PER_SEC,
    {
        Duration { nanos: (secs as u128) * NANOS_PER_SEC }
    }

    pub fn from_millis(ms: u64) -> (d: Duration)
        ensures
            d.nanos == ms * NANOS_PER_MILLI,
    {
        Duration { nanos: (ms as u128) * NANOS_PER_MILLI }
    }

    pub fn from_nanos(nanos: u128) -> (d: Duration)
        ensures
            d.nanos == nanos,
    {
        Duration { nanos }
    }

    pub fn as_nanos(&self) -> (n: u128)
        ensures
            n == self.nanos,
    {
        self.nanos
    }

    pub fn as_millis(&self) -> (n: u128)
        ensures
            n == self.nanos / NANOS_PER_MILLI,
    {
        self.nanos / NANOS_PER_MILLI
    }

    /// Whether the span is empty.
    pub fn is_zero(&self) -> (b: bool)
        ensures
            b == (self.nanos == 0),
    {
        self.nanos == 0
    }

    pub fn as_secs(&self) -> (n: u128)
        ensures
            n == self.nanos / NANOS_PER_SEC,
    {
        self.nanos / NANOS_PER_SEC
    }
}

/// `e` and `E` start the exponent of a number.
pub open spec fn is_exponent_mark(c: char) -> bool {
    c == 'e' || c == 'E'
}

/// The index of the first exponent mark of a text, or -1.
pub open spec fn exponent_mark(s: Seq<char>) -> int
    decreases s.len(),
{
    if s.len() == 0 {
        -1
    } else if is_exponent_mark(s[0]) {
        0
    } else {
        let r = exponent_mark(s.drop_first());
        if r < 0 {
            -1
        } else {
            r + 1
        }
    }
}

/// The value of an exponent: an optional sign, then at least one digit.
pub open spec fn exponent_value(t: Seq<char>) -> Option<int> {
    let signed = t.len() > 0 && (t[0] == '+' || t[0] == '-');
    let d = if signed {
        t.drop_first()
    } else {
        t
    };
    if d.len() > 0 && all_digits(d) {
        if signed && t[0] == '-' {
            Some(-(digits_value(d) as int))
        } else {
            Some(digits_value(d) as int)
        }
    } else {
        None
    }
}

/// `a / b` rounded to the nearest whole number, a half to the even one.
pub open spec fn round_div(a: nat, b: nat) -> nat
    recommends
        b > 0,
{
    let q = a / b;
    let r = a % b;
    if 2 * r > b || (2 * r == b && q % 2 == 1) {
        (q + 1) as nat
    } else {
        q
    }
}

/// The nanoseconds in `d * 10^x` seconds, rounded to the nearest one, a
/// half to the even one.
pub open spec fn scaled_nanos(d: nat, x: int) -> nat {
    if x + 9 >= 0 {
        d * pow10((x + 9) as nat)
    } else {
        round_div(d, pow10((-(x + 9)) as nat))
    }
}

/// The nanoseconds in 2^64 seconds, the first span a duration of whole
/// `u64` seconds cannot hold.
pub open spec fn seconds_limit_nanos() -> nat {
    ((u64::MAX as nat + 1) * NANOS_PER_SEC) as nat
}

/// A number's text without one leading `+`.
pub open spec fn unsigned_number(s: Seq<char>) -> Seq<char> {
    if s.len() > 0 && s[0] == '+' {
        s.drop_first()
    } else {
        s
    }
}

/// The part of a number before its exponent.
pub open spec fn mantissa_of(body: Seq<char>) -> Seq<char> {
    let m = exponent_mark(body);
    if m < 0 {
        body
    } else {
        body.take(m)
    }
}

/// The exponent of a number: 0 when it has none.
pub open spec fn exponent_of(body: Seq<char>) -> Option<int> {
    let m = exponent_mark(body);
    if m < 0 {
        Some(0int)
    } else {
        exponent_value(body.skip(m + 1))
    }
}

/// The digits of a mantissa before its `.`.
pub open spec fn whole_digits(mant: Seq<char>) -> Seq<char> {
    let dot = index_of(mant, '.');
    if dot < 0 {
        mant
    } else {
        mant.take(dot)
    }
}

/// The digits of a mantissa after its `.`.
pub open spec fn fraction_digits(mant: Seq<char>) -> Seq<char> {
    let dot = index_of(mant, '.');
    if dot < 0 {
        Seq::<char>::empty()
    } else {
        mant.skip(dot + 1)
    }
}

/// A mantissa of digits around at most one `.`, with at least one digit and
/// a value above zero.
pub open spec fn positive_mantissa(mant: Seq<char>) -> bool {
    let ip = whole_digits(mant);
    let fp = fraction_digits(mant);
    ip.len() + fp.len() > 0 && all_digits(ip) && all_digits(fp) && digits_value(ip + fp) > 0
}

/// Nanoseconds of a positive number of seconds, written as a float is.
///
/// The text is an optional `+`, then digits with at most one `.` and at
/// least one digit (`30`, `30.5`, `.5`, `5.`), then, optionally, an
/// exponent: `e` or `E`, an optional sign and at least one digit (`1e1`,
/// `2.5E-3`). The number must be above zero. Its value is rounded to the
/// nearest nanosecond, a half to the even one. A value of 2^64 seconds or
/// more is refused, as is anything else, such as `inf`, `NaN`, a sign `-`
/// or an empty text.
pub open spec fn positive_seconds(s: Seq<char>) -> Option<nat> {
    let body = unsigned_number(s);
    let mant = mantissa_of(body);
    match exponent_of(body) {
        Some(x) => if positive_mantissa(mant) {
            let fp = fraction_digits(mant);
            let n = scaled_nanos(digits_value(whole_digits(mant) + fp), x - fp.len());
            if n < seconds_limit_nanos() {
                Some(n)
            } else {
                None
            }
        } else {
            None
        },
        None => None,
    }
}

proof fn lemma_exponent_mark(s: Seq<char>, i: int)
    requires
        0 <= i <= s.len(),
        forall|j: int| 0 <= j < i ==> !is_exponent_mark(#[trigger] s[j]),
        i < s.len() ==> is_exponent_mark(s[i]),
    ensures
        exponent_mark(s) == if i < s.len() {
            i
        } else {
            -1
        },
    decreases i,
{
    if s.len() > 0 && i > 0 {
        let t = s.drop_first();
        assert forall|j: int| 0 <= j < i - 1 implies !is_exponent_mark(#[trigger] t[j]) by {
            assert(t[j] == s[j + 1]);
        }
        if i < s.len() {
            assert(t[i - 1] == s[i]);
        }
        assert(!is_exponent_mark(s[0]));
        lemma_exponent_mark(t, i - 1);
    }
}

proof fn lemma_digits_value_zero(s: Seq<char>)
    requires
        all_digits(s),
        forall|i: int| 0 <= i < s.len() ==> s[i] == '0',
    ensures
        digits_value(s) == 0,
    decreases s.len(),
{
    if s.len() > 0 {
        lemma_digits_value_zero(s.drop_last());
    }
}

proof fn lemma_digits_value_positive(s: Seq<char>, k: int)
    requires
        all_digits(s),
        0 <= k < s.len(),
        s[k] != '0',
    ensures
        digits_value(s) > 0,
    decreases s.len(),
{
    assert(is_digit(s[k]));
    if k == s.len() - 1 {
        assert(s.last() == s[k]);
    } else {
        assert(s.drop_last()[k] == s[k]);
        assert forall|i: int| 0 <= i < s.drop_last().len() implies is_digit(s.drop_last()[i]) by {
            assert(s.drop_last()[i] == s[i]);
        }
        lemma_digits_value_positive(s.drop_last(), k);
    }
}

pub open spec fn pow10(n: nat) -> nat
    decreases n,
{
    if n == 0 {
        1
    } else {
        10 * pow10((n - 1) as nat)
    }
}

proof fn lemma_pow10_grows(n: nat)
    ensures
        pow10(n) >= n + 1,
    decreases n,
{
    if n > 0 {
        lemma_pow10_grows((n - 1) as nat);
    }
}

proof fn lemma_pow10_mono(a: nat, b: nat)
    requires
        a <= b,
    ensures
        pow10(a) <= pow10(b),
    decreases b,
{
    if a < b {
        lemma_pow10_mono(a, (b - 1) as nat);
        lemma_pow10_grows((b - 1) as nat);
    }
}

proof fn lemma_digits_value_bound(s: Seq<char>)
    requires
        all_digits(s),
    ensures
        digits_value(s) < pow10(s.len()),
    decreases s.len(),
{
    if s.len() > 0 {
        lemma_digits_value_bound(s.drop_last());
        assert(is_digit(s.last()));
        let p = pow10((s.len() - 1) as nat);
        assert(digits_value(s.drop_last()) * 10 + 9 < p * 10) by (nonlinear_arith)
            requires
                digits_value(s.drop_last()) < p,
        ;
    }
}

/// The value of two digit runs one after the other.
proof fn lemma_digits_value_concat(a: Seq<char>, b: Seq<char>)
    ensures
        digits_value(a + b) == digits_value(a) * pow10(b.len()) + digits_value(b),
    decreases b.len(),
{
    if b.len() == 0 {
        assert(a + b =~= a);
        assert(pow10(0) == 1);
        assert(digits_value(a) * pow10(0) == digits_value(a));
    } else {
        let b1 = b.drop_last();
        lemma_digits_value_concat(a, b1);
        let ab = a + b;
        assert(ab.len() > 0);
        assert(ab.drop_last() =~= a + b1);
        assert(ab.last() == b.last());
        let p = pow10(b1.len());
        assert(pow10(b.len()) == 10 * p);
        let va = digits_value(a);
        let vb = digits_value(b1);
        let d = digit_val(b.last());
        assert(digits_value(ab) == digits_value(a + b1) * 10 + d);
        assert(digits_value(b) == vb * 10 + d);
        assert((va * p + vb) * 10 + d == va * (10 * p) + (vb * 10 + d)) by (nonlinear_arith);
    }
}

/// A quotient below a half of the divisor rounds to zero.
proof fn lemma_round_div_small(a: nat, b: nat)
    requires
        b > 0,
        2 * a < b,
    ensures
        round_div(a, b) == 0,
{
    lemma_fundamental_div_mod_converse(a as int, b as int, 0, a as int);
}

/// Exponents are read exactly below this size; one at least this large
/// already puts any positive number beyond the limit (or below half a
/// nanosecond, when negative), so it is read as this size.
pub const EXPONENT_CAP: u128 = 1_000_000_000_000_000_000_000_000_000_000;

/// The nanoseconds in 2^64 seconds.
pub const SECONDS_LIMIT_NANOS: u128 = 18_446_744_073_709_551_616_000_000_000;

/// The value of the digit run `v[lo..hi]` when it is below `cap`, else `cap`.
fn capped_digits_value(v: &Vec<char>, lo: usize, hi: usize, cap: u128) -> (r: u128)
    requires
        lo <= hi <= v.len(),
        all_digits(v@.subrange(lo as int, hi as int)),
        0 < cap <= EXPONENT_CAP,
    ensures
        r <= cap,
        r < cap ==> r == digits_value(v@.subrange(lo as int, hi as int)),
        r == cap ==> digits_value(v@.subrange(lo as int, hi as int)) >= cap,
{
    let ghost s = v@.subrange(lo as int, hi as int);
    let mut acc: u128 = 0;
    let mut i: usize = lo;
    while i < hi
        invariant
            lo <= i <= hi <= v.len(),
            s == v@.subrange(lo as int, hi as int),
            all_digits(s),
            0 < cap <= EXPONENT_CAP,
            acc < cap,
            acc == digits_value(s.take(i - lo)),
        decreases hi - i,
    {
        assert(is_digit(s[i - lo]));
        assert(s[i - lo] == v@[i as int]);
        let d = digit_of(v[i]);
        assert(s.take(i - lo + 1).drop_last() =~= s.take(i - lo));
        assert(s.take(i - lo + 1).last() == v@[i as int]);
        acc = acc * 10 + (d as u128);
        if acc >= cap {
            proof {
                lemma_digits_value_prefix(s, i - lo + 1);
            }
            return cap;
        }
        i = i + 1;
    }
    assert(s.take(i - lo) =~= s);
    acc
}

fn all_digit_chars(v: &Vec<char>) -> (r: bool)
    ensures
        r == all_digits(v@),
{
    let mut i: usize = 0;
    while i < v.len()
        invariant
            i <= v.len(),
            forall|j: int| 0 <= j < i ==> is_digit(v@[j]),
        decreases v.len() - i,
    {
        if !('0' <= v[i] && v[i] <= '9') {
            assert(!is_digit(v@[i as int]));
            return false;
        }
        i = i + 1;
    }
    true
}

/// Whether a digit run `v[lo..hi]` has a digit other than `0`, that is,
/// a value above zero.
fn has_nonzero_digit(v: &Vec<char>, lo: usize, hi: usize) -> (r: bool)
    requires
        lo <= hi <= v.len(),
        all_digits(v@.subrange(lo as int, hi as int)),
    ensures
        r == (digits_value(v@.subrange(lo as int, hi as int)) > 0),
{
    let ghost s = v@.subrange(lo as int, hi as int);
    let mut i: usize = lo;
    while i < hi
        invariant
            lo <= i <= hi <= v.len(),
            s == v@.subrange(lo as int, hi as int),
            all_digits(s),
            forall|j: int| 0 <= j < i - lo ==> s[j] == '0',
        decreases hi - i,
    {
        assert(s[i - lo] == v@[i as int]);
        if v[i] != '0' {
            proof {
                lemma_digits_value_positive(s, i - lo);
            }
            return true;
        }
        i = i + 1;
    }
    proof {
        lemma_digits_value_zero(s);
    }
    false
}

/// What a capped exponent `(neg, ev)` says of the exponent `x`: its sign
/// and size when below the cap, else that it is at least that large.
pub open spec fn capped_exponent(x: int, neg: bool, ev: u128) -> bool {
    &&& ev <= EXPONENT_CAP
    &&& ev < EXPONENT_CAP ==> x == if neg {
        -(ev as int)
    } else {
        ev as int
    }
    &&& ev == EXPONENT_CAP ==> if neg {
        x <= -(EXPONENT_CAP as int)
    } else {
        x >= EXPONENT_CAP as int
    }
}

/// Splits a number at its exponent mark: the mantissa, and the exponent's
/// sign and size up to the cap (`None` when the exponent is malformed).
fn read_exponent(body: &Vec<char>) -> (r: (Vec<char>, Option<(bool, u128)>))
    ensures
        r.0@ == mantissa_of(body@),
        match exponent_of(body@) {
            Some(x) => r.1 matches Some(p) && capped_exponent(x, p.0, p.1),
            None => r.1 is None,
        },
{
    let mut m: usize = 0;
    while m < body.len() && !(body[m] == 'e' || body[m] == 'E')
        invariant
            m <= body.len(),
            forall|j: int| 0 <= j < m ==> !is_exponent_mark(#[trigger] body@[j]),
        decreases body.len() - m,
    {
        m = m + 1;
    }
    proof {
        lemma_exponent_mark(body@, m as int);
    }
    let mant = subchars(body, 0, m);
    assert(mant@ =~= body@.take(m as int));
    assert(m == body.len() ==> mant@ =~= body@);
    if m == body.len() {
        return (mant, Some((false, 0)));
    }
    let t = subchars(body, m + 1, body.len());
    assert(t@ =~= body@.skip(m + 1));
    let signed = t.len() > 0 && (t[0] == '+' || t[0] == '-');
    let neg = t.len() > 0 && t[0] == '-';
    let start: usize = if signed {
        1
    } else {
        0
    };
    let d = subchars(&t, start, t.len());
    assert(signed ==> d@ =~= t@.drop_first());
    assert(!signed ==> d@ =~= t@);
    if d.len() == 0 || !all_digit_chars(&d) {
        return (mant, None);
    }
    assert(d@.subrange(0, d@.len() as int) =~= d@);
    let ev = capped_digits_value(&d, 0, d.len(), EXPONENT_CAP);
    (mant, Some((neg, ev)))
}

/// The digits of a mantissa, whole part then fraction, and the length of
/// the fraction; `None` unless the mantissa is a positive number.
fn read_mantissa(mant: &Vec<char>) -> (r: Option<(Vec<char>, usize)>)
    ensures
        match r {
            Some(p) => {
                &&& positive_mantissa(mant@)
                &&& p.0@ == whole_digits(mant@) + fraction_digits(mant@)
                &&& p.1 == fraction_digits(mant@).len()
                &&& all_digits(p.0@)
                &&& digits_value(p.0@) > 0
            },
            None => !positive_mantissa(mant@),
        },
{
    let (ip, fp) = match find_char(mant, '.') {
        Some(p) => {
            let a = subchars(mant, 0, p);
            let b = subchars(mant, p + 1, mant.len());
            assert(a@ =~= mant@.take(p as int));
            assert(b@ =~= mant@.skip(p + 1));
            (a, b)
        },
        None => (copy_chars(mant), Vec::new()),
    };
    assert(fp@.len() == 0 ==> fp@ =~= Seq::<char>::empty());
    if ip.len() == 0 && fp.len() == 0 {
        return None;
    }
    if !all_digit_chars(&ip) || !all_digit_chars(&fp) {
        return None;
    }
    let mut dd = copy_chars(&ip);
    let mut i: usize = 0;
    while i < fp.len()
        invariant
            i <= fp.len(),
            dd@ == ip@ + fp@.take(i as int),
        decreases fp.len() - i,
    {
        dd.push(fp[i]);
        i = i + 1;
        assert(dd@ =~= ip@ + fp@.take(i as int));
    }
    assert(fp@.take(fp@.len() as int) =~= fp@);
    assert(all_digits(dd@)) by {
        assert forall|j: int| 0 <= j < dd@.len() implies is_digit(#[trigger] dd@[j]) by {
            if j < ip@.len() {
                assert(is_digit(ip@[j]));
            } else {
                assert(is_digit(fp@[j - ip@.len()]));
            }
        }
    }
    assert(dd@.subrange(0, dd@.len() as int) =~= dd@);
    if !has_nonzero_digit(&dd, 0, dd.len()) {
        return None;
    }
    let f = fp.len();
    Some((dd, f))
}

/// `d * 10^n` nanoseconds for the digits `d`, if below the limit.
fn nanos_scaled_up(dd: &Vec<char>, n: u128) -> (r: Option<u128>)
    requires
        all_digits(dd@),
        digits_value(dd@) > 0,
    ensures
        match r {
            Some(v) => v == digits_value(dd@) * pow10(n as nat) && v < seconds_limit_nanos(),
            None => digits_value(dd@) * pow10(n as nat) >= seconds_limit_nanos(),
        },
{
    let ghost a = digits_value(dd@);
    assert(SECONDS_LIMIT_NANOS == seconds_limit_nanos());
    assert(dd@.subrange(0, dd@.len() as int) =~= dd@);
    let av = capped_digits_value(dd, 0, dd.len(), SECONDS_LIMIT_NANOS);
    if av == SECONDS_LIMIT_NANOS {
        proof {
            lemma_pow10_grows(n as nat);
            assert(a * pow10(n as nat) >= a) by (nonlinear_arith)
                requires
                    pow10(n as nat) >= 1,
            ;
        }
        return None;
    }
    let mut acc: u128 = av;
    let mut j: u128 = 0;
    assert(pow10(0) == 1);
    assert(a * pow10(0) == a);
    while j < n
        invariant
            j <= n,
            acc == a * pow10(j as nat),
            acc < SECONDS_LIMIT_NANOS,
            SECONDS_LIMIT_NANOS == seconds_limit_nanos(),
            a == digits_value(dd@),
        decreases n - j,
    {
        let next = acc * 10;
        assert(pow10((j + 1) as nat) == 10 * pow10(j as nat));
        assert(next == a * pow10((j + 1) as nat)) by (nonlinear_arith)
            requires
                acc == a * pow10(j as nat),
                next == acc * 10,
                pow10((j + 1) as nat) == 10 * pow10(j as nat),
        ;
        if next >= SECONDS_LIMIT_NANOS {
            proof {
                lemma_pow10_mono((j + 1) as nat, n as nat);
                assert(a * pow10(n as nat) >= a * pow10((j + 1) as nat)) by (nonlinear_arith)
                    requires
                        pow10(n as nat) >= pow10((j + 1) as nat),
                ;
            }
            return None;
        }
        acc = next;
        j = j + 1;
    }
    Some(acc)
}

/// `d / 10^k` nanoseconds for the digits `d`, rounded to the nearest one,
/// a half to the even one, if below the limit.
#[verifier::rlimit(30)]
fn nanos_scaled_down(dd: &Vec<char>, k: u128) -> (r: Option<u128>)
    requires
        all_digits(dd@),
        k > 0,
    ensures
        match r {
            Some(v) => v == round_div(digits_value(dd@), pow10(k as nat)) && v < seconds_limit_nanos(),
            None => round_div(digits_value(dd@), pow10(k as nat)) >= seconds_limit_nanos(),
        },
{
    let ghost ds = dd@;
    let ghost a = digits_value(ds);
    let ghost b = pow10(k as nat);
    assert(SECONDS_LIMIT_NANOS == seconds_limit_nanos());
    if k > dd.len() as u128 {
        proof {
            lemma_digits_value_bound(ds);
            lemma_pow10_mono((ds.len() + 1) as nat, k as nat);
            lemma_round_div_small(a, b);
        }
        return Some(0);
    }
    let s: usize = dd.len() - (k as usize);
    let ghost qs = ds.take(s as int);
    let ghost rs = ds.skip(s as int);
    assert(all_digits(qs) && all_digits(rs)) by {
        assert forall|j: int| 0 <= j < qs.len() implies is_digit(#[trigger] qs[j]) by {
            assert(qs[j] == ds[j]);
        }
        assert forall|j: int| 0 <= j < rs.len() implies is_digit(#[trigger] rs[j]) by {
            assert(rs[j] == ds[j + s]);
        }
    }
    assert(dd@.subrange(0, s as int) =~= qs);
    proof {
        assert(qs + rs =~= ds);
        lemma_digits_value_concat(qs, rs);
        lemma_digits_value_bound(rs);
        lemma_pow10_grows(k as nat);
        lemma_fundamental_div_mod_converse(
            a as int,
            b as int,
            digits_value(qs) as int,
            digits_value(rs) as int,
        );
    }
    let q = capped_digits_value(dd, 0, s, SECONDS_LIMIT_NANOS);
    if q == SECONDS_LIMIT_NANOS {
        return None;
    }
    let c = dd[s];
    let ghost ts = rs.drop_first();
    assert(dd@.subrange(s + 1, dd@.len() as int) =~= ts);
    assert(all_digits(ts)) by {
        assert forall|j: int| 0 <= j < ts.len() implies is_digit(#[trigger] ts[j]) by {
            assert(ts[j] == rs[j + 1]);
        }
    }
    let tail_nz = has_nonzero_digit(dd, s + 1, dd.len());
    let up = c > '5' || (c == '5' && (tail_nz || q % 2 == 1));
    proof {
        let one = seq![c];
        assert(rs =~= one + ts);
        lemma_digits_value_concat(one, ts);
        assert(one.len() == 1);
        assert(one.drop_last() =~= Seq::<char>::empty());
        assert(one.last() == c);
        assert(digits_value(one) == digits_value(one.drop_last()) * 10 + digit_val(c));
        assert(digits_value(one) == digit_val(c));
        let pp = pow10(ts.len());
        assert(pow10(rs.len()) == 10 * pp);
        lemma_digits_value_bound(ts);
        let r = digits_value(rs);
        let t = digits_value(ts);
        let dc = digit_val(c);
        assert(r == dc * pp + t);
        assert(is_digit(c)) by {
            assert(rs[0] == c);
        }
        if dc >= 6 {
            assert(2 * r > b) by (nonlinear_arith)
                requires
                    r == dc * pp + t,
                    dc >= 6,
                    b == 10 * pp,
                    pp >= 1,
            ;
        } else if dc <= 4 {
            assert(2 * r < b) by (nonlinear_arith)
                requires
                    r == dc * pp + t,
                    dc <= 4,
                    t < pp,
                    b == 10 * pp,
            ;
        } else {
            assert(2 * r == b + 2 * t) by (nonlinear_arith)
                requires
                    r == dc * pp + t,
                    dc == 5,
                    b == 10 * pp,
            ;
        }
    }
    let v: u128 = if up {
        q + 1
    } else {
        q
    };
    if v >= SECONDS_LIMIT_NANOS {
        return None;
    }
    Some(v)
}

/// Reads a positive number of seconds; see [`positive_seconds`].
pub fn parse_positive_seconds(v: &Vec<char>) -> (r: Option<Duration>)
    ensures
        match positive_seconds(v@) {
            Some(n) => r == Some(Duration { nanos: n as u128 }),
            None => r is None,
        },
{
    let body = if v.len() > 0 && v[0] == '+' {
        let b = subchars(v, 1, v.len());
        assert(b@ =~= v@.drop_first());
        b
    } else {
        copy_chars(v)
    };
    assert(body@ == unsigned_number(v@));
    let (mant, exp) = read_exponent(&body);
    let (neg, ev) = match exp {
        Some(p) => p,
        None => {
            return None;
        },
    };
    let (dd, f) = match read_mantissa(&mant) {
        Some(p) => p,
        None => {
            return None;
        },
    };
    let ghost x = exponent_of(body@)->Some_0;
    let ghost a = digits_value(dd@);
    let ghost spec_n = scaled_nanos(a, x - f);
    assert(positive_seconds(v@) == if spec_n < seconds_limit_nanos() {
        Some(spec_n)
    } else {
        None::<nat>
    });
    assert(dd@.len() == dd.len() && dd.len() <= usize::MAX && usize::MAX <= u64::MAX);
    if ev == EXPONENT_CAP {
        if neg {
            proof {
                lemma_digits_value_bound(dd@);
                let k = (-(x - f + 9)) as nat;
                lemma_pow10_mono((dd@.len() + 1) as nat, k);
                lemma_round_div_small(a, pow10(k));
            }
            return Some(Duration { nanos: 0 });
        } else {
            proof {
                let n = (x - f + 9) as nat;
                lemma_pow10_grows(n);
                assert(a * pow10(n) >= pow10(n)) by (nonlinear_arith)
                    requires
                        a >= 1,
                ;
            }
            return None;
        }
    }
    let xe: i128 = if neg {
        -(ev as i128)
    } else {
        ev as i128
    };
    let n: i128 = xe - (f as i128) + 9;
    assert(n == x - f + 9);
    let nanos = if n >= 0 {
        nanos_scaled_up(&dd, n as u128)
    } else {
        nanos_scaled_down(&dd, (-n) as u128)
    };
    match nanos {
        Some(ns) => Some(Duration { nanos: ns }),
        None => None,
    }
}

// ---------------------------------------------------------------------------
// The clock
// ---------------------------------------------------------------------------

#[verifier::external_type_specification]
#[verifier::external_body]
pub struct ExInstant(std::time::Instant);

/// `Instant` is `Copy`: a clone is the same instant.
pub assume_specification[ <std::time::Instant as Clone>::clone ](t: &std::time::Instant) -> (r: std::time::Instant)
    ensures
        r == *t,
;

/// The current instant.
/// Calls `std::time::Instant::now`; nothing is promised of the value.
#[verifier::external_body]
pub(crate) fn instant_now() -> (r: std::time::Instant) {
    std::time::Instant::now()
}

/// The time since `t`.
/// Calls `std::time::Instant::elapsed` and carries its nanoseconds over;
/// nothing is promised of the value, which depends on the clock.
#[verifier::external_body]
pub(crate) fn instant_elapsed(t: &std::time::Instant) -> (r: Duration) {
    Duration { nanos: t.elapsed().as_nanos() }
}

} // verus!
