//! Character-level text primitives shared by the argument parsers.
//!
//! Every dialplan argument string is handled as a sequence of `char`s.
//! The spec functions here say what splitting, trimming and number
//! parsing mean on such sequences; the executable functions compute them.
use vstd::prelude::*;
use vstd::string::*;

verus! {

// ---------------------------------------------------------------------------
// Character classes
// ---------------------------------------------------------------------------

/// The Unicode `White_Space` characters, which is what `char::is_whitespace`
/// (and therefore `str::trim`) recognises.
pub open spec fn is_ws(c: char) -> bool {
    let n = c as u32;
    ||| (9 <= n && n <= 13)
    ||| n == 32
    ||| n == 0x85
    ||| n == 0xA0
    ||| n == 0x1680
    ||| (0x2000 <= n && n <= 0x200A)
    ||| n == 0x2028
    ||| n == 0x2029
    ||| n == 0x202F
    ||| n == 0x205F
    ||| n == 0x3000
}

pub fn is_whitespace(c: char) -> (b: bool)
    ensures
        b == is_ws(c),
{
    let n: u32 = c as u32;
    (9 <= n && n <= 13) || n == 32 || n == 0x85 || n == 0xA0 || n == 0x1680 || (0x2000 <= n && n
        <= 0x200A) || n == 0x2028 || n == 0x2029 || n == 0x202F || n == 0x205F || n == 0x3000
}

pub open spec fn is_digit(c: char) -> bool {
    '0' <= c && c <= '9'
}

pub open spec fn digit_val(c: char) -> nat {
    (c as int - '0' as int) as nat
}

pub open spec fn all_digits(s: Seq<char>) -> bool {
    forall|i: int| 0 <= i < s.len() ==> #[trigger] is_digit(s[i])
}

pub open spec fn is_ascii_alpha(c: char) -> bool {
    ('a' <= c && c <= 'z') || ('A' <= c && c <= 'Z')
}

/// ASCII upper-casing of one character; other characters are unchanged.
pub open spec fn ascii_upper(c: char) -> char {
    if 'a' <= c && c <= 'z' {
        ((c as u32) - 32) as char
    } else {
        c
    }
}

pub fn to_ascii_upper(c: char) -> (r: char)
    ensures
        r == ascii_upper(c),
{
    if 'a' <= c && c <= 'z' {
        let n: u32 = (c as u32) - 32;
        assert(0x41 <= n <= 0x5A);
        char_from_ascii(n)
    } else {
        c
    }
}

/// Builds the ASCII character with the given code.
fn char_from_ascii(n: u32) -> (c: char)
    requires
        n < 128,
    ensures
        c == n as char,
{
    let b: u8 = n as u8;
    b as char
}

/// Two sequences are equal up to ASCII case (`str::eq_ignore_ascii_case`).
pub open spec fn eq_ignore_ascii_case(a: Seq<char>, b: Seq<char>) -> bool {
    a.len() == b.len() && forall|i: int| 0 <= i < a.len() ==> ascii_upper(a[i]) == ascii_upper(
        b[i],
    )
}

pub fn chars_eq_ignore_ascii_case(a: &Vec<char>, b: &Vec<char>) -> (r: bool)
    ensures
        r == eq_ignore_ascii_case(a@, b@),
{
    if a.len() != b.len() {
        return false;
    }
    let mut i: usize = 0;
    while i < a.len()
        invariant
            a.len() == b.len(),
            i <= a.len(),
            forall|j: int| 0 <= j < i ==> ascii_upper(a@[j]) == ascii_upper(b@[j]),
        decreases a.len() - i,
    {
        if to_ascii_upper(a[i]) != to_ascii_upper(b[i]) {
            return false;
        }
        i = i + 1;
    }
    true
}

// ---------------------------------------------------------------------------
// Conversions between str / String and Vec<char>
// ---------------------------------------------------------------------------

pub fn chars_of(s: &str) -> (v: Vec<char>)
    ensures
        v@ == s@,
{
    let n: usize = s.unicode_len();
    let mut v: Vec<char> = Vec::new();
    let mut i: usize = 0;
    while i < n
        invariant
            n == s@.len(),
            i <= n,
            v@ == s@.take(i as int),
        decreases n - i,
    {
        v.push(s.get_char(i));
        i = i + 1;
        assert(v@ =~= s@.take(i as int));
    }
    assert(v@ =~= s@);
    v
}

/// Appends one character to a `String`.
/// Calls `String::push`; the contract says the view grows by that character.
#[verifier::external_body]
pub(crate) fn push_char(s: &mut String, c: char)
    ensures
        final(s)@ == old(s)@.push(c),
{
    s.push(c);
}

pub fn push_chars(out: &mut String, v: &Vec<char>)
    ensures
        final(out)@ == old(out)@ + v@,
{
    let ghost start = out@;
    let mut i: usize = 0;
    while i < v.len()
        invariant
            i <= v.len(),
            out@ == start + v@.take(i as int),
        decreases v.len() - i,
    {
        push_char(out, v[i]);
        i = i + 1;
        assert(out@ =~= start + v@.take(i as int));
    }
    assert(v@.take(v.len() as int) =~= v@);
}

pub fn string_of(v: &Vec<char>) -> (r: String)
    ensures
        r@ == v@,
{
    let mut r = String::new();
    push_chars(&mut r, v);
    assert(r@ =~= v@);
    r
}

pub fn string_from_str(s: &str) -> (r: String)
    ensures
        r@ == s@,
{
    s.to_owned()
}

/// Copies `v[lo..hi]`.
pub fn subchars(v: &Vec<char>, lo: usize, hi: usize) -> (r: Vec<char>)
    requires
        lo <= hi <= v.len(),
    ensures
        r@ == v@.subrange(lo as int, hi as int),
{
    let mut r: Vec<char> = Vec::new();
    let mut i: usize = lo;
    while i < hi
        invariant
            lo <= i <= hi,
            hi <= v.len(),
            r@ == v@.subrange(lo as int, i as int),
        decreases hi - i,
    {
        r.push(v[i]);
        i = i + 1;
        assert(r@ =~= v@.subrange(lo as int, i as int));
    }
    r
}

pub fn copy_chars(v: &Vec<char>) -> (r: Vec<char>)
    ensures
        r@ == v@,
{
    let r = subchars(v, 0, v.len());
    assert(v@.subrange(0, v@.len() as int) =~= v@);
    r
}

pub fn chars_equal(a: &Vec<char>, b: &Vec<char>) -> (r: bool)
    ensures
        r == (a@ == b@),
{
    if a.len() != b.len() {
        return false;
    }
    let mut i: usize = 0;
    while i < a.len()
        invariant
            a.len() == b.len(),
            i <= a.len(),
            forall|j: int| 0 <= j < i ==> a@[j] == b@[j],
        decreases a.len() - i,
    {
        if a[i] != b[i] {
            return false;
        }
        i = i + 1;
    }
    assert(a@ =~= b@);
    true
}

pub fn starts_with(v: &Vec<char>, p: &Vec<char>) -> (r: bool)
    ensures
        r == (p@.len() <= v@.len() && v@.take(p@.len() as int) == p@),
{
    if p.len() > v.len() {
        return false;
    }
    let mut i: usize = 0;
    while i < p.len()
        invariant
            p.len() <= v.len(),
            i <= p.len(),
            forall|j: int| 0 <= j < i ==> v@[j] == p@[j],
        decreases p.len() - i,
    {
        if v[i] != p[i] {
            assert(v@.take(p@.len() as int)[i as int] != p@[i as int]);
            return false;
        }
        i = i + 1;
    }
    assert(v@.take(p@.len() as int) =~= p@);
    true
}

pub fn contains_char(v: &Vec<char>, c: char) -> (r: bool)
    ensures
        r == v@.contains(c),
{
    let mut i: usize = 0;
    while i < v.len()
        invariant
            i <= v.len(),
            forall|j: int| 0 <= j < i ==> v@[j] != c,
        decreases v.len() - i,
    {
        if v[i] == c {
            return true;
        }
        i = i + 1;
    }
    false
}

// ---------------------------------------------------------------------------
// Searching
// ---------------------------------------------------------------------------

/// Index of the first occurrence of `c` in `s`, or -1.
pub open spec fn index_of(s: Seq<char>, c: char) -> int
    decreases s.len(),
{
    if s.len() == 0 {
        -1
    } else if s[0] == c {
        0
    } else {
        let r = index_of(s.drop_first(), c);
        if r < 0 {
            -1
        } else {
            r + 1
        }
    }
}

pub proof fn lemma_index_of_found(s: Seq<char>, c: char, i: int)
    requires
        0 <= i < s.len(),
        s[i] == c,
        forall|j: int| 0 <= j < i ==> s[j] != c,
    ensures
        index_of(s, c) == i,
    decreases i,
{
    if i > 0 {
        lemma_index_of_found(s.drop_first(), c, i - 1);
    }
}

pub proof fn lemma_index_of_absent(s: Seq<char>, c: char)
    requires
        forall|j: int| 0 <= j < s.len() ==> s[j] != c,
    ensures
        index_of(s, c) == -1,
    decreases s.len(),
{
    if s.len() > 0 {
        lemma_index_of_absent(s.drop_first(), c);
    }
}

pub proof fn lemma_index_of_props(s: Seq<char>, c: char)
    ensures
        -1 <= index_of(s, c) < s.len(),
        index_of(s, c) >= 0 ==> s[index_of(s, c)] == c,
        index_of(s, c) >= 0 ==> forall|j: int| 0 <= j < index_of(s, c) ==> s[j] != c,
        index_of(s, c) < 0 ==> forall|j: int| 0 <= j < s.len() ==> s[j] != c,
    decreases s.len(),
{
    if s.len() > 0 {
        lemma_index_of_props(s.drop_first(), c);
        if s[0] != c {
            assert forall|j: int| 0 <= j < s.len() && index_of(s, c) < 0 implies s[j] != c by {
                if j > 0 {
                    assert(s[j] == s.drop_first()[j - 1]);
                }
            }
            assert forall|j: int| 0 <= j < index_of(s, c) implies s[j] != c by {
                if j > 0 {
                    assert(s[j] == s.drop_first()[j - 1]);
                }
            }
        }
    }
}

/// Position of the first `c` in `v[lo..]`, relative to the start of `v`.
pub fn find_from(v: &Vec<char>, lo: usize, c: char) -> (r: Option<usize>)
    requires
        lo <= v.len(),
    ensures
        match r {
            Some(i) => lo <= i < v.len() && index_of(v@.subrange(lo as int, v.len() as int), c)
                == i - lo,
            None => index_of(v@.subrange(lo as int, v.len() as int), c) == -1,
        },
{
    let ghost s = v@.subrange(lo as int, v.len() as int);
    let mut i: usize = lo;
    while i < v.len()
        invariant
            lo <= i <= v.len(),
            s == v@.subrange(lo as int, v.len() as int),
            forall|j: int| 0 <= j < i - lo ==> s[j] != c,
        decreases v.len() - i,
    {
        if v[i] == c {
            proof {
                lemma_index_of_found(s, c, i - lo);
            }
            return Some(i);
        }
        i = i + 1;
    }
    proof {
        lemma_index_of_absent(s, c);
    }
    None
}

pub fn find_char(v: &Vec<char>, c: char) -> (r: Option<usize>)
    ensures
        match r {
            Some(i) => i < v.len() && index_of(v@, c) == i,
            None => index_of(v@, c) == -1,
        },
{
    let r = find_from(v, 0, c);
    assert(v@.subrange(0, v@.len() as int) =~= v@);
    r
}

/// Index of the last occurrence of `c` in `s`, or -1.
pub open spec fn last_index_of(s: Seq<char>, c: char) -> int
    decreases s.len(),
{
    if s.len() == 0 {
        -1
    } else if s.last() == c {
        s.len() - 1
    } else {
        last_index_of(s.drop_last(), c)
    }
}

pub fn rfind_char(v: &Vec<char>, c: char) -> (r: Option<usize>)
    ensures
        match r {
            Some(i) => i < v.len() && last_index_of(v@, c) == i,
            None => last_index_of(v@, c) == -1,
        },
{
    let mut i: usize = v.len();
    assert(v@.take(i as int) =~= v@);
    while i > 0
        invariant
            i <= v.len(),
            last_index_of(v@, c) == last_index_of(v@.take(i as int), c),
        decreases i,
    {
        assert(v@.take(i as int).drop_last() =~= v@.take(i - 1));
        if v[i - 1] == c {
            return Some(i - 1);
        }
        i = i - 1;
    }
    None
}

// ---------------------------------------------------------------------------
// Splitting
// ---------------------------------------------------------------------------

/// `str::split` on a single character.
pub open spec fn split_spec(s: Seq<char>, sep: char) -> Seq<Seq<char>>
    decreases s.len(),
{
    let i = index_of(s, sep);
    if i < 0 {
        seq![s]
    } else {
        proof {
            lemma_index_of_props(s, sep);
        }
        seq![s.take(i)] + split_spec(s.skip(i + 1), sep)
    }
}

/// `str::splitn(n, sep)` for `n >= 1`: at most `n` pieces, the last one
/// holding the unsplit rest.
pub open spec fn splitn_spec(s: Seq<char>, n: nat, sep: char) -> Seq<Seq<char>>
    decreases s.len(),
{
    let i = index_of(s, sep);
    if n <= 1 || i < 0 {
        seq![s]
    } else {
        proof {
            lemma_index_of_props(s, sep);
        }
        seq![s.take(i)] + splitn_spec(s.skip(i + 1), (n - 1) as nat, sep)
    }
}

proof fn lemma_split_step(s: Seq<char>, sep: char, start: int, i: int, n: nat)
    requires
        0 <= start <= i < s.len(),
        s[i] == sep,
        forall|j: int| start <= j < i ==> s[j] != sep,
    ensures
        index_of(s.subrange(start, s.len() as int), sep) == i - start,
        s.subrange(start, s.len() as int).take(i - start) == s.subrange(start, i),
        s.subrange(start, s.len() as int).skip(i - start + 1) == s.subrange(i + 1, s.len() as int),
{
    let t = s.subrange(start, s.len() as int);
    assert forall|j: int| 0 <= j < i - start implies t[j] != sep by {
        assert(t[j] == s[start + j]);
    }
    lemma_index_of_found(t, sep, i - start);
    assert(t.take(i - start) =~= s.subrange(start, i));
    assert(t.skip(i - start + 1) =~= s.subrange(i + 1, s.len() as int));
}

proof fn lemma_split_end(s: Seq<char>, sep: char, start: int)
    requires
        0 <= start <= s.len(),
        forall|j: int| start <= j < s.len() ==> s[j] != sep,
    ensures
        index_of(s.subrange(start, s.len() as int), sep) == -1,
{
    let t = s.subrange(start, s.len() as int);
    assert forall|j: int| 0 <= j < t.len() implies t[j] != sep by {
        assert(t[j] == s[start + j]);
    }
    lemma_index_of_absent(t, sep);
}

pub proof fn lemma_chars_deep_view(v: Vec<char>)
    ensures
        v.deep_view() == v@,
{
    assert(v.deep_view() =~= v@);
}

pub fn split(v: &Vec<char>, sep: char) -> (r: Vec<Vec<char>>)
    ensures
        r.deep_view() == split_spec(v@, sep),
        r.len() >= 1,
{
    let mut r: Vec<Vec<char>> = Vec::new();
    let mut start: usize = 0;
    let mut i: usize = 0;
    assert(v@.subrange(0, v.len() as int) =~= v@);
    assert(r.deep_view() + split_spec(v@, sep) =~= split_spec(v@, sep));
    while i < v.len()
        invariant
            start <= i <= v.len(),
            forall|j: int| start <= j < i ==> v@[j] != sep,
            split_spec(v@, sep) == r.deep_view() + split_spec(
                v@.subrange(start as int, v.len() as int),
                sep,
            ),
        decreases v.len() - i,
    {
        if v[i] == sep {
            proof {
                lemma_split_step(v@, sep, start as int, i as int, 0);
            }
            let piece = subchars(v, start, i);
            proof {
                lemma_chars_deep_view(piece);
            }
            let ghost old_r = r.deep_view();
            r.push(piece);
            assert(r.deep_view() =~= old_r.push(v@.subrange(start as int, i as int)));
            start = i + 1;
        }
        i = i + 1;
    }
    proof {
        lemma_split_end(v@, sep, start as int);
    }
    let piece = subchars(v, start, v.len());
    proof {
        lemma_chars_deep_view(piece);
    }
    let ghost old_r = r.deep_view();
    r.push(piece);
    assert(r.deep_view() =~= old_r.push(v@.subrange(start as int, v.len() as int)));
    r
}

pub fn splitn(v: &Vec<char>, n: usize, sep: char) -> (r: Vec<Vec<char>>)
    requires
        n >= 1,
    ensures
        r.deep_view() == splitn_spec(v@, n as nat, sep),
        r.len() >= 1,
{
    let mut r: Vec<Vec<char>> = Vec::new();
    let mut start: usize = 0;
    let mut i: usize = 0;
    assert(v@.subrange(0, v.len() as int) =~= v@);
    assert(r.deep_view() + splitn_spec(v@, n as nat, sep) =~= splitn_spec(v@, n as nat, sep));
    while i < v.len() && r.len() + 1 < n
        invariant
            start <= i <= v.len(),
            r.len() < n,
            forall|j: int| start <= j < i ==> v@[j] != sep,
            splitn_spec(v@, n as nat, sep) == r.deep_view() + splitn_spec(
                v@.subrange(start as int, v.len() as int),
                (n - r.len()) as nat,
                sep,
            ),
        decreases v.len() - i,
    {
        if v[i] == sep {
            proof {
                lemma_split_step(v@, sep, start as int, i as int, 0);
            }
            let piece = subchars(v, start, i);
            proof {
                lemma_chars_deep_view(piece);
            }
            let ghost old_r = r.deep_view();
            r.push(piece);
            assert(r.deep_view() =~= old_r.push(v@.subrange(start as int, i as int)));
            start = i + 1;
        }
        i = i + 1;
    }
    if i == v.len() {
        proof {
            lemma_split_end(v@, sep, start as int);
        }
    }
    let piece = subchars(v, start, v.len());
    proof {
        lemma_chars_deep_view(piece);
    }
    let ghost old_r = r.deep_view();
    r.push(piece);
    assert(r.deep_view() =~= old_r.push(v@.subrange(start as int, v.len() as int)));
    r
}

// ---------------------------------------------------------------------------
// Trimming
// ---------------------------------------------------------------------------

pub open spec fn trim_start(s: Seq<char>) -> Seq<char>
    decreases s.len(),
{
    if s.len() > 0 && is_ws(s[0]) {
        trim_start(s.drop_first())
    } else {
        s
    }
}

pub open spec fn trim_end(s: Seq<char>) -> Seq<char>
    decreases s.len(),
{
    if s.len() > 0 && is_ws(s.last()) {
        trim_end(s.drop_last())
    } else {
        s
    }
}

/// `str::trim`.
pub open spec fn trim(s: Seq<char>) -> Seq<char> {
    trim_end(trim_start(s))
}

pub fn trim_chars(v: &Vec<char>) -> (r: Vec<char>)
    ensures
        r@ == trim(v@),
{
    let mut lo: usize = 0;
    assert(v@.subrange(0, v.len() as int) =~= v@);
    while lo < v.len() && is_whitespace(v[lo])
        invariant
            lo <= v.len(),
            trim_start(v@) == trim_start(v@.subrange(lo as int, v.len() as int)),
        decreases v.len() - lo,
    {
        assert(v@.subrange(lo as int, v.len() as int).drop_first() =~= v@.subrange(
            lo + 1,
            v.len() as int,
        ));
        lo = lo + 1;
    }
    assert(v@.subrange(0, v.len() as int) =~= v@);
    let ghost ts = v@.subrange(lo as int, v.len() as int);
    assert(trim_start(v@) == ts);
    let mut hi: usize = v.len();
    while hi > lo && is_whitespace(v[hi - 1])
        invariant
            lo <= hi <= v.len(),
            ts == v@.subrange(lo as int, v.len() as int),
            trim_end(ts) == trim_end(v@.subrange(lo as int, hi as int)),
        decreases hi,
    {
        assert(v@.subrange(lo as int, hi as int).drop_last() =~= v@.subrange(
            lo as int,
            hi - 1,
        ));
        hi = hi - 1;
    }
    subchars(v, lo, hi)
}

pub fn trim_str(s: &str) -> (r: Vec<char>)
    ensures
        r@ == trim(s@),
{
    let v = chars_of(s);
    trim_chars(&v)
}

// ---------------------------------------------------------------------------
// Integer parsing (`str::parse` on the integer types)
// ---------------------------------------------------------------------------

/// Decimal value of a digit string.
pub open spec fn digits_value(s: Seq<char>) -> nat
    decreases s.len(),
{
    if s.len() == 0 {
        0
    } else {
        digits_value(s.drop_last()) * 10 + digit_val(s.last())
    }
}

/// Text of an unsigned integer: an optional `+` and at least one digit.
pub open spec fn unsigned_text(s: Seq<char>) -> Option<nat> {
    let body = if s.len() > 0 && s[0] == '+' {
        s.drop_first()
    } else {
        s
    };
    if body.len() > 0 && all_digits(body) {
        Some(digits_value(body))
    } else {
        None
    }
}

/// Text of a signed integer: an optional `+` or `-` and at least one digit.
pub open spec fn signed_text(s: Seq<char>) -> Option<int> {
    if s.len() > 0 && s[0] == '-' {
        let body = s.drop_first();
        if body.len() > 0 && all_digits(body) {
            Some(-(digits_value(body) as int))
        } else {
            None
        }
    } else {
        match unsigned_text(s) {
            Some(v) => Some(v as int),
            None => None,
        }
    }
}

/// What `str::parse` gives for an unsigned type whose largest value is `max`.
pub open spec fn parse_unsigned(s: Seq<char>, max: nat) -> Option<nat> {
    match unsigned_text(s) {
        Some(v) => if v <= max {
            Some(v)
        } else {
            None
        },
        None => None,
    }
}

/// What `str::parse` gives for a signed type with range `[min, max]`.
pub open spec fn parse_signed(s: Seq<char>, min: int, max: int) -> Option<int> {
    match signed_text(s) {
        Some(v) => if min <= v && v <= max {
            Some(v)
        } else {
            None
        },
        None => None,
    }
}

pub open spec fn parse_u64_spec(s: Seq<char>) -> Option<u64> {
    match parse_unsigned(s, u64::MAX as nat) {
        Some(v) => Some(v as u64),
        None => None,
    }
}

pub open spec fn parse_u32_spec(s: Seq<char>) -> Option<u32> {
    match parse_unsigned(s, u32::MAX as nat) {
        Some(v) => Some(v as u32),
        None => None,
    }
}

pub open spec fn parse_usize_spec(s: Seq<char>) -> Option<usize> {
    match parse_unsigned(s, usize::MAX as nat) {
        Some(v) => Some(v as usize),
        None => None,
    }
}

pub open spec fn parse_i32_spec(s: Seq<char>) -> Option<i32> {
    match parse_signed(s, i32::MIN as int, i32::MAX as int) {
        Some(v) => Some(v as i32),
        None => None,
    }
}

pub open spec fn parse_i64_spec(s: Seq<char>) -> Option<i64> {
    match parse_signed(s, i64::MIN as int, i64::MAX as int) {
        Some(v) => Some(v as i64),
        None => None,
    }
}

pub open spec fn parse_i8_spec(s: Seq<char>) -> Option<i8> {
    match parse_signed(s, i8::MIN as int, i8::MAX as int) {
        Some(v) => Some(v as i8),
        None => None,
    }
}

pub(crate) proof fn lemma_digits_value_prefix(s: Seq<char>, k: int)
    requires
        0 <= k <= s.len(),
    ensures
        digits_value(s.take(k)) <= digits_value(s),
    decreases s.len(),
{
    if k == s.len() {
        assert(s.take(k) =~= s);
    } else {
        lemma_digits_value_prefix(s.drop_last(), k);
        assert(s.drop_last().take(k) =~= s.take(k));
    }
}

pub(crate) fn digit_of(c: char) -> (d: u64)
    requires
        is_digit(c),
    ensures
        d == digit_val(c),
        d < 10,
{
    let n: u32 = c as u32;
    (n - 48) as u64
}

/// Value of the digit run `v[lo..]`, or `None` when it exceeds `max`.
pub fn digit_run_value(v: &Vec<char>, lo: usize, max: u64) -> (r: Option<u64>)
    requires
        lo <= v.len(),
        all_digits(v@.subrange(lo as int, v.len() as int)),
    ensures
        match r {
            Some(x) => x == digits_value(v@.subrange(lo as int, v.len() as int)) && x <= max,
            None => digits_value(v@.subrange(lo as int, v.len() as int)) > max,
        },
{
    let ghost body = v@.subrange(lo as int, v.len() as int);
    let mut value: u64 = 0;
    let mut i: usize = lo;
    while i < v.len()
        invariant
            lo <= i <= v.len(),
            body == v@.subrange(lo as int, v.len() as int),
            all_digits(body),
            value == digits_value(body.take(i - lo)),
            value <= max,
        decreases v.len() - i,
    {
        assert(is_digit(body[i - lo]));
        assert(body[i - lo] == v@[i as int]);
        let d = digit_of(v[i]);
        assert(body.take(i - lo + 1).drop_last() =~= body.take(i - lo));
        assert(body.take(i - lo + 1).last() == v@[i as int]);
        if d > max || value > (max - d) / 10 {
            assert(value * 10 + d > max) by (nonlinear_arith)
                requires
                    d > max || value > (max - d) / 10,
                    d <= 9,
            ;
            proof {
                lemma_digits_value_prefix(body, i - lo + 1);
            }
            return None;
        }
        assert(value * 10 + d <= max) by (nonlinear_arith)
            requires
                value <= (max - d) / 10,
                d <= max,
        ;
        value = value * 10 + d;
        i = i + 1;
    }
    assert(body.take(i - lo) =~= body);
    Some(value)
}

/// `str::parse` for an unsigned integer type whose largest value is `max`.
pub fn parse_uint(v: &Vec<char>, max: u64) -> (r: Option<u64>)
    ensures
        match parse_unsigned(v@, max as nat) {
            Some(x) => r == Some(x as u64),
            None => r is None,
        },
{
    let mut lo: usize = 0;
    if v.len() > 0 && v[0] == '+' {
        lo = 1;
    }
    assert(lo == 1 ==> v@.subrange(1, v.len() as int) =~= v@.drop_first());
    assert(lo == 0 ==> v@.subrange(0, v.len() as int) =~= v@);
    if lo >= v.len() {
        return None;
    }
    let mut i: usize = lo;
    while i < v.len()
        invariant
            lo <= i <= v.len(),
            lo <= 1,
            lo == 1 ==> v@[0] == '+',
            lo == 0 ==> !(v.len() > 0 && v@[0] == '+'),
            forall|j: int| lo <= j < i ==> is_digit(v@[j]),
        decreases v.len() - i,
    {
        if !('0' <= v[i] && v[i] <= '9') {
            assert(!is_digit(v@.subrange(lo as int, v.len() as int)[i - lo]));
            return None;
        }
        i = i + 1;
    }
    assert(all_digits(v@.subrange(lo as int, v.len() as int)));
    digit_run_value(v, lo, max)
}

/// `str::parse` for a signed integer type with range `[min, max]`.
pub fn parse_sint(v: &Vec<char>, min: i64, max: i64) -> (r: Option<i64>)
    requires
        min < 0 <= max,
    ensures
        match parse_signed(v@, min as int, max as int) {
            Some(x) => r == Some(x as i64),
            None => r is None,
        },
{
    if v.len() > 0 && v[0] == '-' {
        let body = subchars(v, 1, v.len());
        assert(body@ =~= v@.drop_first());
        let lim: u64 = (-(min as i128)) as u64;
        if body.len() == 0 || body[0] == '+' {
            assert(body@.len() > 0 ==> !is_digit(body@[0]));
            return None;
        }
        match parse_uint(&body, lim) {
            Some(x) => {
                let neg: i128 = -(x as i128);
                Some(neg as i64)
            },
            None => None,
        }
    } else {
        match parse_uint(v, max as u64) {
            Some(x) => Some(x as i64),
            None => None,
        }
    }
}

pub fn parse_u64(v: &Vec<char>) -> (r: Option<u64>)
    ensures
        r == parse_u64_spec(v@),
{
    parse_uint(v, u64::MAX)
}

pub fn parse_u32(v: &Vec<char>) -> (r: Option<u32>)
    ensures
        r == parse_u32_spec(v@),
{
    match parse_uint(v, u32::MAX as u64) {
        Some(x) => Some(x as u32),
        None => None,
    }
}

pub fn parse_usize(v: &Vec<char>) -> (r: Option<usize>)
    ensures
        r == parse_usize_spec(v@),
{
    match parse_uint(v, usize::MAX as u64) {
        Some(x) => Some(x as usize),
        None => None,
    }
}

pub fn parse_i32(v: &Vec<char>) -> (r: Option<i32>)
    ensures
        r == parse_i32_spec(v@),
{
    match parse_sint(v, i32::MIN as i64, i32::MAX as i64) {
        Some(x) => Some(x as i32),
        None => None,
    }
}

pub fn parse_i64(v: &Vec<char>) -> (r: Option<i64>)
    ensures
        r == parse_i64_spec(v@),
{
    parse_sint(v, i64::MIN, i64::MAX)
}

pub fn parse_i8(v: &Vec<char>) -> (r: Option<i8>)
    ensures
        r == parse_i8_spec(v@),
{
    match parse_sint(v, i8::MIN as i64, i8::MAX as i64) {
        Some(x) => Some(x as i8),
        None => None,
    }
}

// ---------------------------------------------------------------------------
// Decimal formatting (`to_string` on integers)
// ---------------------------------------------------------------------------

pub open spec fn digit_char(d: nat) -> char {
    (d + 48) as char
}

/// Decimal digits of `n`, most significant first, without leading zeros.
pub open spec fn decimal(n: nat) -> Seq<char>
    decreases n,
{
    if n < 10 {
        seq![digit_char(n)]
    } else {
        decimal(n / 10).push(digit_char(n % 10))
    }
}

/// Decimal text of a signed integer, with a leading `-` when negative.
pub open spec fn signed_decimal(n: int) -> Seq<char> {
    if n < 0 {
        seq!['-'] + decimal((-n) as nat)
    } else {
        decimal(n as nat)
    }
}

pub fn push_decimal(out: &mut String, n: u64)
    ensures
        final(out)@ == old(out)@ + decimal(n as nat),
    decreases n,
{
    if n >= 10 {
        push_decimal(out, n / 10);
    }
    let d: u32 = (n % 10) as u32;
    let c = char_from_ascii(d + 48);
    push_char(out, c);
    proof {
        if n < 10 {
            assert(decimal(n as nat) =~= seq![digit_char(n as nat)]);
        }
    }
    assert(out@ =~= old(out)@ + decimal(n as nat)) by {
        if n >= 10 {
            assert(decimal(n as nat) =~= decimal((n / 10) as nat).push(digit_char((n % 10) as nat)));
        }
    }
}

pub fn push_signed_decimal(out: &mut String, n: i64)
    ensures
        final(out)@ == old(out)@ + signed_decimal(n as int),
{
    if n < 0 {
        push_char(out, '-');
        let m: u64 = (-(n as i128)) as u64;
        push_decimal(out, m);
        assert(out@ =~= old(out)@ + signed_decimal(n as int));
    } else {
        push_decimal(out, n as u64);
    }
}

// ---------------------------------------------------------------------------
// Views of strings, lists and joins
// ---------------------------------------------------------------------------

pub open spec fn str_views(v: Seq<String>) -> Seq<Seq<char>> {
    v.map_values(|x: String| x@)
}

pub open spec fn opt_str(o: Option<String>) -> Option<Seq<char>> {
    match o {
        Some(x) => Some(x@),
        None => None,
    }
}

/// The piece at position `k`, or the empty text when there is none.
pub open spec fn piece_or_empty(parts: Seq<Seq<char>>, k: int) -> Seq<char> {
    if 0 <= k < parts.len() {
        parts[k]
    } else {
        Seq::<char>::empty()
    }
}

/// `[T]::join`: the pieces with `sep` between consecutive ones.
pub open spec fn join(parts: Seq<Seq<char>>, sep: Seq<char>) -> Seq<char>
    decreases parts.len(),
{
    if parts.len() == 0 {
        Seq::<char>::empty()
    } else if parts.len() == 1 {
        parts[0]
    } else {
        join(parts.drop_last(), sep) + sep + parts.last()
    }
}

pub fn strings_of(pieces: &Vec<Vec<char>>) -> (r: Vec<String>)
    ensures
        str_views(r@) == pieces.deep_view(),
{
    let mut r: Vec<String> = Vec::new();
    let mut i: usize = 0;
    while i < pieces.len()
        invariant
            i <= pieces.len(),
            str_views(r@) == pieces.deep_view().take(i as int),
        decreases pieces.len() - i,
    {
        let s = string_of(&pieces[i]);
        proof {
            lemma_chars_deep_view(pieces@[i as int]);
            assert(pieces.deep_view()[i as int] == s@);
        }
        let ghost old_r = r@;
        r.push(s);
        assert(str_views(r@) =~= str_views(old_r).push(s@));
        i = i + 1;
        assert(str_views(r@) =~= pieces.deep_view().take(i as int));
    }
    assert(pieces.deep_view().take(i as int) =~= pieces.deep_view());
    r
}

pub fn push_joined(out: &mut String, parts: &Vec<String>, sep: char)
    ensures
        final(out)@ == old(out)@ + join(str_views(parts@), seq![sep]),
{
    let ghost start = out@;
    let mut i: usize = 0;
    while i < parts.len()
        invariant
            i <= parts.len(),
            out@ == start + join(str_views(parts@).take(i as int), seq![sep]),
        decreases parts.len() - i,
    {
        let ghost before = out@;
        if i > 0 {
            push_char(out, sep);
        }
        out.append(parts[i].as_str());
        i = i + 1;
        proof {
            let t = str_views(parts@).take(i as int);
            assert(t.drop_last() =~= str_views(parts@).take(i - 1));
            assert(t.last() == parts@[i - 1]@);
            if i == 1 {
                assert(join(str_views(parts@).take(0), seq![sep]) =~= Seq::<char>::empty());
                assert(out@ =~= start + join(t, seq![sep]));
            } else {
                assert(out@ =~= start + join(t, seq![sep]));
            }
        }
    }
    assert(str_views(parts@).take(i as int) =~= str_views(parts@));
}

pub fn push_str(out: &mut String, s: &str)
    ensures
        final(out)@ == old(out)@ + s@,
{
    out.append(s);
}

/// `base` with `p` appended the way a filesystem path is extended: an
/// absolute `p` replaces `base`; otherwise one `/` separates them unless
/// `base` is empty or already ends with one.
pub open spec fn path_join(base: Seq<char>, p: Seq<char>) -> Seq<char> {
    if p.len() > 0 && p[0] == '/' {
        p
    } else if base.len() == 0 || base[base.len() - 1] == '/' {
        base + p
    } else {
        base + seq!['/'] + p
    }
}

/// The text after the last `/` of a path.
pub open spec fn last_component(p: Seq<char>) -> Seq<char> {
    p.skip(last_index_of(p, '/') + 1)
}

/// A path whose file name is plainly its last component: the path does
/// not end in `/`, and that component is neither `.` nor `..`.
pub open spec fn has_plain_file_name(p: Seq<char>) -> bool {
    let c = last_component(p);
    c.len() > 0 && c != "."@ && c != ".."@
}

/// The extension of such a path: what follows the last `.` of its file
/// name, when that `.` is not the name's first character.
pub open spec fn plain_extension(p: Seq<char>) -> Option<Seq<char>> {
    let c = last_component(p);
    let i = last_index_of(c, '.');
    if i > 0 {
        Some(c.skip(i + 1))
    } else {
        None
    }
}

/// Such a path with its extension replaced by `ext` (removed when `ext` is
/// empty): the path up to the end of the file name's stem, then `.` and
/// `ext`.
pub open spec fn plain_with_extension(p: Seq<char>, ext: Seq<char>) -> Seq<char> {
    let c = last_component(p);
    let i = last_index_of(c, '.');
    let stem_end = if i > 0 {
        p.len() - c.len() + i
    } else {
        p.len() as int
    };
    p.take(stem_end) + if ext.len() == 0 {
        Seq::<char>::empty()
    } else {
        seq!['.'] + ext
    }
}

pub fn path_join_strings(base: &String, p: &String) -> (r: String)
    ensures
        r@ == path_join(base@, p@),
{
    let b = chars_of(base.as_str());
    let q = chars_of(p.as_str());
    if q.len() > 0 && q[0] == '/' {
        return string_of(&q);
    }
    let mut r = string_of(&b);
    if !(b.len() == 0 || b[b.len() - 1] == '/') {
        push_char(&mut r, '/');
    }
    push_chars(&mut r, &q);
    r
}

/// The piece at position `k` with surrounding whitespace removed, or the
/// empty text when there is no such piece.
pub open spec fn trimmed_piece(parts: Seq<Seq<char>>, k: int) -> Seq<char> {
    trim(piece_or_empty(parts, k))
}

pub fn trimmed_piece_of(parts: &Vec<Vec<char>>, k: usize) -> (r: Vec<char>)
    ensures
        r@ == trimmed_piece(parts.deep_view(), k as int),
{
    if k < parts.len() {
        proof {
            lemma_chars_deep_view(parts@[k as int]);
        }
        trim_chars(&parts[k])
    } else {
        let r: Vec<char> = Vec::new();
        assert(trim(Seq::<char>::empty()) =~= Seq::<char>::empty()) by {
            reveal_with_fuel(trim_start, 1);
            reveal_with_fuel(trim_end, 1);
        }
        r
    }
}

/// `Some(s)` when `s` is not empty.
pub open spec fn nonempty(s: Seq<char>) -> Option<Seq<char>> {
    if s.len() > 0 {
        Some(s)
    } else {
        None
    }
}

pub fn nonempty_string(v: &Vec<char>) -> (r: Option<String>)
    ensures
        opt_str(r) == nonempty(v@),
{
    if v.len() > 0 {
        Some(string_of(v))
    } else {
        None
    }
}

/// `s`, or `default` when `s` is empty.
pub open spec fn or_default(s: Seq<char>, default: Seq<char>) -> Seq<char> {
    if s.len() > 0 {
        s
    } else {
        default
    }
}

pub fn string_or(v: &Vec<char>, default: &str) -> (r: String)
    ensures
        r@ == or_default(v@, default@),
{
    if v.len() > 0 {
        string_of(v)
    } else {
        string_from_str(default)
    }
}

/// The pieces, trimmed, without the blank ones.
pub open spec fn trimmed_nonblank(parts: Seq<Seq<char>>) -> Seq<Seq<char>>
    decreases parts.len(),
{
    if parts.len() == 0 {
        Seq::<Seq<char>>::empty()
    } else if trim(parts.last()).len() > 0 {
        trimmed_nonblank(parts.drop_last()).push(trim(parts.last()))
    } else {
        trimmed_nonblank(parts.drop_last())
    }
}

pub fn trimmed_nonblank_of(parts: &Vec<Vec<char>>) -> (r: Vec<String>)
    ensures
        str_views(r@) == trimmed_nonblank(parts.deep_view()),
{
    let mut r: Vec<String> = Vec::new();
    let mut k: usize = 0;
    while k < parts.len()
        invariant
            k <= parts.len(),
            str_views(r@) == trimmed_nonblank(parts.deep_view().take(k as int)),
        decreases parts.len() - k,
    {
        proof {
            lemma_chars_deep_view(parts@[k as int]);
        }
        assert(parts.deep_view().take(k + 1).drop_last() =~= parts.deep_view().take(k as int));
        let t = trim_chars(&parts[k]);
        if t.len() > 0 {
            let ghost before = r@;
            r.push(string_of(&t));
            assert(str_views(r@) =~= str_views(before).push(t@));
        }
        k = k + 1;
    }
    assert(parts.deep_view().take(parts.len() as int) =~= parts.deep_view());
    r
}

/// Whether `c` lower-cases (`char::to_lowercase`) to the ASCII lower-case
/// letter `w`: `w` itself, its upper-case form, or for `k` the Kelvin sign.
pub open spec fn folds_to(c: char, w: char) -> bool {
    c == w || ('a' <= w <= 'z' && c as u32 + 32 == w as u32) || (w == 'k' && c == '\u{212A}')
}

/// Whether the character `c` upper-cases (as `char::to_uppercase` does) to
/// the single ASCII character `w`: `w` itself, its lower-case form, the
/// dotless `ı` for `I`, or the long `ſ` for `S`.
pub open spec fn raises_to(c: char, w: char) -> bool {
    c == w || ('A' <= w <= 'Z' && c as u32 == w as u32 + 32) || (w == 'I' && c == '\u{131}') || (
    w == 'S' && c == '\u{17F}')
}

/// Whether `t` upper-cases to the upper-case ASCII word `w` (one holding
/// none of the pairs `SS`, `FF`, `FI`, `FL`, `ST` that a single character
/// can upper-case to, so only one-for-one upper-casing can match).
pub open spec fn upper_is(t: Seq<char>, w: Seq<char>) -> bool {
    t.len() == w.len() && forall|i: int| 0 <= i < t.len() ==> raises_to(#[trigger] t[i], w[i])
}

pub fn char_raises_to(c: char, w: char) -> (r: bool)
    ensures
        r == raises_to(c, w),
{
    if c == w {
        return true;
    }
    if 'A' <= w && w <= 'Z' && (c as u32) == (w as u32) + 32 {
        return true;
    }
    (w == 'I' && c == '\u{131}') || (w == 'S' && c == '\u{17F}')
}

pub fn chars_upper_is(t: &Vec<char>, w: &str) -> (r: bool)
    ensures
        r == upper_is(t@, w@),
{
    let wv = chars_of(w);
    if t.len() != wv.len() {
        return false;
    }
    let mut i: usize = 0;
    while i < t.len()
        invariant
            t.len() == wv@.len(),
            wv@ == w@,
            i <= t.len(),
            forall|j: int| 0 <= j < i ==> raises_to(t@[j], wv@[j]),
        decreases t.len() - i,
    {
        if !char_raises_to(t[i], wv[i]) {
            return false;
        }
        i = i + 1;
    }
    true
}

/// Whether `t` lower-cases to the lower-case ASCII word `w`.
pub open spec fn lower_is(t: Seq<char>, w: Seq<char>) -> bool {
    t.len() == w.len() && forall|i: int| 0 <= i < t.len() ==> folds_to(#[trigger] t[i], w[i])
}

/// Whether the lower-cased `t` contains the lower-case ASCII word `w`
/// (which holds no `i` at its ends, so no multi-character lower-casing
/// can take part in a match).
pub open spec fn contains_folded(t: Seq<char>, w: Seq<char>) -> bool {
    exists|i: int| 0 <= i && i + w.len() <= t.len() && #[trigger] lower_is(t.subrange(i, i + w.len()), w)
}

pub fn char_folds_to(c: char, w: char) -> (r: bool)
    ensures
        r == folds_to(c, w),
{
    if c == w {
        return true;
    }
    if 'a' <= w && w <= 'z' && 'A' <= c && c <= 'Z' {
        let cu: u32 = c as u32;
        let wu: u32 = w as u32;
        return cu + 32 == wu;
    }
    if 'a' <= w && w <= 'z' {
        let cu: u32 = c as u32;
        let wu: u32 = w as u32;
        if cu + 32 == wu {
            return true;
        }
    }
    w == 'k' && c == '\u{212A}'
}

fn folded_at(t: &Vec<char>, i: usize, w: &Vec<char>) -> (r: bool)
    requires
        i + w.len() <= t.len(),
    ensures
        r == lower_is(t@.subrange(i as int, i + w.len()), w@),
{
    let mut j: usize = 0;
    while j < w.len()
        invariant
            j <= w.len(),
            i + w.len() <= t.len(),
            forall|k: int| 0 <= k < j ==> folds_to(t@[i + k], w@[k]),
        decreases w.len() - j,
    {
        if !char_folds_to(t[i + j], w[j]) {
            assert(!folds_to(t@.subrange(i as int, i + w.len())[j as int], w@[j as int]));
            return false;
        }
        j = j + 1;
    }
    assert forall|k: int| 0 <= k < w.len() implies folds_to(
        #[trigger] t@.subrange(i as int, i + w.len())[k],
        w@[k],
    ) by {
        assert(t@.subrange(i as int, i + w.len())[k] == t@[i + k]);
    }
    true
}

pub fn chars_lower_is(t: &Vec<char>, w: &Vec<char>) -> (r: bool)
    ensures
        r == lower_is(t@, w@),
{
    if t.len() != w.len() {
        return false;
    }
    let r = folded_at(t, 0, w);
    assert(t@.subrange(0, w.len() as int) =~= t@);
    r
}

pub fn chars_contains_folded(t: &Vec<char>, w: &Vec<char>) -> (r: bool)
    ensures
        r == contains_folded(t@, w@),
{
    if w.len() > t.len() {
        return false;
    }
    let mut i: usize = 0;
    let last: usize = t.len() - w.len();
    while i <= last
        invariant
            w.len() <= t.len(),
            last == t.len() - w.len(),
            i <= last + 1,
            forall|k: int| 0 <= k < i ==> !lower_is(#[trigger] t@.subrange(k, k + w.len()), w@),
        decreases t.len() - i,
    {
        if folded_at(t, i, w) {
            return true;
        }
        i = i + 1;
    }
    false
}

/// ASCII lower-casing of one character; other characters are unchanged.
pub open spec fn ascii_lower(c: char) -> char {
    if 'A' <= c && c <= 'Z' {
        ((c as u32) + 32) as char
    } else {
        c
    }
}

/// `str::to_ascii_lowercase`.
pub open spec fn ascii_lower_seq(s: Seq<char>) -> Seq<char> {
    s.map_values(|c: char| ascii_lower(c))
}

pub fn to_ascii_lower(c: char) -> (r: char)
    ensures
        r == ascii_lower(c),
{
    if 'A' <= c && c <= 'Z' {
        let n: u32 = (c as u32) + 32;
        char_from_ascii(n)
    } else {
        c
    }
}

pub fn ascii_lower_str(s: &str) -> (r: String)
    ensures
        r@ == ascii_lower_seq(s@),
{
    let v = chars_of(s);
    let mut out: Vec<char> = Vec::new();
    let mut i: usize = 0;
    while i < v.len()
        invariant
            i <= v.len(),
            v@ == s@,
            out@ == ascii_lower_seq(s@.take(i as int)),
        decreases v.len() - i,
    {
        out.push(to_ascii_lower(v[i]));
        i = i + 1;
        assert(out@ =~= ascii_lower_seq(s@.take(i as int)));
    }
    assert(s@.take(v.len() as int) =~= s@);
    string_of(&out)
}

/// The non-empty `&`-separated pieces.
pub open spec fn nonempty_pieces(parts: Seq<Seq<char>>) -> Seq<Seq<char>>
    decreases parts.len(),
{
    if parts.len() == 0 {
        Seq::<Seq<char>>::empty()
    } else if parts.last().len() > 0 {
        nonempty_pieces(parts.drop_last()).push(parts.last())
    } else {
        nonempty_pieces(parts.drop_last())
    }
}

/// A text that trims to nothing is all whitespace.
pub proof fn lemma_trim_blank(s: Seq<char>)
    requires
        trim(s).len() == 0,
    ensures
        forall|i: int| 0 <= i < s.len() ==> is_ws(#[trigger] s[i]),
    decreases s.len(),
{
    if s.len() > 0 {
        if is_ws(s[0]) {
            assert(trim_start(s) == trim_start(s.drop_first()));
            lemma_trim_blank(s.drop_first());
            assert forall|i: int| 0 <= i < s.len() implies is_ws(#[trigger] s[i]) by {
                if i > 0 {
                    assert(s[i] == s.drop_first()[i - 1]);
                }
            }
        } else {
            assert(trim_start(s) == s);
            lemma_trim_end_keeps_first(s);
        }
    }
}

/// Trimming the end of a text that begins with a non-space keeps that
/// first character.
proof fn lemma_trim_end_keeps_first(s: Seq<char>)
    requires
        s.len() > 0,
        !is_ws(s[0]),
    ensures
        trim_end(s).len() > 0,
    decreases s.len(),
{
    if is_ws(s.last()) {
        assert(s.len() > 1);
        assert(s.drop_last()[0] == s[0]);
        lemma_trim_end_keeps_first(s.drop_last());
    }
}

} // verus!
