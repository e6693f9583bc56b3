//! Read(): reading DTMF digits into a variable. This module holds the
//! arguments, the option letters, the timeouts and the READSTATUS values.
use crate::opts::{after_paren, lemma_after_paren, opt_chars, paren_text, read_paren_text};
use crate::text::{
    chars_of, lemma_chars_deep_view, nonempty_pieces, parse_u32, parse_u32_spec, split_spec, splitn, splitn_spec, str_views, string_from_str, string_of, trim, trim_chars,
    trimmed_piece, trimmed_piece_of,
};
use crate::time::{parse_positive_seconds, positive_seconds, Duration};
use crate::{DialplanApp, PbxExecResult};
use vstd::prelude::*;

verus! {

/// READSTATUS values.
#[derive(Debug, Clone, Copy, PartialEq, Eq, Structural)]
pub enum ReadStatus {
    /// Digits were read (READSTATUS `OK`).
    Okay,
    Error,
    Hangup,
    Interrupted,
    Skipped,
    Timeout,
}

impl ReadStatus {
    pub open spec fn text(self) -> Seq<char> {
        match self {
            ReadStatus::Okay => "OK"@,
            ReadStatus::Error => "ERROR"@,
            ReadStatus::Hangup => "HANGUP"@,
            ReadStatus::Interrupted => "INTERRUPTED"@,
            ReadStatus::Skipped => "SKIPPED"@,
            ReadStatus::Timeout => "TIMEOUT"@,
        }
    }

    /// The READSTATUS text of this status.
    pub fn as_str(&self) -> (r: &'static str)
        ensures
            r@ == self.text(),
    {
        match self {
            ReadStatus::Okay => "OK",
            ReadStatus::Error => "ERROR",
            ReadStatus::Hangup => "HANGUP",
            ReadStatus::Interrupted => "INTERRUPTED",
            ReadStatus::Skipped => "SKIPPED",
            ReadStatus::Timeout => "TIMEOUT",
        }
    }
}

/// The option letters of Read().
#[derive(Debug, Clone)]
pub struct ReadOptions {
    pub skip: bool,
    pub indication: bool,
    pub noanswer: bool,
    pub terminator: String,
    pub keep_terminator: bool,
}

pub struct ReadOptionsView {
    pub skip: bool,
    pub indication: bool,
    pub noanswer: bool,
    pub terminator: Seq<char>,
    pub keep_terminator: bool,
}

impl View for ReadOptions {
    type V = ReadOptionsView;

    open spec fn view(&self) -> ReadOptionsView {
        ReadOptionsView {
            skip: self.skip,
            indication: self.indication,
            noanswer: self.noanswer,
            terminator: self.terminator@,
            keep_terminator: self.keep_terminator,
        }
    }
}

/// No option letter: `#` ends the input.
pub open spec fn default_read_options() -> ReadOptionsView {
    ReadOptionsView {
        skip: false,
        indication: false,
        noanswer: false,
        terminator: "#"@,
        keep_terminator: false,
    }
}

impl Default for ReadOptions {
    fn default() -> (r: Self)
        ensures
            r@ == default_read_options(),
    {
        ReadOptions {
            skip: false,
            indication: false,
            noanswer: false,
            terminator: string_from_str("#"),
            keep_terminator: false,
        }
    }
}

/// One option letter; `t(...)` sets the terminators (none when there are
/// no parentheses).
pub open spec fn read_letter(o: ReadOptionsView, c: char, text: Option<Seq<char>>) -> ReadOptionsView {
    if c == 's' {
        ReadOptionsView { skip: true, ..o }
    } else if c == 'i' {
        ReadOptionsView { indication: true, ..o }
    } else if c == 'n' {
        ReadOptionsView { noanswer: true, ..o }
    } else if c == 'e' {
        ReadOptionsView { keep_terminator: true, ..o }
    } else if c == 't' {
        ReadOptionsView {
            terminator: match text {
                Some(t) => t,
                None => Seq::<char>::empty(),
            },
            ..o
        }
    } else {
        o
    }
}

pub open spec fn read_from(s: Seq<char>, i: int, o: ReadOptionsView) -> ReadOptionsView
    decreases s.len() - i,
{
    if i < 0 || i >= s.len() {
        o
    } else if s[i] == 't' {
        proof {
            lemma_after_paren(s, i + 1);
        }
        read_from(s, after_paren(s, i + 1), read_letter(o, s[i], paren_text(s, i + 1)))
    } else {
        read_from(s, i + 1, read_letter(o, s[i], None))
    }
}

/// The options an option string asks for.
pub open spec fn read_options_spec(s: Seq<char>) -> ReadOptionsView {
    read_from(s, 0, default_read_options())
}

fn read_apply(o: ReadOptions, c: char, text: Option<Vec<char>>) -> (r: ReadOptions)
    ensures
        r@ == read_letter(o@, c, opt_chars(text)),
{
    let mut o = o;
    if c == 's' {
        o.skip = true;
    } else if c == 'i' {
        o.indication = true;
    } else if c == 'n' {
        o.noanswer = true;
    } else if c == 'e' {
        o.keep_terminator = true;
    } else if c == 't' {
        o.terminator = match &text {
            Some(t) => string_of(t),
            None => String::new(),
        };
    }
    o
}

impl ReadOptions {
    /// Reads the option letters; unknown letters are ignored.
    pub fn parse(opts: &str) -> (r: Self)
        ensures
            r@ == read_options_spec(opts@),
    {
        let v = chars_of(opts);
        let mut o = ReadOptions::default();
        let mut i: usize = 0;
        while i < v.len()
            invariant
                i <= v.len(),
                v@ == opts@,
                read_options_spec(opts@) == read_from(v@, i as int, o@),
            decreases v.len() - i,
        {
            let c = v[i];
            if c == 't' {
                let (text, next) = read_paren_text(&v, i + 1);
                o = read_apply(o, c, text);
                i = next;
            } else {
                o = read_apply(o, c, None);
                i = i + 1;
            }
        }
        o
    }
}

/// The arguments of
/// `Read(variable[,filenames[,maxdigits[,options[,attempts[,timeout[,digit-timeout]]]]]])`.
#[derive(Debug)]
pub struct ReadArgs {
    pub variable: String,
    pub filenames: Vec<String>,
    pub max_digits: u32,
    pub options: ReadOptions,
    pub attempts: u32,
    pub timeout: Duration,
    pub digit_timeout: Duration,
}

pub open spec fn read_parts(s: Seq<char>) -> Seq<Seq<char>> {
    splitn_spec(s, 7, ',')
}

/// A timeout in seconds: a non-negative number, else nothing (zero).
pub open spec fn read_timeout(t: Seq<char>) -> nat {
    match positive_seconds(t) {
        Some(n) => n,
        None => 0,
    }
}

/// The digit limit: the number given, at most 255, else 0 (no limit).
pub open spec fn read_max_digits(t: Seq<char>) -> u32 {
    match parse_u32_spec(t) {
        Some(m) => if m > 255 {
            255
        } else {
            m
        },
        None => 0,
    }
}

/// The number of attempts: the number given, at least 1, else 1.
pub open spec fn read_attempts(t: Seq<char>) -> u32 {
    match parse_u32_spec(t) {
        Some(a) => if a < 1 {
            1
        } else {
            a
        },
        None => 1,
    }
}

fn timeout_of(t: &Vec<char>) -> (r: Duration)
    ensures
        r.nanos == read_timeout(t@) as u128,
{
    match parse_positive_seconds(t) {
        Some(d) => d,
        None => Duration::from_nanos(0),
    }
}

impl ReadArgs {
    /// Parses the arguments; `None` when the variable name is blank.
    pub fn parse(args: &str) -> (r: Option<Self>)
        ensures
            ({
                let p = read_parts(args@);
                match r {
                    None => trim(p[0]).len() == 0,
                    Some(a) => {
                        &&& trim(p[0]).len() > 0
                        &&& a.variable@ == trim(p[0])
                        &&& str_views(a.filenames@) == (if p.len() > 1 {
                            nonempty_pieces(split_spec(trim(p[1]), '&'))
                        } else {
                            Seq::<Seq<char>>::empty()
                        })
                        &&& a.max_digits == read_max_digits(trimmed_piece(p, 2))
                        &&& a.options@ == (if p.len() > 3 {
                            read_options_spec(trim(p[3]))
                        } else {
                            default_read_options()
                        })
                        &&& a.attempts == read_attempts(trimmed_piece(p, 4))
                        &&& a.timeout.nanos == read_timeout(trimmed_piece(p, 5)) as u128
                        &&& a.digit_timeout.nanos == read_timeout(trimmed_piece(p, 6)) as u128
                    },
                }
            }),
    {
        let v = chars_of(args);
        let parts = splitn(&v, 7, ',');
        proof {
            lemma_chars_deep_view(parts@[0]);
        }
        let var = trim_chars(&parts[0]);
        if var.len() == 0 {
            return None;
        }
        let filenames = if parts.len() > 1 {
            proof {
                lemma_chars_deep_view(parts@[1]);
            }
            let f = string_of(&trim_chars(&parts[1]));
            let r = crate::playback::AppPlayback::file_names(f.as_str());
            r
        } else {
            Vec::new()
        };
        let m = trimmed_piece_of(&parts, 2);
        let max_digits: u32 = match parse_u32(&m) {
            Some(x) => if x > 255 {
                255
            } else {
                x
            },
            None => 0,
        };
        let options = if parts.len() > 3 {
            proof {
                lemma_chars_deep_view(parts@[3]);
            }
            let o = string_of(&trim_chars(&parts[3]));
            ReadOptions::parse(o.as_str())
        } else {
            ReadOptions::default()
        };
        let a = trimmed_piece_of(&parts, 4);
        let attempts: u32 = match parse_u32(&a) {
            Some(x) => if x < 1 {
                1
            } else {
                x
            },
            None => 1,
        };
        let timeout = timeout_of(&trimmed_piece_of(&parts, 5));
        let digit_timeout = timeout_of(&trimmed_piece_of(&parts, 6));
        Some(
            ReadArgs {
                variable: string_of(&var),
                filenames,
                max_digits,
                options,
                attempts,
                timeout,
                digit_timeout,
            },
        )
    }
}

/// The `Read()` dialplan application.
#[derive(Debug)]
pub struct AppRead;

impl DialplanApp for AppRead {
    fn name(&self) -> (r: &str)
        ensures
            r@ == "Read"@,
    {
        "Read"
    }

    fn description(&self) -> (r: &str)
        ensures
            r@ == "Read a variable"@,
    {
        "Read a variable"
    }
}

impl AppRead {
    /// The wait for the first digit: the timeout given, or 10 seconds.
    pub fn overall_timeout(args: &ReadArgs) -> (r: Duration)
        ensures
            r.nanos == if args.timeout.nanos == 0 {
                10_000_000_000u128
            } else {
                args.timeout.nanos
            },
    {
        if args.timeout.is_zero() {
            Duration::from_secs(10)
        } else {
            args.timeout
        }
    }

    /// The wait between digits: the digit timeout given, or 5 seconds.
    pub fn digit_timeout(args: &ReadArgs) -> (r: Duration)
        ensures
            r.nanos == if args.digit_timeout.nanos == 0 {
                5_000_000_000u128
            } else {
                args.digit_timeout.nanos
            },
    {
        if args.digit_timeout.is_zero() {
            Duration::from_secs(5)
        } else {
            args.digit_timeout
        }
    }
}

/// The bytes a character takes in UTF-8.
pub open spec fn utf8_width(c: char) -> nat {
    if (c as u32) < 0x80 {
        1
    } else if (c as u32) < 0x800 {
        2
    } else if (c as u32) < 0x10000 {
        3
    } else {
        4
    }
}

/// The bytes the characters take in UTF-8.
pub open spec fn utf8_len(s: Seq<char>) -> nat
    decreases s.len(),
{
    if s.len() == 0 {
        0
    } else {
        utf8_len(s.drop_last()) + utf8_width(s.last())
    }
}

/// What the attempt waits for next: a frame of the caller's media.
#[derive(Debug, Clone, Copy, PartialEq, Eq, Structural)]
pub enum ReadEvent {
    /// A DTMF digit ended.
    Digit(char),
    /// Some other frame.
    Other,
    /// Reading the media failed.
    Failed,
    /// The deadline passed.
    TimedOut,
}

/// The digit limit of an attempt, in bytes: the one given, or 255.
pub open spec fn digit_limit(max_digits: u32) -> nat {
    if max_digits == 0 {
        255
    } else {
        max_digits as nat
    }
}

/// What one event does to an attempt that has read `digits`: the digits
/// after it, and the status if the attempt ends. A terminator ends it
/// (kept only as the sole digit with `i`); other digits are added, and
/// reaching the limit ends it; a failed read or a passed deadline ends it
/// (as a hangup if the caller has hung up).
pub open spec fn read_event_spec(terminator: Seq<char>, keep: bool, max_digits: u32, digits: Seq<char>, e: ReadEvent, hung_up: bool) -> (Seq<char>, Option<ReadStatus>) {
    match e {
        ReadEvent::Digit(d) => if terminator.contains(d) {
            (if digits.len() == 0 && keep {
                seq![d]
            } else {
                digits
            }, Some(ReadStatus::Okay))
        } else if utf8_len(digits.push(d)) >= digit_limit(max_digits) {
            (digits.push(d), Some(ReadStatus::Okay))
        } else {
            (digits.push(d), None)
        },
        ReadEvent::Other => (digits, None),
        ReadEvent::Failed => (digits, Some(if hung_up {
            ReadStatus::Hangup
        } else {
            ReadStatus::Error
        })),
        ReadEvent::TimedOut => (digits, Some(if hung_up {
            ReadStatus::Hangup
        } else {
            ReadStatus::Timeout
        })),
    }
}

/// An attempt fed the events `es` in turn (each with whether the caller has
/// hung up by then), from no digits: the digits read, and the status once an
/// event ends the attempt. Events after the one that ends it are not read.
pub open spec fn read_attempt(terminator: Seq<char>, keep: bool, max_digits: u32, es: Seq<(ReadEvent, bool)>) -> (Seq<char>, Option<ReadStatus>)
    decreases es.len(),
{
    if es.len() == 0 {
        (Seq::empty(), None)
    } else {
        let before = read_attempt(terminator, keep, max_digits, es.drop_last());
        if before.1 is Some {
            before
        } else {
            read_event_spec(terminator, keep, max_digits, before.0, es.last().0, es.last().1)
        }
    }
}

/// Whether every digit among the events is an ASCII character.
pub open spec fn ascii_digit_events(es: Seq<(ReadEvent, bool)>) -> bool {
    forall|i: int|
        0 <= i < es.len() ==> match #[trigger] es[i].0 {
            ReadEvent::Digit(d) => (d as u32) < 0x80,
            _ => true,
        }
}

/// Over a whole attempt: it ends as read (`OK`), an error, a hangup or a
/// timeout, never otherwise; the digits hold a terminator only when the
/// terminator is kept and is the sole digit; the digits never reach the
/// limit before the attempt ends; and with ASCII digits (as DTMF digits
/// are) they take at most the digit limit in bytes.
pub proof fn lemma_read_attempt(terminator: Seq<char>, keep: bool, max_digits: u32, es: Seq<(ReadEvent, bool)>)
    ensures
        ({
            let (d, st) = read_attempt(terminator, keep, max_digits, es);
            &&& st matches Some(s) ==> (s == ReadStatus::Okay || s == ReadStatus::Error || s
                == ReadStatus::Hangup || s == ReadStatus::Timeout)
            &&& (exists|i: int| 0 <= i < d.len() && terminator.contains(#[trigger] d[i])) ==> (keep
                && d.len() == 1 && st == Some(ReadStatus::Okay))
            &&& st is None ==> utf8_len(d) < digit_limit(max_digits)
            &&& ascii_digit_events(es) ==> utf8_len(d) <= digit_limit(max_digits)
        }),
    decreases es.len(),
{
    let lim = digit_limit(max_digits);
    if es.len() > 0 {
        let es1 = es.drop_last();
        lemma_read_attempt(terminator, keep, max_digits, es1);
        let before = read_attempt(terminator, keep, max_digits, es1);
        assert(ascii_digit_events(es) ==> ascii_digit_events(es1)) by {
            if ascii_digit_events(es) {
                assert forall|i: int| 0 <= i < es1.len() implies match #[trigger] es1[i].0 {
                    ReadEvent::Digit(d) => (d as u32) < 0x80,
                    _ => true,
                } by {
                    assert(es1[i] == es[i]);
                }
            }
        }
        if before.1 is None {
            let d0 = before.0;
            let e = es.last().0;
            assert(ascii_digit_events(es) ==> match e {
                ReadEvent::Digit(c) => (c as u32) < 0x80,
                _ => true,
            }) by {
                if ascii_digit_events(es) {
                    assert(es[es.len() - 1] == es.last());
                }
            }
            match e {
                ReadEvent::Digit(c) => {
                    if terminator.contains(c) {
                        if d0.len() == 0 && keep {
                            let one = seq![c];
                            assert(one.len() == 1);
                            assert(one.drop_last() =~= Seq::<char>::empty());
                            assert(one.last() == c);
                            assert(utf8_len(Seq::<char>::empty()) == 0);
                            assert(utf8_len(one) == utf8_len(one.drop_last()) + utf8_width(c));
                            assert(one[0] == c);
                        }
                    } else {
                        let d1 = d0.push(c);
                        assert(d1.drop_last() =~= d0);
                        assert forall|i: int| 0 <= i < d1.len() && terminator.contains(
                            #[trigger] d1[i],
                        ) implies false by {
                            if i < d0.len() {
                                assert(d1[i] == d0[i]);
                            }
                        }
                    }
                },
                _ => {},
            }
        }
    }
}

/// What one attempt can end with: a stop before any digit is read (a
/// hangup, or a prompt that failed) with no digits, or the digits and status
/// of a run of events that ends it. With `ascii_only`, those events carry
/// ASCII digits only.
pub open spec fn attempt_outcome(terminator: Seq<char>, keep: bool, max_digits: u32, out: (Seq<char>, ReadStatus), ascii_only: bool) -> bool {
    ||| out.0.len() == 0 && (out.1 == ReadStatus::Hangup || out.1 == ReadStatus::Error)
    ||| exists|es: Seq<(ReadEvent, bool)>|
        #[trigger] read_attempt(terminator, keep, max_digits, es) == (out.0, Some(out.1)) && (
        ascii_only ==> ascii_digit_events(es))
}

/// A run of attempts from the one at `i` on: the next attempt is tried
/// while the last timed out and attempts remain; the outcome of the last
/// one tried.
pub open spec fn read_run_from(outcomes: Seq<(Seq<char>, ReadStatus)>, attempts: u32, i: int) -> (Seq<char>, ReadStatus)
    decreases outcomes.len() - i,
{
    if i + 1 < outcomes.len() && outcomes[i].1 == ReadStatus::Timeout && i + 1 < attempts {
        read_run_from(outcomes, attempts, i + 1)
    } else {
        outcomes[i]
    }
}

/// What Read() returns for its final status.
pub open spec fn read_exec_result(status: ReadStatus) -> PbxExecResult {
    if status == ReadStatus::Hangup {
        PbxExecResult::Hangup
    } else {
        PbxExecResult::Success
    }
}

proof fn lemma_read_run_picks(outcomes: Seq<(Seq<char>, ReadStatus)>, attempts: u32, i: int)
    requires
        0 <= i < outcomes.len(),
    ensures
        exists|k: int| i <= k < outcomes.len() && read_run_from(outcomes, attempts, i) == outcomes[k],
    decreases outcomes.len() - i,
{
    if i + 1 < outcomes.len() && outcomes[i].1 == ReadStatus::Timeout && i + 1 < attempts {
        lemma_read_run_picks(outcomes, attempts, i + 1);
    } else {
        assert(read_run_from(outcomes, attempts, i) == outcomes[i]);
    }
}

/// Over a whole run of Read() attempts: the variable's digits and
/// READSTATUS are those of the last attempt tried. The status is `OK`,
/// `ERROR`, `HANGUP` or `TIMEOUT`; Read() returns a hangup exactly when the
/// status is `HANGUP` and never fails; the digits hold a terminator only
/// when it is kept and is the sole digit; and with ASCII digits they take at
/// most the digit limit in bytes.
pub proof fn lemma_read_run(terminator: Seq<char>, keep: bool, max_digits: u32, attempts: u32, outcomes: Seq<(Seq<char>, ReadStatus)>, ascii_only: bool)
    requires
        outcomes.len() > 0,
        forall|i: int|
            0 <= i < outcomes.len() ==> attempt_outcome(terminator, keep, max_digits, #[trigger] outcomes[i], ascii_only),
    ensures
        ({
            let (d, st) = read_run_from(outcomes, attempts, 0);
            &&& st == ReadStatus::Okay || st == ReadStatus::Error || st == ReadStatus::Hangup || st
                == ReadStatus::Timeout
            &&& (read_exec_result(st) == PbxExecResult::Hangup <==> st == ReadStatus::Hangup)
            &&& read_exec_result(st) != PbxExecResult::Failed
            &&& (exists|i: int| 0 <= i < d.len() && terminator.contains(#[trigger] d[i])) ==> (keep
                && d.len() == 1)
            &&& ascii_only ==> utf8_len(d) <= digit_limit(max_digits)
        }),
{
    lemma_read_run_picks(outcomes, attempts, 0);
    let k = choose|k: int| 0 <= k < outcomes.len() && read_run_from(outcomes, attempts, 0) == outcomes[k];
    let out = outcomes[k];
    assert(attempt_outcome(terminator, keep, max_digits, out, ascii_only));
    if out.0.len() == 0 && (out.1 == ReadStatus::Hangup || out.1 == ReadStatus::Error) {
        assert(utf8_len(out.0) == 0);
    } else {
        let es = choose|es: Seq<(ReadEvent, bool)>|
            #[trigger] read_attempt(terminator, keep, max_digits, es) == (out.0, Some(out.1)) && (
            ascii_only ==> ascii_digit_events(es));
        lemma_read_attempt(terminator, keep, max_digits, es);
        let r = read_attempt(terminator, keep, max_digits, es);
        assert(r.0 == out.0 && r.1 == Some(out.1));
    }
    assert(read_run_from(outcomes, attempts, 0) == out);
}

/// How Read() starts: arguments that do not parse end it at once, `s`
/// skips a channel that is not up, and a channel that is not up is answered
/// first unless `n` is given.
#[derive(Debug, Clone, Copy, PartialEq, Eq, Structural)]
pub enum ReadStart {
    Invalid,
    Skip,
    AnswerFirst,
    Proceed,
}

impl ReadStart {
    /// The status and result Read() ends with when it ends at the start:
    /// `ERROR` for arguments that do not parse, `SKIPPED` for a skip, both
    /// with success; `None` when the attempts run.
    pub fn early_end(self) -> (r: Option<(ReadStatus, PbxExecResult)>)
        ensures
            r == match self {
                ReadStart::Invalid => Some((ReadStatus::Error, PbxExecResult::Success)),
                ReadStart::Skip => Some((ReadStatus::Skipped, PbxExecResult::Success)),
                _ => None,
            },
    {
        match self {
            ReadStart::Invalid => Some((ReadStatus::Error, PbxExecResult::Success)),
            ReadStart::Skip => Some((ReadStatus::Skipped, PbxExecResult::Success)),
            _ => None,
        }
    }
}

fn char_utf8_width(c: char) -> (r: usize)
    ensures
        r == utf8_width(c),
{
    let n = c as u32;
    if n < 0x80 {
        1
    } else if n < 0x800 {
        2
    } else if n < 0x10000 {
        3
    } else {
        4
    }
}

fn utf8_length(s: &Vec<char>) -> (r: u64)
    requires
        s@.len() <= u32::MAX,
    ensures
        r == utf8_len(s@),
{
    let mut total: u64 = 0;
    let mut i: usize = 0;
    while i < s.len()
        invariant
            i <= s@.len(),
            s@.len() <= u32::MAX,
            total == utf8_len(s@.take(i as int)),
            total <= 4 * i,
        decreases s@.len() - i,
    {
        assert(s@.take(i + 1).drop_last() =~= s@.take(i as int));
        total = total + char_utf8_width(s[i]) as u64;
        i = i + 1;
    }
    assert(s@.take(s@.len() as int) =~= s@);
    total
}

fn has_char(s: &Vec<char>, c: char) -> (r: bool)
    ensures
        r == s@.contains(c),
{
    let mut i: usize = 0;
    while i < s.len()
        invariant
            i <= s@.len(),
            forall|j: int| 0 <= j < i ==> s@[j] != c,
        decreases s@.len() - i,
    {
        if s[i] == c {
            assert(s@[i as int] == c);
            return true;
        }
        i = i + 1;
    }
    false
}

impl AppRead {
    /// What one event does to an attempt that has read `digits`; returns
    /// the status if the attempt ends.
    pub fn on_event(args: &ReadArgs, digits: &mut Vec<char>, event: ReadEvent, hung_up: bool) -> (r: Option<ReadStatus>)
        requires
            old(digits)@.len() < u32::MAX,
        ensures
            (final(digits)@, r) == read_event_spec(
                args.options.terminator@,
                args.options.keep_terminator,
                args.max_digits,
                old(digits)@,
                event,
                hung_up,
            ),
    {
        match event {
            ReadEvent::Digit(d) => {
                let term = chars_of(args.options.terminator.as_str());
                if has_char(&term, d) {
                    if digits.len() == 0 && args.options.keep_terminator {
                        digits.push(d);
                        assert(digits@ =~= seq![d]);
                    }
                    return Some(ReadStatus::Okay);
                }
                let ghost before = digits@;
                digits.push(d);
                assert(digits@.drop_last() =~= before);
                let limit: u64 = if args.max_digits == 0 {
                    255
                } else {
                    args.max_digits as u64
                };
                if utf8_length(digits) >= limit {
                    Some(ReadStatus::Okay)
                } else {
                    None
                }
            },
            ReadEvent::Other => None,
            ReadEvent::Failed => Some(if hung_up {
                ReadStatus::Hangup
            } else {
                ReadStatus::Error
            }),
            ReadEvent::TimedOut => Some(if hung_up {
                ReadStatus::Hangup
            } else {
                ReadStatus::Timeout
            }),
        }
    }

    /// How Read() starts with the parsed arguments on a channel that is up
    /// or not.
    pub fn start(args: &Option<ReadArgs>, channel_up: bool) -> (r: ReadStart)
        ensures
            r == match args {
                None => ReadStart::Invalid,
                Some(a) => if a.options.skip && !channel_up {
                    ReadStart::Skip
                } else if !a.options.noanswer && !channel_up {
                    ReadStart::AnswerFirst
                } else {
                    ReadStart::Proceed
                },
            },
    {
        match args {
            None => ReadStart::Invalid,
            Some(a) => if a.options.skip && !channel_up {
                ReadStart::Skip
            } else if !a.options.noanswer && !channel_up {
                ReadStart::AnswerFirst
            } else {
                ReadStart::Proceed
            },
        }
    }

    /// Whether another attempt follows one that ended with `status`:
    /// only a timeout is tried again, while attempts remain.
    pub fn retry_after(status: ReadStatus, attempt: u32, attempts: u32) -> (r: bool)
        ensures
            r == (status == ReadStatus::Timeout && attempt + 1 < attempts),
    {
        status == ReadStatus::Timeout && attempt < attempts && attempts - attempt > 1
    }

    /// What Read() returns for the final status: a hangup for a caller
    /// that hung up, else success.
    pub fn exec_result(status: ReadStatus) -> (r: PbxExecResult)
        ensures
            r == read_exec_result(status),
    {
        match status {
            ReadStatus::Hangup => PbxExecResult::Hangup,
            _ => PbxExecResult::Success,
        }
    }
}

} // verus!
