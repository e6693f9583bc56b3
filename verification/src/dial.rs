//! Dial(): dial strings, the Dial() option letters and their arguments.
//!
//! `Dial(Technology/Resource[&Tech2/Resource2...][,timeout[,options[,URL]]])`
//! rings all destinations in parallel. This module holds what the
//! application decides from its argument text: the destinations, the
//! timeout, every option letter with its parenthesized argument, and the
//! DIALSTATUS values.
use crate::text::{
    index_of, join, opt_str, parse_i32, parse_i32_spec, parse_u64, parse_u64_spec, piece_or_empty,
    push_char, push_joined, push_signed_decimal, signed_decimal, split,
    split_spec, splitn, splitn_spec, str_views, string_of, strings_of, subchars, trim, trim_chars,
    chars_of, find_char, copy_chars, lemma_chars_deep_view, lemma_index_of_props, chars_upper_is,
    upper_is, parse_u32, parse_u32_spec, string_from_str, push_decimal, decimal,
};
use crate::time::{parse_positive_seconds, positive_seconds, Duration, NANOS_PER_MILLI, NANOS_PER_SEC};
pub use crate::HangupCause;
use crate::{DialplanApp, PbxExecResult};
use vstd::prelude::*;

verus! {

// ---------------------------------------------------------------------------
// The application
// ---------------------------------------------------------------------------

/// The `Dial()` dialplan application.
#[derive(Debug)]
pub struct AppDial;

impl DialplanApp for AppDial {
    fn name(&self) -> (r: &str)
        ensures
            r@ == "Dial"@,
    {
        "Dial"
    }

    fn description(&self) -> (r: &str)
        ensures
            r@ == "Attempt to connect to another device or endpoint and bridge the call"@,
    {
        "Attempt to connect to another device or endpoint and bridge the call"
    }
}

// ---------------------------------------------------------------------------
// DialStatus
// ---------------------------------------------------------------------------

/// Final status of a Dial() execution (the DIALSTATUS channel variable).
#[derive(Debug, Clone, Copy, PartialEq, Eq, Structural)]
pub enum DialStatus {
    Answer,
    Busy,
    NoAnswer,
    Cancel,
    Congestion,
    ChanUnavail,
    DontCall,
    Torture,
    InvalidArgs,
}

impl DialStatus {
    pub open spec fn text(self) -> Seq<char> {
        match self {
            DialStatus::Answer => "ANSWER"@,
            DialStatus::Busy => "BUSY"@,
            DialStatus::NoAnswer => "NOANSWER"@,
            DialStatus::Cancel => "CANCEL"@,
            DialStatus::Congestion => "CONGESTION"@,
            DialStatus::ChanUnavail => "CHANUNAVAIL"@,
            DialStatus::DontCall => "DONTCALL"@,
            DialStatus::Torture => "TORTURE"@,
            DialStatus::InvalidArgs => "INVALIDARGS"@,
        }
    }

    /// The DIALSTATUS text of this status.
    pub fn as_str(&self) -> (r: &'static str)
        ensures
            r@ == self.text(),
    {
        match self {
            DialStatus::Answer => "ANSWER",
            DialStatus::Busy => "BUSY",
            DialStatus::NoAnswer => "NOANSWER",
            DialStatus::Cancel => "CANCEL",
            DialStatus::Congestion => "CONGESTION",
            DialStatus::ChanUnavail => "CHANUNAVAIL",
            DialStatus::DontCall => "DONTCALL",
            DialStatus::Torture => "TORTURE",
            DialStatus::InvalidArgs => "INVALIDARGS",
        }
    }
}

/// Distinct dial statuses have distinct DIALSTATUS texts, so the variable
/// identifies the outcome.
pub proof fn lemma_dial_status_text_distinct(a: DialStatus, b: DialStatus)
    requires
        a != b,
    ensures
        a.text() != b.text(),
{
    reveal_strlit("ANSWER");
    reveal_strlit("BUSY");
    reveal_strlit("NOANSWER");
    reveal_strlit("CANCEL");
    reveal_strlit("CONGESTION");
    reveal_strlit("CHANUNAVAIL");
    reveal_strlit("DONTCALL");
    reveal_strlit("TORTURE");
    reveal_strlit("INVALIDARGS");
    if a.text() == b.text() {
        assert(a.text().len() == b.text().len());
        assert(a.text()[0] == b.text()[0]);
        assert(a.text()[1] == b.text()[1]);
        assert(a.text()[2] == b.text()[2]);
    }
}

// ---------------------------------------------------------------------------
// Dialplan location: context^exten^priority[(arg1^arg2...)]
// ---------------------------------------------------------------------------

/// A dialplan location given to the GoSub-style options (b, B, G, F, U).
#[derive(Debug, Clone, Default)]
pub struct DialplanLocation {
    /// Dialplan context (empty = current context)
    pub context: String,
    /// Dialplan extension (empty = current extension)
    pub exten: String,
    /// Dialplan priority (never below 1)
    pub priority: i32,
    /// GoSub arguments
    pub args: Vec<String>,
}

pub struct LocationView {
    pub context: Seq<char>,
    pub exten: Seq<char>,
    pub priority: i32,
    pub args: Seq<Seq<char>>,
}

impl View for DialplanLocation {
    type V = LocationView;

    open spec fn view(&self) -> LocationView {
        LocationView {
            context: self.context@,
            exten: self.exten@,
            priority: self.priority,
            args: str_views(self.args@),
        }
    }
}

#[verifier::opaque]
pub open spec fn opt_location(o: Option<DialplanLocation>) -> Option<LocationView> {
    match o {
        Some(l) => Some(l@),
        None => None,
    }
}

/// A priority field: its number when it parses as an `i32`, else 1, and 1
/// for anything not above zero.
pub open spec fn priority_of(s: Seq<char>) -> i32 {
    let p = match parse_i32_spec(s) {
        Some(p) => p,
        None => 1i32,
    };
    if p <= 0 {
        1i32
    } else {
        p
    }
}

/// `context^exten^priority[^arg...]`, optionally followed by `(arg^arg...)`,
/// whose arguments then replace any `^`-separated trailing ones.
/// One field is the priority; two are context and priority.
pub open spec fn location_spec(s: Seq<char>) -> Option<LocationView> {
    if s.len() == 0 {
        None
    } else {
        let open = index_of(s, '(');
        let has_paren = open >= 0 && s.last() == ')';
        let main = if has_paren {
            s.take(open)
        } else {
            s
        };
        let base = location_base(split_spec(main, '^'));
        if has_paren {
            Some(
                LocationView {
                    args: split_spec(s.subrange(open + 1, s.len() - 1), '^'),
                    ..base
                },
            )
        } else {
            Some(base)
        }
    }
}

/// The fields of a location from its `^`-separated parts.
pub open spec fn location_base(parts: Seq<Seq<char>>) -> LocationView {
        if parts.len() == 1 {
            LocationView {
                context: Seq::<char>::empty(),
                exten: Seq::<char>::empty(),
                priority: priority_of(parts[0]),
                args: Seq::<Seq<char>>::empty(),
            }
        } else if parts.len() == 2 {
            LocationView {
                context: parts[0],
                exten: Seq::<char>::empty(),
                priority: priority_of(parts[1]),
                args: Seq::<Seq<char>>::empty(),
            }
        } else {
            LocationView {
                context: parts[0],
                exten: parts[1],
                priority: priority_of(parts[2]),
                args: parts.skip(3),
            }
        }
}

/// The Gosub argument text `context,exten,priority(arg1,arg2,...)`, where an
/// empty context or extension is left out together with its comma.
pub open spec fn gosub_args_spec(l: LocationView) -> Seq<char> {
    (if l.context.len() > 0 {
        l.context.push(',')
    } else {
        Seq::<char>::empty()
    }) + (if l.exten.len() > 0 {
        l.exten.push(',')
    } else {
        Seq::<char>::empty()
    }) + signed_decimal(l.priority as int) + (if l.args.len() > 0 {
        seq!['('] + join(l.args, seq![',']) + seq![')']
    } else {
        Seq::<char>::empty()
    })
}

fn priority_from(v: &Vec<char>) -> (p: i32)
    ensures
        p == priority_of(v@),
{
    let p: i32 = match parse_i32(v) {
        Some(p) => p,
        None => 1,
    };
    if p <= 0 {
        1
    } else {
        p
    }
}

impl DialplanLocation {
    pub fn parse(s: &str) -> (r: Option<Self>)
        ensures
            match location_spec(s@) {
                Some(l) => r is Some && r->0@ == l,
                None => r is None,
            },
    {
        let v = chars_of(s);
        Self::parse_chars(&v)
    }

    pub fn parse_chars(v: &Vec<char>) -> (r: Option<Self>)
        ensures
            match location_spec(v@) {
                Some(l) => r is Some && r->0@ == l,
                None => r is None,
            },
    {
        if v.len() == 0 {
            return None;
        }
        let mut has_paren = false;
        let mut open: usize = 0;
        match find_char(v, '(') {
            Some(p) => {
                if v[v.len() - 1] == ')' {
                    has_paren = true;
                    open = p;
                }
            },
            None => {},
        }
        proof {
            lemma_index_of_props(v@, '(');
        }
        let main = if has_paren {
            subchars(v, 0, open)
        } else {
            copy_chars(v)
        };
        assert(has_paren ==> main@ =~= v@.take(open as int));
        let parts = split(&main, '^');
        let ghost ps = parts.deep_view();
        proof {
            lemma_chars_deep_view(parts@[0]);
        }
        let mut loc = if parts.len() == 1 {
            DialplanLocation {
                context: String::new(),
                exten: String::new(),
                priority: priority_from(&parts[0]),
                args: Vec::new(),
            }
        } else if parts.len() == 2 {
            proof {
                lemma_chars_deep_view(parts@[1]);
            }
            DialplanLocation {
                context: string_of(&parts[0]),
                exten: String::new(),
                priority: priority_from(&parts[1]),
                args: Vec::new(),
            }
        } else {
            proof {
                lemma_chars_deep_view(parts@[1]);
                lemma_chars_deep_view(parts@[2]);
            }
            let mut rest: Vec<Vec<char>> = Vec::new();
            let mut k: usize = 3;
            while k < parts.len()
                invariant
                    3 <= k <= parts.len(),
                    ps == parts.deep_view(),
                    rest.deep_view() == ps.subrange(3, k as int),
                decreases parts.len() - k,
            {
                let c = copy_chars(&parts[k]);
                proof {
                    lemma_chars_deep_view(c);
                    lemma_chars_deep_view(parts@[k as int]);
                }
                let ghost old_rest = rest.deep_view();
                rest.push(c);
                assert(rest.deep_view() =~= old_rest.push(ps[k as int]));
                k = k + 1;
                assert(rest.deep_view() =~= ps.subrange(3, k as int));
            }
            assert(ps.subrange(3, ps.len() as int) =~= ps.skip(3));
            DialplanLocation {
                context: string_of(&parts[0]),
                exten: string_of(&parts[1]),
                priority: priority_from(&parts[2]),
                args: strings_of(&rest),
            }
        };
        assert(str_views(Seq::<String>::empty()) =~= Seq::<Seq<char>>::empty());
        assert(loc@ == location_base(ps));
        if has_paren {
            assert(v@[open as int] == '(');
            let inner = subchars(v, open + 1, v.len() - 1);
            let pieces = split(&inner, '^');
            loc.args = strings_of(&pieces);
        }
        Some(loc)
    }

    /// Format as a Gosub argument string: "context,exten,priority(arg1,arg2,...)".
    pub fn to_gosub_args(&self) -> (r: String)
        ensures
            r@ == gosub_args_spec(self@),
    {
        let mut result = String::new();
        if !self.context.as_str().is_empty() {
            result.append(self.context.as_str());
            push_char(&mut result, ',');
        }
        let ghost a = result@;
        if !self.exten.as_str().is_empty() {
            result.append(self.exten.as_str());
            push_char(&mut result, ',');
        }
        let ghost b = result@;
        push_signed_decimal(&mut result, self.priority as i64);
        let ghost c = result@;
        if self.args.len() > 0 {
            push_char(&mut result, '(');
            push_joined(&mut result, &self.args, ',');
            push_char(&mut result, ')');
        }
        assert(result@ =~= gosub_args_spec(self@));
        result
    }
}

// ---------------------------------------------------------------------------
// D() option: DTMF to send
// ---------------------------------------------------------------------------

/// `D([called][:calling[:progress[:mfprogress[:mfwink[:sfprogress[:sfwink]]]]]])`
#[derive(Debug, Clone, Default)]
pub struct DtmfSendSpec {
    pub called: String,
    pub calling: String,
    pub progress: String,
    pub mf_progress: String,
    pub mf_wink: String,
    pub sf_progress: String,
    pub sf_wink: String,
}

pub struct DtmfView {
    pub called: Seq<char>,
    pub calling: Seq<char>,
    pub progress: Seq<char>,
    pub mf_progress: Seq<char>,
    pub mf_wink: Seq<char>,
    pub sf_progress: Seq<char>,
    pub sf_wink: Seq<char>,
}

impl View for DtmfSendSpec {
    type V = DtmfView;

    open spec fn view(&self) -> DtmfView {
        DtmfView {
            called: self.called@,
            calling: self.calling@,
            progress: self.progress@,
            mf_progress: self.mf_progress@,
            mf_wink: self.mf_wink@,
            sf_progress: self.sf_progress@,
            sf_wink: self.sf_wink@,
        }
    }
}

#[verifier::opaque]
pub open spec fn opt_dtmf(o: Option<DtmfSendSpec>) -> Option<DtmfView> {
    match o {
        Some(d) => Some(d@),
        None => None,
    }
}

/// The `:`-separated fields in order; missing ones are empty.
pub open spec fn dtmf_spec(s: Seq<char>) -> DtmfView {
    let p = split_spec(s, ':');
    DtmfView {
        called: piece_or_empty(p, 0),
        calling: piece_or_empty(p, 1),
        progress: piece_or_empty(p, 2),
        mf_progress: piece_or_empty(p, 3),
        mf_wink: piece_or_empty(p, 4),
        sf_progress: piece_or_empty(p, 5),
        sf_wink: piece_or_empty(p, 6),
    }
}

fn piece_string(parts: &Vec<Vec<char>>, k: usize) -> (r: String)
    ensures
        r@ == piece_or_empty(parts.deep_view(), k as int),
{
    if k < parts.len() {
        proof {
            lemma_chars_deep_view(parts@[k as int]);
        }
        string_of(&parts[k])
    } else {
        String::new()
    }
}

impl DtmfSendSpec {
    pub fn parse(s: &str) -> (r: Self)
        ensures
            r@ == dtmf_spec(s@),
    {
        let v = chars_of(s);
        Self::parse_chars(&v)
    }

    pub fn parse_chars(v: &Vec<char>) -> (r: Self)
        ensures
            r@ == dtmf_spec(v@),
    {
        let p = split(v, ':');
        DtmfSendSpec {
            called: piece_string(&p, 0),
            calling: piece_string(&p, 1),
            progress: piece_string(&p, 2),
            mf_progress: piece_string(&p, 3),
            mf_wink: piece_string(&p, 4),
            sf_progress: piece_string(&p, 5),
            sf_wink: piece_string(&p, 6),
        }
    }
}

// ---------------------------------------------------------------------------
// L() option: call limit
// ---------------------------------------------------------------------------

/// `L(x[:y[:z]])`: maximum call time, warning time and repeat interval (ms).
#[derive(Debug, Clone)]
pub struct CallLimit {
    pub max_ms: u64,
    pub warning_ms: Option<u64>,
    pub repeat_ms: Option<u64>,
}

/// The first field must be a non-zero `u64`; the next two are read when
/// they parse.
pub open spec fn call_limit_spec(s: Seq<char>) -> Option<CallLimit> {
    let p = split_spec(s, ':');
    match parse_u64_spec(p[0]) {
        Some(m) => if m == 0 {
            None
        } else {
            Some(
                CallLimit {
                    max_ms: m,
                    warning_ms: if p.len() > 1 {
                        parse_u64_spec(p[1])
                    } else {
                        None
                    },
                    repeat_ms: if p.len() > 2 {
                        parse_u64_spec(p[2])
                    } else {
                        None
                    },
                },
            )
        },
        None => None,
    }
}

impl CallLimit {
    pub fn parse(s: &str) -> (r: Option<Self>)
        ensures
            r == call_limit_spec(s@),
    {
        let v = chars_of(s);
        Self::parse_chars(&v)
    }

    pub fn parse_chars(v: &Vec<char>) -> (r: Option<Self>)
        ensures
            r == call_limit_spec(v@),
    {
        let p = split(v, ':');
        proof {
            lemma_chars_deep_view(p@[0]);
        }
        let max_ms = match parse_u64(&p[0]) {
            Some(m) => m,
            None => {
                return None;
            },
        };
        if max_ms == 0 {
            return None;
        }
        let warning_ms = if p.len() > 1 {
            proof {
                lemma_chars_deep_view(p@[1]);
            }
            parse_u64(&p[1])
        } else {
            None
        };
        let repeat_ms = if p.len() > 2 {
            proof {
                lemma_chars_deep_view(p@[2]);
            }
            parse_u64(&p[2])
        } else {
            None
        };
        Some(CallLimit { max_ms, warning_ms, repeat_ms })
    }

    /// The maximum call time as a duration.
    pub fn max_duration(&self) -> (d: Duration)
        ensures
            d.nanos == self.max_ms * NANOS_PER_MILLI,
    {
        Duration::from_millis(self.max_ms)
    }
}

// ---------------------------------------------------------------------------
// A() option: announcements
// ---------------------------------------------------------------------------

/// `A(x[:y])`: file for the called party and file for the calling party.
#[derive(Debug, Clone, Default)]
pub struct AnnouncementSpec {
    pub called_file: String,
    pub calling_file: String,
}

pub struct AnnouncementView {
    pub called_file: Seq<char>,
    pub calling_file: Seq<char>,
}

impl View for AnnouncementSpec {
    type V = AnnouncementView;

    open spec fn view(&self) -> AnnouncementView {
        AnnouncementView { called_file: self.called_file@, calling_file: self.calling_file@ }
    }
}

#[verifier::opaque]
pub open spec fn opt_announcement(o: Option<AnnouncementSpec>) -> Option<AnnouncementView> {
    match o {
        Some(a) => Some(a@),
        None => None,
    }
}

pub open spec fn announcement_spec(s: Seq<char>) -> AnnouncementView {
    let p = split_spec(s, ':');
    AnnouncementView { called_file: piece_or_empty(p, 0), calling_file: piece_or_empty(p, 1) }
}

impl AnnouncementSpec {
    pub fn parse(s: &str) -> (r: Self)
        ensures
            r@ == announcement_spec(s@),
    {
        let v = chars_of(s);
        Self::parse_chars(&v)
    }

    pub fn parse_chars(v: &Vec<char>) -> (r: Self)
        ensures
            r@ == announcement_spec(v@),
    {
        let p = split(v, ':');
        AnnouncementSpec { called_file: piece_string(&p, 0), calling_file: piece_string(&p, 1) }
    }
}

// ---------------------------------------------------------------------------
// DialOptions: the option letters of Dial()
// ---------------------------------------------------------------------------

/// Options parsed from the Dial() options string.
#[derive(Debug, Clone, Default)]
pub struct DialOptions {
    /// `b(context^exten^priority)` -- pre-dial GoSub on the callee channel
    pub predial_callee: Option<DialplanLocation>,
    /// `B(context^exten^priority)` -- pre-dial GoSub on the caller channel
    pub predial_caller: Option<DialplanLocation>,
    /// `D([called][:calling[:progress]])` -- DTMF sent after answer
    pub send_dtmf: Option<DtmfSendSpec>,
    /// `F(context^exten^priority)` -- where the callee continues after the bridge
    pub callee_go_on: Option<DialplanLocation>,
    /// `F` without argument -- the callee continues at the next priority
    pub callee_go_on_empty: bool,
    /// `f(x)` -- caller ID forced on the outbound call
    pub force_caller_id: Option<String>,
    /// `f` without argument -- caller ID from the dialplan hint
    pub force_caller_id_hint: bool,
    /// `g` -- the caller continues after the callee hangs up
    pub continue_on_callee_hangup: bool,
    /// `G(context^exten^priority)` -- both channels go here after answer
    pub goto_after_answer: Option<DialplanLocation>,
    /// `L(x[:y[:z]])` -- call duration limit
    pub call_limit: Option<CallLimit>,
    /// `S(x)` -- hang up x seconds after answer
    pub duration_stop: Option<Duration>,
    /// `U(context^exten^priority(args))` -- GoSub on the callee before the bridge
    pub callee_gosub: Option<DialplanLocation>,
    /// `A(x[:y])` -- announcement files
    pub announcement: Option<AnnouncementSpec>,
    /// `c` -- HANGUPCAUSE "answered elsewhere"
    pub cancel_elsewhere: bool,
    /// `C` -- reset the CDR
    pub reset_cdr: bool,
    /// `d` -- caller DTMF extension matching while dialing
    pub dtmf_exit: bool,
    /// `h` -- callee may hang up with the disconnect DTMF
    pub callee_hangup: bool,
    /// `H` -- caller may hang up with the disconnect DTMF
    pub caller_hangup: bool,
    /// `i` -- ignore forwarding requests
    pub ignore_forwarding: bool,
    /// `I` -- ignore connected line updates
    pub ignore_connected_line: bool,
    /// `k` -- callee may park the call
    pub callee_park: bool,
    /// `K` -- caller may park the call
    pub caller_park: bool,
    /// `Q(cause)` -- hangup cause for unanswered channels
    pub hangup_cause: Option<String>,
    /// `w` -- callee may start one-touch recording
    pub callee_monitor: bool,
    /// `W` -- caller may start one-touch recording
    pub caller_monitor: bool,
    /// `x` -- callee may start automixmonitor
    pub callee_mixmonitor: bool,
    /// `X` -- caller may start automixmonitor
    pub caller_mixmonitor: bool,
    /// `a` -- answer the caller before dialing
    pub answer_immediately: bool,
    /// `e` -- run the `h` extension for the peer
    pub peer_h_exten: bool,
    /// `E` -- echo of sent MF/SF
    pub hearpulsing: bool,
    /// `j` -- keep the initial stream topology
    pub topology_preserve: bool,
    /// `m(class)` -- music on hold with a class
    pub music_on_hold: Option<String>,
    /// `m` without argument -- music on hold, default class
    pub music_on_hold_default: bool,
    /// `n([delete])` -- screening without saving the intro
    pub screen_nointro: Option<String>,
    /// `N` -- no screening when caller ID is present
    pub screen_nocallerid: bool,
    /// `o(x)` -- original caller ID for the outbound call
    pub original_clid: Option<String>,
    /// `o` without argument -- original caller ID
    pub original_clid_default: bool,
    /// `O([mode])` -- operator services mode
    pub operator_mode: Option<String>,
    /// `p` -- screening mode
    pub screening: bool,
    /// `P([x])` -- privacy mode with an AstDB key
    pub privacy: Option<String>,
    /// `r(tone)` -- forced ringing indication with a tone
    pub force_ringing: Option<String>,
    /// `r` without argument -- forced ringing
    pub force_ringing_default: bool,
    /// `R` -- ring with early media interruption
    pub ring_with_early_media: bool,
    /// `s(x)` -- forced caller ID tag
    pub force_cid_tag: Option<String>,
    /// `t` -- callee may transfer
    pub allow_callee_transfer: bool,
    /// `T` -- caller may transfer
    pub allow_caller_transfer: bool,
    /// `u(x)` -- forced caller ID presentation
    pub force_cid_presentation: Option<String>,
    /// `z` -- cancel the dial timeout on forward
    pub cancel_timeout_on_forward: bool,
    /// URL sent to the called party (fourth Dial() argument)
    pub url: Option<String>,
}

pub struct DialOptionsView {
    pub predial_callee: Option<LocationView>,
    pub predial_caller: Option<LocationView>,
    pub send_dtmf: Option<DtmfView>,
    pub callee_go_on: Option<LocationView>,
    pub callee_go_on_empty: bool,
    pub force_caller_id: Option<Seq<char>>,
    pub force_caller_id_hint: bool,
    pub continue_on_callee_hangup: bool,
    pub goto_after_answer: Option<LocationView>,
    pub call_limit: Option<CallLimit>,
    pub duration_stop: Option<Duration>,
    pub callee_gosub: Option<LocationView>,
    pub announcement: Option<AnnouncementView>,
    pub cancel_elsewhere: bool,
    pub reset_cdr: bool,
    pub dtmf_exit: bool,
    pub callee_hangup: bool,
    pub caller_hangup: bool,
    pub ignore_forwarding: bool,
    pub ignore_connected_line: bool,
    pub callee_park: bool,
    pub caller_park: bool,
    pub hangup_cause: Option<Seq<char>>,
    pub callee_monitor: bool,
    pub caller_monitor: bool,
    pub callee_mixmonitor: bool,
    pub caller_mixmonitor: bool,
    pub answer_immediately: bool,
    pub peer_h_exten: bool,
    pub hearpulsing: bool,
    pub topology_preserve: bool,
    pub music_on_hold: Option<Seq<char>>,
    pub music_on_hold_default: bool,
    pub screen_nointro: Option<Seq<char>>,
    pub screen_nocallerid: bool,
    pub original_clid: Option<Seq<char>>,
    pub original_clid_default: bool,
    pub operator_mode: Option<Seq<char>>,
    pub screening: bool,
    pub privacy: Option<Seq<char>>,
    pub force_ringing: Option<Seq<char>>,
    pub force_ringing_default: bool,
    pub ring_with_early_media: bool,
    pub force_cid_tag: Option<Seq<char>>,
    pub allow_callee_transfer: bool,
    pub allow_caller_transfer: bool,
    pub force_cid_presentation: Option<Seq<char>>,
    pub cancel_timeout_on_forward: bool,
    pub url: Option<Seq<char>>,
}

impl View for DialOptions {
    type V = DialOptionsView;

    open spec fn view(&self) -> DialOptionsView {
        DialOptionsView {
            predial_callee: opt_location(self.predial_callee),
            predial_caller: opt_location(self.predial_caller),
            send_dtmf: opt_dtmf(self.send_dtmf),
            callee_go_on: opt_location(self.callee_go_on),
            callee_go_on_empty: self.callee_go_on_empty,
            force_caller_id: opt_str(self.force_caller_id),
            force_caller_id_hint: self.force_caller_id_hint,
            continue_on_callee_hangup: self.continue_on_callee_hangup,
            goto_after_answer: opt_location(self.goto_after_answer),
            call_limit: self.call_limit,
            duration_stop: self.duration_stop,
            callee_gosub: opt_location(self.callee_gosub),
            announcement: opt_announcement(self.announcement),
            cancel_elsewhere: self.cancel_elsewhere,
            reset_cdr: self.reset_cdr,
            dtmf_exit: self.dtmf_exit,
            callee_hangup: self.callee_hangup,
            caller_hangup: self.caller_hangup,
            ignore_forwarding: self.ignore_forwarding,
            ignore_connected_line: self.ignore_connected_line,
            callee_park: self.callee_park,
            caller_park: self.caller_park,
            hangup_cause: opt_str(self.hangup_cause),
            callee_monitor: self.callee_monitor,
            caller_monitor: self.caller_monitor,
            callee_mixmonitor: self.callee_mixmonitor,
            caller_mixmonitor: self.caller_mixmonitor,
            answer_immediately: self.answer_immediately,
            peer_h_exten: self.peer_h_exten,
            hearpulsing: self.hearpulsing,
            topology_preserve: self.topology_preserve,
            music_on_hold: opt_str(self.music_on_hold),
            music_on_hold_default: self.music_on_hold_default,
            screen_nointro: opt_str(self.screen_nointro),
            screen_nocallerid: self.screen_nocallerid,
            original_clid: opt_str(self.original_clid),
            original_clid_default: self.original_clid_default,
            operator_mode: opt_str(self.operator_mode),
            screening: self.screening,
            privacy: opt_str(self.privacy),
            force_ringing: opt_str(self.force_ringing),
            force_ringing_default: self.force_ringing_default,
            ring_with_early_media: self.ring_with_early_media,
            force_cid_tag: opt_str(self.force_cid_tag),
            allow_callee_transfer: self.allow_callee_transfer,
            allow_caller_transfer: self.allow_caller_transfer,
            force_cid_presentation: opt_str(self.force_cid_presentation),
            cancel_timeout_on_forward: self.cancel_timeout_on_forward,
            url: opt_str(self.url),
        }
    }
}

/// No option set.
pub open spec fn no_dial_options() -> DialOptionsView {
    DialOptionsView {
        predial_callee: None,
        predial_caller: None,
        send_dtmf: None,
        callee_go_on: None,
        callee_go_on_empty: false,
        force_caller_id: None,
        force_caller_id_hint: false,
        continue_on_callee_hangup: false,
        goto_after_answer: None,
        call_limit: None,
        duration_stop: None,
        callee_gosub: None,
        announcement: None,
        cancel_elsewhere: false,
        reset_cdr: false,
        dtmf_exit: false,
        callee_hangup: false,
        caller_hangup: false,
        ignore_forwarding: false,
        ignore_connected_line: false,
        callee_park: false,
        caller_park: false,
        hangup_cause: None,
        callee_monitor: false,
        caller_monitor: false,
        callee_mixmonitor: false,
        caller_mixmonitor: false,
        answer_immediately: false,
        peer_h_exten: false,
        hearpulsing: false,
        topology_preserve: false,
        music_on_hold: None,
        music_on_hold_default: false,
        screen_nointro: None,
        screen_nocallerid: false,
        original_clid: None,
        original_clid_default: false,
        operator_mode: None,
        screening: false,
        privacy: None,
        force_ringing: None,
        force_ringing_default: false,
        ring_with_early_media: false,
        force_cid_tag: None,
        allow_callee_transfer: false,
        allow_caller_transfer: false,
        force_cid_presentation: None,
        cancel_timeout_on_forward: false,
        url: None,
    }
}

/// Index of the `)` that closes a parenthesized argument whose text starts
/// at `j` with `depth` parentheses open, or the length when it never closes.
/// Parentheses nest.
pub open spec fn paren_close(s: Seq<char>, j: int, depth: nat) -> int
    decreases s.len() - j,
{
    if j >= s.len() || j < 0 {
        s.len() as int
    } else if s[j] == '(' {
        paren_close(s, j + 1, depth + 1)
    } else if s[j] == ')' {
        if depth <= 1 {
            j
        } else {
            paren_close(s, j + 1, (depth - 1) as nat)
        }
    } else {
        paren_close(s, j + 1, depth)
    }
}

pub proof fn lemma_paren_close_bounds(s: Seq<char>, j: int, depth: nat)
    requires
        0 <= j <= s.len(),
    ensures
        j <= paren_close(s, j, depth) <= s.len(),
    decreases s.len() - j,
{
    if j < s.len() {
        if s[j] == '(' {
            lemma_paren_close_bounds(s, j + 1, depth + 1);
        } else if s[j] == ')' {
            if depth > 1 {
                lemma_paren_close_bounds(s, j + 1, (depth - 1) as nat);
            }
        } else {
            lemma_paren_close_bounds(s, j + 1, depth);
        }
    }
}

/// The argument of the option letter at `i`: the text inside the
/// parentheses right after it (without the closing one), if any.
pub open spec fn option_arg(s: Seq<char>, i: int) -> Option<Seq<char>> {
    if i + 1 < s.len() && s[i + 1] == '(' {
        Some(s.subrange(i + 2, paren_close(s, i + 2, 1)))
    } else {
        None
    }
}

/// Where the option after the one at `i` begins.
pub open spec fn option_next(s: Seq<char>, i: int) -> int {
    if i + 1 < s.len() && s[i + 1] == '(' {
        let c = paren_close(s, i + 2, 1);
        if c < s.len() {
            c + 1
        } else {
            s.len() as int
        }
    } else {
        i + 1
    }
}

pub proof fn lemma_option_next(s: Seq<char>, i: int)
    requires
        0 <= i < s.len(),
    ensures
        i < option_next(s, i) <= s.len(),
        option_arg(s, i) is Some ==> i + 2 <= paren_close(s, i + 2, 1) <= s.len(),
{
    if i + 1 < s.len() && s[i + 1] == '(' {
        lemma_paren_close_bounds(s, i + 2, 1);
    }
}

/// What one option letter with its argument does to the options.
pub open spec fn apply_dial_option(
    o: DialOptionsView,
    ch: char,
    arg: Option<Seq<char>>,
) -> DialOptionsView {
    match ch {
        'b' => dial_option_b(o, arg),
        'B' => dial_option_upper_b(o, arg),
        'D' => dial_option_upper_d(o, arg),
        'F' => dial_option_upper_f(o, arg),
        'f' => dial_option_f(o, arg),
        'G' => dial_option_upper_g(o, arg),
        'L' => dial_option_upper_l(o, arg),
        'S' => dial_option_upper_s(o, arg),
        'U' => dial_option_upper_u(o, arg),
        'A' => dial_option_upper_a(o, arg),
        'Q' => dial_option_upper_q(o, arg),
        'm' => dial_option_m(o, arg),
        'n' => dial_option_n(o, arg),
        'o' => dial_option_o(o, arg),
        'O' => dial_option_upper_o(o, arg),
        'P' => dial_option_upper_p(o, arg),
        'r' => dial_option_r(o, arg),
        's' => dial_option_s(o, arg),
        'u' => dial_option_u(o, arg),
        'g' => set_dial_flag(o, ch),
        'c' => set_dial_flag(o, ch),
        'C' => set_dial_flag(o, ch),
        'd' => set_dial_flag(o, ch),
        'h' => set_dial_flag(o, ch),
        'H' => set_dial_flag(o, ch),
        'i' => set_dial_flag(o, ch),
        'I' => set_dial_flag(o, ch),
        'k' => set_dial_flag(o, ch),
        'K' => set_dial_flag(o, ch),
        'w' => set_dial_flag(o, ch),
        'W' => set_dial_flag(o, ch),
        'x' => set_dial_flag(o, ch),
        'X' => set_dial_flag(o, ch),
        'a' => set_dial_flag(o, ch),
        'e' => set_dial_flag(o, ch),
        'E' => set_dial_flag(o, ch),
        'j' => set_dial_flag(o, ch),
        'N' => set_dial_flag(o, ch),
        'p' => set_dial_flag(o, ch),
        'R' => set_dial_flag(o, ch),
        't' => set_dial_flag(o, ch),
        'T' => set_dial_flag(o, ch),
        'z' => set_dial_flag(o, ch),
        _ => o,
    }
}

/// The letters that only switch a flag on.
pub open spec fn set_dial_flag(o: DialOptionsView, ch: char) -> DialOptionsView {
    match ch {
        'g' => DialOptionsView { continue_on_callee_hangup: true, ..o },
        'c' => DialOptionsView { cancel_elsewhere: true, ..o },
        'C' => DialOptionsView { reset_cdr: true, ..o },
        'd' => DialOptionsView { dtmf_exit: true, ..o },
        'h' => DialOptionsView { callee_hangup: true, ..o },
        'H' => DialOptionsView { caller_hangup: true, ..o },
        'i' => DialOptionsView { ignore_forwarding: true, ..o },
        'I' => DialOptionsView { ignore_connected_line: true, ..o },
        'k' => DialOptionsView { callee_park: true, ..o },
        'K' => DialOptionsView { caller_park: true, ..o },
        'w' => DialOptionsView { callee_monitor: true, ..o },
        'W' => DialOptionsView { caller_monitor: true, ..o },
        'x' => DialOptionsView { callee_mixmonitor: true, ..o },
        'X' => DialOptionsView { caller_mixmonitor: true, ..o },
        'a' => DialOptionsView { answer_immediately: true, ..o },
        'e' => DialOptionsView { peer_h_exten: true, ..o },
        'E' => DialOptionsView { hearpulsing: true, ..o },
        'j' => DialOptionsView { topology_preserve: true, ..o },
        'N' => DialOptionsView { screen_nocallerid: true, ..o },
        'p' => DialOptionsView { screening: true, ..o },
        'R' => DialOptionsView { ring_with_early_media: true, ..o },
        't' => DialOptionsView { allow_callee_transfer: true, ..o },
        'T' => DialOptionsView { allow_caller_transfer: true, ..o },
        'z' => DialOptionsView { cancel_timeout_on_forward: true, ..o },
        _ => o,
    }
}

/// Option `b`.
pub open spec fn dial_option_b(o: DialOptionsView, arg: Option<Seq<char>>) -> DialOptionsView {
    DialOptionsView {
        predial_callee: match arg {
            Some(a) => location_spec(a),
            None => None,
        },
        ..o
    }
}

/// Option `B`.
pub open spec fn dial_option_upper_b(o: DialOptionsView, arg: Option<Seq<char>>) -> DialOptionsView {
    DialOptionsView {
        predial_caller: match arg {
            Some(a) => location_spec(a),
            None => None,
        },
        ..o
    }
}

/// Option `D`.
pub open spec fn dial_option_upper_d(o: DialOptionsView, arg: Option<Seq<char>>) -> DialOptionsView {
    DialOptionsView {
        send_dtmf: match arg {
            Some(a) => Some(dtmf_spec(a)),
            None => None,
        },
        ..o
    }
}

/// Option `F`.
pub open spec fn dial_option_upper_f(o: DialOptionsView, arg: Option<Seq<char>>) -> DialOptionsView {
    match arg {
        Some(a) => if a.len() > 0 {
            DialOptionsView { callee_go_on: location_spec(a), ..o }
        } else {
            DialOptionsView { callee_go_on_empty: true, ..o }
        },
        None => DialOptionsView { callee_go_on_empty: true, ..o },
    }
}

/// Option `f`.
pub open spec fn dial_option_f(o: DialOptionsView, arg: Option<Seq<char>>) -> DialOptionsView {
    match arg {
        Some(a) => if a.len() > 0 {
            DialOptionsView { force_caller_id: Some(a), ..o }
        } else {
            DialOptionsView { force_caller_id_hint: true, ..o }
        },
        None => DialOptionsView { force_caller_id_hint: true, ..o },
    }
}

/// Option `G`.
pub open spec fn dial_option_upper_g(o: DialOptionsView, arg: Option<Seq<char>>) -> DialOptionsView {
    DialOptionsView {
        goto_after_answer: match arg {
            Some(a) => location_spec(a),
            None => None,
        },
        ..o
    }
}

/// Option `L`.
pub open spec fn dial_option_upper_l(o: DialOptionsView, arg: Option<Seq<char>>) -> DialOptionsView {
    DialOptionsView {
        call_limit: match arg {
            Some(a) => call_limit_spec(a),
            None => None,
        },
        ..o
    }
}

/// Option `S`.
pub open spec fn dial_option_upper_s(o: DialOptionsView, arg: Option<Seq<char>>) -> DialOptionsView {
    match arg {
        Some(a) => match positive_seconds(a) {
            Some(n) => DialOptionsView {
                duration_stop: Some(Duration { nanos: n as u128 }),
                ..o
            },
            None => o,
        },
        None => o,
    }
}

/// Option `U`.
pub open spec fn dial_option_upper_u(o: DialOptionsView, arg: Option<Seq<char>>) -> DialOptionsView {
    DialOptionsView {
        callee_gosub: match arg {
            Some(a) => location_spec(a),
            None => None,
        },
        ..o
    }
}

/// Option `A`.
pub open spec fn dial_option_upper_a(o: DialOptionsView, arg: Option<Seq<char>>) -> DialOptionsView {
    DialOptionsView {
        announcement: match arg {
            Some(a) => Some(announcement_spec(a)),
            None => None,
        },
        ..o
    }
}

/// Option `Q`.
pub open spec fn dial_option_upper_q(o: DialOptionsView, arg: Option<Seq<char>>) -> DialOptionsView {
    DialOptionsView { hangup_cause: arg, ..o }
}

/// Option `m`.
pub open spec fn dial_option_m(o: DialOptionsView, arg: Option<Seq<char>>) -> DialOptionsView {
    match arg {
        Some(a) => if a.len() > 0 {
            DialOptionsView { music_on_hold: Some(a), ..o }
        } else {
            DialOptionsView { music_on_hold_default: true, ..o }
        },
        None => DialOptionsView { music_on_hold_default: true, ..o },
    }
}

/// Option `n`.
pub open spec fn dial_option_n(o: DialOptionsView, arg: Option<Seq<char>>) -> DialOptionsView {
    DialOptionsView {
        screen_nointro: Some(
            match arg {
                Some(a) => a,
                None => Seq::<char>::empty(),
            },
        ),
        ..o
    }
}

/// Option `o`.
pub open spec fn dial_option_o(o: DialOptionsView, arg: Option<Seq<char>>) -> DialOptionsView {
    match arg {
        Some(a) => if a.len() > 0 {
            DialOptionsView { original_clid: Some(a), ..o }
        } else {
            DialOptionsView { original_clid_default: true, ..o }
        },
        None => DialOptionsView { original_clid_default: true, ..o },
    }
}

/// Option `O`.
pub open spec fn dial_option_upper_o(o: DialOptionsView, arg: Option<Seq<char>>) -> DialOptionsView {
    DialOptionsView {
        operator_mode: Some(
            match arg {
                Some(a) => a,
                None => Seq::<char>::empty(),
            },
        ),
        ..o
    }
}

/// Option `P`.
pub open spec fn dial_option_upper_p(o: DialOptionsView, arg: Option<Seq<char>>) -> DialOptionsView {
    DialOptionsView {
        privacy: Some(
            match arg {
                Some(a) => a,
                None => Seq::<char>::empty(),
            },
        ),
        ..o
    }
}

/// Option `r`.
pub open spec fn dial_option_r(o: DialOptionsView, arg: Option<Seq<char>>) -> DialOptionsView {
    match arg {
        Some(a) => if a.len() > 0 {
            DialOptionsView { force_ringing: Some(a), ..o }
        } else {
            DialOptionsView { force_ringing_default: true, ..o }
        },
        None => DialOptionsView { force_ringing_default: true, ..o },
    }
}

/// Option `s`.
pub open spec fn dial_option_s(o: DialOptionsView, arg: Option<Seq<char>>) -> DialOptionsView {
    DialOptionsView { force_cid_tag: arg, ..o }
}

/// Option `u`.
pub open spec fn dial_option_u(o: DialOptionsView, arg: Option<Seq<char>>) -> DialOptionsView {
    DialOptionsView { force_cid_presentation: arg, ..o }
}

/// The options with the URL replaced.
#[verifier::opaque]
pub open spec fn dial_options_with_url(o: DialOptionsView, url: Option<Seq<char>>) -> DialOptionsView {
    DialOptionsView { url: url, ..o }
}

/// The options after reading the letters of `s` from position `i` on,
/// starting from `o`.
#[verifier::opaque]
pub open spec fn dial_options_from(s: Seq<char>, i: int, o: DialOptionsView) -> DialOptionsView
    decreases s.len() - i,
{
    if i < 0 || i >= s.len() {
        o
    } else {
        proof {
            lemma_option_next(s, i);
        }
        dial_options_from(s, option_next(s, i), apply_dial_option(o, s[i], option_arg(s, i)))
    }
}

/// Every letter of the options string in turn, each with the argument in
/// the parentheses that follow it.
pub open spec fn dial_options_spec(s: Seq<char>) -> DialOptionsView {
    dial_options_from(s, 0, no_dial_options())
}

/// The letters Dial() reads as options, and the parentheses of their
/// arguments.
pub open spec fn is_dial_option_letter(c: char) -> bool {
    match c {
        'b' | 'B' | 'D' | 'F' | 'f' | 'g' | 'G' | 'L' | 'S' | 'U' | 'A' | 'c' | 'C' | 'd' | 'h'
        | 'H' | 'i' | 'I' | 'k' | 'K' | 'Q' | 'w' | 'W' | 'x' | 'X' | 'a' | 'e' | 'E' | 'j' | 'm'
        | 'n' | 'N' | 'o' | 'O' | 'p' | 'P' | 'r' | 'R' | 's' | 't' | 'T' | 'u' | 'z' | '('
        | ')' => true,
        _ => false,
    }
}

/// Whether the options text from position `i` on is made of whole options:
/// every argument's parentheses close within it.
pub open spec fn complete_options_from(s: Seq<char>, i: int) -> bool
    decreases s.len() - i,
{
    if i < 0 || i > s.len() {
        false
    } else if i == s.len() {
        true
    } else {
        proof {
            lemma_option_next(s, i);
        }
        &&& (option_arg(s, i) is Some ==> paren_close(s, i + 2, 1) < s.len())
        &&& complete_options_from(s, option_next(s, i))
    }
}

/// A closing parenthesis found within a text is found there whatever
/// follows the text.
proof fn lemma_paren_close_prefix(a: Seq<char>, r: Seq<char>, j: int, depth: nat)
    requires
        0 <= j,
        paren_close(a, j, depth) < a.len(),
    ensures
        paren_close(a + r, j, depth) == paren_close(a, j, depth),
    decreases a.len() - j,
{
    assert((a + r)[j] == a[j]);
    if a[j] == '(' {
        lemma_paren_close_prefix(a, r, j + 1, depth + 1);
    } else if a[j] == ')' {
        if depth > 1 {
            lemma_paren_close_prefix(a, r, j + 1, (depth - 1) as nat);
        }
    } else {
        lemma_paren_close_prefix(a, r, j + 1, depth);
    }
}

/// Parentheses are closed after a text as in the text that follows it.
proof fn lemma_paren_close_suffix(a: Seq<char>, r: Seq<char>, j: int, depth: nat)
    requires
        0 <= j,
    ensures
        paren_close(a + r, j + a.len(), depth) == paren_close(r, j, depth) + a.len(),
    decreases r.len() - j,
{
    if j < r.len() {
        assert((a + r)[j + a.len()] == r[j]);
        if r[j] == '(' {
            lemma_paren_close_suffix(a, r, j + 1, depth + 1);
        } else if r[j] == ')' {
            if depth > 1 {
                lemma_paren_close_suffix(a, r, j + 1, (depth - 1) as nat);
            }
        } else {
            lemma_paren_close_suffix(a, r, j + 1, depth);
        }
    }
}

/// Options after a text are read as they are read alone.
proof fn lemma_options_suffix(a: Seq<char>, r: Seq<char>, i: int, o: DialOptionsView)
    requires
        0 <= i,
    ensures
        dial_options_from(a + r, i + a.len(), o) == dial_options_from(r, i, o),
    decreases r.len() - i,
{
    reveal(dial_options_from);
    let t = a + r;
    let k = i + a.len();
    if i < r.len() {
        assert(t[k] == r[i]);
        if i + 1 < r.len() {
            assert(t[k + 1] == r[i + 1]);
        }
        lemma_option_next(r, i);
        if i + 1 < r.len() && r[i + 1] == '(' {
            lemma_paren_close_suffix(a, r, i + 2, 1);
            lemma_paren_close_bounds(r, i + 2, 1);
            assert(t.subrange(k + 2, paren_close(t, k + 2, 1)) =~= r.subrange(
                i + 2,
                paren_close(r, i + 2, 1),
            ));
        }
        assert(option_arg(t, k) == option_arg(r, i));
        assert(option_next(t, k) == option_next(r, i) + a.len());
        lemma_options_suffix(a, r, option_next(r, i), apply_dial_option(o, r[i], option_arg(r, i)));
    }
}

/// Whole options are read the same whatever follows them, unless what
/// follows begins an argument.
proof fn lemma_options_prefix(a: Seq<char>, r: Seq<char>, i: int, o: DialOptionsView)
    requires
        0 <= i <= a.len(),
        complete_options_from(a, i),
        r.len() == 0 || r[0] != '(',
    ensures
        dial_options_from(a + r, i, o) == dial_options_from(r, 0, dial_options_from(a, i, o)),
    decreases a.len() - i,
{
    reveal(dial_options_from);
    let t = a + r;
    if i == a.len() {
        lemma_options_suffix(a, r, 0, o);
    } else {
        assert(t[i] == a[i]);
        lemma_option_next(a, i);
        if i + 1 < a.len() {
            assert(t[i + 1] == a[i + 1]);
            if a[i + 1] == '(' {
                lemma_paren_close_prefix(a, r, i + 2, 1);
                assert(t.subrange(i + 2, paren_close(t, i + 2, 1)) =~= a.subrange(
                    i + 2,
                    paren_close(a, i + 2, 1),
                ));
            }
        } else if r.len() > 0 {
            assert(t[i + 1] == r[0]);
        }
        assert(option_arg(t, i) == option_arg(a, i));
        assert(option_next(t, i) == option_next(a, i));
        lemma_options_prefix(a, r, option_next(a, i), apply_dial_option(o, a[i], option_arg(a, i)));
    }
}

/// An option letter Dial() does not know is ignored and does not disturb
/// its neighbours: after whole options `a`, a letter `u` that is no option
/// letter, put before `b` (which does not begin with an argument), leaves
/// the options as `a` then `b` give them.
pub proof fn lemma_unknown_option_ignored(a: Seq<char>, u: char, b: Seq<char>)
    requires
        complete_options_from(a, 0),
        !is_dial_option_letter(u),
        b.len() == 0 || b[0] != '(',
    ensures
        dial_options_spec(a + seq![u] + b) == dial_options_spec(a + b),
{
    reveal(dial_options_from);
    let r1 = seq![u] + b;
    assert(a + seq![u] + b =~= a + r1);
    let o = dial_options_from(a, 0, no_dial_options());
    lemma_options_prefix(a, r1, 0, no_dial_options());
    lemma_options_prefix(a, b, 0, no_dial_options());
    assert(r1[0] == u);
    if b.len() > 0 {
        assert(r1[1] == b[0]);
    }
    assert(option_arg(r1, 0) is None);
    assert(option_next(r1, 0) == 1);
    assert(apply_dial_option(o, u, None) == o);
    lemma_options_suffix(seq![u], b, 0, o);
}

pub open spec fn opt_chars(o: Option<Vec<char>>) -> Option<Seq<char>> {
    match o {
        Some(v) => Some(v@),
        None => None,
    }
}

fn arg_string_or_empty(arg: &Option<Vec<char>>) -> (r: String)
    ensures
        r@ == match opt_chars(*arg) {
            Some(a) => a,
            None => Seq::<char>::empty(),
        },
{
    match arg {
        Some(a) => string_of(a),
        None => String::new(),
    }
}

fn arg_string(arg: &Option<Vec<char>>) -> (r: Option<String>)
    ensures
        opt_str(r) == opt_chars(*arg),
{
    match arg {
        Some(a) => Some(string_of(a)),
        None => None,
    }
}

/// Reads the argument that starts at `j` (just after an option's `(`):
/// returns the argument and the index of the closing parenthesis (or the length).
fn read_paren_arg(v: &Vec<char>, j: usize) -> (r: (Vec<char>, usize))
    requires
        1 <= j <= v.len(),
    ensures
        r.1 == paren_close(v@, j as int, 1),
        r.0@ == v@.subrange(j as int, r.1 as int),
{
    let mut depth: usize = 1;
    let mut k: usize = j;
    proof {
        lemma_paren_close_bounds(v@, j as int, 1);
    }
    while k < v.len()
        invariant
            1 <= j <= k <= v.len(),
            1 <= depth <= k - j + 1,
            paren_close(v@, j as int, 1) == paren_close(v@, k as int, depth as nat),
            k <= paren_close(v@, j as int, 1) <= v.len(),
        decreases v.len() - k,
    {
        proof {
            lemma_paren_close_bounds(v@, k as int + 1, (depth + 1) as nat);
            lemma_paren_close_bounds(v@, k as int + 1, depth as nat);
            if depth > 1 {
                lemma_paren_close_bounds(v@, k as int + 1, (depth - 1) as nat);
            }
        }
        if v[k] == '(' {
            depth = depth + 1;
        } else if v[k] == ')' {
            if depth <= 1 {
                let a = subchars(v, j, k);
                return (a, k);
            }
            depth = depth - 1;
        }
        k = k + 1;
    }
    let a = subchars(v, j, k);
    (a, k)
}

impl DialOptions {
    /// No option set.
    pub fn new() -> (r: Self)
        ensures
            r@ == no_dial_options(),
    {
        reveal(opt_location);
        reveal(opt_dtmf);
        reveal(opt_announcement);
        DialOptions {
            predial_callee: None,
            predial_caller: None,
            send_dtmf: None,
            callee_go_on: None,
            callee_go_on_empty: false,
            force_caller_id: None,
            force_caller_id_hint: false,
            continue_on_callee_hangup: false,
            goto_after_answer: None,
            call_limit: None,
            duration_stop: None,
            callee_gosub: None,
            announcement: None,
            cancel_elsewhere: false,
            reset_cdr: false,
            dtmf_exit: false,
            callee_hangup: false,
            caller_hangup: false,
            ignore_forwarding: false,
            ignore_connected_line: false,
            callee_park: false,
            caller_park: false,
            hangup_cause: None,
            callee_monitor: false,
            caller_monitor: false,
            callee_mixmonitor: false,
            caller_mixmonitor: false,
            answer_immediately: false,
            peer_h_exten: false,
            hearpulsing: false,
            topology_preserve: false,
            music_on_hold: None,
            music_on_hold_default: false,
            screen_nointro: None,
            screen_nocallerid: false,
            original_clid: None,
            original_clid_default: false,
            operator_mode: None,
            screening: false,
            privacy: None,
            force_ringing: None,
            force_ringing_default: false,
            ring_with_early_media: false,
            force_cid_tag: None,
            allow_callee_transfer: false,
            allow_caller_transfer: false,
            force_cid_presentation: None,
            cancel_timeout_on_forward: false,
            url: None,
        }
    }

    /// Parse an options string such as `L(60000:30000)b(ctx^s^1)gG(ctx^s^1)`.
    ///
    /// Each letter may be followed by a parenthesized argument; parentheses
    /// inside an argument nest, and an argument that is never closed runs to
    /// the end of the string. Unknown letters are ignored, and a later
    /// occurrence of a letter overrides an earlier one.
    pub fn parse(opts: &str) -> (r: Self)
        ensures
            r@ == dial_options_spec(opts@),
    {
        let v = chars_of(opts);
        Self::parse_chars(&v)
    }

    pub fn parse_chars(v: &Vec<char>) -> (r: Self)
        ensures
            r@ == dial_options_spec(v@),
    {
        reveal(dial_options_from);
        let mut result = DialOptions::new();
        let mut i: usize = 0;
        while i < v.len()
            invariant
                i <= v.len(),
                dial_options_spec(v@) == dial_options_from(v@, i as int, result@),
            decreases v.len() - i,
        {
            let ch = v[i];
            proof {
                reveal(dial_options_from);
                lemma_option_next(v@, i as int);
            }
            let next: usize;
            let arg: Option<Vec<char>>;
            if i + 1 < v.len() && v[i + 1] == '(' {
                let (a, close) = read_paren_arg(v, i + 2);
                arg = Some(a);
                next = if close < v.len() {
                    close + 1
                } else {
                    v.len()
                };
            } else {
                arg = None;
                next = i + 1;
            }
            assert(opt_chars(arg) == option_arg(v@, i as int));
            assert(next == option_next(v@, i as int));
            result = result.apply(ch, &arg);
            i = next;
        }
        result
    }

    /// Applies one option letter with its argument.
    pub fn apply(self, ch: char, arg: &Option<Vec<char>>) -> (r: Self)
        ensures
            r@ == apply_dial_option(self@, ch, opt_chars(*arg)),
    {
        match ch {
            'b' => self.option_b(arg),
            'B' => self.option_upper_b(arg),
            'G' => self.option_upper_g(arg),
            'U' => self.option_upper_u(arg),
            'D' => self.option_upper_d(arg),
            'L' => self.option_upper_l(arg),
            'A' => self.option_upper_a(arg),
            'S' => self.option_upper_s(arg),
            'Q' => self.option_upper_q(arg),
            's' => self.option_s(arg),
            'u' => self.option_u(arg),
            'n' => self.option_n(arg),
            'O' => self.option_upper_o(arg),
            'P' => self.option_upper_p(arg),
            'F' => self.option_upper_f(arg),
            'f' => self.option_f(arg),
            'm' => self.option_m(arg),
            'o' => self.option_o(arg),
            'r' => self.option_r(arg),
            'g' => self.set_flag(ch),
            'c' => self.set_flag(ch),
            'C' => self.set_flag(ch),
            'd' => self.set_flag(ch),
            'h' => self.set_flag(ch),
            'H' => self.set_flag(ch),
            'i' => self.set_flag(ch),
            'I' => self.set_flag(ch),
            'k' => self.set_flag(ch),
            'K' => self.set_flag(ch),
            'w' => self.set_flag(ch),
            'W' => self.set_flag(ch),
            'x' => self.set_flag(ch),
            'X' => self.set_flag(ch),
            'a' => self.set_flag(ch),
            'e' => self.set_flag(ch),
            'E' => self.set_flag(ch),
            'j' => self.set_flag(ch),
            'N' => self.set_flag(ch),
            'p' => self.set_flag(ch),
            'R' => self.set_flag(ch),
            't' => self.set_flag(ch),
            'T' => self.set_flag(ch),
            'z' => self.set_flag(ch),
            _ => self,
        }
    }

    fn set_flag(self, ch: char) -> (r: Self)
        ensures
            r@ == set_dial_flag(self@, ch),
    {
        if 'a' <= ch && ch <= 'z' {
            self.set_lower_flag(ch)
        } else {
            self.set_upper_flag(ch)
        }
    }

    fn set_lower_flag(self, ch: char) -> (r: Self)
        requires
            'a' <= ch <= 'z',
        ensures
            r@ == set_dial_flag(self@, ch),
    {
        match ch {
            'g' => self.with_continue_on_callee_hangup(),
            'c' => self.with_cancel_elsewhere(),
            'd' => self.with_dtmf_exit(),
            'h' => self.with_callee_hangup(),
            'i' => self.with_ignore_forwarding(),
            'k' => self.with_callee_park(),
            'w' => self.with_callee_monitor(),
            'x' => self.with_callee_mixmonitor(),
            'a' => self.with_answer_immediately(),
            'e' => self.with_peer_h_exten(),
            'j' => self.with_topology_preserve(),
            'p' => self.with_screening(),
            't' => self.with_allow_callee_transfer(),
            'z' => self.with_cancel_timeout_on_forward(),
            _ => self,
        }
    }

    fn set_upper_flag(self, ch: char) -> (r: Self)
        requires
            !('a' <= ch <= 'z'),
        ensures
            r@ == set_dial_flag(self@, ch),
    {
        match ch {
            'C' => self.with_reset_cdr(),
            'H' => self.with_caller_hangup(),
            'I' => self.with_ignore_connected_line(),
            'K' => self.with_caller_park(),
            'W' => self.with_caller_monitor(),
            'X' => self.with_caller_mixmonitor(),
            'E' => self.with_hearpulsing(),
            'N' => self.with_screen_nocallerid(),
            'R' => self.with_ring_with_early_media(),
            'T' => self.with_allow_caller_transfer(),
            _ => self,
        }
    }

    fn with_continue_on_callee_hangup(self) -> (r: Self)
        ensures
            r@ == (DialOptionsView { continue_on_callee_hangup: true, ..self@ }),
    {
        DialOptions { continue_on_callee_hangup: true, ..self }
    }

    fn with_cancel_elsewhere(self) -> (r: Self)
        ensures
            r@ == (DialOptionsView { cancel_elsewhere: true, ..self@ }),
    {
        DialOptions { cancel_elsewhere: true, ..self }
    }

    fn with_reset_cdr(self) -> (r: Self)
        ensures
            r@ == (DialOptionsView { reset_cdr: true, ..self@ }),
    {
        DialOptions { reset_cdr: true, ..self }
    }

    fn with_dtmf_exit(self) -> (r: Self)
        ensures
            r@ == (DialOptionsView { dtmf_exit: true, ..self@ }),
    {
        DialOptions { dtmf_exit: true, ..self }
    }

    fn with_callee_hangup(self) -> (r: Self)
        ensures
            r@ == (DialOptionsView { callee_hangup: true, ..self@ }),
    {
        DialOptions { callee_hangup: true, ..self }
    }

    fn with_caller_hangup(self) -> (r: Self)
        ensures
            r@ == (DialOptionsView { caller_hangup: true, ..self@ }),
    {
        DialOptions { caller_hangup: true, ..self }
    }

    fn with_ignore_forwarding(self) -> (r: Self)
        ensures
            r@ == (DialOptionsView { ignore_forwarding: true, ..self@ }),
    {
        DialOptions { ignore_forwarding: true, ..self }
    }

    fn with_ignore_connected_line(self) -> (r: Self)
        ensures
            r@ == (DialOptionsView { ignore_connected_line: true, ..self@ }),
    {
        DialOptions { ignore_connected_line: true, ..self }
    }

    fn with_callee_park(self) -> (r: Self)
        ensures
            r@ == (DialOptionsView { callee_park: true, ..self@ }),
    {
        DialOptions { callee_park: true, ..self }
    }

    fn with_caller_park(self) -> (r: Self)
        ensures
            r@ == (DialOptionsView { caller_park: true, ..self@ }),
    {
        DialOptions { caller_park: true, ..self }
    }

    fn with_callee_monitor(self) -> (r: Self)
        ensures
            r@ == (DialOptionsView { callee_monitor: true, ..self@ }),
    {
        DialOptions { callee_monitor: true, ..self }
    }

    fn with_caller_monitor(self) -> (r: Self)
        ensures
            r@ == (DialOptionsView { caller_monitor: true, ..self@ }),
    {
        DialOptions { caller_monitor: true, ..self }
    }

    fn with_callee_mixmonitor(self) -> (r: Self)
        ensures
            r@ == (DialOptionsView { callee_mixmonitor: true, ..self@ }),
    {
        DialOptions { callee_mixmonitor: true, ..self }
    }

    fn with_caller_mixmonitor(self) -> (r: Self)
        ensures
            r@ == (DialOptionsView { caller_mixmonitor: true, ..self@ }),
    {
        DialOptions { caller_mixmonitor: true, ..self }
    }

    fn with_answer_immediately(self) -> (r: Self)
        ensures
            r@ == (DialOptionsView { answer_immediately: true, ..self@ }),
    {
        DialOptions { answer_immediately: true, ..self }
    }

    fn with_peer_h_exten(self) -> (r: Self)
        ensures
            r@ == (DialOptionsView { peer_h_exten: true, ..self@ }),
    {
        DialOptions { peer_h_exten: true, ..self }
    }

    fn with_hearpulsing(self) -> (r: Self)
        ensures
            r@ == (DialOptionsView { hearpulsing: true, ..self@ }),
    {
        DialOptions { hearpulsing: true, ..self }
    }

    fn with_topology_preserve(self) -> (r: Self)
        ensures
            r@ == (DialOptionsView { topology_preserve: true, ..self@ }),
    {
        DialOptions { topology_preserve: true, ..self }
    }

    fn with_screen_nocallerid(self) -> (r: Self)
        ensures
            r@ == (DialOptionsView { screen_nocallerid: true, ..self@ }),
    {
        DialOptions { screen_nocallerid: true, ..self }
    }

    fn with_screening(self) -> (r: Self)
        ensures
            r@ == (DialOptionsView { screening: true, ..self@ }),
    {
        DialOptions { screening: true, ..self }
    }

    fn with_ring_with_early_media(self) -> (r: Self)
        ensures
            r@ == (DialOptionsView { ring_with_early_media: true, ..self@ }),
    {
        DialOptions { ring_with_early_media: true, ..self }
    }

    fn with_allow_callee_transfer(self) -> (r: Self)
        ensures
            r@ == (DialOptionsView { allow_callee_transfer: true, ..self@ }),
    {
        DialOptions { allow_callee_transfer: true, ..self }
    }

    fn with_allow_caller_transfer(self) -> (r: Self)
        ensures
            r@ == (DialOptionsView { allow_caller_transfer: true, ..self@ }),
    {
        DialOptions { allow_caller_transfer: true, ..self }
    }

    fn with_cancel_timeout_on_forward(self) -> (r: Self)
        ensures
            r@ == (DialOptionsView { cancel_timeout_on_forward: true, ..self@ }),
    {
        DialOptions { cancel_timeout_on_forward: true, ..self }
    }

    fn option_b(self, arg: &Option<Vec<char>>) -> (r: Self)
        ensures
            r@ == dial_option_b(self@, opt_chars(*arg)),
    {
        reveal(opt_location);
        let v = match arg {
            Some(a) => DialplanLocation::parse_chars(a),
            None => None,
        };
        DialOptions { predial_callee: v, ..self }
    }

    fn option_upper_b(self, arg: &Option<Vec<char>>) -> (r: Self)
        ensures
            r@ == dial_option_upper_b(self@, opt_chars(*arg)),
    {
        reveal(opt_location);
        let v = match arg {
            Some(a) => DialplanLocation::parse_chars(a),
            None => None,
        };
        DialOptions { predial_caller: v, ..self }
    }

    fn option_upper_g(self, arg: &Option<Vec<char>>) -> (r: Self)
        ensures
            r@ == dial_option_upper_g(self@, opt_chars(*arg)),
    {
        reveal(opt_location);
        let v = match arg {
            Some(a) => DialplanLocation::parse_chars(a),
            None => None,
        };
        DialOptions { goto_after_answer: v, ..self }
    }

    fn option_upper_u(self, arg: &Option<Vec<char>>) -> (r: Self)
        ensures
            r@ == dial_option_upper_u(self@, opt_chars(*arg)),
    {
        reveal(opt_location);
        let v = match arg {
            Some(a) => DialplanLocation::parse_chars(a),
            None => None,
        };
        DialOptions { callee_gosub: v, ..self }
    }

    fn option_upper_d(self, arg: &Option<Vec<char>>) -> (r: Self)
        ensures
            r@ == dial_option_upper_d(self@, opt_chars(*arg)),
    {
        reveal(opt_dtmf);
        let v = match arg {
            Some(a) => Some(DtmfSendSpec::parse_chars(a)),
            None => None,
        };
        DialOptions { send_dtmf: v, ..self }
    }

    fn option_upper_l(self, arg: &Option<Vec<char>>) -> (r: Self)
        ensures
            r@ == dial_option_upper_l(self@, opt_chars(*arg)),
    {
        let v = match arg {
            Some(a) => CallLimit::parse_chars(a),
            None => None,
        };
        DialOptions { call_limit: v, ..self }
    }

    fn option_upper_a(self, arg: &Option<Vec<char>>) -> (r: Self)
        ensures
            r@ == dial_option_upper_a(self@, opt_chars(*arg)),
    {
        reveal(opt_announcement);
        let v = match arg {
            Some(a) => Some(AnnouncementSpec::parse_chars(a)),
            None => None,
        };
        DialOptions { announcement: v, ..self }
    }

    fn option_upper_s(self, arg: &Option<Vec<char>>) -> (r: Self)
        ensures
            r@ == dial_option_upper_s(self@, opt_chars(*arg)),
    {
        match arg {
            Some(a) => match parse_positive_seconds(a) {
                Some(d) => self.with_duration_stop(d),
                None => self,
            },
            None => self,
        }
    }

    fn with_duration_stop(self, d: Duration) -> (r: Self)
        ensures
            r@ == (DialOptionsView { duration_stop: Some(d), ..self@ }),
    {
        DialOptions { duration_stop: Some(d), ..self }
    }

    fn option_upper_q(self, arg: &Option<Vec<char>>) -> (r: Self)
        ensures
            r@ == dial_option_upper_q(self@, opt_chars(*arg)),
    {
        let v = arg_string(arg);
        DialOptions { hangup_cause: v, ..self }
    }

    fn option_s(self, arg: &Option<Vec<char>>) -> (r: Self)
        ensures
            r@ == dial_option_s(self@, opt_chars(*arg)),
    {
        let v = arg_string(arg);
        DialOptions { force_cid_tag: v, ..self }
    }

    fn option_u(self, arg: &Option<Vec<char>>) -> (r: Self)
        ensures
            r@ == dial_option_u(self@, opt_chars(*arg)),
    {
        let v = arg_string(arg);
        DialOptions { force_cid_presentation: v, ..self }
    }

    fn option_n(self, arg: &Option<Vec<char>>) -> (r: Self)
        ensures
            r@ == dial_option_n(self@, opt_chars(*arg)),
    {
        let v = arg_string_or_empty(arg);
        DialOptions { screen_nointro: Some(v), ..self }
    }

    fn option_upper_o(self, arg: &Option<Vec<char>>) -> (r: Self)
        ensures
            r@ == dial_option_upper_o(self@, opt_chars(*arg)),
    {
        let v = arg_string_or_empty(arg);
        DialOptions { operator_mode: Some(v), ..self }
    }

    fn option_upper_p(self, arg: &Option<Vec<char>>) -> (r: Self)
        ensures
            r@ == dial_option_upper_p(self@, opt_chars(*arg)),
    {
        let v = arg_string_or_empty(arg);
        DialOptions { privacy: Some(v), ..self }
    }

    fn option_upper_f(self, arg: &Option<Vec<char>>) -> (r: Self)
        ensures
            r@ == dial_option_upper_f(self@, opt_chars(*arg)),
    {
        match arg {
            Some(a) => if a.len() > 0 {
                let v = DialplanLocation::parse_chars(a);
                proof {
                    reveal(opt_location);
                }
                self.with_callee_go_on(v)
            } else {
                self.with_callee_go_on_empty()
            },
            None => self.with_callee_go_on_empty(),
        }
    }

    fn with_callee_go_on(self, v: Option<DialplanLocation>) -> (r: Self)
        ensures
            r@ == (DialOptionsView { callee_go_on: opt_location(v), ..self@ }),
    {
        DialOptions { callee_go_on: v, ..self }
    }

    fn with_callee_go_on_empty(self) -> (r: Self)
        ensures
            r@ == (DialOptionsView { callee_go_on_empty: true, ..self@ }),
    {
        DialOptions { callee_go_on_empty: true, ..self }
    }

    fn option_f(self, arg: &Option<Vec<char>>) -> (r: Self)
        ensures
            r@ == dial_option_f(self@, opt_chars(*arg)),
    {
        match arg {
            Some(a) => if a.len() > 0 {
                let v = string_of(a);
                self.with_force_caller_id(v)
            } else {
                self.with_force_caller_id_hint()
            },
            None => self.with_force_caller_id_hint(),
        }
    }

    fn with_force_caller_id(self, v: String) -> (r: Self)
        ensures
            r@ == (DialOptionsView { force_caller_id: Some(v@), ..self@ }),
    {
        DialOptions { force_caller_id: Some(v), ..self }
    }

    fn with_force_caller_id_hint(self) -> (r: Self)
        ensures
            r@ == (DialOptionsView { force_caller_id_hint: true, ..self@ }),
    {
        DialOptions { force_caller_id_hint: true, ..self }
    }

    fn option_m(self, arg: &Option<Vec<char>>) -> (r: Self)
        ensures
            r@ == dial_option_m(self@, opt_chars(*arg)),
    {
        match arg {
            Some(a) => if a.len() > 0 {
                let v = string_of(a);
                self.with_music_on_hold(v)
            } else {
                self.with_music_on_hold_default()
            },
            None => self.with_music_on_hold_default(),
        }
    }

    fn with_music_on_hold(self, v: String) -> (r: Self)
        ensures
            r@ == (DialOptionsView { music_on_hold: Some(v@), ..self@ }),
    {
        DialOptions { music_on_hold: Some(v), ..self }
    }

    fn with_music_on_hold_default(self) -> (r: Self)
        ensures
            r@ == (DialOptionsView { music_on_hold_default: true, ..self@ }),
    {
        DialOptions { music_on_hold_default: true, ..self }
    }

    fn option_o(self, arg: &Option<Vec<char>>) -> (r: Self)
        ensures
            r@ == dial_option_o(self@, opt_chars(*arg)),
    {
        match arg {
            Some(a) => if a.len() > 0 {
                let v = string_of(a);
                self.with_original_clid(v)
            } else {
                self.with_original_clid_default()
            },
            None => self.with_original_clid_default(),
        }
    }

    fn with_original_clid(self, v: String) -> (r: Self)
        ensures
            r@ == (DialOptionsView { original_clid: Some(v@), ..self@ }),
    {
        DialOptions { original_clid: Some(v), ..self }
    }

    fn with_original_clid_default(self) -> (r: Self)
        ensures
            r@ == (DialOptionsView { original_clid_default: true, ..self@ }),
    {
        DialOptions { original_clid_default: true, ..self }
    }

    fn option_r(self, arg: &Option<Vec<char>>) -> (r: Self)
        ensures
            r@ == dial_option_r(self@, opt_chars(*arg)),
    {
        match arg {
            Some(a) => if a.len() > 0 {
                let v = string_of(a);
                self.with_force_ringing(v)
            } else {
                self.with_force_ringing_default()
            },
            None => self.with_force_ringing_default(),
        }
    }

    fn with_force_ringing(self, v: String) -> (r: Self)
        ensures
            r@ == (DialOptionsView { force_ringing: Some(v@), ..self@ }),
    {
        DialOptions { force_ringing: Some(v), ..self }
    }

    fn with_force_ringing_default(self) -> (r: Self)
        ensures
            r@ == (DialOptionsView { force_ringing_default: true, ..self@ }),
    {
        DialOptions { force_ringing_default: true, ..self }
    }

    /// True when music on hold is on (default or a named class).
    pub fn has_music_on_hold(&self) -> (r: bool)
        ensures
            r == (self.music_on_hold is Some || self.music_on_hold_default),
    {
        self.music_on_hold.is_some() || self.music_on_hold_default
    }

    /// True when ringing indication is forced.
    pub fn has_force_ringing(&self) -> (r: bool)
        ensures
            r == (self.force_ringing is Some || self.force_ringing_default),
    {
        self.force_ringing.is_some() || self.force_ringing_default
    }

    /// The music-on-hold class, "default" when none was named.
    pub fn moh_class(&self) -> (r: &str)
        ensures
            r@ == match self.music_on_hold {
                Some(c) => c@,
                None => "default"@,
            },
    {
        match &self.music_on_hold {
            Some(c) => c.as_str(),
            None => "default",
        }
    }
}

// ---------------------------------------------------------------------------
// Bridge setup from the options
// ---------------------------------------------------------------------------

/// The features one side of the bridge may use.
#[derive(Debug, Clone, Copy, PartialEq, Eq, Structural)]
pub struct SideFeatures {
    pub blind_transfer: bool,
    pub attended_transfer: bool,
    pub disconnect: bool,
    pub park_call: bool,
    pub automixmon: bool,
}

/// Where a channel goes when the bridge ends.
#[derive(Debug, Clone)]
pub enum AfterBridgeAction {
    /// Nowhere in particular: the channel goes on as the dialplan says.
    Nothing,
    /// To a dialplan location.
    GoTo { context: String, exten: String, priority: i32 },
}


/// The action for a location, at its priority plus `bump`.
pub open spec fn goes_to(a: AfterBridgeAction, l: LocationView, bump: int) -> bool {
    a matches AfterBridgeAction::GoTo { context, exten, priority } && context@ == l.context
        && exten@ == l.exten && priority == l.priority + bump
}

/// The hangup cause a `Q(cause)` text names: a cause name, compared after
/// upper-casing, or a Q.850 number; anything else clears normally.
pub open spec fn cause_named(s: Seq<char>) -> HangupCause {
    if upper_is(s, "NO_ANSWER"@) || upper_is(s, "NOANSWER"@) {
        HangupCause::NoAnswer
    } else if upper_is(s, "USER_BUSY"@) || upper_is(s, "BUSY"@) {
        HangupCause::UserBusy
    } else if upper_is(s, "CALL_REJECTED"@) {
        HangupCause::CallRejected
    } else if upper_is(s, "NORMAL_CLEARING"@) || upper_is(s, "ANSWERED_ELSEWHERE"@) {
        HangupCause::NormalClearing
    } else if upper_is(s, "NONE"@) || upper_is(s, "0"@) {
        HangupCause::NotDefined
    } else {
        match parse_u32_spec(s) {
            Some(code) => if code == 17 {
                HangupCause::UserBusy
            } else if code == 19 {
                HangupCause::NoAnswer
            } else if code == 21 {
                HangupCause::CallRejected
            } else {
                HangupCause::NormalClearing
            },
            None => HangupCause::NormalClearing,
        }
    }
}

/// The hangup cause for the legs left unanswered when another answers:
/// normal clearing for `c` or by default, else the cause `Q` names.
pub open spec fn unanswered_cause(o: DialOptions) -> HangupCause {
    if o.cancel_elsewhere {
        HangupCause::NormalClearing
    } else {
        match o.hangup_cause {
            Some(c) => cause_named(c@),
            None => HangupCause::NormalClearing,
        }
    }
}

impl DialOptions {
    /// The bridge features of the caller and of the callee: transfers
    /// from `T`/`t`, disconnect from `H`/`h`, parking from `K`/`k`, and
    /// one-touch recording from `X`/`x`.
    pub fn build_bridge_features(&self) -> (r: (SideFeatures, SideFeatures))
        ensures
            r.0 == (SideFeatures {
                blind_transfer: self.allow_caller_transfer,
                attended_transfer: self.allow_caller_transfer,
                disconnect: self.caller_hangup,
                park_call: self.caller_park,
                automixmon: self.caller_mixmonitor,
            }),
            r.1 == (SideFeatures {
                blind_transfer: self.allow_callee_transfer,
                attended_transfer: self.allow_callee_transfer,
                disconnect: self.callee_hangup,
                park_call: self.callee_park,
                automixmon: self.callee_mixmonitor,
            }),
    {
        let caller = SideFeatures {
            blind_transfer: self.allow_caller_transfer,
            attended_transfer: self.allow_caller_transfer,
            disconnect: self.caller_hangup,
            park_call: self.caller_park,
            automixmon: self.caller_mixmonitor,
        };
        let callee = SideFeatures {
            blind_transfer: self.allow_callee_transfer,
            attended_transfer: self.allow_callee_transfer,
            disconnect: self.callee_hangup,
            park_call: self.callee_park,
            automixmon: self.callee_mixmonitor,
        };
        (caller, callee)
    }

    /// Where the caller goes after the bridge: the `G` location, else
    /// nowhere in particular.
    pub fn caller_after_bridge_action(&self) -> (r: AfterBridgeAction)
        ensures
            match self.goto_after_answer {
                Some(l) => goes_to(r, l@, 0),
                None => r is Nothing,
            },
    {
        match &self.goto_after_answer {
            Some(loc) => AfterBridgeAction::GoTo {
                context: string_from_str(loc.context.as_str()),
                exten: string_from_str(loc.exten.as_str()),
                priority: loc.priority,
            },
            None => AfterBridgeAction::Nothing,
        }
    }

    /// Where the callee goes after the bridge: the priority after the `G`
    /// location, else the `F` location, else nowhere in particular.
    pub fn callee_after_bridge_action(&self) -> (r: AfterBridgeAction)
        requires
            self.goto_after_answer matches Some(l) ==> l.priority < i32::MAX,
        ensures
            match self.goto_after_answer {
                Some(l) => goes_to(r, l@, 1),
                None => match self.callee_go_on {
                    Some(l) => goes_to(r, l@, 0),
                    None => r is Nothing,
                },
            },
    {
        match &self.goto_after_answer {
            Some(loc) => AfterBridgeAction::GoTo {
                context: string_from_str(loc.context.as_str()),
                exten: string_from_str(loc.exten.as_str()),
                priority: loc.priority + 1,
            },
            None => match &self.callee_go_on {
                Some(loc) => AfterBridgeAction::GoTo {
                    context: string_from_str(loc.context.as_str()),
                    exten: string_from_str(loc.exten.as_str()),
                    priority: loc.priority,
                },
                None => AfterBridgeAction::Nothing,
            },
        }
    }

    /// The hangup cause for the legs left unanswered when another answers:
    /// normal clearing for `c` or by default, else the cause `Q` names.
    pub fn unanswered_hangup_cause(&self) -> (r: HangupCause)
        ensures
            r == unanswered_cause(*self),
    {
        if self.cancel_elsewhere {
            return HangupCause::NormalClearing;
        }
        let c = match &self.hangup_cause {
            Some(c) => chars_of(c.as_str()),
            None => {
                return HangupCause::NormalClearing;
            },
        };
        if chars_upper_is(&c, "NO_ANSWER") || chars_upper_is(&c, "NOANSWER") {
            HangupCause::NoAnswer
        } else if chars_upper_is(&c, "USER_BUSY") || chars_upper_is(&c, "BUSY") {
            HangupCause::UserBusy
        } else if chars_upper_is(&c, "CALL_REJECTED") {
            HangupCause::CallRejected
        } else if chars_upper_is(&c, "NORMAL_CLEARING") || chars_upper_is(&c, "ANSWERED_ELSEWHERE") {
            HangupCause::NormalClearing
        } else if chars_upper_is(&c, "NONE") || chars_upper_is(&c, "0") {
            HangupCause::NotDefined
        } else {
            match parse_u32(&c) {
                Some(code) => if code == 17 {
                    HangupCause::UserBusy
                } else if code == 19 {
                    HangupCause::NoAnswer
                } else if code == 21 {
                    HangupCause::CallRejected
                } else {
                    HangupCause::NormalClearing
                },
                None => HangupCause::NormalClearing,
            }
        }
    }
}

// ---------------------------------------------------------------------------
// Waiting for an answer
// ---------------------------------------------------------------------------

/// Where one outbound leg of the dial stands.
#[derive(Debug, Clone, Copy, PartialEq, Eq, Structural)]
pub enum DialLegState {
    /// The call was placed.
    Dialing,
    /// The far end rings.
    Ringing,
    /// The far end answered.
    Answered,
    Busy,
    /// No circuits.
    Congestion,
    /// The far end could not be reached.
    Unavailable,
    /// The leg was hung up.
    HungUp,
}

/// What a leg's outbound channel shows at a poll.
#[derive(Debug, Clone, Copy, PartialEq, Eq, Structural)]
pub enum LegSignal {
    /// The channel is up: answered.
    Up,
    Ringing,
    Busy,
    /// The channel went down with the cause.
    Down(HangupCause),
    /// Still in progress.
    Progress,
}

/// How the wait for an answer ended.
#[derive(Debug, Clone, Copy, PartialEq, Eq, Structural)]
pub enum DialResult {
    /// The leg at the position answered.
    Answered(usize),
    AllBusy,
    AllCongestion,
    AllUnavailable,
    /// Nobody answered in time.
    Timeout,
    /// The caller hung up.
    CallerHangup,
}

/// Whether the leg is still being tried.
pub open spec fn trying(s: DialLegState) -> bool {
    s == DialLegState::Dialing || s == DialLegState::Ringing
}

/// Whether the leg answers at this poll (or already had).
pub open spec fn answers(s: DialLegState, g: LegSignal) -> bool {
    s == DialLegState::Answered || (trying(s) && g == LegSignal::Up)
}

/// The leg's state after a poll that shows `g`.
pub open spec fn leg_next(s: DialLegState, g: LegSignal) -> DialLegState {
    if trying(s) {
        match g {
            LegSignal::Up => DialLegState::Answered,
            LegSignal::Ringing => DialLegState::Ringing,
            LegSignal::Busy => DialLegState::Busy,
            LegSignal::Down(c) => if c == HangupCause::UserBusy {
                DialLegState::Busy
            } else if c == HangupCause::NormalCircuitCongestion || c == HangupCause::SwitchCongestion {
                DialLegState::Congestion
            } else {
                DialLegState::Unavailable
            },
            LegSignal::Progress => s,
        }
    } else {
        s
    }
}

/// The first leg that answers at this poll, if any.
pub open spec fn first_answer(legs: Seq<DialLegState>, sig: Seq<LegSignal>) -> Option<int> {
    if exists|k: int| 0 <= k < legs.len() && answers(legs[k], #[trigger] sig[k]) {
        Some(choose|k: int| 0 <= k < legs.len() && answers(legs[k], #[trigger] sig[k]) && forall|j: int| 0 <= j < k ==> !answers(legs[j], sig[j]))
    } else {
        None
    }
}

/// What a poll decides when no leg answers: nothing while a leg is still
/// tried, else all busy, all congested, or unavailable.
pub open spec fn settled(legs: Seq<DialLegState>) -> Option<DialResult> {
    if exists|j: int| 0 <= j < legs.len() && trying(#[trigger] legs[j]) {
        None
    } else if forall|j: int| 0 <= j < legs.len() ==> #[trigger] legs[j] == DialLegState::Busy {
        Some(DialResult::AllBusy)
    } else if forall|j: int| 0 <= j < legs.len() ==> #[trigger] legs[j] == DialLegState::Congestion {
        Some(DialResult::AllCongestion)
    } else {
        Some(DialResult::AllUnavailable)
    }
}

/// One poll of the legs in order: each leg still tried moves on by its
/// signal; the first leg that answers ends the poll there (the legs after
/// it are not looked at); with no answer, the poll settles by the states
/// the legs had.
pub open spec fn poll_step(legs: Seq<DialLegState>, sig: Seq<LegSignal>, after: Seq<DialLegState>, r: Option<DialResult>) -> bool {
    &&& after.len() == legs.len()
    &&& match first_answer(legs, sig) {
        Some(k) => {
            &&& r == Some(DialResult::Answered(k as usize))
            &&& forall|j: int| 0 <= j <= k ==> #[trigger] after[j] == leg_next(legs[j], sig[j])
            &&& forall|j: int| k < j < legs.len() ==> #[trigger] after[j] == legs[j]
        },
        None => {
            &&& r == settled(legs)
            &&& forall|j: int| 0 <= j < legs.len() ==> #[trigger] after[j] == leg_next(legs[j], sig[j])
        },
    }
}

/// Whether some leg started ringing at this poll.
pub open spec fn started_ringing(legs: Seq<DialLegState>, after: Seq<DialLegState>) -> bool {
    exists|j: int| 0 <= j < legs.len() && legs[j] == DialLegState::Dialing && #[trigger] after[j] == DialLegState::Ringing
}

/// A poll that ends at the answer of leg `i`, with the legs before it
/// moved on and the rest untouched.
proof fn lemma_answer_exit(before: Seq<DialLegState>, sig: Seq<LegSignal>, after: Seq<DialLegState>, i: int, rang: bool)
    requires
        0 <= i < before.len(),
        sig.len() == before.len(),
        after.len() == before.len(),
        answers(before[i], sig[i]),
        forall|j: int| 0 <= j < i ==> !answers(before[j], sig[j]),
        forall|j: int| 0 <= j <= i ==> #[trigger] after[j] == leg_next(before[j], sig[j]),
        forall|j: int| i < j < before.len() ==> #[trigger] after[j] == before[j],
        rang == exists|j: int| 0 <= j < i && before[j] == DialLegState::Dialing && #[trigger] after[j] == DialLegState::Ringing,
    ensures
        poll_step(before, sig, after, Some(DialResult::Answered(i as usize))),
        rang == started_ringing(before, after),
{
    assert(first_answer(before, sig) is Some);
    let k = first_answer(before, sig)->0;
    if k < i {
        assert(!answers(before[k], sig[k]));
    }
    if k > i {
        assert(!answers(before[i], sig[i]));
    }
    assert(k == i);
    assert(after[i] != DialLegState::Ringing);
    if started_ringing(before, after) {
        let j = choose|j: int| 0 <= j < before.len() && before[j] == DialLegState::Dialing && #[trigger] after[j] == DialLegState::Ringing;
        if j > i {
            assert(after[j] == before[j]);
        }
        assert(j < i);
    }
}

/// Polls the legs once with what their channels show; returns how the
/// wait ends, if it does, and whether some leg started ringing.
pub fn poll_legs(legs: &mut Vec<DialLegState>, signals: &Vec<LegSignal>) -> (r: (Option<DialResult>, bool))
    requires
        signals@.len() == old(legs)@.len(),
    ensures
        poll_step(old(legs)@, signals@, final(legs)@, r.0),
        r.1 == started_ringing(old(legs)@, final(legs)@),
{
    let ghost before = legs@;
    let n = legs.len();
    let mut any_trying = false;
    let mut all_busy = true;
    let mut all_congestion = true;
    let mut rang = false;
    let mut i: usize = 0;
    while i < n
        invariant
            i <= n,
            n == before.len(),
            before == old(legs)@,
            signals@.len() == n,
            legs@.len() == n,
            forall|j: int| 0 <= j < i ==> !answers(before[j], signals@[j]),
            forall|j: int| 0 <= j < i ==> #[trigger] legs@[j] == leg_next(before[j], signals@[j]),
            forall|j: int| i <= j < n ==> #[trigger] legs@[j] == before[j],
            any_trying == exists|j: int| 0 <= j < i && trying(#[trigger] before[j]),
            all_busy == forall|j: int| 0 <= j < i ==> #[trigger] before[j] == DialLegState::Busy,
            all_congestion == forall|j: int| 0 <= j < i ==> #[trigger] before[j] == DialLegState::Congestion,
            rang == exists|j: int| 0 <= j < i && before[j] == DialLegState::Dialing && #[trigger] legs@[j] == DialLegState::Ringing,
        decreases n - i,
    {
        let s = legs[i];
        let g = signals[i];
        let ghost mid = legs@;
        let next = match s {
            DialLegState::Dialing | DialLegState::Ringing => match g {
                LegSignal::Up => DialLegState::Answered,
                LegSignal::Ringing => DialLegState::Ringing,
                LegSignal::Busy => DialLegState::Busy,
                LegSignal::Down(c) => match c {
                    HangupCause::UserBusy => DialLegState::Busy,
                    HangupCause::NormalCircuitCongestion | HangupCause::SwitchCongestion => DialLegState::Congestion,
                    _ => DialLegState::Unavailable,
                },
                LegSignal::Progress => s,
            },
            _ => s,
        };
        legs.set(i, next);
        proof {
            assert(next == leg_next(before[i as int], signals@[i as int]));
            assert forall|j: int| 0 <= j < n && j != i implies legs@[j] == mid[j] by {}
            assert(legs@[i as int] == next);
        }
        match s {
            DialLegState::Dialing | DialLegState::Ringing => {
                any_trying = true;
                all_busy = false;
                all_congestion = false;
                if s == DialLegState::Dialing && next == DialLegState::Ringing {
                    rang = true;
                }
                if next == DialLegState::Answered {
                    proof {
                        lemma_answer_exit(before, signals@, legs@, i as int, rang);
                    }
                    return (Some(DialResult::Answered(i)), rang);
                }
            },
            DialLegState::Answered => {
                proof {
                    lemma_answer_exit(before, signals@, legs@, i as int, rang);
                }
                return (Some(DialResult::Answered(i)), rang);
            },
            DialLegState::Busy => {
                all_congestion = false;
            },
            DialLegState::Congestion => {
                all_busy = false;
            },
            _ => {
                all_busy = false;
                all_congestion = false;
            },
        }
        i = i + 1;
    }
    proof {
        assert(first_answer(before, signals@) is None);
    }
    let r = if any_trying {
        None
    } else if all_busy {
        Some(DialResult::AllBusy)
    } else if all_congestion {
        Some(DialResult::AllCongestion)
    } else {
        Some(DialResult::AllUnavailable)
    };
    (r, rang)
}

/// How the wait ends at this check, if it does: the caller hung up, the
/// timeout passed, or the poll of the legs ended it.
pub open spec fn dial_step_spec(caller_down: bool, elapsed: Duration, timeout: Duration, legs: Seq<DialLegState>, sig: Seq<LegSignal>, after: Seq<DialLegState>, r: Option<DialResult>) -> bool {
    if caller_down {
        r == Some(DialResult::CallerHangup) && after == legs
    } else if elapsed.nanos >= timeout.nanos {
        r == Some(DialResult::Timeout) && after == legs
    } else {
        poll_step(legs, sig, after, r)
    }
}

/// One check of the wait for an answer; also returns whether some leg
/// started ringing.
pub fn dial_step(caller_down: bool, elapsed: Duration, timeout: Duration, legs: &mut Vec<DialLegState>, signals: &Vec<LegSignal>) -> (r: (Option<DialResult>, bool))
    requires
        signals@.len() == old(legs)@.len(),
    ensures
        dial_step_spec(caller_down, elapsed, timeout, old(legs)@, signals@, final(legs)@, r.0),
        r.1 == (!caller_down && elapsed.nanos < timeout.nanos && started_ringing(old(legs)@, final(legs)@)),
{
    if caller_down {
        return (Some(DialResult::CallerHangup), false);
    }
    if elapsed.nanos >= timeout.nanos {
        return (Some(DialResult::Timeout), false);
    }
    poll_legs(legs, signals)
}

impl DialResult {
    /// What Dial() returns and the DIALSTATUS it sets for the outcome.
    pub fn outcome(self) -> (r: (PbxExecResult, DialStatus))
        ensures
            r == match self {
                DialResult::Answered(_) => (PbxExecResult::Success, DialStatus::Answer),
                DialResult::AllBusy => (PbxExecResult::Success, DialStatus::Busy),
                DialResult::AllCongestion => (PbxExecResult::Success, DialStatus::Congestion),
                DialResult::AllUnavailable => (PbxExecResult::Success, DialStatus::ChanUnavail),
                DialResult::Timeout => (PbxExecResult::Success, DialStatus::NoAnswer),
                DialResult::CallerHangup => (PbxExecResult::Hangup, DialStatus::Cancel),
            },
    {
        match self {
            DialResult::Answered(_) => (PbxExecResult::Success, DialStatus::Answer),
            DialResult::AllBusy => (PbxExecResult::Success, DialStatus::Busy),
            DialResult::AllCongestion => (PbxExecResult::Success, DialStatus::Congestion),
            DialResult::AllUnavailable => (PbxExecResult::Success, DialStatus::ChanUnavail),
            DialResult::Timeout => (PbxExecResult::Success, DialStatus::NoAnswer),
            DialResult::CallerHangup => (PbxExecResult::Hangup, DialStatus::Cancel),
        }
    }
}

/// How Dial() ends before any leg rings, if it does: arguments that do not
/// parse give `INVALIDARGS`, and no outbound leg gives `CHANUNAVAIL`; both
/// fail.
pub fn dial_refused(args_parsed: bool, legs: usize) -> (r: Option<(PbxExecResult, DialStatus)>)
    ensures
        r == if !args_parsed {
            Some((PbxExecResult::Failed, DialStatus::InvalidArgs))
        } else if legs == 0 {
            Some((PbxExecResult::Failed, DialStatus::ChanUnavail))
        } else {
            None
        },
{
    if !args_parsed {
        Some((PbxExecResult::Failed, DialStatus::InvalidArgs))
    } else if legs == 0 {
        Some((PbxExecResult::Failed, DialStatus::ChanUnavail))
    } else {
        None
    }
}

// ---------------------------------------------------------------------------
// What the outbound legs and the caller are given
// ---------------------------------------------------------------------------

/// The caller ID an outbound leg presents.
#[derive(Debug, Clone)]
pub enum OutboundCallerId {
    /// The caller's own (`o`).
    Caller,
    /// A forced number (`f(x)`).
    Forced(String),
    /// The leg's own.
    Unchanged,
}

impl DialOptions {
    /// The caller ID of the outbound legs: the caller's with `o`, else the
    /// number forced with `f(x)`, else the leg's own.
    pub fn outbound_caller_id(&self) -> (r: OutboundCallerId)
        ensures
            (self.original_clid_default || self.original_clid is Some) ==> r is Caller,
            !(self.original_clid_default || self.original_clid is Some) ==> match self.force_caller_id {
                Some(f) => r matches OutboundCallerId::Forced(x) && x@ == f@,
                None => r is Unchanged,
            },
    {
        if self.original_clid_default || self.original_clid.is_some() {
            OutboundCallerId::Caller
        } else {
            match &self.force_caller_id {
                Some(f) => OutboundCallerId::Forced(string_from_str(f.as_str())),
                None => OutboundCallerId::Unchanged,
            }
        }
    }
}

impl DialplanLocation {
    /// The context and extension this location names, keeping the
    /// current ones where it leaves them empty.
    pub fn resolve(&self, context: &str, exten: &str) -> (r: (String, String))
        ensures
            r.0@ == if self.context@.len() == 0 { context@ } else { self.context@ },
            r.1@ == if self.exten@.len() == 0 { exten@ } else { self.exten@ },
    {
        let c = if chars_of(self.context.as_str()).len() == 0 {
            string_from_str(context)
        } else {
            string_from_str(self.context.as_str())
        };
        let e = if chars_of(self.exten.as_str()).len() == 0 {
            string_from_str(exten)
        } else {
            string_from_str(self.exten.as_str())
        };
        (c, e)
    }
}

/// The variables Dial() sets when it ends: DIALSTATUS, and the time spent
/// dialing in whole seconds and in milliseconds.
pub open spec fn dial_end_variables(status: DialStatus, elapsed: Duration) -> Seq<(Seq<char>, Seq<char>)> {
    seq![
        ("DIALSTATUS"@, status.text()),
        ("DIALEDTIME"@, decimal((elapsed.nanos / NANOS_PER_SEC) as nat)),
        ("DIALEDTIME_MS"@, decimal((elapsed.nanos / NANOS_PER_MILLI) as nat)),
    ]
}

/// The variables Dial() sets when it ends.
pub fn dial_end_vars(status: DialStatus, elapsed: Duration) -> (r: Vec<(String, String)>)
    requires
        elapsed.nanos / NANOS_PER_MILLI <= u64::MAX,
    ensures
        r@.len() == 3,
        forall|i: int| 0 <= i < 3 ==> (#[trigger] r@[i]).0@ == dial_end_variables(status, elapsed)[i].0
            && r@[i].1@ == dial_end_variables(status, elapsed)[i].1,
{
    let secs = elapsed.nanos / NANOS_PER_SEC;
    let ms = elapsed.nanos / NANOS_PER_MILLI;
    let mut t = String::new();
    push_decimal(&mut t, secs as u64);
    let mut m = String::new();
    push_decimal(&mut m, ms as u64);
    let mut r: Vec<(String, String)> = Vec::new();
    r.push((string_from_str("DIALSTATUS"), string_from_str(status.as_str())));
    r.push((string_from_str("DIALEDTIME"), t));
    r.push((string_from_str("DIALEDTIME_MS"), m));
    r
}

// ---------------------------------------------------------------------------
// DialDestination
// ---------------------------------------------------------------------------

/// One destination of the dial string.
#[derive(Debug, Clone)]
pub struct DialDestination {
    /// Channel technology name (e.g., "SIP", "PJSIP", "Local")
    pub technology: String,
    /// Resource/endpoint identifier (e.g., "alice@example.com", "100")
    pub resource: String,
}

pub struct DestinationView {
    pub technology: Seq<char>,
    pub resource: Seq<char>,
}

impl View for DialDestination {
    type V = DestinationView;

    open spec fn view(&self) -> DestinationView {
        DestinationView { technology: self.technology@, resource: self.resource@ }
    }
}

/// `Technology/Resource` after trimming: split at the first `/`, with both
/// sides non-empty.
pub open spec fn destination_spec(s: Seq<char>) -> Option<DestinationView> {
    let t = trim(s);
    let i = index_of(t, '/');
    if t.len() == 0 || i < 0 {
        None
    } else if i == 0 || i + 1 >= t.len() {
        None
    } else {
        Some(DestinationView { technology: t.take(i), resource: t.skip(i + 1) })
    }
}

/// A destination splits at the first `/` of the trimmed text: the
/// technology is the non-empty text before it, so it holds no `/`, and the
/// resource is the non-empty rest, which may hold more `/`. A text with no
/// `/` is no destination.
pub proof fn lemma_destination_first_slash(s: Seq<char>, a: Seq<char>, b: Seq<char>)
    ensures
        destination_spec(s) matches Some(d) ==> {
            &&& d.technology.len() > 0
            &&& d.resource.len() > 0
            &&& !d.technology.contains('/')
            &&& trim(s) == d.technology + seq!['/'] + d.resource
        },
        !trim(s).contains('/') ==> destination_spec(s) is None,
        trim(s) == a + seq!['/'] + b && a.len() > 0 && !a.contains('/') && b.len() > 0
            ==> destination_spec(s) == Some(DestinationView { technology: a, resource: b }),
{
    let t = trim(s);
    lemma_index_of_props(t, '/');
    let first = index_of(t, '/');
    if first >= 0 {
        assert(t.contains('/'));
    }
    if let Some(d) = destination_spec(s) {
        assert(d.technology + seq!['/'] + d.resource =~= t);
        if d.technology.contains('/') {
            let j = choose|j: int| 0 <= j < d.technology.len() && d.technology[j] == '/';
            assert(t[j] == '/');
        }
    }
    if !t.contains('/') {
        if first >= 0 {
            assert(t[first] == '/');
        }
    }
    if t == a + seq!['/'] + b && a.len() > 0 && !a.contains('/') && b.len() > 0 {
        let k = a.len() as int;
        assert(t[k] == '/');
        if 0 <= first < k {
            assert(t[first] == a[first]);
        }
        assert(first == k);
        assert(t.take(first) =~= a);
        assert(t.skip(first + 1) =~= b);
    }
}

impl DialDestination {
    pub fn parse(s: &str) -> (r: Option<Self>)
        ensures
            match destination_spec(s@) {
                Some(d) => r is Some && r->0@ == d,
                None => r is None,
            },
    {
        let v = chars_of(s);
        Self::parse_chars(&v)
    }

    pub fn parse_chars(v: &Vec<char>) -> (r: Option<Self>)
        ensures
            match destination_spec(v@) {
                Some(d) => r is Some && r->0@ == d,
                None => r is None,
            },
    {
        let t = trim_chars(v);
        if t.len() == 0 {
            return None;
        }
        let slash = match find_char(&t, '/') {
            Some(p) => p,
            None => {
                return None;
            },
        };
        if slash == 0 || slash + 1 >= t.len() {
            return None;
        }
        let tech = subchars(&t, 0, slash);
        let res = subchars(&t, slash + 1, t.len());
        assert(tech@ =~= t@.take(slash as int));
        assert(res@ =~= t@.skip(slash + 1));
        Some(DialDestination { technology: string_of(&tech), resource: string_of(&res) })
    }

    /// The channel name `Technology/Resource-suffix`.
    pub fn channel_name(&self, unique_suffix: &str) -> (r: String)
        ensures
            r@ == self.technology@ + seq!['/'] + self.resource@ + seq!['-'] + unique_suffix@,
    {
        let mut r = String::new();
        r.append(self.technology.as_str());
        push_char(&mut r, '/');
        r.append(self.resource.as_str());
        push_char(&mut r, '-');
        r.append(unique_suffix);
        assert(r@ =~= self.technology@ + seq!['/'] + self.resource@ + seq!['-'] + unique_suffix@);
        r
    }

    /// The dial string `Technology/Resource`.
    pub fn dial_string(&self) -> (r: String)
        ensures
            r@ == self.technology@ + seq!['/'] + self.resource@,
    {
        let mut r = String::new();
        r.append(self.technology.as_str());
        push_char(&mut r, '/');
        r.append(self.resource.as_str());
        assert(r@ =~= self.technology@ + seq!['/'] + self.resource@);
        r
    }
}

// ---------------------------------------------------------------------------
// Dial events
// ---------------------------------------------------------------------------

/// Event published when dialing begins.
#[derive(Debug)]
pub struct DialBeginEvent {
    pub caller: String,
    pub callee: String,
    pub dialstring: String,
    pub forward: Option<String>,
}

impl DialBeginEvent {
    /// The event's message type.
    pub fn message_type(&self) -> (r: &'static str)
        ensures
            r@ == "DialBegin"@,
    {
        "DialBegin"
    }
}

/// Event published when dialing ends.
#[derive(Debug)]
pub struct DialEndEvent {
    pub caller: String,
    pub callee: String,
    pub dialstatus: String,
    pub forward: Option<String>,
}

impl DialEndEvent {
    /// The event's message type.
    pub fn message_type(&self) -> (r: &'static str)
        ensures
            r@ == "DialEnd"@,
    {
        "DialEnd"
    }
}

// ---------------------------------------------------------------------------
// DialArgs
// ---------------------------------------------------------------------------

/// Parsed arguments of a Dial() invocation.
#[derive(Debug)]
pub struct DialArgs {
    /// Destinations dialed in parallel
    pub destinations: Vec<DialDestination>,
    /// Timeout (the default stands for "no timeout")
    pub timeout: Duration,
    /// Options parsed from the options string
    pub options: DialOptions,
    /// URL to send to the called party
    pub url: Option<String>,
}

pub struct DialArgsView {
    pub destinations: Seq<DestinationView>,
    pub timeout: Duration,
    pub options: DialOptionsView,
    pub url: Option<Seq<char>>,
}

impl View for DialArgs {
    type V = DialArgsView;

    open spec fn view(&self) -> DialArgsView {
        DialArgsView {
            destinations: destination_views(self.destinations@),
            timeout: self.timeout,
            options: self.options@,
            url: opt_str(self.url),
        }
    }
}

pub open spec fn destination_views(s: Seq<DialDestination>) -> Seq<DestinationView> {
    s.map_values(|d: DialDestination| d@)
}

/// The destinations among `pieces` that parse, in order.
#[verifier::opaque]
pub open spec fn destination_list(pieces: Seq<Seq<char>>) -> Seq<DestinationView>
    decreases pieces.len(),
{
    if pieces.len() == 0 {
        Seq::<DestinationView>::empty()
    } else {
        destination_list(pieces.drop_last()) + match destination_spec(pieces.last()) {
            Some(d) => seq![d],
            None => Seq::<DestinationView>::empty(),
        }
    }
}

pub open spec fn default_dial_timeout() -> Duration {
    Duration { nanos: (DialArgs::DEFAULT_TIMEOUT_SECS as u128 * 1_000_000_000) as u128 }
}

/// The timeout field: empty after trimming gives the default; otherwise a
/// positive number of seconds, and the default for anything else.
pub open spec fn dial_timeout_spec(s: Seq<char>) -> Duration {
    let t = trim(s);
    if t.len() == 0 {
        default_dial_timeout()
    } else {
        match positive_seconds(t) {
            Some(n) => Duration { nanos: n as u128 },
            None => default_dial_timeout(),
        }
    }
}

/// `dests[,timeout[,options[,URL]]]` split at the first three commas; the
/// destinations are the `&`-separated parts that parse, and there must be
/// at least one. The URL is also recorded in the options.
pub open spec fn dial_args_spec(s: Seq<char>) -> Option<DialArgsView> {
    dial_args_from_parts(splitn_spec(s, 4, ','))
}

/// The Dial() arguments from their comma-separated fields.
#[verifier::opaque]
pub open spec fn dial_args_from_parts(parts: Seq<Seq<char>>) -> Option<DialArgsView> {
    let dests = destination_list(split_spec(parts[0], '&'));
    if dests.len() == 0 {
        None
    } else {
        let url = if parts.len() > 3 {
            Some(parts[3])
        } else {
            None
        };
        let opts = if parts.len() > 2 {
            dial_options_spec(trim(parts[2]))
        } else {
            no_dial_options()
        };
        Some(
            DialArgsView {
                destinations: dests,
                timeout: if parts.len() > 1 {
                    dial_timeout_spec(parts[1])
                } else {
                    default_dial_timeout()
                },
                options: dial_options_with_url(opts, url),
                url: url,
            },
        )
    }
}

/// The destinations among the `&`-separated parts of `v` that parse.
fn destinations_of(v: &Vec<char>) -> (r: Vec<DialDestination>)
    ensures
        destination_views(r@) == destination_list(split_spec(v@, '&')),
{
        let pieces = split(v, '&');
        let ghost pv = pieces.deep_view();
        let mut destinations: Vec<DialDestination> = Vec::new();
        proof {
            reveal(destination_list);
        }
        let mut k: usize = 0;
        while k < pieces.len()
            invariant
                k <= pieces.len(),
                pv == pieces.deep_view(),
                destination_views(destinations@) == destination_list(pv.take(k as int)),
            decreases pieces.len() - k,
        {
            proof {
                lemma_chars_deep_view(pieces@[k as int]);
            }
            let ghost before = destinations@;
            match DialDestination::parse_chars(&pieces[k]) {
                Some(d) => {
                    destinations.push(d);
                },
                None => {},
            }
            k = k + 1;
            proof {
                reveal(destination_list);
                assert(pv.take(k as int).drop_last() =~= pv.take(k - 1));
                assert(pv.take(k as int).last() == pieces@[k - 1]@);
                assert(destination_views(destinations@) =~= destination_list(pv.take(k as int)));
            }
        }
        assert(pv.take(k as int) =~= pv);
        destinations
}

fn dial_timeout(v: &Vec<char>) -> (d: Duration)
    ensures
        d == dial_timeout_spec(v@),
{
    let t = trim_chars(v);
    if t.len() == 0 {
        Duration::from_secs(DialArgs::DEFAULT_TIMEOUT_SECS)
    } else {
        match parse_positive_seconds(&t) {
            Some(d) => d,
            None => Duration::from_secs(DialArgs::DEFAULT_TIMEOUT_SECS),
        }
    }
}

/// The timeout of the Dial() arguments (second field).
fn args_timeout(parts: &Vec<Vec<char>>) -> (r: Duration)
    ensures
        r == (if parts.len() > 1 {
            dial_timeout_spec(parts.deep_view()[1])
        } else {
            default_dial_timeout()
        }),
{
    if parts.len() > 1 {
        proof {
            lemma_chars_deep_view(parts@[1]);
        }
        dial_timeout(&parts[1])
    } else {
        Duration::from_secs(DialArgs::DEFAULT_TIMEOUT_SECS)
    }
}

/// The options of the Dial() arguments (third field).
fn args_options(parts: &Vec<Vec<char>>) -> (r: DialOptions)
    ensures
        r@ == (if parts.len() > 2 {
            dial_options_spec(trim(parts.deep_view()[2]))
        } else {
            no_dial_options()
        }),
{
    if parts.len() > 2 {
        proof {
            lemma_chars_deep_view(parts@[2]);
        }
        let t = trim_chars(&parts[2]);
        DialOptions::parse_chars(&t)
    } else {
        DialOptions::new()
    }
}

/// The URL of the Dial() arguments (fourth field).
fn args_url(parts: &Vec<Vec<char>>) -> (r: Option<String>)
    ensures
        opt_str(r) == (if parts.len() > 3 {
            Some(parts.deep_view()[3])
        } else {
            None::<Seq<char>>
        }),
{
    if parts.len() > 3 {
        proof {
            lemma_chars_deep_view(parts@[3]);
        }
        Some(string_of(&parts[3]))
    } else {
        None
    }
}

fn copy_opt_string(o: &Option<String>) -> (r: Option<String>)
    ensures
        opt_str(r) == opt_str(*o),
{
    match o {
        Some(u) => Some(u.clone()),
        None => None,
    }
}

fn args_options_url(parts: &Vec<Vec<char>>) -> (r: (DialOptions, Option<String>))
    ensures
        opt_str(r.1) == (if parts.deep_view().len() > 3 {
            Some(parts.deep_view()[3])
        } else {
            None::<Seq<char>>
        }),
        r.0@ == dial_options_with_url(
            if parts.deep_view().len() > 2 {
                dial_options_spec(trim(parts.deep_view()[2]))
            } else {
                no_dial_options()
            },
            opt_str(r.1),
        ),
{
    let options = args_options(parts);
    let url = args_url(parts);
    let options = options.with_url(copy_opt_string(&url));
    (options, url)
}

impl DialOptions {
    fn with_url(self, url: Option<String>) -> (r: Self)
        ensures
            r@ == dial_options_with_url(self@, opt_str(url)),
    {
        reveal(dial_options_with_url);
        DialOptions { url, ..self }
    }
}

proof fn lemma_dial_args_view(
    ps: Seq<Seq<char>>,
    dests: Seq<DestinationView>,
    timeout: Duration,
    options: DialOptionsView,
    url: Option<Seq<char>>,
)
    requires
        ps.len() >= 1,
        dests == destination_list(split_spec(ps[0], '&')),
        dests.len() > 0,
        timeout == (if ps.len() > 1 {
            dial_timeout_spec(ps[1])
        } else {
            default_dial_timeout()
        }),
        url == (if ps.len() > 3 {
            Some(ps[3])
        } else {
            None::<Seq<char>>
        }),
        options == dial_options_with_url(
            if ps.len() > 2 {
                dial_options_spec(trim(ps[2]))
            } else {
                no_dial_options()
            },
            url,
        ),
    ensures
        dial_args_from_parts(ps) is Some,
        dial_args_from_parts(ps)->0.destinations == dests,
        dial_args_from_parts(ps)->0.timeout == timeout,
        dial_args_from_parts(ps)->0.options == options,
        dial_args_from_parts(ps)->0.url == url,
{
    reveal(dial_args_from_parts);
}

impl DialArgs {
    /// Default timeout when none is given (effectively infinite).
    pub const DEFAULT_TIMEOUT_SECS: u64 = 136 * 365 * 24 * 3600;

    pub fn parse(args: &str) -> (r: Option<Self>)
        ensures
            match dial_args_spec(args@) {
                Some(a) => r is Some && r->0@ == a,
                None => r is None,
            },
    {
        let v = chars_of(args);
        let parts = splitn(&v, 4, ',');
        Self::from_parts(&parts)
    }

    fn from_parts(parts: &Vec<Vec<char>>) -> (r: Option<Self>)
        requires
            parts.len() >= 1,
        ensures
            match dial_args_from_parts(parts.deep_view()) {
                Some(a) => r is Some && r->0@ == a,
                None => r is None,
            },
    {
        let ghost ps = parts.deep_view();
        proof {
            lemma_chars_deep_view(parts@[0]);
        }
        let destinations = destinations_of(&parts[0]);
        if destinations.len() == 0 {
            assert(destination_views(destinations@).len() == 0);
            proof {
                reveal(dial_args_from_parts);
            }
            return None;
        }
        assert(destination_views(destinations@).len() > 0);
        let timeout = args_timeout(parts);
        let (options, url) = args_options_url(parts);
        let r = DialArgs { destinations, timeout, options, url };
        proof {
            lemma_dial_args_view(ps, r@.destinations, r@.timeout, r@.options, r@.url);
            let a = dial_args_from_parts(ps)->0;
            assert(r@ == (DialArgsView {
                destinations: a.destinations,
                timeout: a.timeout,
                options: a.options,
                url: a.url,
            }));
        }
        Some(r)
    }
}

} // verus!
