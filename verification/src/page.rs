//! Page(): paging a group of phones into one conference. This module holds
//! the option letters, the arguments and the PAGE_STATUS values.
use crate::opts::{after_paren, lemma_after_paren, opt_chars, opt_string_of, paren_arg, read_paren};
use crate::text::{
    chars_of, lemma_chars_deep_view, opt_str, parse_u64, parse_u64_spec, split, split_spec,
    splitn, splitn_spec, str_views, string_of, trim, trim_chars, trimmed_nonblank,
    trimmed_nonblank_of, trimmed_piece, trimmed_piece_of,
};
use crate::time::{Duration, NANOS_PER_SEC};
use crate::DialplanApp;
use vstd::prelude::*;

verus! {

/// PAGE_STATUS values.
#[derive(Debug, Clone, Copy, PartialEq, Eq, Structural)]
pub enum PageStatus {
    Success,
    Failed,
    Timeout,
}

impl PageStatus {
    pub open spec fn text(self) -> Seq<char> {
        match self {
            PageStatus::Success => "SUCCESS"@,
            PageStatus::Failed => "FAILED"@,
            PageStatus::Timeout => "TIMEOUT"@,
        }
    }

    /// The PAGE_STATUS text of this status.
    pub fn as_str(&self) -> (r: &'static str)
        ensures
            r@ == self.text(),
    {
        match self {
            PageStatus::Success => "SUCCESS",
            PageStatus::Failed => "FAILED",
            PageStatus::Timeout => "TIMEOUT",
        }
    }
}

/// The option letters of Page().
#[derive(Debug, Clone, Default)]
pub struct PageOptions {
    pub duplex: bool,
    pub quiet: bool,
    pub record: bool,
    pub skip_inuse: bool,
    pub ignore_forwards: bool,
    pub announcement: Option<String>,
    pub no_caller_announce: bool,
    pub predial_callee: Option<String>,
    pub predial_caller: Option<String>,
}

pub struct PageOptionsView {
    pub duplex: bool,
    pub quiet: bool,
    pub record: bool,
    pub skip_inuse: bool,
    pub ignore_forwards: bool,
    pub announcement: Option<Seq<char>>,
    pub no_caller_announce: bool,
    pub predial_callee: Option<Seq<char>>,
    pub predial_caller: Option<Seq<char>>,
}

impl View for PageOptions {
    type V = PageOptionsView;

    open spec fn view(&self) -> PageOptionsView {
        PageOptionsView {
            duplex: self.duplex,
            quiet: self.quiet,
            record: self.record,
            skip_inuse: self.skip_inuse,
            ignore_forwards: self.ignore_forwards,
            announcement: opt_str(self.announcement),
            no_caller_announce: self.no_caller_announce,
            predial_callee: opt_str(self.predial_callee),
            predial_caller: opt_str(self.predial_caller),
        }
    }
}

pub open spec fn no_page_options() -> PageOptionsView {
    PageOptionsView {
        duplex: false,
        quiet: false,
        record: false,
        skip_inuse: false,
        ignore_forwards: false,
        announcement: None,
        no_caller_announce: false,
        predial_callee: None,
        predial_caller: None,
    }
}

/// One option letter; `A(...)`, `b(...)` and `B(...)` take arguments.
pub open spec fn page_letter(o: PageOptionsView, c: char, arg: Option<Seq<char>>) -> PageOptionsView {
    if c == 'd' {
        PageOptionsView { duplex: true, ..o }
    } else if c == 'q' {
        PageOptionsView { quiet: true, ..o }
    } else if c == 'r' {
        PageOptionsView { record: true, ..o }
    } else if c == 's' {
        PageOptionsView { skip_inuse: true, ..o }
    } else if c == 'i' {
        PageOptionsView { ignore_forwards: true, ..o }
    } else if c == 'A' {
        PageOptionsView { announcement: arg, ..o }
    } else if c == 'n' {
        PageOptionsView { no_caller_announce: true, ..o }
    } else if c == 'b' {
        PageOptionsView { predial_callee: arg, ..o }
    } else if c == 'B' {
        PageOptionsView { predial_caller: arg, ..o }
    } else {
        o
    }
}

pub open spec fn page_from(s: Seq<char>, i: int, o: PageOptionsView) -> PageOptionsView
    decreases s.len() - i,
{
    if i < 0 || i >= s.len() {
        o
    } else if s[i] == 'A' || s[i] == 'b' || s[i] == 'B' {
        proof {
            lemma_after_paren(s, i + 1);
        }
        page_from(s, after_paren(s, i + 1), page_letter(o, s[i], paren_arg(s, i + 1)))
    } else {
        page_from(s, i + 1, page_letter(o, s[i], None))
    }
}

/// The options an option string asks for.
pub open spec fn page_options_spec(s: Seq<char>) -> PageOptionsView {
    page_from(s, 0, no_page_options())
}

fn page_apply(o: PageOptions, c: char, arg: Option<Vec<char>>) -> (r: PageOptions)
    ensures
        r@ == page_letter(o@, c, opt_chars(arg)),
{
    let mut o = o;
    if c == 'd' {
        o.duplex = true;
    } else if c == 'q' {
        o.quiet = true;
    } else if c == 'r' {
        o.record = true;
    } else if c == 's' {
        o.skip_inuse = true;
    } else if c == 'i' {
        o.ignore_forwards = true;
    } else if c == 'A' {
        o.announcement = opt_string_of(&arg);
    } else if c == 'n' {
        o.no_caller_announce = true;
    } else if c == 'b' {
        o.predial_callee = opt_string_of(&arg);
    } else if c == 'B' {
        o.predial_caller = opt_string_of(&arg);
    }
    o
}

impl PageOptions {
    /// Reads the option letters; unknown letters are ignored.
    pub fn parse(opts: &str) -> (r: Self)
        ensures
            r@ == page_options_spec(opts@),
    {
        let v = chars_of(opts);
        let mut o = PageOptions {
            duplex: false,
            quiet: false,
            record: false,
            skip_inuse: false,
            ignore_forwards: false,
            announcement: None,
            no_caller_announce: false,
            predial_callee: None,
            predial_caller: None,
        };
        let mut i: usize = 0;
        while i < v.len()
            invariant
                i <= v.len(),
                v@ == opts@,
                page_options_spec(opts@) == page_from(v@, i as int, o@),
            decreases v.len() - i,
        {
            let c = v[i];
            if c == 'A' || c == 'b' || c == 'B' {
                let (arg, next) = read_paren(&v, i + 1);
                o = page_apply(o, c, arg);
                i = next;
            } else {
                o = page_apply(o, c, None);
                i = i + 1;
            }
        }
        o
    }
}

/// The arguments of `Page(Tech/Res[&Tech2/Res2...][,options[,timeout]])`.
#[derive(Debug)]
pub struct PageArgs {
    pub destinations: Vec<String>,
    pub options: PageOptions,
    pub timeout: Duration,
}

pub open spec fn page_parts(s: Seq<char>) -> Seq<Seq<char>> {
    splitn_spec(s, 3, ',')
}

/// The destinations: the `&`-separated pieces of the first argument,
/// trimmed, without the blank ones.
pub open spec fn page_destinations(s: Seq<char>) -> Seq<Seq<char>> {
    trimmed_nonblank(split_spec(trim(page_parts(s)[0]), '&'))
}

impl PageArgs {
    /// Parses the arguments; `None` when there is no destination.
    pub fn parse(args: &str) -> (r: Option<Self>)
        ensures
            ({
                let p = page_parts(args@);
                match r {
                    None => page_destinations(args@).len() == 0,
                    Some(a) => {
                        &&& page_destinations(args@).len() > 0
                        &&& str_views(a.destinations@) == page_destinations(args@)
                        &&& a.options@ == (if p.len() > 1 {
                            page_options_spec(trim(p[1]))
                        } else {
                            no_page_options()
                        })
                        &&& a.timeout.nanos == match parse_u64_spec(trimmed_piece(p, 2)) {
                            Some(t) => t * NANOS_PER_SEC,
                            None => 0,
                        }
                    },
                }
            }),
    {
        let v = chars_of(args);
        let parts = splitn(&v, 3, ',');
        proof {
            lemma_chars_deep_view(parts@[0]);
        }
        let d = trim_chars(&parts[0]);
        let pieces = split(&d, '&');
        let destinations = trimmed_nonblank_of(&pieces);
        if destinations.len() == 0 {
            return None;
        }
        let options = if parts.len() > 1 {
            proof {
                lemma_chars_deep_view(parts@[1]);
            }
            let o = string_of(&trim_chars(&parts[1]));
            PageOptions::parse(o.as_str())
        } else {
            let o = PageOptions::parse("");
            assert(page_options_spec(""@) == no_page_options()) by {
                reveal_strlit("");
            }
            o
        };
        let t = trimmed_piece_of(&parts, 2);
        let timeout = match parse_u64(&t) {
            Some(secs) => Duration::from_secs(secs),
            None => Duration::from_nanos(0),
        };
        Some(PageArgs { destinations, options, timeout })
    }
}

/// The `Page()` dialplan application.
#[derive(Debug)]
pub struct AppPage;

impl DialplanApp for AppPage {
    fn name(&self) -> (r: &str)
        ensures
            r@ == "Page"@,
    {
        "Page"
    }

    fn description(&self) -> (r: &str)
        ensures
            r@ == "Page series of phones"@,
    {
        "Page series of phones"
    }
}

impl AppPage {
    /// The PAGE_STATUS set before paging: `FAILED` when there is no
    /// destination, else `SUCCESS`.
    pub fn status_for(args: &str) -> (r: PageStatus)
        ensures
            r == if page_destinations(args@).len() > 0 {
                PageStatus::Success
            } else {
                PageStatus::Failed
            },
    {
        match PageArgs::parse(args) {
            Some(_) => PageStatus::Success,
            None => PageStatus::Failed,
        }
    }
}

} // verus!
