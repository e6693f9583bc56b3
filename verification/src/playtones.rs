//! PlayTones() and StopPlayTones(): playing a tone cadence. This module
//! holds how a tone list is read.
use crate::text::{
    find_char, index_of, lemma_chars_deep_view, lemma_index_of_props, parse_u32,
    parse_u32_spec, split, split_spec, splitn, splitn_spec, subchars, trim, trim_chars, trim_str,
};
use crate::DialplanApp;
use vstd::prelude::*;

verus! {

/// One tone of a cadence: one or two frequencies (Hz) for a duration (ms,
/// 0 for no limit).
#[derive(Debug, Clone, Copy, PartialEq, Eq, Structural)]
pub struct ToneSegment {
    pub freq1: u32,
    pub freq2: u32,
    pub duration: u32,
}

/// A tone list.
#[derive(Debug, Clone)]
pub struct ToneSpec {
    pub segments: Vec<ToneSegment>,
    pub repeat: bool,
}

/// One trimmed, non-blank entry `f1[+f2][/duration]`; `None` when a
/// frequency is not a number. A duration that is not a number counts as 0.
pub open spec fn tone_segment(part: Seq<char>) -> Option<ToneSegment> {
    let p = splitn_spec(part, 2, '/');
    let freq = p[0];
    let duration: u32 = if p.len() > 1 {
        match parse_u32_spec(p[1]) {
            Some(d) => d,
            None => 0,
        }
    } else {
        0
    };
    let plus = index_of(freq, '+');
    if plus >= 0 {
        match (parse_u32_spec(freq.take(plus)), parse_u32_spec(freq.skip(plus + 1))) {
            (Some(f1), Some(f2)) => Some(ToneSegment { freq1: f1, freq2: f2, duration }),
            _ => None,
        }
    } else {
        match parse_u32_spec(freq) {
            Some(f1) => Some(ToneSegment { freq1: f1, freq2: 0, duration }),
            None => None,
        }
    }
}

/// The segments of the first `k` comma-separated entries (blank ones are
/// skipped); `None` as soon as one entry is malformed.
pub open spec fn tone_segments(parts: Seq<Seq<char>>, k: int) -> Option<Seq<ToneSegment>>
    decreases k,
{
    if k <= 0 {
        Some(Seq::<ToneSegment>::empty())
    } else {
        match tone_segments(parts, k - 1) {
            None => None,
            Some(s) => if trim(parts[k - 1]).len() == 0 {
                Some(s)
            } else {
                match tone_segment(trim(parts[k - 1])) {
                    Some(g) => Some(s.push(g)),
                    None => None,
                }
            },
        }
    }
}

/// The segments of a tone list, when it is well formed and not empty.
pub open spec fn tone_spec_segments(s: Seq<char>) -> Option<Seq<ToneSegment>> {
    let t = trim(s);
    let parts = split_spec(t, ',');
    if t.len() == 0 {
        None
    } else {
        match tone_segments(parts, parts.len() as int) {
            Some(g) => if g.len() > 0 {
                Some(g)
            } else {
                None
            },
            None => None,
        }
    }
}

fn segment_of(part: &Vec<char>) -> (r: Option<ToneSegment>)
    ensures
        r == tone_segment(part@),
{
    let p = splitn(part, 2, '/');
    proof {
        lemma_chars_deep_view(p@[0]);
    }
    let freq = &p[0];
    let duration: u32 = if p.len() > 1 {
        proof {
            lemma_chars_deep_view(p@[1]);
        }
        match parse_u32(&p[1]) {
            Some(d) => d,
            None => 0,
        }
    } else {
        0
    };
    proof {
        lemma_index_of_props(freq@, '+');
    }
    match find_char(freq, '+') {
        Some(plus) => {
            let a = subchars(freq, 0, plus);
            let b = subchars(freq, plus + 1, freq.len());
            assert(a@ =~= freq@.take(plus as int));
            assert(b@ =~= freq@.skip(plus + 1));
            match (parse_u32(&a), parse_u32(&b)) {
                (Some(f1), Some(f2)) => Some(ToneSegment { freq1: f1, freq2: f2, duration }),
                _ => None,
            }
        },
        None => match parse_u32(freq) {
            Some(f1) => Some(ToneSegment { freq1: f1, freq2: 0, duration }),
            None => None,
        },
    }
}

impl ToneSpec {
    /// Reads a comma-separated tone list; `None` when it is blank, has no
    /// entry, or has a malformed entry. The list repeats.
    pub fn parse(spec: &str) -> (r: Option<Self>)
        ensures
            match tone_spec_segments(spec@) {
                Some(g) => r matches Some(t) && t.segments@ == g && t.repeat,
                None => r is None,
            },
    {
        let t = trim_str(spec);
        if t.len() == 0 {
            return None;
        }
        let parts = split(&t, ',');
        let mut segments: Vec<ToneSegment> = Vec::new();
        let mut k: usize = 0;
        while k < parts.len()
            invariant
                k <= parts.len(),
                parts.deep_view() == split_spec(trim(spec@), ','),
                tone_segments(parts.deep_view(), k as int) == Some(segments@),
            decreases parts.len() - k,
        {
            proof {
                lemma_chars_deep_view(parts@[k as int]);
            }
            let part = trim_chars(&parts[k]);
            if part.len() > 0 {
                match segment_of(&part) {
                    Some(g) => {
                        segments.push(g);
                    },
                    None => {
                        assert(tone_segments(parts.deep_view(), k + 1) is None);
                        proof {
                            lemma_segments_stay_none(parts.deep_view(), k + 1, parts.len() as int);
                        }
                        return None;
                    },
                }
            }
            k = k + 1;
        }
        if segments.len() == 0 {
            return None;
        }
        Some(ToneSpec { segments, repeat: true })
    }
}

proof fn lemma_segments_stay_none(parts: Seq<Seq<char>>, k: int, n: int)
    requires
        0 < k <= n,
        tone_segments(parts, k) is None,
    ensures
        tone_segments(parts, n) is None,
    decreases n - k,
{
    if k < n {
        assert(tone_segments(parts, k + 1) is None);
        lemma_segments_stay_none(parts, k + 1, n);
    }
}

/// The `PlayTones()` dialplan application.
#[derive(Debug)]
pub struct AppPlayTones;

impl DialplanApp for AppPlayTones {
    fn name(&self) -> (r: &str)
        ensures
            r@ == "PlayTones"@,
    {
        "PlayTones"
    }

    fn description(&self) -> (r: &str)
        ensures
            r@ == "Play a tone list"@,
    {
        "Play a tone list"
    }
}

/// The `StopPlayTones()` dialplan application.
#[derive(Debug)]
pub struct AppStopPlayTones;

impl DialplanApp for AppStopPlayTones {
    fn name(&self) -> (r: &str)
        ensures
            r@ == "StopPlayTones"@,
    {
        "StopPlayTones"
    }

    fn description(&self) -> (r: &str)
        ensures
            r@ == "Stop playing a tone list"@,
    {
        "Stop playing a tone list"
    }
}

} // verus!
