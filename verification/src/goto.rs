//! Goto(): jumping to another place in the dialplan. This module holds how
//! the target is read and which priority it names.
use crate::text::{
    chars_eq_ignore_ascii_case, chars_of, eq_ignore_ascii_case, lemma_chars_deep_view, opt_str,
    parse_i32, parse_i32_spec, split, split_spec, string_of, trim, trim_chars,
};
use crate::DialplanApp;
use vstd::prelude::*;

verus! {

/// `[[context,]extension,]priority`.
#[derive(Debug, Clone)]
pub struct GotoTarget {
    pub context: Option<String>,
    pub extension: Option<String>,
    pub priority: String,
}

/// The comma-separated pieces, each trimmed.
pub open spec fn goto_pieces(s: Seq<char>) -> Seq<Seq<char>> {
    split_spec(s, ',').map_values(|p: Seq<char>| trim(p))
}

impl GotoTarget {
    /// Reads one, two or three comma-separated pieces; `None` for more.
    pub fn parse(args: &str) -> (r: Option<Self>)
        ensures
            ({
                let p = goto_pieces(args@);
                match r {
                    None => p.len() > 3,
                    Some(t) => if p.len() == 1 {
                        t.context is None && t.extension is None && t.priority@ == p[0]
                    } else if p.len() == 2 {
                        t.context is None && opt_str(t.extension) == Some(p[0]) && t.priority@
                            == p[1]
                    } else {
                        p.len() == 3 && opt_str(t.context) == Some(p[0]) && opt_str(t.extension)
                            == Some(p[1]) && t.priority@ == p[2]
                    },
                }
            }),
    {
        let v = chars_of(args);
        let parts = split(&v, ',');
        let n = parts.len();
        if n > 3 {
            return None;
        }
        proof {
            lemma_chars_deep_view(parts@[0]);
        }
        let a = string_of(&trim_chars(&parts[0]));
        if n == 1 {
            return Some(GotoTarget { context: None, extension: None, priority: a });
        }
        proof {
            lemma_chars_deep_view(parts@[1]);
        }
        let b = string_of(&trim_chars(&parts[1]));
        if n == 2 {
            return Some(GotoTarget { context: None, extension: Some(a), priority: b });
        }
        proof {
            lemma_chars_deep_view(parts@[2]);
        }
        let c = string_of(&trim_chars(&parts[2]));
        Some(GotoTarget { context: Some(a), extension: Some(b), priority: c })
    }

    /// The priority jumped to from priority `current`: the number given,
    /// the next priority for `n` (any case), else 1.
    pub fn resolve_priority(&self, current: i32) -> (r: i32)
        requires
            current < i32::MAX,
        ensures
            r == match parse_i32_spec(self.priority@) {
                Some(p) => p as int,
                None => if eq_ignore_ascii_case(self.priority@, "n"@) {
                    current + 1
                } else {
                    1
                },
            },
    {
        let p = chars_of(self.priority.as_str());
        match parse_i32(&p) {
            Some(x) => x,
            None => {
                let n = chars_of("n");
                if chars_eq_ignore_ascii_case(&p, &n) {
                    current + 1
                } else {
                    1
                }
            },
        }
    }
}

/// The `Goto()` dialplan application.
#[derive(Debug)]
pub struct AppGoto;

impl DialplanApp for AppGoto {
    fn name(&self) -> (r: &str)
        ensures
            r@ == "Goto"@,
    {
        "Goto"
    }

    fn description(&self) -> (r: &str)
        ensures
            r@ == "Unconditional goto in the dialplan"@,
    {
        "Unconditional goto in the dialplan"
    }
}

} // verus!
