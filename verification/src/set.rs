//! Set() and MSet(): assigning channel variables. This module holds how
//! the assignments are read.
use crate::text::{
    chars_of, find_char, index_of, lemma_chars_deep_view, lemma_index_of_props, split,
    split_spec, string_of, subchars, trim, trim_chars, };
use crate::DialplanApp;
use vstd::prelude::*;

verus! {

/// The `Set()` dialplan application.
#[derive(Debug)]
pub struct AppSet;

impl DialplanApp for AppSet {
    fn name(&self) -> (r: &str)
        ensures
            r@ == "Set"@,
    {
        "Set"
    }

    fn description(&self) -> (r: &str)
        ensures
            r@ == "Set a channel variable"@,
    {
        "Set a channel variable"
    }
}

/// The `MSet()` dialplan application.
#[derive(Debug)]
pub struct AppMSet;

impl DialplanApp for AppMSet {
    fn name(&self) -> (r: &str)
        ensures
            r@ == "MSet"@,
    {
        "MSet"
    }

    fn description(&self) -> (r: &str)
        ensures
            r@ == "Set multiple channel variables at once"@,
    {
        "Set multiple channel variables at once"
    }
}

/// `name=value` split at the first `=`, both sides trimmed.
pub open spec fn assignment_of(t: Seq<char>) -> Option<(Seq<char>, Seq<char>)> {
    let eq = index_of(t, '=');
    if eq < 0 {
        None
    } else {
        Some((trim(t.take(eq)), trim(t.skip(eq + 1))))
    }
}

fn split_assignment(t: &Vec<char>) -> (r: Option<(String, String)>)
    ensures
        match assignment_of(t@) {
            Some(p) => r matches Some(x) && x.0@ == p.0 && x.1@ == p.1,
            None => r is None,
        },
{
    proof {
        lemma_index_of_props(t@, '=');
    }
    match find_char(t, '=') {
        Some(eq) => {
            let n = subchars(t, 0, eq);
            let v = subchars(t, eq + 1, t.len());
            assert(n@ =~= t@.take(eq as int));
            assert(v@ =~= t@.skip(eq + 1));
            Some((string_of(&trim_chars(&n)), string_of(&trim_chars(&v))))
        },
        None => None,
    }
}

impl AppSet {
    /// The assignment of `name=value`; `None` (the application fails) for a
    /// blank argument or one without `=`.
    pub fn assignment(args: &str) -> (r: Option<(String, String)>)
        ensures
            match assignment_of(args@) {
                Some(p) => trim(args@).len() > 0 && (r matches Some(x) && x.0@ == p.0 && x.1@
                    == p.1),
                None => r is None,
            },
    {
        let v = chars_of(args);
        if trim_chars(&v).len() == 0 {
            proof {
                lemma_index_of_props(v@, '=');
                if index_of(v@, '=') >= 0 {
                    lemma_blank_has_no_sign(v@);
                }
            }
            return None;
        }
        split_assignment(&v)
    }
}

/// A text that trims to nothing holds no `=`.
proof fn lemma_blank_has_no_sign(s: Seq<char>)
    requires
        trim(s).len() == 0,
    ensures
        index_of(s, '=') < 0,
{
    crate::text::lemma_trim_blank(s);
    lemma_index_of_props(s, '=');
}

/// The assignments of the first `k` comma-separated entries: blank entries
/// and entries without `=` are skipped.
pub open spec fn assignments_of(parts: Seq<Seq<char>>, k: int) -> Seq<(Seq<char>, Seq<char>)>
    decreases k,
{
    if k <= 0 {
        Seq::empty()
    } else {
        let t = trim(parts[k - 1]);
        let rest = assignments_of(parts, k - 1);
        if t.len() == 0 {
            rest
        } else {
            match assignment_of(t) {
                Some(p) => rest.push(p),
                None => rest,
            }
        }
    }
}

pub open spec fn pair_views(v: Seq<(String, String)>) -> Seq<(Seq<char>, Seq<char>)> {
    v.map_values(|p: (String, String)| (p.0@, p.1@))
}

impl AppMSet {
    /// The assignments of `name1=value1[,name2=value2...]`; `None` (the
    /// application fails) for a blank argument.
    pub fn assignments(args: &str) -> (r: Option<Vec<(String, String)>>)
        ensures
            match r {
                None => trim(args@).len() == 0,
                Some(v) => trim(args@).len() > 0 && pair_views(v@) == assignments_of(
                    split_spec(args@, ','),
                    split_spec(args@, ',').len() as int,
                ),
            },
    {
        let v = chars_of(args);
        if trim_chars(&v).len() == 0 {
            return None;
        }
        let parts = split(&v, ',');
        let mut out: Vec<(String, String)> = Vec::new();
        let mut k: usize = 0;
        while k < parts.len()
            invariant
                k <= parts.len(),
                parts.deep_view() == split_spec(args@, ','),
                pair_views(out@) == assignments_of(parts.deep_view(), k as int),
            decreases parts.len() - k,
        {
            proof {
                lemma_chars_deep_view(parts@[k as int]);
            }
            let t = trim_chars(&parts[k]);
            if t.len() > 0 {
                match split_assignment(&t) {
                    Some(p) => {
                        let ghost before = out@;
                        out.push(p);
                        assert(pair_views(out@) =~= pair_views(before).push((p.0@, p.1@)));
                    },
                    None => {},
                }
            }
            k = k + 1;
        }
        Some(out)
    }
}

} // verus!
