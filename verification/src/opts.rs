//! Option strings: letters, some followed by a parenthesized argument.
//!
//! A letter that takes an argument consumes a `(` right after it and the
//! text up to the first `)` (or to the end when there is none); the text is
//! its argument when it is not empty. A letter that takes no argument
//! consumes only itself.
use crate::text::{nonempty, opt_str, subchars};
use vstd::prelude::*;

verus! {

/// Index of the first `)` at or after `j`, or the length when there is none.
pub open spec fn close_paren(s: Seq<char>, j: int) -> int
    decreases s.len() - j,
{
    if j < 0 || j >= s.len() {
        s.len() as int
    } else if s[j] == ')' {
        j
    } else {
        close_paren(s, j + 1)
    }
}

pub proof fn lemma_close_paren(s: Seq<char>, j: int)
    requires
        0 <= j <= s.len(),
    ensures
        j <= close_paren(s, j) <= s.len(),
        forall|k: int| j <= k < close_paren(s, j) ==> s[k] != ')',
        close_paren(s, j) < s.len() ==> s[close_paren(s, j)] == ')',
    decreases s.len() - j,
{
    if j < s.len() && s[j] != ')' {
        lemma_close_paren(s, j + 1);
    }
}

/// The text inside the parentheses that open at `j`, if `s[j]` is `(`.
pub open spec fn paren_text(s: Seq<char>, j: int) -> Option<Seq<char>> {
    if 0 <= j < s.len() && s[j] == '(' {
        Some(s.subrange(j + 1, close_paren(s, j + 1)))
    } else {
        None
    }
}

/// The argument in the parentheses that open at `j`: their text, when it
/// is not empty.
pub open spec fn paren_arg(s: Seq<char>, j: int) -> Option<Seq<char>> {
    match paren_text(s, j) {
        Some(a) => nonempty(a),
        None => None,
    }
}

/// Where reading goes on after the parentheses that open at `j` (`j`
/// itself when there are none).
pub open spec fn after_paren(s: Seq<char>, j: int) -> int {
    if 0 <= j < s.len() && s[j] == '(' {
        let c = close_paren(s, j + 1);
        if c < s.len() {
            c + 1
        } else {
            s.len() as int
        }
    } else {
        j
    }
}

pub proof fn lemma_after_paren(s: Seq<char>, j: int)
    requires
        0 <= j <= s.len(),
    ensures
        j <= after_paren(s, j) <= s.len(),
        paren_text(s, j) is Some ==> j < after_paren(s, j),
{
    if 0 <= j < s.len() && s[j] == '(' {
        lemma_close_paren(s, j + 1);
    }
}

pub open spec fn opt_chars(o: Option<Vec<char>>) -> Option<Seq<char>> {
    match o {
        Some(v) => Some(v@),
        None => None,
    }
}

/// Reads the text inside the parentheses that may open at `j`, empty or
/// not.
pub fn read_paren_text(v: &Vec<char>, j: usize) -> (r: (Option<Vec<char>>, usize))
    requires
        j <= v.len(),
    ensures
        opt_chars(r.0) == paren_text(v@, j as int),
        r.1 == after_paren(v@, j as int),
        j <= r.1 <= v.len(),
{
    proof {
        lemma_after_paren(v@, j as int);
    }
    if j < v.len() && v[j] == '(' {
        let mut k: usize = j + 1;
        proof {
            lemma_close_paren(v@, k as int);
        }
        while k < v.len() && v[k] != ')'
            invariant
                j + 1 <= k <= v.len(),
                close_paren(v@, j + 1) == close_paren(v@, k as int),
            decreases v.len() - k,
        {
            k = k + 1;
        }
        let text = subchars(v, j + 1, k);
        let next: usize = if k < v.len() {
            k + 1
        } else {
            v.len()
        };
        (Some(text), next)
    } else {
        (None, j)
    }
}

/// Reads the parenthesized argument that may open at `j`.
pub fn read_paren(v: &Vec<char>, j: usize) -> (r: (Option<Vec<char>>, usize))
    requires
        j <= v.len(),
    ensures
        opt_chars(r.0) == paren_arg(v@, j as int),
        r.1 == after_paren(v@, j as int),
        j <= r.1 <= v.len(),
{
    proof {
        lemma_after_paren(v@, j as int);
    }
    if j < v.len() && v[j] == '(' {
        let mut k: usize = j + 1;
        proof {
            lemma_close_paren(v@, k as int);
        }
        while k < v.len() && v[k] != ')'
            invariant
                j + 1 <= k <= v.len(),
                close_paren(v@, j + 1) == close_paren(v@, k as int),
            decreases v.len() - k,
        {
            k = k + 1;
        }
        let text = subchars(v, j + 1, k);
        let next: usize = if k < v.len() {
            k + 1
        } else {
            v.len()
        };
        if text.len() > 0 {
            (Some(text), next)
        } else {
            (None, next)
        }
    } else {
        (None, j)
    }
}

pub fn opt_string_of(o: &Option<Vec<char>>) -> (r: Option<String>)
    ensures
        opt_str(r) == opt_chars(*o),
{
    match o {
        Some(a) => Some(crate::text::string_of(a)),
        None => None,
    }
}

} // verus!
