//! GotoIf(), GotoIfTime(), If(), ElseIf(), Else() and EndIf(): branching in
//! the dialplan. This module holds which label a condition selects.
use crate::exec::condition_true;
use crate::text::{
    chars_of, find_char, index_of, lemma_index_of_props, nonempty, string_of, subchars, trim,
    trim_chars, trim_str,
};
use crate::DialplanApp;
use vstd::prelude::*;

verus! {

/// The `GotoIf()` dialplan application.
#[derive(Debug)]
pub struct AppGotoIf;

impl DialplanApp for AppGotoIf {
    fn name(&self) -> (r: &str)
        ensures
            r@ == "GotoIf"@,
    {
        "GotoIf"
    }

    fn description(&self) -> (r: &str)
        ensures
            r@ == "Conditional goto"@,
    {
        "Conditional goto"
    }
}

/// The `GotoIfTime()` dialplan application.
#[derive(Debug)]
pub struct AppGotoIfTime;

impl DialplanApp for AppGotoIfTime {
    fn name(&self) -> (r: &str)
        ensures
            r@ == "GotoIfTime"@,
    {
        "GotoIfTime"
    }

    fn description(&self) -> (r: &str)
        ensures
            r@ == "Conditional goto based on current time"@,
    {
        "Conditional goto based on current time"
    }
}

/// The `If()` dialplan application.
#[derive(Debug)]
pub struct AppIf;

impl DialplanApp for AppIf {
    fn name(&self) -> (r: &str)
        ensures
            r@ == "If"@,
    {
        "If"
    }

    fn description(&self) -> (r: &str)
        ensures
            r@ == "Start a conditional block"@,
    {
        "Start a conditional block"
    }
}

/// The `ElseIf()` dialplan application.
#[derive(Debug)]
pub struct AppElseIf;

impl DialplanApp for AppElseIf {
    fn name(&self) -> (r: &str)
        ensures
            r@ == "ElseIf"@,
    {
        "ElseIf"
    }

    fn description(&self) -> (r: &str)
        ensures
            r@ == "Conditional else-if in an If block"@,
    {
        "Conditional else-if in an If block"
    }
}

/// The `Else()` dialplan application.
#[derive(Debug)]
pub struct AppElse;

impl DialplanApp for AppElse {
    fn name(&self) -> (r: &str)
        ensures
            r@ == "Else"@,
    {
        "Else"
    }

    fn description(&self) -> (r: &str)
        ensures
            r@ == "Else branch in an If block"@,
    {
        "Else branch in an If block"
    }
}

/// The `EndIf()` dialplan application.
#[derive(Debug)]
pub struct AppEndIf;

impl DialplanApp for AppEndIf {
    fn name(&self) -> (r: &str)
        ensures
            r@ == "EndIf"@,
    {
        "EndIf"
    }

    fn description(&self) -> (r: &str)
        ensures
            r@ == "End of If block"@,
    {
        "End of If block"
    }
}

/// What GotoIf() does with `condition?[labeliftrue][:labeliffalse]`.
#[derive(Debug, Clone, PartialEq, Eq)]
pub enum GotoIfChoice {
    /// There is no `?`: the application fails.
    Invalid,
    /// The chosen label is missing or blank: the dialplan goes on.
    Continue,
    /// Jump to this (trimmed) label.
    Jump(String),
}

pub enum GotoIfView {
    Invalid,
    Continue,
    Jump(Seq<char>),
}

impl View for GotoIfChoice {
    type V = GotoIfView;

    open spec fn view(&self) -> GotoIfView {
        match self {
            GotoIfChoice::Invalid => GotoIfView::Invalid,
            GotoIfChoice::Continue => GotoIfView::Continue,
            GotoIfChoice::Jump(l) => GotoIfView::Jump(l@),
        }
    }
}

pub open spec fn jump_to(label: Option<Seq<char>>) -> GotoIfView {
    match label {
        Some(l) => GotoIfView::Jump(l),
        None => GotoIfView::Continue,
    }
}

/// The choice GotoIf() makes: split at the first `?`, then the labels at
/// the first `:`; a true (trimmed) condition takes the first label.
pub open spec fn goto_if_spec(args: Seq<char>) -> GotoIfView {
    let q = index_of(args, '?');
    if q < 0 {
        GotoIfView::Invalid
    } else {
        let b = args.skip(q + 1);
        let c = index_of(b, ':');
        let t = if c >= 0 {
            nonempty(trim(b.take(c)))
        } else {
            nonempty(trim(b))
        };
        let f = if c >= 0 {
            nonempty(trim(b.skip(c + 1)))
        } else {
            None
        };
        if condition_true(trim(args.take(q))) {
            jump_to(t)
        } else {
            jump_to(f)
        }
    }
}

fn jump_of(v: &Vec<char>) -> (r: GotoIfChoice)
    ensures
        r@ == jump_to(nonempty(trim(v@))),
{
    let t = trim_chars(v);
    if t.len() > 0 {
        GotoIfChoice::Jump(string_of(&t))
    } else {
        GotoIfChoice::Continue
    }
}

impl AppGotoIf {
    /// The label `condition?[true][:false]` selects.
    pub fn target(args: &str) -> (r: GotoIfChoice)
        ensures
            r@ == goto_if_spec(args@),
    {
        let v = chars_of(args);
        proof {
            lemma_index_of_props(v@, '?');
        }
        let q = match find_char(&v, '?') {
            Some(q) => q,
            None => {
                return GotoIfChoice::Invalid;
            },
        };
        let cond = trim_chars(&subchars(&v, 0, q));
        assert(v@.subrange(0, q as int) =~= args@.take(q as int));
        let b = subchars(&v, q + 1, v.len());
        assert(b@ =~= args@.skip(q + 1));
        let is_true = cond.len() > 0 && !(cond.len() == 1 && cond[0] == '0');
        assert(is_true == condition_true(cond@)) by {
            if cond@.len() == 1 && cond@[0] == '0' {
                assert(cond@ =~= seq!['0']);
            }
        }
        proof {
            lemma_index_of_props(b@, ':');
        }
        match find_char(&b, ':') {
            Some(c) => {
                if is_true {
                    let t = subchars(&b, 0, c);
                    assert(t@ =~= b@.take(c as int));
                    jump_of(&t)
                } else {
                    let f = subchars(&b, c + 1, b.len());
                    assert(f@ =~= b@.skip(c + 1));
                    jump_of(&f)
                }
            },
            None => {
                if is_true {
                    jump_of(&b)
                } else {
                    GotoIfChoice::Continue
                }
            },
        }
    }
}

impl AppIf {
    /// Whether `If(condition)` enters its block: the trimmed condition is
    /// neither blank nor `0`.
    pub fn is_true(args: &str) -> (r: bool)
        ensures
            r == condition_true(trim(args@)),
    {
        let cond = trim_str(args);
        let r = cond.len() > 0 && !(cond.len() == 1 && cond[0] == '0');
        assert(r == condition_true(cond@)) by {
            if cond@.len() == 1 && cond@[0] == '0' {
                assert(cond@ =~= seq!['0']);
            }
        }
        r
    }
}

} // verus!
