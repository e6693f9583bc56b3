//! Macro(), MacroExclusive(), MacroExit() and MacroIf(): the old dialplan
//! subroutines. This module holds what they read from their arguments.
use crate::exec::condition_true;
use crate::text::{
    chars_of, index_of, lemma_chars_deep_view, lemma_index_of_props, split, split_spec, str_views,
    string_of, strings_of, subchars, trim, trim_chars,
};
use crate::DialplanApp;
use vstd::prelude::*;

verus! {

/// How deep macros may nest.
pub const MACRO_MAX_DEPTH: u32 = 7;

/// Where a macro was called from.
#[derive(Debug, Clone)]
pub struct MacroState {
    pub context: String,
    pub extension: String,
    pub priority: i32,
    pub depth: u32,
}

/// The `Macro()` dialplan application.
#[derive(Debug)]
pub struct AppMacro;

impl DialplanApp for AppMacro {
    fn name(&self) -> (r: &str)
        ensures
            r@ == "Macro"@,
    {
        "Macro"
    }

    fn description(&self) -> (r: &str)
        ensures
            r@ == "Execute a dialplan macro (deprecated - use GoSub)"@,
    {
        "Execute a dialplan macro (deprecated - use GoSub)"
    }
}

/// The `MacroExclusive()` dialplan application.
#[derive(Debug)]
pub struct AppMacroExclusive;

impl DialplanApp for AppMacroExclusive {
    fn name(&self) -> (r: &str)
        ensures
            r@ == "MacroExclusive"@,
    {
        "MacroExclusive"
    }

    fn description(&self) -> (r: &str)
        ensures
            r@ == "Execute a serialized dialplan macro"@,
    {
        "Execute a serialized dialplan macro"
    }
}

/// The `MacroExit()` dialplan application.
#[derive(Debug)]
pub struct AppMacroExit;

impl DialplanApp for AppMacroExit {
    fn name(&self) -> (r: &str)
        ensures
            r@ == "MacroExit"@,
    {
        "MacroExit"
    }

    fn description(&self) -> (r: &str)
        ensures
            r@ == "Exit from a macro returning to the caller"@,
    {
        "Exit from a macro returning to the caller"
    }
}

/// The `MacroIf()` dialplan application.
#[derive(Debug)]
pub struct AppMacroIf;

impl DialplanApp for AppMacroIf {
    fn name(&self) -> (r: &str)
        ensures
            r@ == "MacroIf"@,
    {
        "MacroIf"
    }

    fn description(&self) -> (r: &str)
        ensures
            r@ == "Conditional macro execution"@,
    {
        "Conditional macro execution"
    }
}

impl AppMacro {
    /// The macro name and its arguments in `name[,arg1[,arg2...]]`; `None`
    /// when the name is blank, and the application fails.
    pub fn call_of(args: &str) -> (r: Option<(String, Vec<String>)>)
        ensures
            ({
                let p = split_spec(args@, ',');
                match r {
                    None => trim(p[0]).len() == 0,
                    Some(x) => trim(p[0]).len() > 0 && x.0@ == trim(p[0]) && str_views(x.1@)
                        == p.skip(1),
                }
            }),
    {
        let v = chars_of(args);
        let parts = split(&v, ',');
        proof {
            lemma_chars_deep_view(parts@[0]);
        }
        let name = trim_chars(&parts[0]);
        if name.len() == 0 {
            return None;
        }
        let mut rest: Vec<Vec<char>> = Vec::new();
        let mut k: usize = 1;
        while k < parts.len()
            invariant
                1 <= k <= parts.len(),
                rest.deep_view() == parts.deep_view().subrange(1, k as int),
            decreases parts.len() - k,
        {
            proof {
                lemma_chars_deep_view(parts@[k as int]);
            }
            let ghost before = rest.deep_view();
            rest.push(subchars(&parts[k], 0, parts[k].len()));
            proof {
                assert(parts@[k as int]@.subrange(0, parts@[k as int]@.len() as int) =~= parts@[k as int]@);
                assert(rest.deep_view() =~= before.push(parts.deep_view()[k as int]));
                assert(parts.deep_view().subrange(1, k + 1) =~= parts.deep_view().subrange(1, k as int).push(parts.deep_view()[k as int]));
            }
            k = k + 1;
        }
        assert(parts.deep_view().subrange(1, parts.len() as int) =~= parts.deep_view().skip(1));
        Some((string_of(&name), strings_of(&rest)))
    }
}

/// What MacroIf() does with `condition?true[:false]`.
#[derive(Debug, Clone, PartialEq, Eq)]
pub enum MacroIfChoice {
    /// There is no `?`: the application fails.
    Invalid,
    /// The condition is false and there is no false branch.
    Nothing,
    /// Macro() runs with these (trimmed) arguments.
    Call(String),
}

pub enum MacroIfView {
    Invalid,
    Nothing,
    Call(Seq<char>),
}

impl View for MacroIfChoice {
    type V = MacroIfView;

    open spec fn view(&self) -> MacroIfView {
        match self {
            MacroIfChoice::Invalid => MacroIfView::Invalid,
            MacroIfChoice::Nothing => MacroIfView::Nothing,
            MacroIfChoice::Call(s) => MacroIfView::Call(s@),
        }
    }
}

/// The choice MacroIf() makes: split at the first `?`, then the branches
/// at the first `:`.
pub open spec fn macro_if_spec(args: Seq<char>) -> MacroIfView {
    let q = index_of(args, '?');
    if q < 0 {
        MacroIfView::Invalid
    } else {
        let cond = trim(args.take(q));
        let b = args.skip(q + 1);
        let c = index_of(b, ':');
        if condition_true(cond) {
            MacroIfView::Call(
                trim(
                    if c >= 0 {
                        b.take(c)
                    } else {
                        b
                    },
                ),
            )
        } else if c >= 0 {
            MacroIfView::Call(trim(b.skip(c + 1)))
        } else {
            MacroIfView::Nothing
        }
    }
}

impl AppMacroIf {
    /// Which macro call `condition?true[:false]` makes.
    pub fn branch(args: &str) -> (r: MacroIfChoice)
        ensures
            r@ == macro_if_spec(args@),
    {
        let v = chars_of(args);
        proof {
            lemma_index_of_props(v@, '?');
        }
        let q = match crate::text::find_char(&v, '?') {
            Some(q) => q,
            None => {
                return MacroIfChoice::Invalid;
            },
        };
        let cond = trim_chars(&subchars(&v, 0, q));
        assert(v@.subrange(0, q as int) =~= args@.take(q as int));
        let b = subchars(&v, q + 1, v.len());
        assert(b@ =~= args@.skip(q + 1));
        let is_true = cond.len() > 0 && !(cond.len() == 1 && cond[0] == '0');
        assert(is_true == condition_true(cond@)) by {
            if cond@.len() == 1 && cond@[0] == '0' {
                assert(cond@ =~= seq!['0']);
            }
        }
        proof {
            lemma_index_of_props(b@, ':');
        }
        match crate::text::find_char(&b, ':') {
            Some(c) => {
                if is_true {
                    let t = subchars(&b, 0, c);
                    assert(t@ =~= b@.take(c as int));
                    MacroIfChoice::Call(string_of(&trim_chars(&t)))
                } else {
                    let f = subchars(&b, c + 1, b.len());
                    assert(f@ =~= b@.skip(c + 1));
                    MacroIfChoice::Call(string_of(&trim_chars(&f)))
                }
            },
            None => {
                if is_true {
                    MacroIfChoice::Call(string_of(&trim_chars(&b)))
                } else {
                    MacroIfChoice::Nothing
                }
            },
        }
    }
}

} // verus!
