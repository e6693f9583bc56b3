//! Exec(), TryExec() and ExecIf(): running another application named in
//! the arguments. This module holds how an invocation text is read and
//! which invocation ExecIf() chooses.
use crate::text::{
    chars_of, find_char, index_of, last_index_of, lemma_index_of_props, rfind_char, string_of,
    subchars, trim, trim_chars, trim_str,
};
use crate::DialplanApp;
use vstd::prelude::*;

verus! {

/// The `Exec()` dialplan application.
#[derive(Debug)]
pub struct AppExec;

impl DialplanApp for AppExec {
    fn name(&self) -> (r: &str)
        ensures
            r@ == "Exec"@,
    {
        "Exec"
    }

    fn description(&self) -> (r: &str)
        ensures
            r@ == "Executes dialplan application"@,
    {
        "Executes dialplan application"
    }
}

/// The `TryExec()` dialplan application.
#[derive(Debug)]
pub struct AppTryExec;

impl DialplanApp for AppTryExec {
    fn name(&self) -> (r: &str)
        ensures
            r@ == "TryExec"@,
    {
        "TryExec"
    }

    fn description(&self) -> (r: &str)
        ensures
            r@ == "Executes dialplan application, always returning"@,
    {
        "Executes dialplan application, always returning"
    }
}

/// The `ExecIf()` dialplan application.
#[derive(Debug)]
pub struct AppExecIf;

impl DialplanApp for AppExecIf {
    fn name(&self) -> (r: &str)
        ensures
            r@ == "ExecIf"@,
    {
        "ExecIf"
    }

    fn description(&self) -> (r: &str)
        ensures
            r@ == "Executes dialplan application, conditionally"@,
    {
        "Executes dialplan application, conditionally"
    }
}

/// TRYSTATUS values.
#[derive(Debug, Clone, Copy, PartialEq, Eq, Structural)]
pub enum TryExecStatus {
    Success,
    Failed,
    NoApp,
}

impl TryExecStatus {
    pub open spec fn text(self) -> Seq<char> {
        match self {
            TryExecStatus::Success => "SUCCESS"@,
            TryExecStatus::Failed => "FAILED"@,
            TryExecStatus::NoApp => "NOAPP"@,
        }
    }

    /// The TRYSTATUS text of this status.
    pub fn as_str(&self) -> (r: &'static str)
        ensures
            r@ == self.text(),
    {
        match self {
            TryExecStatus::Success => "SUCCESS",
            TryExecStatus::Failed => "FAILED",
            TryExecStatus::NoApp => "NOAPP",
        }
    }
}

/// The arguments inside `App(...)`: up to the last `)` if there is one.
pub open spec fn paren_args(rest: Seq<char>) -> Seq<char> {
    let q = last_index_of(rest, ')');
    if q >= 0 {
        rest.take(q)
    } else {
        rest
    }
}

/// The application name and arguments of `App(args)`, `App,args` or
/// `App`, read from the trimmed text.
pub open spec fn app_invocation(data: Seq<char>) -> (Seq<char>, Seq<char>) {
    let d = trim(data);
    let p = index_of(d, '(');
    let c = index_of(d, ',');
    if d.len() == 0 {
        (Seq::<char>::empty(), Seq::<char>::empty())
    } else if p >= 0 {
        (trim(d.take(p)), paren_args(d.skip(p + 1)))
    } else if c >= 0 {
        (trim(d.take(c)), d.skip(c + 1))
    } else {
        (d, Seq::<char>::empty())
    }
}

/// Splits an invocation into the application name and its arguments.
pub fn parse_app_invocation(data: &str) -> (r: (String, String))
    ensures
        r.0@ == app_invocation(data@).0,
        r.1@ == app_invocation(data@).1,
{
    let d = trim_str(data);
    if d.len() == 0 {
        return (String::new(), String::new());
    }
    proof {
        lemma_index_of_props(d@, '(');
        lemma_index_of_props(d@, ',');
    }
    match find_char(&d, '(') {
        Some(p) => {
            let name = trim_chars(&subchars(&d, 0, p));
            let rest = subchars(&d, p + 1, d.len());
            assert(d@.take(p as int) =~= d@.subrange(0, p as int));
            assert(d@.skip(p + 1) =~= rest@);
            let args = match rfind_char(&rest, ')') {
                Some(q) => {
                    let a = subchars(&rest, 0, q);
                    assert(a@ =~= rest@.take(q as int));
                    a
                },
                None => rest,
            };
            (string_of(&name), string_of(&args))
        },
        None => match find_char(&d, ',') {
            Some(c) => {
                let name = trim_chars(&subchars(&d, 0, c));
                let args = subchars(&d, c + 1, d.len());
                assert(d@.take(c as int) =~= d@.subrange(0, c as int));
                assert(d@.skip(c + 1) =~= args@);
                (string_of(&name), string_of(&args))
            },
            None => (string_of(&d), String::new()),
        },
    }
}

/// The first `:` at parenthesis depth zero at or after `i`, counting from
/// depth `depth` (a `)` never takes the depth below zero).
pub open spec fn colon_from(s: Seq<char>, i: int, depth: nat) -> Option<int>
    decreases s.len() - i,
{
    if i < 0 || i >= s.len() {
        None
    } else if s[i] == '(' {
        colon_from(s, i + 1, depth + 1)
    } else if s[i] == ')' {
        colon_from(
            s,
            i + 1,
            if depth > 0 {
                (depth - 1) as nat
            } else {
                0
            },
        )
    } else if s[i] == ':' && depth == 0 {
        Some(i)
    } else {
        colon_from(s, i + 1, depth)
    }
}

/// The position (in characters) of the first `:` outside parentheses.
pub fn find_unparenthesized_colon(s: &str) -> (r: Option<usize>)
    ensures
        match r {
            Some(i) => colon_from(s@, 0, 0) == Some(i as int) && i < s@.len(),
            None => colon_from(s@, 0, 0) is None,
        },
{
    let v = chars_of(s);
    let mut depth: usize = 0;
    let mut i: usize = 0;
    while i < v.len()
        invariant
            i <= v.len(),
            depth <= i,
            v@ == s@,
            colon_from(s@, 0, 0) == colon_from(s@, i as int, depth as nat),
        decreases v.len() - i,
    {
        let c = v[i];
        if c == '(' {
            depth = depth + 1;
        } else if c == ')' {
            if depth > 0 {
                depth = depth - 1;
            }
        } else if c == ':' && depth == 0 {
            return Some(i);
        }
        i = i + 1;
    }
    None
}

/// What ExecIf() does with `condition?iftrue[:iffalse]`.
#[derive(Debug, Clone, PartialEq, Eq)]
pub enum ExecIfChoice {
    /// There is no `?`: the application fails.
    Invalid,
    /// The chosen branch is missing or blank: nothing runs.
    Nothing,
    /// The trimmed invocation of the chosen branch runs.
    Run(String),
}

pub enum ExecIfView {
    Invalid,
    Nothing,
    Run(Seq<char>),
}

impl View for ExecIfChoice {
    type V = ExecIfView;

    open spec fn view(&self) -> ExecIfView {
        match self {
            ExecIfChoice::Invalid => ExecIfView::Invalid,
            ExecIfChoice::Nothing => ExecIfView::Nothing,
            ExecIfChoice::Run(s) => ExecIfView::Run(s@),
        }
    }
}

/// A condition is true unless it is blank or `0`.
pub open spec fn condition_true(c: Seq<char>) -> bool {
    c.len() > 0 && c != seq!['0']
}

pub open spec fn run_if_nonblank(inv: Seq<char>) -> ExecIfView {
    if trim(inv).len() > 0 {
        ExecIfView::Run(trim(inv))
    } else {
        ExecIfView::Nothing
    }
}

/// The choice ExecIf() makes: split at the first `?`; a true (trimmed)
/// condition takes the text before the first `:` outside parentheses (or
/// all of it), a false one the text after it (or nothing).
pub open spec fn exec_if_spec(args: Seq<char>) -> ExecIfView {
    let q = index_of(args, '?');
    if q < 0 {
        ExecIfView::Invalid
    } else {
        let cond = trim(args.take(q));
        let rem = args.skip(q + 1);
        match colon_from(rem, 0, 0) {
            Some(k) => if condition_true(cond) {
                run_if_nonblank(rem.take(k))
            } else {
                run_if_nonblank(rem.skip(k + 1))
            },
            None => if condition_true(cond) {
                run_if_nonblank(rem)
            } else {
                ExecIfView::Nothing
            },
        }
    }
}

fn run_choice(v: &Vec<char>) -> (r: ExecIfChoice)
    ensures
        r@ == run_if_nonblank(v@),
{
    let t = trim_chars(v);
    if t.len() > 0 {
        ExecIfChoice::Run(string_of(&t))
    } else {
        ExecIfChoice::Nothing
    }
}

impl AppExecIf {
    /// Which invocation `condition?iftrue[:iffalse]` runs.
    pub fn branch(args: &str) -> (r: ExecIfChoice)
        ensures
            r@ == exec_if_spec(args@),
    {
        let v = chars_of(args);
        proof {
            lemma_index_of_props(v@, '?');
        }
        let q = match find_char(&v, '?') {
            Some(q) => q,
            None => {
                return ExecIfChoice::Invalid;
            },
        };
        let cond = trim_chars(&subchars(&v, 0, q));
        assert(cond@ == trim(args@.take(q as int))) by {
            assert(v@.subrange(0, q as int) =~= args@.take(q as int));
        }
        let rem = subchars(&v, q + 1, v.len());
        assert(rem@ =~= args@.skip(q + 1));
        let is_true = cond.len() > 0 && !(cond.len() == 1 && cond[0] == '0');
        assert(is_true == condition_true(cond@)) by {
            if cond@.len() == 1 && cond@[0] == '0' {
                assert(cond@ =~= seq!['0']);
            }
        }
        let rs = string_of(&rem);
        match find_unparenthesized_colon(rs.as_str()) {
            Some(k) => {
                if is_true {
                    let a = subchars(&rem, 0, k);
                    assert(a@ =~= rem@.take(k as int));
                    run_choice(&a)
                } else {
                    let b = subchars(&rem, k + 1, rem.len());
                    assert(b@ =~= rem@.skip(k + 1));
                    run_choice(&b)
                }
            },
            None => {
                if is_true {
                    run_choice(&rem)
                } else {
                    ExecIfChoice::Nothing
                }
            },
        }
    }
}

impl AppTryExec {
    /// The TRYSTATUS TryExec() sets before running anything: `NOAPP` when
    /// no application is named, else `SUCCESS`.
    pub fn status_for(args: &str) -> (r: TryExecStatus)
        ensures
            r == if app_invocation(args@).0.len() == 0 {
                TryExecStatus::NoApp
            } else {
                TryExecStatus::Success
            },
    {
        let (name, _a) = parse_app_invocation(args);
        if name.as_str().is_empty() {
            TryExecStatus::NoApp
        } else {
            TryExecStatus::Success
        }
    }
}

} // verus!
