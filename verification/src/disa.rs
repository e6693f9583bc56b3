//! DISA(): Direct Inward System Access. This module holds what the
//! application reads from its arguments and how it checks a passcode
//! against the lines of a password file.
use crate::text::{
    chars_eq_ignore_ascii_case, chars_of, contains_char, eq_ignore_ascii_case,
    lemma_chars_deep_view, nonempty, nonempty_string, opt_str, or_default, parse_u64,
    parse_u64_spec, split, split_spec, splitn, splitn_spec, string_of, string_or, trim, trim_chars,
    trimmed_piece, trimmed_piece_of, chars_equal,
};
use crate::DialplanApp;
use vstd::prelude::*;

verus! {

/// The option letters of DISA().
#[derive(Debug, Clone, Default, PartialEq, Eq, Structural)]
pub struct DisaOptions {
    /// `n`: do not answer the channel.
    pub no_answer: bool,
    /// `p`: `#` ends the dialed number.
    pub pound_to_end: bool,
}

impl DisaOptions {
    /// Reads the option letters; unknown letters are ignored.
    pub fn parse(opts: &str) -> (r: Self)
        ensures
            r.no_answer == opts@.contains('n'),
            r.pound_to_end == opts@.contains('p'),
    {
        let v = chars_of(opts);
        DisaOptions { no_answer: contains_char(&v, 'n'), pound_to_end: contains_char(&v, 'p') }
    }
}

/// The arguments of `DISA(passcode[,context[,cid[,mailbox[,options]]]])`.
#[derive(Debug)]
pub struct DisaArgs {
    pub passcode: String,
    pub context: String,
    pub caller_id: Option<String>,
    pub mailbox: Option<String>,
    pub options: DisaOptions,
}

pub open spec fn disa_parts(s: Seq<char>) -> Seq<Seq<char>> {
    splitn_spec(s, 5, ',')
}

/// The options piece of the arguments, trimmed, or nothing.
pub open spec fn disa_option_text(s: Seq<char>) -> Seq<char> {
    trimmed_piece(disa_parts(s), 4)
}

impl DisaArgs {
    /// Parses the arguments; `None` when the passcode is blank.
    pub fn parse(args: &str) -> (r: Option<Self>)
        ensures
            r is None <==> trimmed_piece(disa_parts(args@), 0).len() == 0,
            r matches Some(a) ==> {
                &&& a.passcode@ == trimmed_piece(disa_parts(args@), 0)
                &&& a.context@ == or_default(trimmed_piece(disa_parts(args@), 1), "disa"@)
                &&& opt_str(a.caller_id) == nonempty(trimmed_piece(disa_parts(args@), 2))
                &&& opt_str(a.mailbox) == nonempty(trimmed_piece(disa_parts(args@), 3))
                &&& a.options.no_answer == disa_option_text(args@).contains('n')
                &&& a.options.pound_to_end == disa_option_text(args@).contains('p')
            },
    {
        let v = chars_of(args);
        let parts = splitn(&v, 5, ',');
        let pass = trimmed_piece_of(&parts, 0);
        if pass.len() == 0 {
            return None;
        }
        let ctx = trimmed_piece_of(&parts, 1);
        let cid = trimmed_piece_of(&parts, 2);
        let mbox = trimmed_piece_of(&parts, 3);
        let opt = trimmed_piece_of(&parts, 4);
        proof {
            reveal_strlit("disa");
        }
        let options = DisaOptions {
            no_answer: contains_char(&opt, 'n'),
            pound_to_end: contains_char(&opt, 'p'),
        };
        Some(
            DisaArgs {
                passcode: string_of(&pass),
                context: string_or(&ctx, "disa"),
                caller_id: nonempty_string(&cid),
                mailbox: nonempty_string(&mbox),
                options,
            },
        )
    }

    /// Whether the passcode is `no-password`, in any case.
    pub fn is_no_password(&self) -> (r: bool)
        ensures
            r == eq_ignore_ascii_case(self.passcode@, "no-password"@),
    {
        let p = chars_of(self.passcode.as_str());
        let np = chars_of("no-password");
        chars_eq_ignore_ascii_case(&p, &np)
    }

    /// Whether the passcode names a password file: it is neither
    /// `no-password` nor a number.
    pub fn is_file_passcode(&self) -> (r: bool)
        ensures
            r == (!eq_ignore_ascii_case(self.passcode@, "no-password"@) && parse_u64_spec(
                self.passcode@,
            ) is None),
    {
        if self.is_no_password() {
            return false;
        }
        let p = chars_of(self.passcode.as_str());
        parse_u64(&p).is_none()
    }
}

/// A line of a password file grants `entered` when, trimmed, it is not
/// blank, is no comment (`#` or `;`), and its text before the first comma
/// is `entered`.
pub open spec fn password_line_grants(line: Seq<char>, entered: Seq<char>) -> bool {
    let l = trim(line);
    l.len() > 0 && l[0] != '#' && l[0] != ';' && split_spec(l, ',')[0] == entered
}

/// Whether some line of the password file grants `entered`.
pub open spec fn password_file_grants(content: Seq<char>, entered: Seq<char>) -> bool {
    exists|k: int|
        0 <= k < split_spec(content, '\n').len() && #[trigger] password_line_grants(
            split_spec(content, '\n')[k],
            entered,
        )
}

fn line_grants(line: &Vec<char>, entered: &Vec<char>) -> (r: bool)
    ensures
        r == password_line_grants(line@, entered@),
{
    let l = trim_chars(line);
    if l.len() == 0 || l[0] == '#' || l[0] == ';' {
        return false;
    }
    let fields = split(&l, ',');
    proof {
        lemma_chars_deep_view(fields@[0]);
    }
    chars_equal(&fields[0], entered)
}

/// The `DISA()` dialplan application.
#[derive(Debug)]
pub struct AppDisa;

impl DialplanApp for AppDisa {
    fn name(&self) -> (r: &str)
        ensures
            r@ == "DISA"@,
    {
        "DISA"
    }

    fn description(&self) -> (r: &str)
        ensures
            r@ == "Direct Inward System Access"@,
    {
        "Direct Inward System Access"
    }
}

impl AppDisa {
    pub const FIRST_DIGIT_TIMEOUT_MS: u64 = 20_000;
    pub const DIGIT_TIMEOUT_MS: u64 = 10_000;

    /// Whether the contents of a password file grant the entered passcode.
    pub fn password_file_accepts(content: &str, entered: &str) -> (r: bool)
        ensures
            r == password_file_grants(content@, entered@),
    {
        let c = chars_of(content);
        let e = chars_of(entered);
        let lines = split(&c, '\n');
        let mut i: usize = 0;
        while i < lines.len()
            invariant
                i <= lines.len(),
                lines.deep_view() == split_spec(c@, '\n'),
                c@ == content@,
                e@ == entered@,
                forall|k: int| 0 <= k < i ==> !password_line_grants(split_spec(content@, '\n')[k], entered@),
            decreases lines.len() - i,
        {
            proof {
                lemma_chars_deep_view(lines@[i as int]);
            }
            if line_grants(&lines[i], &e) {
                assert(password_line_grants(split_spec(content@, '\n')[i as int], entered@));
                return true;
            }
            i = i + 1;
        }
        false
    }
}

} // verus!
