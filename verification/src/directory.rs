//! Directory(): the dial-by-name directory. This module holds its option
//! letters, its arguments, its result values and the matching of typed
//! digits against names on a telephone keypad.
use crate::opts::{after_paren, lemma_after_paren, opt_chars, opt_string_of, paren_arg, read_paren};
use crate::text::{
    ascii_upper, chars_of, is_ascii_alpha, lemma_chars_deep_view, nonempty, nonempty_string,
    opt_str, or_default, parse_u32, parse_u32_spec, parse_usize, parse_usize_spec, splitn, splitn_spec, starts_with, string_from_str, string_of, string_or, to_ascii_upper, trim, trim_chars, trimmed_piece, trimmed_piece_of,
};
use crate::DialplanApp;
use vstd::prelude::*;

verus! {

/// DIRECTORY_RESULT values.
#[derive(Debug, Clone, Copy, PartialEq, Eq, Structural)]
pub enum DirectoryResult {
    Operator,
    Assistant,
    Timeout,
    Hangup,
    Selected,
    UserExit,
    Failed,
}

impl DirectoryResult {
    pub open spec fn text(self) -> Seq<char> {
        match self {
            DirectoryResult::Operator => "OPERATOR"@,
            DirectoryResult::Assistant => "ASSISTANT"@,
            DirectoryResult::Timeout => "TIMEOUT"@,
            DirectoryResult::Hangup => "HANGUP"@,
            DirectoryResult::Selected => "SELECTED"@,
            DirectoryResult::UserExit => "USEREXIT"@,
            DirectoryResult::Failed => "FAILED"@,
        }
    }

    /// The DIRECTORY_RESULT text of this result.
    pub fn as_str(&self) -> (r: &'static str)
        ensures
            r@ == self.text(),
    {
        match self {
            DirectoryResult::Operator => "OPERATOR",
            DirectoryResult::Assistant => "ASSISTANT",
            DirectoryResult::Timeout => "TIMEOUT",
            DirectoryResult::Hangup => "HANGUP",
            DirectoryResult::Selected => "SELECTED",
            DirectoryResult::UserExit => "USEREXIT",
            DirectoryResult::Failed => "FAILED",
        }
    }
}

/// Distinct results have distinct DIRECTORY_RESULT texts.
pub proof fn lemma_directory_result_text_distinct(a: DirectoryResult, b: DirectoryResult)
    requires
        a != b,
    ensures
        a.text() != b.text(),
{
    reveal_strlit("OPERATOR");
    reveal_strlit("ASSISTANT");
    reveal_strlit("TIMEOUT");
    reveal_strlit("HANGUP");
    reveal_strlit("SELECTED");
    reveal_strlit("USEREXIT");
    reveal_strlit("FAILED");
    if a.text() == b.text() {
        assert(a.text()[0] == b.text()[0]);
        assert(a.text()[1] == b.text()[1]);
    }
}

/// Which name the typed digits are matched against.
#[derive(Debug, Clone, Copy, PartialEq, Eq, Structural, Default)]
pub enum DirectorySearchMode {
    #[default]
    LastName,
    FirstName,
    Both,
}

/// The option letters of Directory().
#[derive(Debug, Clone)]
pub struct DirectoryOptions {
    pub search_mode: DirectorySearchMode,
    pub read_extension: bool,
    pub allow_alias: bool,
    pub menu_mode: bool,
    pub no_answer_read: bool,
    pub pause_ms: u32,
    pub num_chars: usize,
    pub config_file: Option<String>,
    pub skip_dial: bool,
}

pub struct DirectoryOptionsView {
    pub search_mode: DirectorySearchMode,
    pub read_extension: bool,
    pub allow_alias: bool,
    pub menu_mode: bool,
    pub no_answer_read: bool,
    pub pause_ms: u32,
    pub num_chars: usize,
    pub config_file: Option<Seq<char>>,
    pub skip_dial: bool,
}

impl View for DirectoryOptions {
    type V = DirectoryOptionsView;

    open spec fn view(&self) -> DirectoryOptionsView {
        DirectoryOptionsView {
            search_mode: self.search_mode,
            read_extension: self.read_extension,
            allow_alias: self.allow_alias,
            menu_mode: self.menu_mode,
            no_answer_read: self.no_answer_read,
            pause_ms: self.pause_ms,
            num_chars: self.num_chars,
            config_file: opt_str(self.config_file),
            skip_dial: self.skip_dial,
        }
    }
}

/// No option letter: last-name search on three letters.
pub open spec fn default_directory_options() -> DirectoryOptionsView {
    DirectoryOptionsView {
        search_mode: DirectorySearchMode::LastName,
        read_extension: false,
        allow_alias: false,
        menu_mode: false,
        no_answer_read: false,
        pause_ms: 0,
        num_chars: 3,
        config_file: None,
        skip_dial: false,
    }
}

impl Default for DirectoryOptions {
    fn default() -> (r: Self)
        ensures
            r@ == default_directory_options(),
    {
        DirectoryOptions {
            search_mode: DirectorySearchMode::LastName,
            read_extension: false,
            allow_alias: false,
            menu_mode: false,
            no_answer_read: false,
            pause_ms: 0,
            num_chars: 3,
            config_file: None,
            skip_dial: false,
        }
    }
}

/// The options read so far, and which of `f`, `l`, `b` were seen.
pub struct DirectoryScan {
    pub opts: DirectoryOptionsView,
    pub first: bool,
    pub last: bool,
    pub both: bool,
}

/// Letters followed by a parenthesized argument.
pub open spec fn directory_takes_arg(c: char) -> bool {
    c == 'f' || c == 'l' || c == 'b' || c == 'p' || c == 'c'
}

/// The letter count given to `f`, `l` or `b`: a positive number replaces
/// the current one.
pub open spec fn letter_count(cur: usize, arg: Option<Seq<char>>) -> usize {
    match arg {
        Some(a) => match parse_usize_spec(a) {
            Some(n) => if n > 0 {
                n
            } else {
                cur
            },
            None => cur,
        },
        None => cur,
    }
}

/// One option letter with its argument.
pub open spec fn directory_letter(st: DirectoryScan, c: char, arg: Option<Seq<char>>) -> DirectoryScan {
    let o = st.opts;
    if c == 'e' {
        DirectoryScan { opts: DirectoryOptionsView { read_extension: true, ..o }, ..st }
    } else if c == 'f' {
        DirectoryScan {
            opts: DirectoryOptionsView { num_chars: letter_count(o.num_chars, arg), ..o },
            first: true,
            ..st
        }
    } else if c == 'l' {
        DirectoryScan {
            opts: DirectoryOptionsView { num_chars: letter_count(o.num_chars, arg), ..o },
            last: true,
            ..st
        }
    } else if c == 'b' {
        DirectoryScan {
            opts: DirectoryOptionsView { num_chars: letter_count(o.num_chars, arg), ..o },
            both: true,
            ..st
        }
    } else if c == 'a' {
        DirectoryScan { opts: DirectoryOptionsView { allow_alias: true, ..o }, ..st }
    } else if c == 'm' {
        DirectoryScan { opts: DirectoryOptionsView { menu_mode: true, ..o }, ..st }
    } else if c == 'n' {
        DirectoryScan { opts: DirectoryOptionsView { no_answer_read: true, ..o }, ..st }
    } else if c == 'p' {
        let ms = match arg {
            Some(a) => match parse_u32_spec(a) {
                Some(m) => m,
                None => o.pause_ms,
            },
            None => o.pause_ms,
        };
        DirectoryScan { opts: DirectoryOptionsView { pause_ms: ms, ..o }, ..st }
    } else if c == 'c' {
        DirectoryScan { opts: DirectoryOptionsView { config_file: arg, ..o }, ..st }
    } else if c == 's' {
        DirectoryScan { opts: DirectoryOptionsView { skip_dial: true, ..o }, ..st }
    } else {
        st
    }
}

/// The letters from position `i` on.
pub open spec fn directory_scan_from(s: Seq<char>, i: int, st: DirectoryScan) -> DirectoryScan
    decreases s.len() - i,
{
    if i < 0 || i >= s.len() {
        st
    } else if directory_takes_arg(s[i]) {
        proof {
            lemma_after_paren(s, i + 1);
        }
        directory_scan_from(
            s,
            after_paren(s, i + 1),
            directory_letter(st, s[i], paren_arg(s, i + 1)),
        )
    } else {
        directory_scan_from(s, i + 1, directory_letter(st, s[i], None))
    }
}

/// The search mode the letters ask for: `b`, or both `f` and `l`, search
/// both names; `f` alone the first name; otherwise the last name.
pub open spec fn directory_mode(st: DirectoryScan) -> DirectorySearchMode {
    if st.both || (st.first && st.last) {
        DirectorySearchMode::Both
    } else if st.first {
        DirectorySearchMode::FirstName
    } else {
        st.opts.search_mode
    }
}

/// The options an option string asks for.
pub open spec fn directory_options_spec(s: Seq<char>) -> DirectoryOptionsView {
    let st = directory_scan_from(
        s,
        0,
        DirectoryScan { opts: default_directory_options(), first: false, last: false, both: false },
    );
    DirectoryOptionsView { search_mode: directory_mode(st), ..st.opts }
}

struct ScanState {
    opts: DirectoryOptions,
    first: bool,
    last: bool,
    both: bool,
}

impl ScanState {
    spec fn view(&self) -> DirectoryScan {
        DirectoryScan { opts: self.opts@, first: self.first, last: self.last, both: self.both }
    }
}

fn count_arg(cur: usize, arg: &Option<Vec<char>>) -> (r: usize)
    ensures
        r == letter_count(cur, opt_chars(*arg)),
{
    match arg {
        Some(a) => match parse_usize(a) {
            Some(n) => if n > 0 {
                n
            } else {
                cur
            },
            None => cur,
        },
        None => cur,
    }
}

fn apply_letter(st: ScanState, c: char, arg: Option<Vec<char>>) -> (r: ScanState)
    ensures
        r.view() == directory_letter(st.view(), c, opt_chars(arg)),
{
    let mut st = st;
    if c == 'e' {
        st.opts.read_extension = true;
    } else if c == 'f' {
        st.opts.num_chars = count_arg(st.opts.num_chars, &arg);
        st.first = true;
    } else if c == 'l' {
        st.opts.num_chars = count_arg(st.opts.num_chars, &arg);
        st.last = true;
    } else if c == 'b' {
        st.opts.num_chars = count_arg(st.opts.num_chars, &arg);
        st.both = true;
    } else if c == 'a' {
        st.opts.allow_alias = true;
    } else if c == 'm' {
        st.opts.menu_mode = true;
    } else if c == 'n' {
        st.opts.no_answer_read = true;
    } else if c == 'p' {
        match &arg {
            Some(a) => match parse_u32(a) {
                Some(m) => {
                    st.opts.pause_ms = m;
                },
                None => {},
            },
            None => {},
        }
    } else if c == 'c' {
        st.opts.config_file = opt_string_of(&arg);
    } else if c == 's' {
        st.opts.skip_dial = true;
    }
    st
}

impl DirectoryOptions {
    /// Reads the option letters; unknown letters are ignored.
    pub fn parse(opts: &str) -> (r: Self)
        ensures
            r@ == directory_options_spec(opts@),
    {
        let v = chars_of(opts);
        let mut st = ScanState {
            opts: DirectoryOptions::default(),
            first: false,
            last: false,
            both: false,
        };
        let ghost init = st.view();
        let mut i: usize = 0;
        while i < v.len()
            invariant
                i <= v.len(),
                directory_scan_from(v@, 0, init) == directory_scan_from(v@, i as int, st.view()),
            decreases v.len() - i,
        {
            let c = v[i];
            if c == 'f' || c == 'l' || c == 'b' || c == 'p' || c == 'c' {
                let (arg, next) = read_paren(&v, i + 1);
                st = apply_letter(st, c, arg);
                i = next;
            } else {
                st = apply_letter(st, c, None);
                i = i + 1;
            }
        }
        let mode = if st.both || (st.first && st.last) {
            DirectorySearchMode::Both
        } else if st.first {
            DirectorySearchMode::FirstName
        } else {
            st.opts.search_mode
        };
        let mut r = st.opts;
        r.search_mode = mode;
        r
    }
}

// ---------------------------------------------------------------------------
// Entries and keypad matching
// ---------------------------------------------------------------------------

/// One person in the directory.
#[derive(Debug, Clone)]
pub struct DirectoryEntry {
    pub extension: String,
    pub full_name: String,
    pub first_name: String,
    pub last_name: String,
    pub alias: Option<String>,
    pub vm_context: String,
}

/// The keypad digit of an upper-case ASCII letter.
pub open spec fn keypad_digit(c: char) -> char {
    if 'A' <= c && c <= 'C' {
        '2'
    } else if 'D' <= c && c <= 'F' {
        '3'
    } else if 'G' <= c && c <= 'I' {
        '4'
    } else if 'J' <= c && c <= 'L' {
        '5'
    } else if 'M' <= c && c <= 'O' {
        '6'
    } else if 'P' <= c && c <= 'S' {
        '7'
    } else if 'T' <= c && c <= 'V' {
        '8'
    } else if 'W' <= c && c <= 'Z' {
        '9'
    } else {
        '0'
    }
}

/// The keypad digits that spell a name: one digit per ASCII letter, other
/// characters dropped.
pub open spec fn name_dtmf(s: Seq<char>) -> Seq<char>
    decreases s.len(),
{
    if s.len() == 0 {
        Seq::<char>::empty()
    } else if is_ascii_alpha(s.last()) {
        name_dtmf(s.drop_last()).push(keypad_digit(ascii_upper(s.last())))
    } else {
        name_dtmf(s.drop_last())
    }
}

/// The number of ASCII letters in a text.
pub open spec fn ascii_letter_count(s: Seq<char>) -> nat
    decreases s.len(),
{
    if s.len() == 0 {
        0
    } else {
        ascii_letter_count(s.drop_last()) + if is_ascii_alpha(s.last()) {
            1nat
        } else {
            0nat
        }
    }
}

/// A name's keypad digits: the digits of two texts one after the other are
/// the digits of the first then those of the second; each digit is one of
/// `2` to `9`; and there is one digit per ASCII letter.
pub proof fn lemma_name_dtmf(a: Seq<char>, b: Seq<char>)
    ensures
        name_dtmf(a + b) == name_dtmf(a) + name_dtmf(b),
        forall|i: int| 0 <= i < name_dtmf(a).len() ==> '2' <= #[trigger] name_dtmf(a)[i] <= '9',
        name_dtmf(a).len() == ascii_letter_count(a),
    decreases a.len() + b.len(),
{
    if b.len() > 0 {
        let b1 = b.drop_last();
        lemma_name_dtmf(a, b1);
        assert((a + b).drop_last() =~= a + b1);
        assert((a + b).last() == b.last());
        assert(name_dtmf(a + b) =~= name_dtmf(a) + name_dtmf(b));
    } else {
        assert(a + b =~= a);
        assert(name_dtmf(b) =~= Seq::<char>::empty());
        assert(name_dtmf(a) + name_dtmf(b) =~= name_dtmf(a));
        if a.len() > 0 {
            let a1 = a.drop_last();
            lemma_name_dtmf(a1, b);
            let c = a.last();
            if is_ascii_alpha(c) {
                let u = ascii_upper(c);
                assert('A' <= u <= 'Z');
                let d = keypad_digit(u);
                assert('2' <= d <= '9');
                assert forall|i: int| 0 <= i < name_dtmf(a).len() implies '2' <= #[trigger] name_dtmf(
                    a,
                )[i] <= '9' by {
                    if i < name_dtmf(a1).len() {
                        assert(name_dtmf(a)[i] == name_dtmf(a1)[i]);
                    }
                }
            }
        }
    }
}

/// The standard telephone keypad: a letter, in either case, spells the
/// digit of the key it is printed on: ABC on 2, DEF on 3, GHI on 4, JKL on
/// 5, MNO on 6, PQRS on 7, TUV on 8 and WXYZ on 9.
pub proof fn lemma_keypad_letters(c: char)
    ensures
        "ABC"@.contains(ascii_upper(c)) ==> name_dtmf(seq![c]) == seq!['2'],
        "DEF"@.contains(ascii_upper(c)) ==> name_dtmf(seq![c]) == seq!['3'],
        "GHI"@.contains(ascii_upper(c)) ==> name_dtmf(seq![c]) == seq!['4'],
        "JKL"@.contains(ascii_upper(c)) ==> name_dtmf(seq![c]) == seq!['5'],
        "MNO"@.contains(ascii_upper(c)) ==> name_dtmf(seq![c]) == seq!['6'],
        "PQRS"@.contains(ascii_upper(c)) ==> name_dtmf(seq![c]) == seq!['7'],
        "TUV"@.contains(ascii_upper(c)) ==> name_dtmf(seq![c]) == seq!['8'],
        "WXYZ"@.contains(ascii_upper(c)) ==> name_dtmf(seq![c]) == seq!['9'],
{
    reveal_strlit("ABC");
    reveal_strlit("DEF");
    reveal_strlit("GHI");
    reveal_strlit("JKL");
    reveal_strlit("MNO");
    reveal_strlit("PQRS");
    reveal_strlit("TUV");
    reveal_strlit("WXYZ");
    let one = seq![c];
    assert(one.len() == 1 && one.last() == c);
    assert(one.drop_last() =~= Seq::<char>::empty());
    let u = ascii_upper(c);
    if 'A' <= u <= 'Z' {
        assert(is_ascii_alpha(c));
        assert(name_dtmf(Seq::<char>::empty()) == Seq::<char>::empty());
        assert(name_dtmf(one) == name_dtmf(one.drop_last()).push(keypad_digit(u)));
        assert(name_dtmf(one) =~= seq![keypad_digit(u)]);
    }
}

/// Whether `d` begins with `p`.
pub open spec fn has_prefix(d: Seq<char>, p: Seq<char>) -> bool {
    p.len() <= d.len() && d.take(p.len() as int) == p
}

/// Whether the typed digits begin the keypad spelling of the name the
/// mode selects (either name for `Both`).
pub open spec fn entry_matches(first: Seq<char>, last: Seq<char>, digits: Seq<char>, mode: DirectorySearchMode) -> bool {
    match mode {
        DirectorySearchMode::LastName => has_prefix(name_dtmf(last), digits),
        DirectorySearchMode::FirstName => has_prefix(name_dtmf(first), digits),
        DirectorySearchMode::Both => has_prefix(name_dtmf(first), digits) || has_prefix(
            name_dtmf(last),
            digits,
        ),
    }
}

fn keypad(c: char) -> (r: char)
    ensures
        r == keypad_digit(c),
{
    if 'A' <= c && c <= 'C' {
        '2'
    } else if 'D' <= c && c <= 'F' {
        '3'
    } else if 'G' <= c && c <= 'I' {
        '4'
    } else if 'J' <= c && c <= 'L' {
        '5'
    } else if 'M' <= c && c <= 'O' {
        '6'
    } else if 'P' <= c && c <= 'S' {
        '7'
    } else if 'T' <= c && c <= 'V' {
        '8'
    } else if 'W' <= c && c <= 'Z' {
        '9'
    } else {
        '0'
    }
}

fn dtmf_chars(v: &Vec<char>) -> (r: Vec<char>)
    ensures
        r@ == name_dtmf(v@),
{
    let mut r: Vec<char> = Vec::new();
    let mut i: usize = 0;
    while i < v.len()
        invariant
            i <= v.len(),
            r@ == name_dtmf(v@.take(i as int)),
        decreases v.len() - i,
    {
        let c = v[i];
        assert(v@.take(i + 1).drop_last() =~= v@.take(i as int));
        if ('a' <= c && c <= 'z') || ('A' <= c && c <= 'Z') {
            r.push(keypad(to_ascii_upper(c)));
        }
        i = i + 1;
    }
    assert(v@.take(v.len() as int) =~= v@);
    r
}

/// The first word of a name and the rest after the first space.
pub open spec fn name_split(full: Seq<char>) -> (Seq<char>, Seq<char>) {
    let parts = splitn_spec(full, 2, ' ');
    (parts[0], if parts.len() > 1 {
        parts[1]
    } else {
        Seq::<char>::empty()
    })
}

impl DirectoryEntry {
    /// An entry for `full_name`, split at its first space into first and
    /// last name.
    pub fn new(extension: &str, full_name: &str, vm_context: &str) -> (r: Self)
        ensures
            r.extension@ == extension@,
            r.full_name@ == full_name@,
            r.first_name@ == name_split(full_name@).0,
            r.last_name@ == name_split(full_name@).1,
            r.alias is None,
            r.vm_context@ == vm_context@,
    {
        let v = chars_of(full_name);
        let parts = splitn(&v, 2, ' ');
        proof {
            lemma_chars_deep_view(parts@[0]);
        }
        let first = string_of(&parts[0]);
        let last = if parts.len() > 1 {
            proof {
                lemma_chars_deep_view(parts@[1]);
            }
            string_of(&parts[1])
        } else {
            String::new()
        };
        DirectoryEntry {
            extension: string_from_str(extension),
            full_name: string_from_str(full_name),
            first_name: first,
            last_name: last,
            alias: None,
            vm_context: string_from_str(vm_context),
        }
    }

    /// The keypad digits that spell `name`.
    pub fn name_to_dtmf(name: &str) -> (r: String)
        ensures
            r@ == name_dtmf(name@),
    {
        let v = chars_of(name);
        let d = dtmf_chars(&v);
        string_of(&d)
    }

    /// Whether `digits` begin the keypad spelling of the name(s) `mode`
    /// selects.
    pub fn matches_dtmf(&self, digits: &str, mode: DirectorySearchMode) -> (r: bool)
        ensures
            r == entry_matches(self.first_name@, self.last_name@, digits@, mode),
    {
        let p = chars_of(digits);
        let f = chars_of(self.first_name.as_str());
        let l = chars_of(self.last_name.as_str());
        match mode {
            DirectorySearchMode::LastName => starts_with(&dtmf_chars(&l), &p),
            DirectorySearchMode::FirstName => starts_with(&dtmf_chars(&f), &p),
            DirectorySearchMode::Both => {
                let a = starts_with(&dtmf_chars(&f), &p);
                let b = starts_with(&dtmf_chars(&l), &p);
                a || b
            },
        }
    }
}

/// The `Directory()` dialplan application.
#[derive(Debug)]
pub struct AppDirectory;

impl DialplanApp for AppDirectory {
    fn name(&self) -> (r: &str)
        ensures
            r@ == "Directory"@,
    {
        "Directory"
    }

    fn description(&self) -> (r: &str)
        ensures
            r@ == "Provide a directory of voicemail extensions"@,
    {
        "Provide a directory of voicemail extensions"
    }
}

/// The arguments of `Directory([vm-context[,dial-context[,options]]])`.
#[derive(Debug)]
pub struct DirectoryArgs {
    pub vm_context: String,
    pub dial_context: Option<String>,
    pub options: DirectoryOptions,
}

/// The voicemail context named by the arguments, `default` when blank.
pub open spec fn directory_vm_context(s: Seq<char>) -> Seq<char> {
    or_default(trimmed_piece(splitn_spec(s, 3, ','), 0), "default"@)
}

/// The dial context named by the arguments, when not blank.
pub open spec fn directory_dial_context(s: Seq<char>) -> Option<Seq<char>> {
    nonempty(trimmed_piece(splitn_spec(s, 3, ','), 1))
}

/// The options named by the arguments: the third piece, trimmed, when
/// there is one.
pub open spec fn directory_args_options(s: Seq<char>) -> DirectoryOptionsView {
    let parts = splitn_spec(s, 3, ',');
    if parts.len() > 2 {
        directory_options_spec(trim(parts[2]))
    } else {
        default_directory_options()
    }
}

impl DirectoryArgs {
    /// Parses `[vm-context[,dial-context[,options]]]`.
    pub fn parse(args: &str) -> (r: Self)
        ensures
            r.vm_context@ == directory_vm_context(args@),
            opt_str(r.dial_context) == directory_dial_context(args@),
            r.options@ == directory_args_options(args@),
    {
        let v = chars_of(args);
        let parts = splitn(&v, 3, ',');
        let ctx = trimmed_piece_of(&parts, 0);
        let dial = trimmed_piece_of(&parts, 1);
        proof {
            reveal_strlit("default");
        }
        let vm_context = string_or(&ctx, "default");
        let dial_context = nonempty_string(&dial);
        let options = if parts.len() > 2 {
            proof {
                lemma_chars_deep_view(parts@[2]);
            }
            let o = string_of(&trim_chars(&parts[2]));
            DirectoryOptions::parse(o.as_str())
        } else {
            DirectoryOptions::default()
        };
        DirectoryArgs { vm_context, dial_context, options }
    }
}

} // verus!
