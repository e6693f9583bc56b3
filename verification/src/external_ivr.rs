//! ExternalIVR(): handing the call to an external program. This module
//! holds the line protocol: the commands the program sends, the events it
//! receives, and how the application's arguments are read.
use crate::text::{
    chars_of, contains_char, decimal, last_index_of, lemma_chars_deep_view, parse_i64, parse_i64_spec, push_char, push_decimal, push_str, rfind_char, splitn, splitn_spec,
    starts_with, string_of, subchars, trim, trim_chars, };
use crate::DialplanApp;
use vstd::prelude::*;

verus! {

/// A command line sent by the external program.
#[derive(Debug, Clone, PartialEq, Eq)]
pub enum EivrCommand {
    SetPrompt(String),
    AppendPrompt { filename: String, offset: Option<i64> },
    Hangup,
    Option(String),
    Exit(String),
    Answer,
    SendDtmf(String),
    GetVariable(String),
    SetVariable(String, String),
    Log(String),
    Params,
    Interrupt,
}

pub enum EivrCommandView {
    SetPrompt(Seq<char>),
    AppendPrompt { filename: Seq<char>, offset: Option<i64> },
    Hangup,
    Option(Seq<char>),
    Exit(Seq<char>),
    Answer,
    SendDtmf(Seq<char>),
    GetVariable(Seq<char>),
    SetVariable(Seq<char>, Seq<char>),
    Log(Seq<char>),
    Params,
    Interrupt,
}

impl View for EivrCommand {
    type V = EivrCommandView;

    open spec fn view(&self) -> EivrCommandView {
        match self {
            EivrCommand::SetPrompt(s) => EivrCommandView::SetPrompt(s@),
            EivrCommand::AppendPrompt { filename, offset } => EivrCommandView::AppendPrompt {
                filename: filename@,
                offset: *offset,
            },
            EivrCommand::Hangup => EivrCommandView::Hangup,
            EivrCommand::Option(s) => EivrCommandView::Option(s@),
            EivrCommand::Exit(s) => EivrCommandView::Exit(s@),
            EivrCommand::Answer => EivrCommandView::Answer,
            EivrCommand::SendDtmf(s) => EivrCommandView::SendDtmf(s@),
            EivrCommand::GetVariable(s) => EivrCommandView::GetVariable(s@),
            EivrCommand::SetVariable(a, b) => EivrCommandView::SetVariable(a@, b@),
            EivrCommand::Log(s) => EivrCommandView::Log(s@),
            EivrCommand::Params => EivrCommandView::Params,
            EivrCommand::Interrupt => EivrCommandView::Interrupt,
        }
    }
}

/// The data of a command line `C,timestamp,data`: what follows the second
/// comma, or nothing.
pub open spec fn command_data(line: Seq<char>) -> Seq<char> {
    let p = splitn_spec(line, 3, ',');
    if p.len() > 2 {
        p[2]
    } else {
        Seq::<char>::empty()
    }
}

/// The command a trimmed, non-empty line holds, by its first character.
pub open spec fn eivr_command_of(cmd: char, data: Seq<char>) -> Option<EivrCommandView> {
    if cmd == 'S' {
        Some(EivrCommandView::SetPrompt(data))
    } else if cmd == 'A' {
        let p = splitn_spec(data, 2, ',');
        Some(
            EivrCommandView::AppendPrompt {
                filename: p[0],
                offset: if p.len() > 1 {
                    parse_i64_spec(p[1])
                } else {
                    None
                },
            },
        )
    } else if cmd == 'H' {
        Some(EivrCommandView::Hangup)
    } else if cmd == 'O' {
        Some(EivrCommandView::Option(data))
    } else if cmd == 'E' || cmd == 'X' {
        Some(EivrCommandView::Exit(data))
    } else if cmd == 'T' {
        Some(EivrCommandView::Answer)
    } else if cmd == 'D' {
        Some(EivrCommandView::SendDtmf(data))
    } else if cmd == 'G' {
        Some(EivrCommandView::GetVariable(data))
    } else if cmd == 'V' {
        let p = splitn_spec(data, 2, '=');
        Some(
            EivrCommandView::SetVariable(
                p[0],
                if p.len() > 1 {
                    p[1]
                } else {
                    Seq::<char>::empty()
                },
            ),
        )
    } else if cmd == 'L' {
        Some(EivrCommandView::Log(data))
    } else if cmd == 'P' {
        Some(EivrCommandView::Params)
    } else if cmd == 'I' {
        Some(EivrCommandView::Interrupt)
    } else {
        None
    }
}

pub open spec fn eivr_parse_spec(line: Seq<char>) -> Option<EivrCommandView> {
    let l = trim(line);
    if l.len() == 0 {
        None
    } else {
        eivr_command_of(l[0], command_data(l))
    }
}

pub open spec fn opt_command(o: Option<EivrCommand>) -> Option<EivrCommandView> {
    match o {
        Some(c) => Some(c@),
        None => None,
    }
}

fn piece_string(parts: &Vec<Vec<char>>, k: usize) -> (r: String)
    ensures
        r@ == if (k as int) < parts.deep_view().len() {
            parts.deep_view()[k as int]
        } else {
            Seq::<char>::empty()
        },
{
    if k < parts.len() {
        proof {
            lemma_chars_deep_view(parts@[k as int]);
        }
        string_of(&parts[k])
    } else {
        String::new()
    }
}

impl EivrCommand {
    /// Reads one command line; `None` for a blank line or an unknown
    /// command character.
    pub fn parse(line: &str) -> (r: Option<Self>)
        ensures
            opt_command(r) == eivr_parse_spec(line@),
    {
        let l = trim_chars(&chars_of(line));
        if l.len() == 0 {
            return None;
        }
        let cmd = l[0];
        let pieces = splitn(&l, 3, ',');
        let data_s = piece_string(&pieces, 2);
        let data = chars_of(data_s.as_str());
        if cmd == 'S' {
            Some(EivrCommand::SetPrompt(data_s))
        } else if cmd == 'A' {
            let p = splitn(&data, 2, ',');
            let filename = piece_string(&p, 0);
            let offset = if p.len() > 1 {
                proof {
                    lemma_chars_deep_view(p@[1]);
                }
                parse_i64(&p[1])
            } else {
                None
            };
            Some(EivrCommand::AppendPrompt { filename, offset })
        } else if cmd == 'H' {
            Some(EivrCommand::Hangup)
        } else if cmd == 'O' {
            Some(EivrCommand::Option(data_s))
        } else if cmd == 'E' || cmd == 'X' {
            Some(EivrCommand::Exit(data_s))
        } else if cmd == 'T' {
            Some(EivrCommand::Answer)
        } else if cmd == 'D' {
            Some(EivrCommand::SendDtmf(data_s))
        } else if cmd == 'G' {
            Some(EivrCommand::GetVariable(data_s))
        } else if cmd == 'V' {
            let p = splitn(&data, 2, '=');
            let name = piece_string(&p, 0);
            let value = piece_string(&p, 1);
            Some(EivrCommand::SetVariable(name, value))
        } else if cmd == 'L' {
            Some(EivrCommand::Log(data_s))
        } else if cmd == 'P' {
            Some(EivrCommand::Params)
        } else if cmd == 'I' {
            Some(EivrCommand::Interrupt)
        } else {
            None
        }
    }
}

/// An event sent to the external program.
#[derive(Debug, Clone, PartialEq, Eq)]
pub enum EivrEvent {
    Dtmf(char),
    Hangup,
    PlaybackComplete(String),
    Disconnect,
    Error(String),
}

/// The line that reports an event at `ts`.
pub open spec fn event_line(e: EivrEvent, ts: nat) -> Seq<char> {
    match e {
        EivrEvent::Dtmf(d) => seq![d, ','] + decimal(ts) + seq!['\n'],
        EivrEvent::Hangup => seq!['H', ','] + decimal(ts) + seq!['\n'],
        EivrEvent::PlaybackComplete(f) => seq!['Z', ','] + decimal(ts) + seq![','] + f@ + seq!['\n'],
        EivrEvent::Disconnect => seq!['I', ','] + decimal(ts) + seq!['\n'],
        EivrEvent::Error(m) => seq!['E', ','] + decimal(ts) + seq![','] + m@ + seq!['\n'],
    }
}

impl EivrEvent {
    /// The protocol line of this event at `timestamp`.
    pub fn format(&self, timestamp: u64) -> (r: String)
        ensures
            r@ == event_line(*self, timestamp as nat),
    {
        let mut out = String::new();
        match self {
            EivrEvent::Dtmf(d) => {
                push_char(&mut out, *d);
            },
            EivrEvent::Hangup => {
                push_char(&mut out, 'H');
            },
            EivrEvent::PlaybackComplete(_) => {
                push_char(&mut out, 'Z');
            },
            EivrEvent::Disconnect => {
                push_char(&mut out, 'I');
            },
            EivrEvent::Error(_) => {
                push_char(&mut out, 'E');
            },
        }
        push_char(&mut out, ',');
        push_decimal(&mut out, timestamp);
        match self {
            EivrEvent::PlaybackComplete(f) => {
                push_char(&mut out, ',');
                push_str(&mut out, f.as_str());
            },
            EivrEvent::Error(m) => {
                push_char(&mut out, ',');
                push_str(&mut out, m.as_str());
            },
            _ => {},
        }
        push_char(&mut out, '\n');
        assert(out@ =~= event_line(*self, timestamp as nat));
        out
    }
}

/// The option letters of ExternalIVR().
#[derive(Debug, Clone, Default, PartialEq, Eq, Structural)]
pub struct ExternalIvrOptions {
    /// `n`: do not answer.
    pub no_answer: bool,
    /// `i`: ignore a hangup.
    pub ignore_hangup: bool,
    /// `d`: run on a dead channel.
    pub run_dead: bool,
}

impl ExternalIvrOptions {
    /// Reads the option letters; unknown letters are ignored.
    pub fn parse(opts: &str) -> (r: Self)
        ensures
            r.no_answer == opts@.contains('n'),
            r.ignore_hangup == opts@.contains('i'),
            r.run_dead == opts@.contains('d'),
    {
        let v = chars_of(opts);
        ExternalIvrOptions {
            no_answer: contains_char(&v, 'n'),
            ignore_hangup: contains_char(&v, 'i'),
            run_dead: contains_char(&v, 'd'),
        }
    }
}

/// The TCP port of `ivr://` sockets.
pub const EXTERNAL_IVR_PORT: u16 = 2949;

/// The `ExternalIVR()` dialplan application.
#[derive(Debug)]
pub struct AppExternalIvr;

impl DialplanApp for AppExternalIvr {
    fn name(&self) -> (r: &str)
        ensures
            r@ == "ExternalIVR"@,
    {
        "ExternalIVR"
    }

    fn description(&self) -> (r: &str)
        ensures
            r@ == "Interfaces with an external IVR application"@,
    {
        "Interfaces with an external IVR application"
    }
}

/// Whether every character is an option letter of ExternalIVR().
pub open spec fn only_option_letters(s: Seq<char>) -> bool {
    forall|i: int| 0 <= i < s.len() ==> (s[i] == 'n' || s[i] == 'i' || s[i] == 'd')
}

/// The command and the option text of `command[,options]`: the text after
/// the last comma counts as options only when, trimmed, it is made of
/// option letters alone.
pub open spec fn ivr_split(args: Seq<char>) -> (Seq<char>, Seq<char>) {
    let c = last_index_of(args, ',');
    if c >= 0 && trim(args.skip(c + 1)).len() > 0 && only_option_letters(trim(args.skip(c + 1))) {
        (args.take(c), trim(args.skip(c + 1)))
    } else {
        (args, Seq::<char>::empty())
    }
}

impl AppExternalIvr {
    /// Splits the arguments into the command and its options; `None` when
    /// they are blank, and the application fails.
    pub fn split_command(args: &str) -> (r: Option<(String, ExternalIvrOptions)>)
        ensures
            r is None <==> trim(args@).len() == 0,
            r matches Some(p) ==> {
                &&& p.0@ == ivr_split(args@).0
                &&& p.1.no_answer == ivr_split(args@).1.contains('n')
                &&& p.1.ignore_hangup == ivr_split(args@).1.contains('i')
                &&& p.1.run_dead == ivr_split(args@).1.contains('d')
            },
    {
        let v = chars_of(args);
        if trim_chars(&v).len() == 0 {
            return None;
        }
        let none = ExternalIvrOptions { no_answer: false, ignore_hangup: false, run_dead: false };
        match rfind_char(&v, ',') {
            Some(c) => {
                let tail = subchars(&v, c + 1, v.len());
                assert(tail@ =~= args@.skip(c + 1));
                let t = trim_chars(&tail);
                let mut ok = t.len() > 0;
                let mut i: usize = 0;
                while i < t.len()
                    invariant
                        i <= t.len(),
                        ok == (t@.len() > 0 && forall|j: int|
                            0 <= j < i ==> (t@[j] == 'n' || t@[j] == 'i' || t@[j] == 'd')),
                    decreases t.len() - i,
                {
                    if !(t[i] == 'n' || t[i] == 'i' || t[i] == 'd') {
                        ok = false;
                    }
                    i = i + 1;
                }
                if ok {
                    let head = subchars(&v, 0, c);
                    assert(head@ =~= args@.take(c as int));
                    let opts = ExternalIvrOptions {
                        no_answer: contains_char(&t, 'n'),
                        ignore_hangup: contains_char(&t, 'i'),
                        run_dead: contains_char(&t, 'd'),
                    };
                    Some((string_of(&head), opts))
                } else {
                    assert(!(Seq::<char>::empty().contains('n')));
                    assert(!(Seq::<char>::empty().contains('i')));
                    assert(!(Seq::<char>::empty().contains('d')));
                    Some((string_of(&v), none))
                }
            },
            None => {
                assert(!(Seq::<char>::empty().contains('n')));
                assert(!(Seq::<char>::empty().contains('i')));
                assert(!(Seq::<char>::empty().contains('d')));
                Some((string_of(&v), none))
            },
        }
    }

    /// Whether the command names a socket (`ivr://host[:port]`).
    pub fn is_socket(command: &str) -> (r: bool)
        ensures
            r == (command@.len() >= 6 && command@.take(6) == "ivr://"@),
    {
        let v = chars_of(command);
        let p = chars_of("ivr://");
        proof {
            reveal_strlit("ivr://");
        }
        starts_with(&v, &p)
    }
}

} // verus!
