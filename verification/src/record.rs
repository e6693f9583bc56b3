//! Record(): recording the caller to a file. This module holds the
//! arguments, the option letters, the output path and the RECORD_STATUS
//! values.
use crate::text::{
    chars_of, contains_char, last_index_of, lemma_chars_deep_view, parse_u64, parse_u64_spec,
    path_join, path_join_strings, rfind_char, splitn, splitn_spec, string_from_str, string_of,
    subchars, trim, trim_chars, trimmed_piece, trimmed_piece_of, has_plain_file_name,
    plain_with_extension,
};
use crate::time::{Duration, NANOS_PER_SEC};
use crate::{DialplanApp, PbxExecResult};
use vstd::prelude::*;

verus! {

/// RECORD_STATUS values.
#[derive(Debug, Clone, Copy, PartialEq, Eq, Structural)]
pub enum RecordStatus {
    Dtmf,
    Silence,
    Skip,
    Timeout,
    Hangup,
    Error,
    Operator,
}

impl RecordStatus {
    pub open spec fn text(self) -> Seq<char> {
        match self {
            RecordStatus::Dtmf => "DTMF"@,
            RecordStatus::Silence => "SILENCE"@,
            RecordStatus::Skip => "SKIP"@,
            RecordStatus::Timeout => "TIMEOUT"@,
            RecordStatus::Hangup => "HANGUP"@,
            RecordStatus::Error => "ERROR"@,
            RecordStatus::Operator => "OPERATOR"@,
        }
    }

    /// The RECORD_STATUS text of this status.
    pub fn as_str(&self) -> (r: &'static str)
        ensures
            r@ == self.text(),
    {
        match self {
            RecordStatus::Dtmf => "DTMF",
            RecordStatus::Silence => "SILENCE",
            RecordStatus::Skip => "SKIP",
            RecordStatus::Timeout => "TIMEOUT",
            RecordStatus::Hangup => "HANGUP",
            RecordStatus::Error => "ERROR",
            RecordStatus::Operator => "OPERATOR",
        }
    }

    /// How the application ends with this status: a hangup hangs up, an
    /// error fails, anything else goes on.
    pub fn exec_result(self) -> (r: PbxExecResult)
        ensures
            r == match self {
                RecordStatus::Hangup => PbxExecResult::Hangup,
                RecordStatus::Error => PbxExecResult::Failed,
                _ => PbxExecResult::Success,
            },
    {
        match self {
            RecordStatus::Hangup => PbxExecResult::Hangup,
            RecordStatus::Error => PbxExecResult::Failed,
            _ => PbxExecResult::Success,
        }
    }
}

/// The option letters of Record().
#[derive(Debug, Clone, Default, PartialEq, Eq, Structural)]
pub struct RecordOptions {
    pub append: bool,
    pub noanswer: bool,
    pub quiet: bool,
    pub skip: bool,
    pub star_terminate: bool,
    pub ignore_terminate: bool,
    pub keep_on_hangup: bool,
    pub any_terminate: bool,
    pub operator_exit: bool,
    pub no_truncate: bool,
}

/// The options an option string asks for: each letter sets its flag.
pub open spec fn record_options_spec(s: Seq<char>) -> RecordOptions {
    RecordOptions {
        append: s.contains('a'),
        noanswer: s.contains('n'),
        quiet: s.contains('q'),
        skip: s.contains('s'),
        star_terminate: s.contains('t'),
        ignore_terminate: s.contains('x'),
        keep_on_hangup: s.contains('k'),
        any_terminate: s.contains('y'),
        operator_exit: s.contains('o'),
        no_truncate: s.contains('u'),
    }
}

fn record_options_of(v: &Vec<char>) -> (r: RecordOptions)
    ensures
        r == record_options_spec(v@),
{
    RecordOptions {
        append: contains_char(v, 'a'),
        noanswer: contains_char(v, 'n'),
        quiet: contains_char(v, 'q'),
        skip: contains_char(v, 's'),
        star_terminate: contains_char(v, 't'),
        ignore_terminate: contains_char(v, 'x'),
        keep_on_hangup: contains_char(v, 'k'),
        any_terminate: contains_char(v, 'y'),
        operator_exit: contains_char(v, 'o'),
        no_truncate: contains_char(v, 'u'),
    }
}

impl RecordOptions {
    /// Reads the option letters; unknown letters are ignored.
    pub fn parse(opts: &str) -> (r: Self)
        ensures
            r == record_options_spec(opts@),
    {
        record_options_of(&chars_of(opts))
    }

    /// The key that ends the recording: none with `x`, `*` with `t`, else
    /// `#`.
    pub fn terminator(&self) -> (r: Option<char>)
        ensures
            r == if self.ignore_terminate {
                None
            } else if self.star_terminate {
                Some('*')
            } else {
                Some('#')
            },
    {
        if self.ignore_terminate {
            None
        } else if self.star_terminate {
            Some('*')
        } else {
            Some('#')
        }
    }
}

/// The `Record()` dialplan application.
#[derive(Debug)]
pub struct AppRecord;

impl DialplanApp for AppRecord {
    fn name(&self) -> (r: &str)
        ensures
            r@ == "Record"@,
    {
        "Record"
    }

    fn description(&self) -> (r: &str)
        ensures
            r@ == "Record to a file"@,
    {
        "Record to a file"
    }
}

/// The arguments of
/// `Record(filename.format[,silence[,maxduration[,options]]])`.
#[derive(Debug)]
pub struct RecordArgs {
    pub filename: String,
    pub format: String,
    pub silence_threshold: Duration,
    pub max_duration: Duration,
    pub options: RecordOptions,
}

pub open spec fn record_parts(s: Seq<char>) -> Seq<Seq<char>> {
    splitn_spec(s, 4, ',')
}

/// A number of seconds, or 0 when blank or not a number.
pub open spec fn record_secs(t: Seq<char>) -> u64 {
    match parse_u64_spec(t) {
        Some(s) => s,
        None => 0,
    }
}

/// The directory relative recordings go to.
pub open spec fn recording_dir() -> Seq<char> {
    "/var/spool/asterisk/recording"@
}

/// What `std::path::PathBuf::set_extension` makes of a path and an
/// extension, as text.
pub uninterp spec fn path_with_extension(p: Seq<char>, ext: Seq<char>) -> Seq<char>;

/// The path with its extension set.
/// Calls `std::path::Path::with_extension` (a copy of the path with
/// `set_extension` applied) and converts the result to a `String`.
/// `set_extension` panics on an extension that holds a path separator, so
/// such an extension is not admitted. Where the path's file name is
/// plainly its last component, the contract states the documented rule:
/// the text up to the end of the file stem, then `.` and the extension.
/// Otherwise (a path ending in `/`, `.` or `..`, or an empty one, where
/// std first normalises the path's components) it only names the result.
#[verifier::external_body]
fn with_extension(p: &str, ext: &str) -> (r: String)
    requires
        !ext@.contains('/'),
    ensures
        r@ == path_with_extension(p@, ext@),
        has_plain_file_name(p@) ==> r@ == plain_with_extension(p@, ext@),
{
    std::path::Path::new(p).with_extension(ext).to_string_lossy().into_owned()
}

fn secs_of(t: &Vec<char>) -> (r: Duration)
    ensures
        r.nanos == record_secs(t@) * NANOS_PER_SEC,
{
    match parse_u64(t) {
        Some(s) => Duration::from_secs(s),
        None => Duration::from_secs(0),
    }
}

impl RecordArgs {
    /// Parses the arguments; `None` unless the file part has a name and a
    /// format around its last `.`.
    pub fn parse(args: &str) -> (r: Option<Self>)
        ensures
            ({
                let p = record_parts(args@);
                let f = trim(p[0]);
                let dot = last_index_of(f, '.');
                match r {
                    None => dot < 0 || dot == 0 || dot + 1 == f.len(),
                    Some(a) => {
                        &&& dot > 0 && dot + 1 < f.len()
                        &&& a.filename@ == f.take(dot)
                        &&& a.format@ == f.skip(dot + 1)
                        &&& a.silence_threshold.nanos == record_secs(trimmed_piece(p, 1))
                            * NANOS_PER_SEC
                        &&& a.max_duration.nanos == record_secs(trimmed_piece(p, 2)) * NANOS_PER_SEC
                        &&& a.options == record_options_spec(trimmed_piece(p, 3))
                    },
                }
            }),
    {
        let v = chars_of(args);
        let parts = splitn(&v, 4, ',');
        proof {
            lemma_chars_deep_view(parts@[0]);
        }
        let f = trim_chars(&parts[0]);
        let dot = match rfind_char(&f, '.') {
            Some(d) => d,
            None => {
                return None;
            },
        };
        if dot == 0 || dot + 1 == f.len() {
            return None;
        }
        let name = subchars(&f, 0, dot);
        let fmt = subchars(&f, dot + 1, f.len());
        assert(name@ =~= f@.take(dot as int));
        assert(fmt@ =~= f@.skip(dot + 1));
        let silence_threshold = secs_of(&trimmed_piece_of(&parts, 1));
        let max_duration = secs_of(&trimmed_piece_of(&parts, 2));
        let options = record_options_of(&trimmed_piece_of(&parts, 3));
        Some(
            RecordArgs {
                filename: string_of(&name),
                format: string_of(&fmt),
                silence_threshold,
                max_duration,
                options,
            },
        )
    }

    /// Where the recording goes: the file name (under the recording
    /// directory when relative) with the format as its extension. A format
    /// that holds a `/` is not a file extension (std panics on it).
    pub fn output_path(&self) -> (r: String)
        requires
            !self.format@.contains('/'),
        ensures
            r@ == path_with_extension(path_join(recording_dir(), self.filename@), self.format@),
            has_plain_file_name(path_join(recording_dir(), self.filename@)) ==> r@
                == plain_with_extension(path_join(recording_dir(), self.filename@), self.format@),
    {
        let dir = string_from_str("/var/spool/asterisk/recording");
        proof {
            reveal_strlit("/var/spool/asterisk/recording");
        }
        let base = path_join_strings(&dir, &self.filename);
        with_extension(base.as_str(), self.format.as_str())
    }
}

/// How a recording ends at this check, if it does: the caller hung up, the
/// longest recording time passed, or the caller has been silent for the
/// silence limit (a zero limit is no limit).
pub open spec fn record_check_spec(args: RecordArgs, hung_up: bool, elapsed: Duration, silent_for: Duration) -> Option<RecordStatus> {
    if hung_up {
        Some(RecordStatus::Hangup)
    } else if args.max_duration.nanos != 0 && elapsed.nanos >= args.max_duration.nanos {
        Some(RecordStatus::Timeout)
    } else if args.silence_threshold.nanos != 0 && silent_for.nanos >= args.silence_threshold.nanos {
        Some(RecordStatus::Silence)
    } else {
        None
    }
}

impl AppRecord {
    /// Whether the recording ends at this check, after `elapsed` of
    /// recording with the caller silent for `silent_for`.
    pub fn check(args: &RecordArgs, hung_up: bool, elapsed: Duration, silent_for: Duration) -> (r: Option<RecordStatus>)
        ensures
            r == record_check_spec(*args, hung_up, elapsed, silent_for),
    {
        if hung_up {
            return Some(RecordStatus::Hangup);
        }
        if !args.max_duration.is_zero() && elapsed.nanos >= args.max_duration.nanos {
            return Some(RecordStatus::Timeout);
        }
        if !args.silence_threshold.is_zero() && silent_for.nanos >= args.silence_threshold.nanos {
            return Some(RecordStatus::Silence);
        }
        None
    }
}

} // verus!
