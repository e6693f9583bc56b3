//! Originate(): placing a new outbound call. This module holds how the
//! arguments are read and the ORIGINATE_STATUS values.
use crate::text::{
    chars_eq_ignore_ascii_case, chars_of, contains_char, eq_ignore_ascii_case, find_char,
    index_of, lemma_chars_deep_view, lemma_index_of_props, or_default, parse_i32, parse_i32_spec,
    parse_u64, parse_u64_spec, splitn, splitn_spec, string_of, string_or, subchars, trim,
    trim_chars, trimmed_piece, trimmed_piece_of,
};
use crate::time::{Duration, NANOS_PER_SEC};
use crate::DialplanApp;
use vstd::prelude::*;

verus! {

/// ORIGINATE_STATUS values.
#[derive(Debug, Clone, Copy, PartialEq, Eq, Structural)]
pub enum OriginateStatus {
    Failed,
    Success,
    Busy,
    Congestion,
    Hangup,
    Ringing,
    Unknown,
}

impl OriginateStatus {
    pub open spec fn text(self) -> Seq<char> {
        match self {
            OriginateStatus::Failed => "FAILED"@,
            OriginateStatus::Success => "SUCCESS"@,
            OriginateStatus::Busy => "BUSY"@,
            OriginateStatus::Congestion => "CONGESTION"@,
            OriginateStatus::Hangup => "HANGUP"@,
            OriginateStatus::Ringing => "RINGING"@,
            OriginateStatus::Unknown => "UNKNOWN"@,
        }
    }

    /// The ORIGINATE_STATUS text of this status.
    pub fn as_str(&self) -> (r: &'static str)
        ensures
            r@ == self.text(),
    {
        match self {
            OriginateStatus::Failed => "FAILED",
            OriginateStatus::Success => "SUCCESS",
            OriginateStatus::Busy => "BUSY",
            OriginateStatus::Congestion => "CONGESTION",
            OriginateStatus::Hangup => "HANGUP",
            OriginateStatus::Ringing => "RINGING",
            OriginateStatus::Unknown => "UNKNOWN",
        }
    }
}

/// Where the answered call goes.
#[derive(Debug, Clone, PartialEq, Eq)]
pub enum OriginateType {
    Extension { context: String, extension: String, priority: i32 },
    Application { app_name: String, app_data: String },
}

pub enum OriginateTypeView {
    Extension { context: Seq<char>, extension: Seq<char>, priority: i32 },
    Application { app_name: Seq<char>, app_data: Seq<char> },
}

impl View for OriginateType {
    type V = OriginateTypeView;

    open spec fn view(&self) -> OriginateTypeView {
        match self {
            OriginateType::Extension { context, extension, priority } => OriginateTypeView::Extension {
                context: context@,
                extension: extension@,
                priority: *priority,
            },
            OriginateType::Application { app_name, app_data } => OriginateTypeView::Application {
                app_name: app_name@,
                app_data: app_data@,
            },
        }
    }
}

/// The option letters of Originate().
#[derive(Debug, Clone, Default)]
pub struct OriginateOptions {
    /// `a`: do not wait for the call to be answered.
    pub async_originate: bool,
    pub caller_num: Option<String>,
    pub caller_name: Option<String>,
    pub variables: Vec<(String, String)>,
}

impl OriginateOptions {
    /// Reads the option letters; unknown letters are ignored.
    pub fn parse(opts: &str) -> (r: Self)
        ensures
            r.async_originate == opts@.contains('a'),
            r.caller_num is None,
            r.caller_name is None,
            r.variables@.len() == 0,
    {
        let v = chars_of(opts);
        OriginateOptions {
            async_originate: contains_char(&v, 'a'),
            caller_num: None,
            caller_name: None,
            variables: Vec::new(),
        }
    }
}

/// The arguments of
/// `Originate(tech/data,type,arg1[,arg2[,arg3[,timeout[,options]]]])`.
#[derive(Debug)]
pub struct OriginateArgs {
    pub tech: String,
    pub tech_data: String,
    pub originate_type: OriginateType,
    pub timeout: Duration,
    pub options: OriginateOptions,
}

pub open spec fn originate_parts(s: Seq<char>) -> Seq<Seq<char>> {
    splitn_spec(s, 7, ',')
}

/// The type word names an extension (`exten`, in any case).
pub open spec fn is_exten_type(p: Seq<Seq<char>>) -> bool {
    eq_ignore_ascii_case(trim(p[1]), "exten"@)
}

/// The type word names an application (`app`, in any case).
pub open spec fn is_app_type(p: Seq<Seq<char>>) -> bool {
    eq_ignore_ascii_case(trim(p[1]), "app"@)
}

/// Whether the arguments are accepted: at least three pieces, a
/// `tech/data` destination with a non-empty technology, a known type, and
/// for an application a non-blank name.
pub open spec fn originate_ok(s: Seq<char>) -> bool {
    let p = originate_parts(s);
    p.len() >= 3 && index_of(trim(p[0]), '/') > 0 && (is_exten_type(p) || (is_app_type(p)
        && trim(p[2]).len() > 0))
}

/// The destination of an accepted argument text.
pub open spec fn originate_type_spec(s: Seq<char>) -> OriginateTypeView {
    let p = originate_parts(s);
    if is_exten_type(p) {
        OriginateTypeView::Extension {
            context: trim(p[2]),
            extension: or_default(trimmed_piece(p, 3), "s"@),
            priority: match parse_i32_spec(trimmed_piece(p, 4)) {
                Some(x) => x,
                None => 1,
            },
        }
    } else {
        OriginateTypeView::Application { app_name: trim(p[2]), app_data: trimmed_piece(p, 3) }
    }
}

/// Where the timeout stands: after the priority for an extension, after
/// the data for an application.
pub open spec fn timeout_index(s: Seq<char>) -> int {
    if is_exten_type(originate_parts(s)) {
        5
    } else {
        4
    }
}

/// The timeout in seconds: the number given, else 30.
pub open spec fn originate_timeout_secs(s: Seq<char>) -> u64 {
    match parse_u64_spec(trimmed_piece(originate_parts(s), timeout_index(s))) {
        Some(t) => t,
        None => 30,
    }
}

impl OriginateArgs {
    /// Parses the arguments; `None` when they are not accepted. The type
    /// word is compared without regard to case.
    pub fn parse(args: &str) -> (r: Option<Self>)
        ensures
            r is Some <==> originate_ok(args@),
            r matches Some(a) ==> {
                let p = originate_parts(args@);
                let td = trim(p[0]);
                let slash = index_of(td, '/');
                &&& a.tech@ == td.take(slash)
                &&& a.tech_data@ == td.skip(slash + 1)
                &&& a.originate_type@ == originate_type_spec(args@)
                &&& a.timeout.nanos == originate_timeout_secs(args@) * NANOS_PER_SEC
                &&& a.options.async_originate == trimmed_piece(p, timeout_index(args@) + 1).contains(
                    'a',
                )
            },
    {
        let v = chars_of(args);
        let parts = splitn(&v, 7, ',');
        if parts.len() < 3 {
            return None;
        }
        proof {
            lemma_chars_deep_view(parts@[0]);
            lemma_chars_deep_view(parts@[1]);
            lemma_chars_deep_view(parts@[2]);
        }
        let td = trim_chars(&parts[0]);
        proof {
            lemma_index_of_props(td@, '/');
        }
        let slash = match find_char(&td, '/') {
            Some(i) => i,
            None => {
                return None;
            },
        };
        if slash == 0 {
            return None;
        }
        let tech = subchars(&td, 0, slash);
        let tech_data = subchars(&td, slash + 1, td.len());
        assert(tech@ =~= td@.take(slash as int));
        assert(tech_data@ =~= td@.skip(slash + 1));
        let ty = trim_chars(&parts[1]);
        let exten_word = chars_of("exten");
        let app_word = chars_of("app");
        let is_exten = chars_eq_ignore_ascii_case(&ty, &exten_word);
        let is_app = chars_eq_ignore_ascii_case(&ty, &app_word);
        let arg2 = trim_chars(&parts[2]);
        let originate_type = if is_exten {
            let ext = trimmed_piece_of(&parts, 3);
            proof {
                reveal_strlit("s");
            }
            let prio_text = trimmed_piece_of(&parts, 4);
            let priority: i32 = match parse_i32(&prio_text) {
                Some(x) => x,
                None => 1,
            };
            OriginateType::Extension {
                context: string_of(&arg2),
                extension: string_or(&ext, "s"),
                priority,
            }
        } else if is_app {
            if arg2.len() == 0 {
                return None;
            }
            let data = trimmed_piece_of(&parts, 3);
            OriginateType::Application { app_name: string_of(&arg2), app_data: string_of(&data) }
        } else {
            return None;
        };
        let ti: usize = if is_exten {
            5
        } else {
            4
        };
        let t_text = trimmed_piece_of(&parts, ti);
        let secs: u64 = match parse_u64(&t_text) {
            Some(t) => t,
            None => 30,
        };
        let o_text = trimmed_piece_of(&parts, ti + 1);
        let options = OriginateOptions {
            async_originate: contains_char(&o_text, 'a'),
            caller_num: None,
            caller_name: None,
            variables: Vec::new(),
        };
        Some(
            OriginateArgs {
                tech: string_of(&tech),
                tech_data: string_of(&tech_data),
                originate_type,
                timeout: Duration::from_secs(secs),
                options,
            },
        )
    }
}

/// The `Originate()` dialplan application.
#[derive(Debug)]
pub struct AppOriginate;

impl DialplanApp for AppOriginate {
    fn name(&self) -> (r: &str)
        ensures
            r@ == "Originate"@,
    {
        "Originate"
    }

    fn description(&self) -> (r: &str)
        ensures
            r@ == "Originate a call"@,
    {
        "Originate a call"
    }
}

impl AppOriginate {
    /// The ORIGINATE_STATUS set before the call is placed: `FAILED` for
    /// arguments that are not accepted, else `SUCCESS`.
    pub fn status_for(args: &str) -> (r: OriginateStatus)
        ensures
            r == if originate_ok(args@) {
                OriginateStatus::Success
            } else {
                OriginateStatus::Failed
            },
    {
        match OriginateArgs::parse(args) {
            Some(_) => OriginateStatus::Success,
            None => OriginateStatus::Failed,
        }
    }
}

} // verus!
