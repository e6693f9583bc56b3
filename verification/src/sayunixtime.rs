//! SayUnixTime() and DateTime(): saying a date and time. This module holds
//! how the arguments are read.
use crate::text::{
    chars_of, lemma_chars_deep_view, parse_i64, parse_i64_spec, split, split_spec,
    string_from_str, string_of, trim, trim_chars, trimmed_piece, trimmed_piece_of,
};
use crate::DialplanApp;
use vstd::prelude::*;

verus! {

/// The arguments of `SayUnixTime([unixtime[,timezone[,format]]])`.
#[derive(Debug, Clone)]
pub struct SayUnixTimeOptions {
    pub unixtime: Option<i64>,
    pub timezone: String,
    pub format: String,
}

/// The format used when none is given.
pub open spec fn default_time_format() -> Seq<char> {
    "ABdY 'digits/at' IMp"@
}

impl SayUnixTimeOptions {
    /// Reads the comma-separated arguments, each trimmed.
    pub fn parse(args: &str) -> (r: Self)
        ensures
            r.unixtime == parse_i64_spec(trimmed_piece(split_spec(args@, ','), 0)),
            r.timezone@ == trimmed_piece(split_spec(args@, ','), 1),
            r.format@ == if split_spec(args@, ',').len() > 2 {
                trim(split_spec(args@, ',')[2])
            } else {
                default_time_format()
            },
    {
        let v = chars_of(args);
        let parts = split(&v, ',');
        let t = trimmed_piece_of(&parts, 0);
        let format = if parts.len() > 2 {
            proof {
                lemma_chars_deep_view(parts@[2]);
            }
            string_of(&trim_chars(&parts[2]))
        } else {
            proof {
                reveal_strlit("ABdY 'digits/at' IMp");
            }
            string_from_str("ABdY 'digits/at' IMp")
        };
        SayUnixTimeOptions {
            unixtime: parse_i64(&t),
            timezone: string_of(&trimmed_piece_of(&parts, 1)),
            format,
        }
    }
}

/// The `SayUnixTime()` dialplan application.
#[derive(Debug)]
pub struct AppSayUnixTime;

impl DialplanApp for AppSayUnixTime {
    fn name(&self) -> (r: &str)
        ensures
            r@ == "SayUnixTime"@,
    {
        "SayUnixTime"
    }

    fn description(&self) -> (r: &str)
        ensures
            r@ == "Say date and time from a Unix timestamp"@,
    {
        "Say date and time from a Unix timestamp"
    }
}

/// The `DateTime()` dialplan application.
#[derive(Debug)]
pub struct AppDateTime;

impl DialplanApp for AppDateTime {
    fn name(&self) -> (r: &str)
        ensures
            r@ == "DateTime"@,
    {
        "DateTime"
    }

    fn description(&self) -> (r: &str)
        ensures
            r@ == "Say date and time (alias for SayUnixTime)"@,
    {
        "Say date and time (alias for SayUnixTime)"
    }
}

} // verus!
