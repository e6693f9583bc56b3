//! SendDTMF() and ReceiveDTMF(): sending and receiving DTMF digits. This
//! module holds how the arguments are read.
use crate::text::{
    chars_of, lemma_chars_deep_view, nonempty, nonempty_string, opt_str, parse_u32,
    parse_u32_spec, split, split_spec, string_of, trimmed_piece, trimmed_piece_of,
};
use crate::DialplanApp;
use vstd::prelude::*;

verus! {

/// The arguments of `SendDTMF(digits[,timeout_ms[,duration_ms[,channel]]])`.
#[derive(Debug, Clone)]
pub struct SendDtmfOptions {
    pub digits: String,
    pub timeout_ms: u32,
    pub duration_ms: u32,
    pub channel: Option<String>,
}

impl SendDtmfOptions {
    /// Reads the comma-separated arguments: the digits as given, a pause
    /// of 250 ms and the default tone length unless numbers are given, and
    /// the channel when not blank.
    pub fn parse(args: &str) -> (r: Self)
        ensures
            r.digits@ == split_spec(args@, ',')[0],
            r.timeout_ms == match parse_u32_spec(trimmed_piece(split_spec(args@, ','), 1)) {
                Some(t) => t,
                None => 250,
            },
            r.duration_ms == match parse_u32_spec(trimmed_piece(split_spec(args@, ','), 2)) {
                Some(d) => d,
                None => 0,
            },
            opt_str(r.channel) == nonempty(trimmed_piece(split_spec(args@, ','), 3)),
    {
        let v = chars_of(args);
        let parts = split(&v, ',');
        proof {
            lemma_chars_deep_view(parts@[0]);
        }
        let timeout_ms: u32 = match parse_u32(&trimmed_piece_of(&parts, 1)) {
            Some(t) => t,
            None => 250,
        };
        let duration_ms: u32 = match parse_u32(&trimmed_piece_of(&parts, 2)) {
            Some(d) => d,
            None => 0,
        };
        SendDtmfOptions {
            digits: string_of(&parts[0]),
            timeout_ms,
            duration_ms,
            channel: nonempty_string(&trimmed_piece_of(&parts, 3)),
        }
    }
}

/// The `SendDTMF()` dialplan application.
#[derive(Debug)]
pub struct AppSendDtmf;

impl DialplanApp for AppSendDtmf {
    fn name(&self) -> (r: &str)
        ensures
            r@ == "SendDTMF"@,
    {
        "SendDTMF"
    }

    fn description(&self) -> (r: &str)
        ensures
            r@ == "Send DTMF digits on a channel"@,
    {
        "Send DTMF digits on a channel"
    }
}

/// The `ReceiveDTMF()` dialplan application.
#[derive(Debug)]
pub struct AppReceiveDtmf;

impl DialplanApp for AppReceiveDtmf {
    fn name(&self) -> (r: &str)
        ensures
            r@ == "ReceiveDTMF"@,
    {
        "ReceiveDTMF"
    }

    fn description(&self) -> (r: &str)
        ensures
            r@ == "Receive DTMF digits from a channel"@,
    {
        "Receive DTMF digits from a channel"
    }
}

} // verus!
