//! PrivacyManager(): asking a caller without caller ID for a number. This
//! module holds the arguments and the PRIVACYMGRSTATUS values.
use crate::text::{
    chars_of, nonempty, nonempty_string, opt_str, parse_u32, parse_u32_spec, parse_usize,
    parse_usize_spec, splitn, splitn_spec, trimmed_piece, trimmed_piece_of,
};
use crate::DialplanApp;
use vstd::prelude::*;

verus! {

/// PRIVACYMGRSTATUS values.
#[derive(Debug, Clone, Copy, PartialEq, Eq, Structural)]
pub enum PrivacyStatus {
    Success,
    Failed,
}

impl PrivacyStatus {
    pub open spec fn text(self) -> Seq<char> {
        match self {
            PrivacyStatus::Success => "SUCCESS"@,
            PrivacyStatus::Failed => "FAILED"@,
        }
    }

    /// The PRIVACYMGRSTATUS text of this status.
    pub fn as_str(&self) -> (r: &'static str)
        ensures
            r@ == self.text(),
    {
        match self {
            PrivacyStatus::Success => "SUCCESS",
            PrivacyStatus::Failed => "FAILED",
        }
    }
}

/// The arguments of `PrivacyManager([maxretries[,minlength[,options[,context]]]])`.
#[derive(Debug)]
pub struct PrivacyArgs {
    pub max_retries: u32,
    pub min_length: usize,
    pub check_context: Option<String>,
}

impl Default for PrivacyArgs {
    /// Three tries, ten digits, no context check.
    fn default() -> (r: Self)
        ensures
            r.max_retries == 3,
            r.min_length == 10,
            r.check_context is None,
    {
        PrivacyArgs { max_retries: 3, min_length: 10, check_context: None }
    }
}

pub open spec fn privacy_parts(s: Seq<char>) -> Seq<Seq<char>> {
    splitn_spec(s, 4, ',')
}

impl PrivacyArgs {
    /// Parses the arguments; a count that is blank, not a number or zero
    /// keeps its default.
    pub fn parse(args: &str) -> (r: Self)
        ensures
            r.max_retries == match parse_u32_spec(trimmed_piece(privacy_parts(args@), 0)) {
                Some(v) => if v > 0 {
                    v
                } else {
                    3
                },
                None => 3,
            },
            r.min_length == match parse_usize_spec(trimmed_piece(privacy_parts(args@), 1)) {
                Some(v) => if v > 0 {
                    v
                } else {
                    10
                },
                None => 10,
            },
            opt_str(r.check_context) == nonempty(trimmed_piece(privacy_parts(args@), 3)),
    {
        let v = chars_of(args);
        let parts = splitn(&v, 4, ',');
        let a = trimmed_piece_of(&parts, 0);
        let b = trimmed_piece_of(&parts, 1);
        let c = trimmed_piece_of(&parts, 3);
        let max_retries: u32 = match parse_u32(&a) {
            Some(x) => if x > 0 {
                x
            } else {
                3
            },
            None => 3,
        };
        let min_length: usize = match parse_usize(&b) {
            Some(x) => if x > 0 {
                x
            } else {
                10
            },
            None => 10,
        };
        PrivacyArgs { max_retries, min_length, check_context: nonempty_string(&c) }
    }
}

/// The `PrivacyManager()` dialplan application.
#[derive(Debug)]
pub struct AppPrivacyManager;

impl DialplanApp for AppPrivacyManager {
    fn name(&self) -> (r: &str)
        ensures
            r@ == "PrivacyManager"@,
    {
        "PrivacyManager"
    }

    fn description(&self) -> (r: &str)
        ensures
            r@ == "Require phone number to be entered, if no CallerID sent"@,
    {
        "Require phone number to be entered, if no CallerID sent"
    }
}

} // verus!
