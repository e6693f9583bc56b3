//! ReadExten(): reading an extension with matching as the digits come.
//! This module holds how the arguments are read.
use crate::text::{chars_of, parse_u32, parse_u32_spec, split, split_spec, string_of, trimmed_piece, trimmed_piece_of};
use crate::DialplanApp;
use vstd::prelude::*;

verus! {

/// The arguments of `ReadExten(variable[,context[,prompt[,timeout]]])`.
#[derive(Debug, Clone)]
pub struct ReadExtenOptions {
    pub variable: String,
    pub context: String,
    pub prompt: String,
    pub timeout_secs: u32,
}

impl ReadExtenOptions {
    /// Reads the comma-separated arguments, each trimmed; the timeout is 10
    /// seconds unless a number is given.
    pub fn parse(args: &str) -> (r: Self)
        ensures
            r.variable@ == trimmed_piece(split_spec(args@, ','), 0),
            r.context@ == trimmed_piece(split_spec(args@, ','), 1),
            r.prompt@ == trimmed_piece(split_spec(args@, ','), 2),
            r.timeout_secs == match parse_u32_spec(trimmed_piece(split_spec(args@, ','), 3)) {
                Some(t) => t,
                None => 10,
            },
    {
        let v = chars_of(args);
        let parts = split(&v, ',');
        let t = trimmed_piece_of(&parts, 3);
        let timeout_secs: u32 = match parse_u32(&t) {
            Some(x) => x,
            None => 10,
        };
        ReadExtenOptions {
            variable: string_of(&trimmed_piece_of(&parts, 0)),
            context: string_of(&trimmed_piece_of(&parts, 1)),
            prompt: string_of(&trimmed_piece_of(&parts, 2)),
            timeout_secs,
        }
    }
}

/// The `ReadExten()` dialplan application.
#[derive(Debug)]
pub struct AppReadExten;

impl DialplanApp for AppReadExten {
    fn name(&self) -> (r: &str)
        ensures
            r@ == "ReadExten"@,
    {
        "ReadExten"
    }

    fn description(&self) -> (r: &str)
        ensures
            r@ == "Read digits with real-time extension matching"@,
    {
        "Read digits with real-time extension matching"
    }
}

} // verus!
