//! Festival(): text to speech through a Festival server. This module holds
//! the server settings, the option letters and the text to speak.
use crate::text::{chars_of, contains_char, splitn, splitn_spec, string_from_str, string_of, lemma_chars_deep_view};
use crate::DialplanApp;
use vstd::prelude::*;

verus! {

/// Where the Festival server is and how its answers are cached.
#[derive(Debug, Clone)]
pub struct FestivalConfig {
    pub host: String,
    pub port: u16,
    pub cache: bool,
    pub cache_dir: String,
}

impl Default for FestivalConfig {
    /// `localhost:1314`, no cache, cache directory `/tmp/festival_cache`.
    fn default() -> (r: Self)
        ensures
            r.host@ == "localhost"@,
            r.port == 1314,
            !r.cache,
            r.cache_dir@ == "/tmp/festival_cache"@,
    {
        FestivalConfig {
            host: string_from_str("localhost"),
            port: 1314,
            cache: false,
            cache_dir: string_from_str("/tmp/festival_cache"),
        }
    }
}

/// The option letters of Festival().
#[derive(Debug, Clone, Default, PartialEq, Eq, Structural)]
pub struct FestivalOptions {
    /// `n`: do not answer the channel.
    pub no_answer: bool,
    /// `a`: any key interrupts.
    pub any_interrupt: bool,
}

impl FestivalOptions {
    /// Reads the option letters; unknown letters are ignored.
    pub fn parse(opts: &str) -> (r: Self)
        ensures
            r.no_answer == opts@.contains('n'),
            r.any_interrupt == opts@.contains('a'),
    {
        let v = chars_of(opts);
        FestivalOptions { no_answer: contains_char(&v, 'n'), any_interrupt: contains_char(&v, 'a') }
    }
}

/// The `Festival()` dialplan application.
#[derive(Debug)]
pub struct AppFestival;

impl DialplanApp for AppFestival {
    fn name(&self) -> (r: &str)
        ensures
            r@ == "Festival"@,
    {
        "Festival"
    }

    fn description(&self) -> (r: &str)
        ensures
            r@ == "Say text with Festival TTS engine"@,
    {
        "Say text with Festival TTS engine"
    }
}

impl AppFestival {
    /// The text of `text[,intkeys]` to speak; `None` when it is empty,
    /// and the application fails.
    pub fn text_of(args: &str) -> (r: Option<String>)
        ensures
            match r {
                Some(t) => t@ == splitn_spec(args@, 2, ',')[0] && t@.len() > 0,
                None => splitn_spec(args@, 2, ',')[0].len() == 0,
            },
    {
        let v = chars_of(args);
        let parts = splitn(&v, 2, ',');
        proof {
            lemma_chars_deep_view(parts@[0]);
        }
        if parts[0].len() == 0 {
            None
        } else {
            Some(string_of(&parts[0]))
        }
    }
}

} // verus!
