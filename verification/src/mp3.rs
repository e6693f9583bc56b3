//! MP3Player(): playing an MP3 file or stream through an external decoder.
//! This module holds the argument and the decoder's command line.
use crate::text::{string_from_str, string_of, str_views, trim, trim_str};
use crate::DialplanApp;
use vstd::prelude::*;

verus! {

/// The external decoders.
#[derive(Debug, Clone, Copy, PartialEq, Eq, Structural)]
pub enum Mp3Decoder {
    Mpg123,
    Ffmpeg,
}

/// What to play and with which decoder.
#[derive(Debug, Clone)]
pub struct Mp3Options {
    pub location: String,
    pub decoder: Mp3Decoder,
}

impl Mp3Options {
    /// The trimmed location, played with mpg123; an error when it is blank.
    pub fn parse(args: &str) -> (r: Result<Self, String>)
        ensures
            match r {
                Ok(o) => trim(args@).len() > 0 && o.location@ == trim(args@) && o.decoder
                    == Mp3Decoder::Mpg123,
                Err(e) => trim(args@).len() == 0 && e@
                    == "missing required argument: location (MP3 file, URL, or M3U playlist)"@,
            },
    {
        let loc = trim_str(args);
        if loc.len() == 0 {
            return Err(
                string_from_str(
                    "missing required argument: location (MP3 file, URL, or M3U playlist)",
                ),
            );
        }
        Ok(Mp3Options { location: string_of(&loc), decoder: Mp3Decoder::Mpg123 })
    }
}

/// The `MP3Player()` dialplan application.
#[derive(Debug)]
pub struct AppMp3Player;

impl DialplanApp for AppMp3Player {
    fn name(&self) -> (r: &str)
        ensures
            r@ == "MP3Player"@,
    {
        "MP3Player"
    }

    fn description(&self) -> (r: &str)
        ensures
            r@ == "Play an MP3 file or stream"@,
    {
        "Play an MP3 file or stream"
    }
}

/// The decoder arguments that write 8 kHz mono signed linear audio to
/// standard output.
pub open spec fn decoder_args_spec(is_mpg123: bool, location: Seq<char>) -> Seq<Seq<char>> {
    if is_mpg123 {
        seq!["-q"@, "-s"@, "--mono"@, "-r"@, "8000"@, location]
    } else {
        seq!["-i"@, location, "-f"@, "s16le"@, "-ar"@, "8000"@, "-ac"@, "1"@, "pipe:1"@]
    }
}

impl AppMp3Player {
    /// The decoders to look for, in turn: the one asked for, then the
    /// other.
    pub fn decoder_preference(decoder: Mp3Decoder) -> (r: (Mp3Decoder, Mp3Decoder))
        ensures
            r == match decoder {
                Mp3Decoder::Mpg123 => (Mp3Decoder::Mpg123, Mp3Decoder::Ffmpeg),
                Mp3Decoder::Ffmpeg => (Mp3Decoder::Ffmpeg, Mp3Decoder::Mpg123),
            },
    {
        match decoder {
            Mp3Decoder::Mpg123 => (Mp3Decoder::Mpg123, Mp3Decoder::Ffmpeg),
            Mp3Decoder::Ffmpeg => (Mp3Decoder::Ffmpeg, Mp3Decoder::Mpg123),
        }
    }

    /// The decoder's arguments, for mpg123 or else for ffmpeg.
    pub fn decoder_args(is_mpg123: bool, location: &str) -> (r: Vec<String>)
        ensures
            str_views(r@) == decoder_args_spec(is_mpg123, location@),
    {
        let mut v: Vec<String> = Vec::new();
        if is_mpg123 {
            v.push(string_from_str("-q"));
            v.push(string_from_str("-s"));
            v.push(string_from_str("--mono"));
            v.push(string_from_str("-r"));
            v.push(string_from_str("8000"));
            v.push(string_from_str(location));
        } else {
            v.push(string_from_str("-i"));
            v.push(string_from_str(location));
            v.push(string_from_str("-f"));
            v.push(string_from_str("s16le"));
            v.push(string_from_str("-ar"));
            v.push(string_from_str("8000"));
            v.push(string_from_str("-ac"));
            v.push(string_from_str("1"));
            v.push(string_from_str("pipe:1"));
        }
        assert(str_views(v@) =~= decoder_args_spec(is_mpg123, location@));
        v
    }
}

} // verus!
