//! Dictate(): a virtual dictation machine. This module holds what the
//! application reads from its arguments and the names of its files.
use crate::text::{
    chars_of, nonempty, nonempty_string, opt_str, or_default, path_join,
    path_join_strings, splitn, splitn_spec, string_or, trimmed_piece, trimmed_piece_of,
};
use crate::DialplanApp;
use vstd::prelude::*;

verus! {

/// What the dictation machine is doing.
#[derive(Debug, Clone, Copy, PartialEq, Eq, Structural)]
pub enum DictateMode {
    Init,
    Record,
    Play,
}

/// The dictation machine's switches.
#[derive(Debug, Clone, Copy, Default, PartialEq, Eq, Structural)]
pub struct DictateFlags {
    pub recording: bool,
    pub playing: bool,
    pub truncate: bool,
    pub paused: bool,
}

/// The arguments of `Dictate([base_dir[,filename]])`.
#[derive(Debug)]
pub struct DictateArgs {
    pub base_dir: String,
    pub filename: Option<String>,
}

/// The directory used when no base directory is given.
pub open spec fn default_dictate_dir() -> Seq<char> {
    "/var/spool/asterisk/dictate"@
}

/// The base directory named by the arguments: the first comma-separated
/// piece, trimmed, or the default directory when it is empty.
pub open spec fn dictate_base_dir(s: Seq<char>) -> Seq<char> {
    or_default(trimmed_piece(splitn_spec(s, 2, ','), 0), default_dictate_dir())
}

/// The file name named by the arguments: the rest after the first comma,
/// trimmed, when it is not empty.
pub open spec fn dictate_filename(s: Seq<char>) -> Option<Seq<char>> {
    nonempty(trimmed_piece(splitn_spec(s, 2, ','), 1))
}

impl DictateArgs {
    pub const DEFAULT_BASE_DIR: &'static str = "/var/spool/asterisk/dictate";

    /// Parses `[base_dir[,filename]]`.
    pub fn parse(args: &str) -> (r: Self)
        ensures
            r.base_dir@ == dictate_base_dir(args@),
            opt_str(r.filename) == dictate_filename(args@),
    {
        let v = chars_of(args);
        let parts = splitn(&v, 2, ',');
        let dir = trimmed_piece_of(&parts, 0);
        let file = trimmed_piece_of(&parts, 1);
        let dflt = "/var/spool/asterisk/dictate";
        proof {
            reveal_strlit("/var/spool/asterisk/dictate");
        }
        let base_dir = string_or(&dir, dflt);
        let filename = nonempty_string(&file);
        DictateArgs { base_dir, filename }
    }

    /// The path of `filename` under the base directory.
    pub fn file_path(&self, filename: &str) -> (r: String)
        ensures
            r@ == path_join(self.base_dir@, filename@),
    {
        let f = filename.to_owned();
        path_join_strings(&self.base_dir, &f)
    }
}

/// The `Dictate()` dialplan application.
#[derive(Debug)]
pub struct AppDictate;

impl DialplanApp for AppDictate {
    fn name(&self) -> (r: &str)
        ensures
            r@ == "Dictate"@,
    {
        "Dictate"
    }

    fn description(&self) -> (r: &str)
        ensures
            r@ == "Virtual Dictation Machine"@,
    {
        "Virtual Dictation Machine"
    }
}

impl AppDictate {
    /// Samples skipped by one seek step.
    pub const SEEK_FACTOR: i64 = 320 * 80;
}

} // verus!
