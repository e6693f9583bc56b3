//! MixMonitor() and StopMixMonitor(): recording a call. This module holds
//! the option letters, the arguments, the output path and the recording
//! session record.
use crate::opts::{after_paren, lemma_after_paren, opt_chars, opt_string_of, paren_arg, read_paren};
use crate::text::{
    chars_of, lemma_chars_deep_view, nonempty, nonempty_string, opt_str, parse_i8, parse_i8_spec,
    parse_u32, parse_u32_spec, path_join, path_join_strings, splitn, splitn_spec, string_from_str,
    string_of, trim, trim_chars, trimmed_piece, trimmed_piece_of,
};
use crate::time::{instant_elapsed, instant_now, Duration};
use crate::DialplanApp;
use vstd::prelude::*;

verus! {

/// The directory of recordings named by a relative file name.
pub open spec fn default_monitor_dir() -> Seq<char> {
    "/var/spool/asterisk/monitor"@
}

/// MIXMONITOR_STATUS values.
#[derive(Debug, Clone, Copy, PartialEq, Eq, Structural)]
pub enum MixMonitorStatus {
    Active,
    Completed,
    Stopped,
    Failed,
    Hangup,
}

impl MixMonitorStatus {
    pub open spec fn text(self) -> Seq<char> {
        match self {
            MixMonitorStatus::Active => "ACTIVE"@,
            MixMonitorStatus::Completed => "COMPLETED"@,
            MixMonitorStatus::Stopped => "STOPPED"@,
            MixMonitorStatus::Failed => "FAILED"@,
            MixMonitorStatus::Hangup => "HANGUP"@,
        }
    }

    /// The text of this status.
    pub fn as_str(&self) -> (r: &'static str)
        ensures
            r@ == self.text(),
    {
        match self {
            MixMonitorStatus::Active => "ACTIVE",
            MixMonitorStatus::Completed => "COMPLETED",
            MixMonitorStatus::Stopped => "STOPPED",
            MixMonitorStatus::Failed => "FAILED",
            MixMonitorStatus::Hangup => "HANGUP",
        }
    }
}

/// A volume adjustment, always within -4..=4.
#[derive(Debug, Clone, Copy, PartialEq, Eq, Structural)]
pub struct VolumeAdjust(i8);

/// `v` clamped to -4..=4.
pub open spec fn clamp_volume(v: i8) -> i8 {
    if v < -4 {
        -4i8
    } else if v > 4 {
        4i8
    } else {
        v
    }
}

impl VolumeAdjust {
    /// The adjustment's level.
    pub closed spec fn level(self) -> i8 {
        self.0
    }

    /// Every adjustment lies within -4..=4.
    #[verifier::type_invariant]
    closed spec fn in_range(self) -> bool {
        -4 <= self.0 <= 4
    }

    /// An adjustment of `val`, clamped to -4..=4.
    pub fn new(val: i8) -> (r: Self)
        ensures
            r.level() == clamp_volume(val),
    {
        let v: i8 = if val < -4 {
            -4
        } else if val > 4 {
            4
        } else {
            val
        };
        VolumeAdjust(v)
    }

    /// No adjustment.
    pub fn none() -> (r: Self)
        ensures
            r.level() == 0,
    {
        VolumeAdjust(0)
    }

    /// The adjustment's level.
    pub fn value(&self) -> (r: i8)
        ensures
            r == self.level(),
            -4 <= r <= 4,
    {
        proof {
            use_type_invariant(self);
        }
        self.0
    }
}

/// An adjustment is its level: two adjustments with the same level are
/// equal; and clamping is idempotent, so an adjustment made again from its
/// own value is the same adjustment.
pub proof fn lemma_volume_level(a: VolumeAdjust, b: VolumeAdjust, val: i8)
    ensures
        a.level() == b.level() ==> a == b,
        -4 <= clamp_volume(val) <= 4,
        clamp_volume(clamp_volume(val)) == clamp_volume(val),
{
}

impl Default for VolumeAdjust {
    fn default() -> (r: Self)
        ensures
            r.level() == 0,
    {
        VolumeAdjust::none()
    }
}

/// The option letters of MixMonitor().
#[derive(Debug, Clone, Default)]
pub struct MixMonitorOptions {
    pub append: bool,
    pub bridge_only: bool,
    pub beep_interval: u32,
    pub delete_on_completion: bool,
    pub read_volume: VolumeAdjust,
    pub write_volume: VolumeAdjust,
    pub both_volume: VolumeAdjust,
    pub receive_file: Option<String>,
    pub transmit_file: Option<String>,
    pub stereo: bool,
    pub no_sync_silence: bool,
    pub id_variable: Option<String>,
    pub play_beep: bool,
    pub real_callerid: bool,
}

pub struct MixMonitorOptionsView {
    pub append: bool,
    pub bridge_only: bool,
    pub beep_interval: u32,
    pub delete_on_completion: bool,
    pub read_volume: i8,
    pub write_volume: i8,
    pub both_volume: i8,
    pub receive_file: Option<Seq<char>>,
    pub transmit_file: Option<Seq<char>>,
    pub stereo: bool,
    pub no_sync_silence: bool,
    pub id_variable: Option<Seq<char>>,
    pub play_beep: bool,
    pub real_callerid: bool,
}

impl View for MixMonitorOptions {
    type V = MixMonitorOptionsView;

    open spec fn view(&self) -> MixMonitorOptionsView {
        MixMonitorOptionsView {
            append: self.append,
            bridge_only: self.bridge_only,
            beep_interval: self.beep_interval,
            delete_on_completion: self.delete_on_completion,
            read_volume: self.read_volume.level(),
            write_volume: self.write_volume.level(),
            both_volume: self.both_volume.level(),
            receive_file: opt_str(self.receive_file),
            transmit_file: opt_str(self.transmit_file),
            stereo: self.stereo,
            no_sync_silence: self.no_sync_silence,
            id_variable: opt_str(self.id_variable),
            play_beep: self.play_beep,
            real_callerid: self.real_callerid,
        }
    }
}

/// No option letter.
pub open spec fn no_mixmonitor_options() -> MixMonitorOptionsView {
    MixMonitorOptionsView {
        append: false,
        bridge_only: false,
        beep_interval: 0,
        delete_on_completion: false,
        read_volume: 0,
        write_volume: 0,
        both_volume: 0,
        receive_file: None,
        transmit_file: None,
        stereo: false,
        no_sync_silence: false,
        id_variable: None,
        play_beep: false,
        real_callerid: false,
    }
}

/// Letters followed by a parenthesized argument.
pub open spec fn mixmonitor_takes_arg(c: char) -> bool {
    c == 'B' || c == 'v' || c == 'V' || c == 'W' || c == 'r' || c == 't' || c == 'i'
}

/// The volume a `v`, `V` or `W` argument sets: the number clamped, or the
/// current level when it is no `i8`.
pub open spec fn volume_arg(cur: i8, arg: Option<Seq<char>>) -> i8 {
    match arg {
        Some(a) => match parse_i8_spec(a) {
            Some(v) => clamp_volume(v),
            None => cur,
        },
        None => cur,
    }
}

/// One option letter with its argument.
pub open spec fn mixmonitor_letter(o: MixMonitorOptionsView, c: char, arg: Option<Seq<char>>) -> MixMonitorOptionsView {
    if c == 'a' {
        MixMonitorOptionsView { append: true, ..o }
    } else if c == 'b' {
        MixMonitorOptionsView { bridge_only: true, ..o }
    } else if c == 'B' {
        MixMonitorOptionsView {
            beep_interval: match arg {
                Some(a) => match parse_u32_spec(a) {
                    Some(n) => n,
                    None => 15,
                },
                None => 15,
            },
            ..o
        }
    } else if c == 'c' {
        MixMonitorOptionsView { real_callerid: true, ..o }
    } else if c == 'd' {
        MixMonitorOptionsView { delete_on_completion: true, ..o }
    } else if c == 'v' {
        MixMonitorOptionsView { read_volume: volume_arg(o.read_volume, arg), ..o }
    } else if c == 'V' {
        MixMonitorOptionsView { write_volume: volume_arg(o.write_volume, arg), ..o }
    } else if c == 'W' {
        MixMonitorOptionsView { both_volume: volume_arg(o.both_volume, arg), ..o }
    } else if c == 'r' {
        MixMonitorOptionsView { receive_file: arg, ..o }
    } else if c == 't' {
        MixMonitorOptionsView { transmit_file: arg, ..o }
    } else if c == 'D' {
        MixMonitorOptionsView { stereo: true, ..o }
    } else if c == 'n' {
        MixMonitorOptionsView { no_sync_silence: true, ..o }
    } else if c == 'i' {
        MixMonitorOptionsView { id_variable: arg, ..o }
    } else if c == 'p' {
        MixMonitorOptionsView { play_beep: true, ..o }
    } else {
        o
    }
}

pub open spec fn mixmonitor_from(s: Seq<char>, i: int, o: MixMonitorOptionsView) -> MixMonitorOptionsView
    decreases s.len() - i,
{
    if i < 0 || i >= s.len() {
        o
    } else if mixmonitor_takes_arg(s[i]) {
        proof {
            lemma_after_paren(s, i + 1);
        }
        mixmonitor_from(s, after_paren(s, i + 1), mixmonitor_letter(o, s[i], paren_arg(s, i + 1)))
    } else {
        mixmonitor_from(s, i + 1, mixmonitor_letter(o, s[i], None))
    }
}

/// A `W` level fills in the read and write levels that were left at 0.
pub open spec fn apply_both_volume(o: MixMonitorOptionsView) -> MixMonitorOptionsView {
    if o.both_volume != 0 {
        MixMonitorOptionsView {
            read_volume: if o.read_volume == 0 {
                o.both_volume
            } else {
                o.read_volume
            },
            write_volume: if o.write_volume == 0 {
                o.both_volume
            } else {
                o.write_volume
            },
            ..o
        }
    } else {
        o
    }
}

/// The options an option string asks for.
pub open spec fn mixmonitor_options_spec(s: Seq<char>) -> MixMonitorOptionsView {
    apply_both_volume(mixmonitor_from(s, 0, no_mixmonitor_options()))
}

fn volume_of(cur: VolumeAdjust, arg: &Option<Vec<char>>) -> (r: VolumeAdjust)
    ensures
        r.level() == volume_arg(cur.level(), opt_chars(*arg)),
{
    match arg {
        Some(a) => match parse_i8(a) {
            Some(v) => VolumeAdjust::new(v),
            None => cur,
        },
        None => cur,
    }
}

fn mixmonitor_apply(o: MixMonitorOptions, c: char, arg: Option<Vec<char>>) -> (r: MixMonitorOptions)
    ensures
        r@ == mixmonitor_letter(o@, c, opt_chars(arg)),
{
    let mut o = o;
    if c == 'a' {
        o.append = true;
    } else if c == 'b' {
        o.bridge_only = true;
    } else if c == 'B' {
        o.beep_interval = match &arg {
            Some(a) => match parse_u32(a) {
                Some(n) => n,
                None => 15,
            },
            None => 15,
        };
    } else if c == 'c' {
        o.real_callerid = true;
    } else if c == 'd' {
        o.delete_on_completion = true;
    } else if c == 'v' {
        o.read_volume = volume_of(o.read_volume, &arg);
    } else if c == 'V' {
        o.write_volume = volume_of(o.write_volume, &arg);
    } else if c == 'W' {
        o.both_volume = volume_of(o.both_volume, &arg);
    } else if c == 'r' {
        o.receive_file = opt_string_of(&arg);
    } else if c == 't' {
        o.transmit_file = opt_string_of(&arg);
    } else if c == 'D' {
        o.stereo = true;
    } else if c == 'n' {
        o.no_sync_silence = true;
    } else if c == 'i' {
        o.id_variable = opt_string_of(&arg);
    } else if c == 'p' {
        o.play_beep = true;
    }
    o
}

impl MixMonitorOptions {
    /// Reads the option letters; unknown letters are ignored.
    pub fn parse(opts: &str) -> (r: Self)
        ensures
            r@ == mixmonitor_options_spec(opts@),
    {
        let v = chars_of(opts);
        let mut o = MixMonitorOptions {
            append: false,
            bridge_only: false,
            beep_interval: 0,
            delete_on_completion: false,
            read_volume: VolumeAdjust::none(),
            write_volume: VolumeAdjust::none(),
            both_volume: VolumeAdjust::none(),
            receive_file: None,
            transmit_file: None,
            stereo: false,
            no_sync_silence: false,
            id_variable: None,
            play_beep: false,
            real_callerid: false,
        };
        let mut i: usize = 0;
        while i < v.len()
            invariant
                i <= v.len(),
                v@ == opts@,
                mixmonitor_from(opts@, 0, no_mixmonitor_options()) == mixmonitor_from(
                    v@,
                    i as int,
                    o@,
                ),
            decreases v.len() - i,
        {
            let c = v[i];
            if c == 'B' || c == 'v' || c == 'V' || c == 'W' || c == 'r' || c == 't' || c == 'i' {
                let (arg, next) = read_paren(&v, i + 1);
                o = mixmonitor_apply(o, c, arg);
                i = next;
            } else {
                o = mixmonitor_apply(o, c, None);
                i = i + 1;
            }
        }
        if o.both_volume.value() != 0 {
            if o.read_volume.value() == 0 {
                o.read_volume = o.both_volume;
            }
            if o.write_volume.value() == 0 {
                o.write_volume = o.both_volume;
            }
        }
        o
    }
}

// ---------------------------------------------------------------------------
// The recording session
// ---------------------------------------------------------------------------

/// A lower-case hexadecimal digit.
pub open spec fn is_lower_hex(c: char) -> bool {
    ('0' <= c && c <= '9') || ('a' <= c && c <= 'f')
}

/// The text of a random (version 4) UUID: 36 characters, `-` at positions
/// 8, 13, 18 and 23, lower-case hexadecimal digits elsewhere, the version
/// digit `4` at position 14, and the variant digit at position 19 one of
/// `8`, `9`, `a` and `b`.
pub open spec fn random_uuid_text(s: Seq<char>) -> bool {
    &&& s.len() == 36
    &&& s[8] == '-' && s[13] == '-' && s[18] == '-' && s[23] == '-'
    &&& forall|i: int|
        0 <= i < 36 && i != 8 && i != 13 && i != 18 && i != 23 ==> is_lower_hex(#[trigger] s[i])
    &&& s[14] == '4'
    &&& s[19] == '8' || s[19] == '9' || s[19] == 'a' || s[19] == 'b'
}

/// A fresh random session id.
/// Calls `uuid::Uuid::new_v4`, which takes 128 random bits and sets the
/// version bits to 4 and the variant bits to `10`, and formats it with
/// `to_string`, the hyphenated lower-case form. The contract states that
/// form; which random digits it holds is not stated.
#[verifier::external_body]
fn new_session_id() -> (r: String)
    ensures
        random_uuid_text(r@),
{
    uuid::Uuid::new_v4().to_string()
}

/// A recording in progress.
#[derive(Debug)]
pub struct MixMonitorSession {
    pub id: String,
    pub channel_name: String,
    pub filename: String,
    pub options: MixMonitorOptions,
    pub post_command: Option<String>,
    pub status: MixMonitorStatus,
    pub started: std::time::Instant,
    pub bytes_written: u64,
    pub stop_requested: bool,
}

impl MixMonitorSession {
    /// A new active session with a fresh id, started now.
    pub fn new(channel_name: &str, filename: String, options: MixMonitorOptions, post_command: Option<String>) -> (r: Self)
        ensures
            random_uuid_text(r.id@),
            r.channel_name@ == channel_name@,
            r.filename@ == filename@,
            r.options@ == options@,
            opt_str(r.post_command) == opt_str(post_command),
            r.status == MixMonitorStatus::Active,
            r.bytes_written == 0,
            !r.stop_requested,
    {
        MixMonitorSession {
            id: new_session_id(),
            channel_name: string_from_str(channel_name),
            filename,
            options,
            post_command,
            status: MixMonitorStatus::Active,
            started: instant_now(),
            bytes_written: 0,
            stop_requested: false,
        }
    }

    /// How long the session has been running.
    pub fn elapsed(&self) -> (r: Duration) {
        instant_elapsed(&self.started)
    }

    /// Asks the recording to stop; nothing else changes.
    pub fn request_stop(&mut self)
        ensures
            final(self).stop_requested,
            final(self).id == old(self).id,
            final(self).channel_name == old(self).channel_name,
            final(self).filename == old(self).filename,
            final(self).options == old(self).options,
            final(self).post_command == old(self).post_command,
            final(self).status == old(self).status,
            final(self).started == old(self).started,
            final(self).bytes_written == old(self).bytes_written,
    {
        self.stop_requested = true;
    }
}

/// The arguments of `MixMonitor(file[,options[,command]])`.
#[derive(Debug)]
pub struct MixMonitorArgs {
    pub filename: String,
    pub options: MixMonitorOptions,
    pub post_command: Option<String>,
}

pub open spec fn mixmonitor_parts(s: Seq<char>) -> Seq<Seq<char>> {
    splitn_spec(s, 3, ',')
}

impl MixMonitorArgs {
    /// Parses the arguments; `None` when the file name is blank.
    pub fn parse(args: &str) -> (r: Option<Self>)
        ensures
            ({
                let p = mixmonitor_parts(args@);
                match r {
                    None => trim(p[0]).len() == 0,
                    Some(a) => {
                        &&& trim(p[0]).len() > 0
                        &&& a.filename@ == trim(p[0])
                        &&& a.options@ == (if p.len() > 1 {
                            mixmonitor_options_spec(trim(p[1]))
                        } else {
                            no_mixmonitor_options()
                        })
                        &&& opt_str(a.post_command) == nonempty(trimmed_piece(p, 2))
                    },
                }
            }),
    {
        let v = chars_of(args);
        let parts = splitn(&v, 3, ',');
        proof {
            lemma_chars_deep_view(parts@[0]);
        }
        let name = trim_chars(&parts[0]);
        if name.len() == 0 {
            return None;
        }
        let options = if parts.len() > 1 {
            proof {
                lemma_chars_deep_view(parts@[1]);
            }
            let o = string_of(&trim_chars(&parts[1]));
            MixMonitorOptions::parse(o.as_str())
        } else {
            let o = MixMonitorOptions::parse("");
            assert(mixmonitor_options_spec(""@) == no_mixmonitor_options()) by {
                reveal_strlit("");
            }
            o
        };
        let cmd = trimmed_piece_of(&parts, 2);
        Some(MixMonitorArgs { filename: string_of(&name), options, post_command: nonempty_string(&cmd) })
    }

    /// Where the recording goes: an absolute file name as it is, a relative
    /// one under the monitor directory.
    pub fn output_path(&self) -> (r: String)
        ensures
            r@ == path_join(default_monitor_dir(), self.filename@),
    {
        let dir = string_from_str("/var/spool/asterisk/monitor");
        proof {
            reveal_strlit("/var/spool/asterisk/monitor");
        }
        path_join_strings(&dir, &self.filename)
    }
}

/// The `MixMonitor()` dialplan application.
#[derive(Debug)]
pub struct AppMixMonitor;

impl DialplanApp for AppMixMonitor {
    fn name(&self) -> (r: &str)
        ensures
            r@ == "MixMonitor"@,
    {
        "MixMonitor"
    }

    fn description(&self) -> (r: &str)
        ensures
            r@ == "Record a call and mix the audio during the recording"@,
    {
        "Record a call and mix the audio during the recording"
    }
}

/// The `StopMixMonitor()` dialplan application.
#[derive(Debug)]
pub struct AppStopMixMonitor;

impl DialplanApp for AppStopMixMonitor {
    fn name(&self) -> (r: &str)
        ensures
            r@ == "StopMixMonitor"@,
    {
        "StopMixMonitor"
    }

    fn description(&self) -> (r: &str)
        ensures
            r@ == "Stop an active MixMonitor recording"@,
    {
        "Stop an active MixMonitor recording"
    }
}

} // verus!
