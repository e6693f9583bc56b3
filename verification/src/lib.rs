//! Dialplan application logic: argument and option parsers, status values,
//! and the decision rules of the applications.
pub mod text;
pub mod time;
pub mod opts;
pub mod call_queue;
pub mod dial;
pub mod dial_teardown;
pub mod dictate;
pub mod directory;
pub mod disa;
pub mod dumpchan;
pub mod echo;
pub mod exec;
pub mod external_ivr;
pub mod festival;
pub mod followme;
pub mod forkcdr;
pub mod goto;
pub mod hangup;
pub mod ices;
pub mod if_;
pub mod image;
pub mod ivrdemo;
pub mod jack;
pub mod macro_;
pub mod media_pump;
pub mod milliwatt;
pub mod minivm;
pub mod mixmonitor;
pub mod morsecode;
pub mod mp3;
pub mod nbscat;
pub mod originate;
pub mod page;
pub mod pickup;
pub mod pin_gate;
pub mod playback;
pub mod playtones;
pub mod privacy;
pub mod queue;
pub mod read;
pub mod readexten;
pub mod record;
pub mod ringing;
pub mod saycounted;
pub mod sayunixtime;
pub mod senddtmf;
pub mod sendtext;
pub mod set;

pub use dial::{
    AnnouncementSpec, AppDial, CallLimit, DialArgs, DialBeginEvent, DialDestination, DialEndEvent,
    DialOptions, DialStatus, DialplanLocation, DtmfSendSpec,
};

use vstd::prelude::*;

verus! {

/// Result returned by a dialplan application execution.
#[derive(Debug, Clone, Copy, PartialEq, Eq, Structural)]
pub enum PbxExecResult {
    /// Application executed successfully, continue to next priority.
    Success,
    /// Application failed, but continue execution.
    Failed,
    /// Channel was hung up during application execution.
    Hangup,
}

/// What every dialplan application tells about itself.
pub trait DialplanApp {
    /// The name of the application as used in extensions.conf.
    fn name(&self) -> &str;

    /// A short description of the application.
    fn description(&self) -> &str;
}

/// The Q.850 causes a channel is hung up with.
#[derive(Debug, Clone, Copy, PartialEq, Eq, Structural)]
pub enum HangupCause {
    NotDefined,
    UnallocatedNumber,
    NoRouteTransitNet,
    NoRouteDestination,
    ChannelUnacceptable,
    NormalClearing,
    UserBusy,
    NoUserResponse,
    NoAnswer,
    SubscriberAbsent,
    CallRejected,
    NumberChanged,
    DestinationOutOfOrder,
    InvalidNumberFormat,
    NormalUnspecified,
    NormalCircuitCongestion,
    NetworkOutOfOrder,
    NormalTemporaryFailure,
    SwitchCongestion,
    Interworking,
    /// Any other cause, by its number.
    Other(u32),
}

impl HangupCause {
    /// The Q.850 number of the cause.
    pub open spec fn number(self) -> u32 {
        match self {
            HangupCause::NotDefined => 0,
            HangupCause::UnallocatedNumber => 1,
            HangupCause::NoRouteTransitNet => 2,
            HangupCause::NoRouteDestination => 3,
            HangupCause::ChannelUnacceptable => 6,
            HangupCause::NormalClearing => 16,
            HangupCause::UserBusy => 17,
            HangupCause::NoUserResponse => 18,
            HangupCause::NoAnswer => 19,
            HangupCause::SubscriberAbsent => 20,
            HangupCause::CallRejected => 21,
            HangupCause::NumberChanged => 22,
            HangupCause::DestinationOutOfOrder => 27,
            HangupCause::InvalidNumberFormat => 28,
            HangupCause::NormalUnspecified => 31,
            HangupCause::NormalCircuitCongestion => 34,
            HangupCause::NetworkOutOfOrder => 38,
            HangupCause::NormalTemporaryFailure => 41,
            HangupCause::SwitchCongestion => 42,
            HangupCause::Interworking => 127,
            HangupCause::Other(n) => n,
        }
    }

    /// The Q.850 number of the cause.
    pub fn code(self) -> (r: u32)
        ensures
            r == self.number(),
    {
        match self {
            HangupCause::NotDefined => 0,
            HangupCause::UnallocatedNumber => 1,
            HangupCause::NoRouteTransitNet => 2,
            HangupCause::NoRouteDestination => 3,
            HangupCause::ChannelUnacceptable => 6,
            HangupCause::NormalClearing => 16,
            HangupCause::UserBusy => 17,
            HangupCause::NoUserResponse => 18,
            HangupCause::NoAnswer => 19,
            HangupCause::SubscriberAbsent => 20,
            HangupCause::CallRejected => 21,
            HangupCause::NumberChanged => 22,
            HangupCause::DestinationOutOfOrder => 27,
            HangupCause::InvalidNumberFormat => 28,
            HangupCause::NormalUnspecified => 31,
            HangupCause::NormalCircuitCongestion => 34,
            HangupCause::NetworkOutOfOrder => 38,
            HangupCause::NormalTemporaryFailure => 41,
            HangupCause::SwitchCongestion => 42,
            HangupCause::Interworking => 127,
            HangupCause::Other(n) => n,
        }
    }
}

/// The channel technology a channel name starts with: the part before the
/// first `/` (the whole name when there is none).
pub fn channel_technology(channel_name: &str) -> (r: String)
    ensures
        r@ == if text::index_of(channel_name@, '/') >= 0 {
            channel_name@.take(text::index_of(channel_name@, '/'))
        } else {
            channel_name@
        },
{
    let v = text::chars_of(channel_name);
    match text::find_char(&v, '/') {
        Some(i) => {
            let t = text::subchars(&v, 0, i);
            assert(v@.subrange(0, i as int) =~= v@.take(i as int));
            text::string_of(&t)
        },
        None => text::string_of(&v),
    }
}

} // verus!
