//! Hangup(): ending the call.
use crate::text::{chars_of, parse_u32, parse_u32_spec, trim, trim_chars};
use crate::{DialplanApp, HangupCause};
use vstd::prelude::*;

verus! {

/// The `Hangup()` dialplan application.
#[derive(Debug)]
pub struct AppHangup;

impl DialplanApp for AppHangup {
    fn name(&self) -> (r: &str)
        ensures
            r@ == "Hangup"@,
    {
        "Hangup"
    }

    fn description(&self) -> (r: &str)
        ensures
            r@ == "Hangup the calling channel"@,
    {
        "Hangup the calling channel"
    }
}

/// The cause a Q.850 number stands for; unknown numbers clear normally.
pub open spec fn cause_of_code(code: u32) -> HangupCause {
    if code == 0 {
        HangupCause::NotDefined
    } else if code == 1 {
        HangupCause::UnallocatedNumber
    } else if code == 2 {
        HangupCause::NoRouteTransitNet
    } else if code == 3 {
        HangupCause::NoRouteDestination
    } else if code == 6 {
        HangupCause::ChannelUnacceptable
    } else if code == 17 {
        HangupCause::UserBusy
    } else if code == 18 {
        HangupCause::NoUserResponse
    } else if code == 19 {
        HangupCause::NoAnswer
    } else if code == 20 {
        HangupCause::SubscriberAbsent
    } else if code == 21 {
        HangupCause::CallRejected
    } else if code == 22 {
        HangupCause::NumberChanged
    } else if code == 27 {
        HangupCause::DestinationOutOfOrder
    } else if code == 28 {
        HangupCause::InvalidNumberFormat
    } else if code == 31 {
        HangupCause::NormalUnspecified
    } else if code == 34 {
        HangupCause::NormalCircuitCongestion
    } else if code == 38 {
        HangupCause::NetworkOutOfOrder
    } else if code == 41 {
        HangupCause::NormalTemporaryFailure
    } else if code == 42 {
        HangupCause::SwitchCongestion
    } else if code == 127 {
        HangupCause::Interworking
    } else {
        HangupCause::NormalClearing
    }
}

/// The cause a Q.850 number stands for; unknown numbers clear normally.
pub fn hangup_cause_from_code(code: u32) -> (r: HangupCause)
    ensures
        r == cause_of_code(code),
{
    match code {
        0 => HangupCause::NotDefined,
        1 => HangupCause::UnallocatedNumber,
        2 => HangupCause::NoRouteTransitNet,
        3 => HangupCause::NoRouteDestination,
        6 => HangupCause::ChannelUnacceptable,
        16 => HangupCause::NormalClearing,
        17 => HangupCause::UserBusy,
        18 => HangupCause::NoUserResponse,
        19 => HangupCause::NoAnswer,
        20 => HangupCause::SubscriberAbsent,
        21 => HangupCause::CallRejected,
        22 => HangupCause::NumberChanged,
        27 => HangupCause::DestinationOutOfOrder,
        28 => HangupCause::InvalidNumberFormat,
        31 => HangupCause::NormalUnspecified,
        34 => HangupCause::NormalCircuitCongestion,
        38 => HangupCause::NetworkOutOfOrder,
        41 => HangupCause::NormalTemporaryFailure,
        42 => HangupCause::SwitchCongestion,
        127 => HangupCause::Interworking,
        _ => HangupCause::NormalClearing,
    }
}

impl AppHangup {
    /// The cause Hangup() ends the call with: normal clearing without an
    /// argument or when it is no number, else the cause its number
    /// stands for.
    pub fn cause_for(args: &str) -> (r: HangupCause)
        ensures
            r == if args@.len() == 0 {
                HangupCause::NormalClearing
            } else {
                match parse_u32_spec(trim(args@)) {
                    Some(code) => cause_of_code(code),
                    None => HangupCause::NormalClearing,
                }
            },
    {
        let v = chars_of(args);
        if v.len() == 0 {
            return HangupCause::NormalClearing;
        }
        match parse_u32(&trim_chars(&v)) {
            Some(code) => hangup_cause_from_code(code),
            None => HangupCause::NormalClearing,
        }
    }
}

} // verus!
