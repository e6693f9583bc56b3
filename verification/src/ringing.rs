//! Ringing(): indicating ringing to the caller.
use crate::DialplanApp;
use vstd::prelude::*;

verus! {

/// The `Ringing()` dialplan application.
#[derive(Debug)]
pub struct AppRinging;

impl DialplanApp for AppRinging {
    fn name(&self) -> (r: &str)
        ensures
            r@ == "Ringing"@,
    {
        "Ringing"
    }

    fn description(&self) -> (r: &str)
        ensures
            r@ == "Indicate ringing tone"@,
    {
        "Indicate ringing tone"
    }
}

} // verus!
