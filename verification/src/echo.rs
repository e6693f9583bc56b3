//! Echo(): sending the caller's media straight back.
use crate::DialplanApp;
use vstd::prelude::*;

verus! {

/// The `Echo()` dialplan application.
#[derive(Debug)]
pub struct AppEcho;

impl DialplanApp for AppEcho {
    fn name(&self) -> (r: &str)
        ensures
            r@ == "Echo"@,
    {
        "Echo"
    }

    fn description(&self) -> (r: &str)
        ensures
            r@ == "Echo media, DTMF back to the calling party"@,
    {
        "Echo media, DTMF back to the calling party"
    }
}

} // verus!
