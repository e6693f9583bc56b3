//! NBScat(): streaming NBS audio to the channel.
use crate::DialplanApp;
use vstd::prelude::*;

verus! {

/// The `NBScat()` dialplan application.
#[derive(Debug)]
pub struct AppNbscat;

impl DialplanApp for AppNbscat {
    fn name(&self) -> (r: &str)
        ensures
            r@ == "NBScat"@,
    {
        "NBScat"
    }

    fn description(&self) -> (r: &str)
        ensures
            r@ == "Stream NBS audio to the channel"@,
    {
        "Stream NBS audio to the channel"
    }
}

impl AppNbscat {
    /// The program that plays the stream.
    pub const NBSCAT_CMD: &'static str = "nbscat8k";
}

} // verus!
