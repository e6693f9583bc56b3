//! DumpChan(): writing a channel's information to the log.
use crate::DialplanApp;
use vstd::prelude::*;

verus! {

/// The `DumpChan()` dialplan application.
#[derive(Debug)]
pub struct AppDumpChan;

impl DialplanApp for AppDumpChan {
    fn name(&self) -> (r: &str)
        ensures
            r@ == "DumpChan"@,
    {
        "DumpChan"
    }

    fn description(&self) -> (r: &str)
        ensures
            r@ == "Dump channel info and variables to the log"@,
    {
        "Dump channel info and variables to the log"
    }
}

} // verus!
