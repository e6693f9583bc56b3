//! ICES(): streaming the call to an Icecast server.
use crate::text::{string_of, trim, trim_str};
use crate::DialplanApp;
use vstd::prelude::*;

verus! {

/// The `ICES()` dialplan application.
#[derive(Debug)]
pub struct AppIces;

impl DialplanApp for AppIces {
    fn name(&self) -> (r: &str)
        ensures
            r@ == "ICES"@,
    {
        "ICES"
    }

    fn description(&self) -> (r: &str)
        ensures
            r@ == "Stream audio to Icecast server via ices"@,
    {
        "Stream audio to Icecast server via ices"
    }
}

impl AppIces {
    /// The trimmed configuration file; `None` (the application fails)
    /// when it is blank.
    pub fn config_of(args: &str) -> (r: Option<String>)
        ensures
            match r {
                Some(f) => f@ == trim(args@) && f@.len() > 0,
                None => trim(args@).len() == 0,
            },
    {
        let t = trim_str(args);
        if t.len() == 0 {
            None
        } else {
            Some(string_of(&t))
        }
    }
}

} // verus!
