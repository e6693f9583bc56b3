//! SendImage(): sending an image to the channel.
use crate::text::{string_of, trim, trim_str};
use crate::DialplanApp;
use vstd::prelude::*;

verus! {

/// The `SendImage()` dialplan application.
#[derive(Debug)]
pub struct AppSendImage;

impl DialplanApp for AppSendImage {
    fn name(&self) -> (r: &str)
        ensures
            r@ == "SendImage"@,
    {
        "SendImage"
    }

    fn description(&self) -> (r: &str)
        ensures
            r@ == "Send an image to the channel"@,
    {
        "Send an image to the channel"
    }
}

impl AppSendImage {
    /// The trimmed file name to send; `None` (the application fails) when
    /// it is blank.
    pub fn file_of(args: &str) -> (r: Option<String>)
        ensures
            match r {
                Some(f) => f@ == trim(args@) && f@.len() > 0,
                None => trim(args@).len() == 0,
            },
    {
        let t = trim_str(args);
        if t.len() == 0 {
            None
        } else {
            Some(string_of(&t))
        }
    }
}

} // verus!
