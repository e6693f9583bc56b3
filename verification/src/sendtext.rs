//! SendText(): sending a text message on a channel. This module holds the
//! SENDTEXTSTATUS and SENDTEXTTYPE values and which body is sent.
use crate::DialplanApp;
use vstd::prelude::*;

verus! {

/// SENDTEXTSTATUS values.
#[derive(Debug, Clone, Copy, PartialEq, Eq, Structural)]
pub enum SendTextStatus {
    Success,
    Failure,
    Unsupported,
}

impl SendTextStatus {
    pub open spec fn text(self) -> Seq<char> {
        match self {
            SendTextStatus::Success => "SUCCESS"@,
            SendTextStatus::Failure => "FAILURE"@,
            SendTextStatus::Unsupported => "UNSUPPORTED"@,
        }
    }

    /// The SENDTEXTSTATUS text of this status.
    pub fn as_str(&self) -> (r: &'static str)
        ensures
            r@ == self.text(),
    {
        match self {
            SendTextStatus::Success => "SUCCESS",
            SendTextStatus::Failure => "FAILURE",
            SendTextStatus::Unsupported => "UNSUPPORTED",
        }
    }
}

/// SENDTEXTTYPE values.
#[derive(Debug, Clone, Copy, PartialEq, Eq, Structural)]
pub enum SendTextType {
    /// Nothing was sent (SENDTEXTTYPE `NONE`).
    Nothing,
    Basic,
    Enhanced,
}

impl SendTextType {
    pub open spec fn text(self) -> Seq<char> {
        match self {
            SendTextType::Nothing => "NONE"@,
            SendTextType::Basic => "BASIC"@,
            SendTextType::Enhanced => "ENHANCED"@,
        }
    }

    /// The SENDTEXTTYPE text of this type.
    pub fn as_str(&self) -> (r: &'static str)
        ensures
            r@ == self.text(),
    {
        match self {
            SendTextType::Nothing => "NONE",
            SendTextType::Basic => "BASIC",
            SendTextType::Enhanced => "ENHANCED",
        }
    }
}

/// The `SendText()` dialplan application.
#[derive(Debug)]
pub struct AppSendText;

impl DialplanApp for AppSendText {
    fn name(&self) -> (r: &str)
        ensures
            r@ == "SendText"@,
    {
        "SendText"
    }

    fn description(&self) -> (r: &str)
        ensures
            r@ == "Send a Text Message on a channel"@,
    {
        "Send a Text Message on a channel"
    }
}

impl AppSendText {
    /// The body sent: SENDTEXT_BODY when it is set and not empty, else the
    /// argument.
    pub fn body_of(args: &str, body_var: Option<&str>) -> (r: String)
        ensures
            r@ == match body_var {
                Some(b) => if b@.len() > 0 {
                    b@
                } else {
                    args@
                },
                None => args@,
            },
    {
        match body_var {
            Some(b) => if !b.is_empty() {
                b.to_owned()
            } else {
                args.to_owned()
            },
            None => args.to_owned(),
        }
    }

    /// The status and type set for a body: nothing to send is a success of
    /// type NONE, a text is sent as BASIC.
    pub fn outcome(body: &str) -> (r: (SendTextStatus, SendTextType))
        ensures
            r.0 == SendTextStatus::Success,
            r.1 == if body@.len() == 0 {
                SendTextType::Nothing
            } else {
                SendTextType::Basic
            },
    {
        if body.is_empty() {
            (SendTextStatus::Success, SendTextType::Nothing)
        } else {
            (SendTextStatus::Success, SendTextType::Basic)
        }
    }
}

} // verus!
