//! ForkCDR(): starting a new call detail record. This module holds the
//! option letters and the flags they give the fork.
use crate::text::{chars_of, contains_char};
use crate::DialplanApp;
use vstd::prelude::*;

verus! {

/// The option letters of ForkCDR().
#[derive(Debug, Clone, Default, PartialEq, Eq, Structural)]
pub struct ForkCdrOptions {
    /// `a` (or `r`): set the answer time of the new record to now.
    pub set_answer: bool,
    /// `e`: end the original record.
    pub finalize: bool,
    /// `r`: reset the new record's times.
    pub reset: bool,
    /// `v`: do not copy the variables.
    pub no_copy_vars: bool,
}

impl ForkCdrOptions {
    /// Reads the option letters; `r` implies `a`; unknown letters are
    /// ignored.
    pub fn parse(opts: &str) -> (r: Self)
        ensures
            r.set_answer == (opts@.contains('a') || opts@.contains('r')),
            r.finalize == opts@.contains('e'),
            r.reset == opts@.contains('r'),
            r.no_copy_vars == opts@.contains('v'),
    {
        let v = chars_of(opts);
        let a = contains_char(&v, 'a');
        let r = contains_char(&v, 'r');
        ForkCdrOptions {
            set_answer: a || r,
            finalize: contains_char(&v, 'e'),
            reset: r,
            no_copy_vars: contains_char(&v, 'v'),
        }
    }
}

/// What the fork does.
#[derive(Debug, Clone, Copy, PartialEq, Eq, Structural)]
pub struct CdrForkFlags {
    pub set_answer: bool,
    pub finalize: bool,
    pub reset: bool,
    pub keep_vars: bool,
}

/// The flags of a fork with these options: the variables are kept unless
/// `v` was given.
pub open spec fn fork_flags(opts: ForkCdrOptions) -> CdrForkFlags {
    CdrForkFlags {
        set_answer: opts.set_answer,
        finalize: opts.finalize,
        reset: opts.reset,
        keep_vars: !opts.no_copy_vars,
    }
}

impl<'a> From<&'a ForkCdrOptions> for CdrForkFlags {
    fn from(opts: &'a ForkCdrOptions) -> (r: Self) {
        CdrForkFlags {
            set_answer: opts.set_answer,
            finalize: opts.finalize,
            reset: opts.reset,
            keep_vars: !opts.no_copy_vars,
        }
    }
}

impl<'a> vstd::std_specs::convert::FromSpecImpl<&'a ForkCdrOptions> for CdrForkFlags {
    open spec fn obeys_from_spec() -> bool {
        true
    }

    open spec fn from_spec(opts: &'a ForkCdrOptions) -> Self {
        fork_flags(*opts)
    }
}

/// The `ForkCDR()` dialplan application.
#[derive(Debug)]
pub struct AppForkCdr;

impl DialplanApp for AppForkCdr {
    fn name(&self) -> (r: &str)
        ensures
            r@ == "ForkCDR"@,
    {
        "ForkCDR"
    }

    fn description(&self) -> (r: &str)
        ensures
            r@ == "Forks the Call Data Record"@,
    {
        "Forks the Call Data Record"
    }
}

impl AppForkCdr {
    /// The fork an option string asks for.
    pub fn flags_for(args: &str) -> (r: CdrForkFlags)
        ensures
            r.set_answer == (args@.contains('a') || args@.contains('r')),
            r.finalize == args@.contains('e'),
            r.reset == args@.contains('r'),
            r.keep_vars == !args@.contains('v'),
    {
        let options = ForkCdrOptions::parse(args);
        CdrForkFlags::from(&options)
    }
}

} // verus!
