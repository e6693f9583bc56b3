//! Milliwatt(): the 1004 Hz test tone. This module holds the option letters
//! and the digital milliwatt byte pattern.
use crate::text::{chars_of, contains_char};
use crate::DialplanApp;
use vstd::prelude::*;

verus! {

/// One period of the digital milliwatt in mu-law.
pub const DIGITAL_MILLIWATT: [u8; 8] = [0x1e, 0x0b, 0x0b, 0x1e, 0x9e, 0x8b, 0x8b, 0x9e];

/// The mu-law byte at position `i` of the period.
pub open spec fn milliwatt_byte(i: int) -> u8 {
    if i == 0 || i == 3 {
        0x1e
    } else if i == 1 || i == 2 {
        0x0b
    } else if i == 4 || i == 7 {
        0x9e
    } else {
        0x8b
    }
}

fn milliwatt_at(i: usize) -> (r: u8)
    requires
        i < 8,
    ensures
        r == milliwatt_byte(i as int),
{
    if i == 0 || i == 3 {
        0x1e
    } else if i == 1 || i == 2 {
        0x0b
    } else if i == 4 || i == 7 {
        0x9e
    } else {
        0x8b
    }
}

/// The option letters of Milliwatt().
#[derive(Debug, Clone, Default, PartialEq, Eq, Structural)]
pub struct MilliwattOptions {
    /// `m`: the proper milliwatt test (nine seconds on, one off).
    pub milliwatt_test: bool,
    /// `o`: the old constant 1000 Hz tone.
    pub old_behavior: bool,
}

impl MilliwattOptions {
    /// Reads the option letters; unknown letters are ignored.
    pub fn parse(opts: &str) -> (r: Self)
        ensures
            r.milliwatt_test == opts@.contains('m'),
            r.old_behavior == opts@.contains('o'),
    {
        let v = chars_of(opts);
        MilliwattOptions { milliwatt_test: contains_char(&v, 'm'), old_behavior: contains_char(&v, 'o') }
    }
}

/// The `Milliwatt()` dialplan application.
#[derive(Debug)]
pub struct AppMilliwatt;

impl DialplanApp for AppMilliwatt {
    fn name(&self) -> (r: &str)
        ensures
            r@ == "Milliwatt"@,
    {
        "Milliwatt"
    }

    fn description(&self) -> (r: &str)
        ensures
            r@ == "Generate a Constant 1004 Hz tone at 0dbm (mu-law)"@,
    {
        "Generate a Constant 1004 Hz tone at 0dbm (mu-law)"
    }
}

impl AppMilliwatt {
    pub const SAMPLE_RATE: u32 = 8000;
    pub const TONE_FREQ: u32 = 1004;
    pub const TONE_AMPLITUDE: u32 = 23255;

    /// Fills `buf` with the milliwatt pattern starting at pattern position
    /// `start_index` (taken modulo 8) and returns the position after the
    /// last byte written, modulo 8.
    pub fn generate_samples(buf: &mut [u8], start_index: usize) -> (r: usize)
        requires
            start_index + old(buf)@.len() <= usize::MAX,
        ensures
            final(buf)@.len() == old(buf)@.len(),
            forall|k: int|
                0 <= k < final(buf)@.len() ==> final(buf)@[k] == milliwatt_byte(
                    (start_index + k) % 8,
                ),
            r == (start_index + old(buf)@.len()) % 8,
    {
        let n = buf.len();
        let mut idx = start_index;
        let mut k: usize = 0;
        while k < n
            invariant
                n == buf@.len(),
                n == old(buf)@.len(),
                k <= n,
                idx == start_index + k,
                start_index + n <= usize::MAX,
                forall|j: int| 0 <= j < k ==> buf@[j] == milliwatt_byte((start_index + j) % 8),
            decreases n - k,
        {
            buf[k] = milliwatt_at(idx % 8);
            idx = idx + 1;
            k = k + 1;
        }
        idx % 8
    }
}

} // verus!
