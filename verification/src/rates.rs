//! Baud rate, sample rate, and the samples-per-symbol they determine.

use vstd::prelude::*;

verus! {

#[derive(Clone, Copy, Debug, PartialEq, Eq, Structural)]
pub struct Rates {
    /// Symbols per second.
    pub baud_rate: u64,
    /// Samples per second.
    pub sample_rate: u64,
    /// Samples per symbol.
    pub samples_per_symbol: u64,
}

impl Rates {
    pub fn new(br: u64, sr: u64) -> (r: Rates)
        requires
            br >= 1,
        ensures
            r.baud_rate == br,
            r.sample_rate == sr,
            r.samples_per_symbol == sr as int / br as int,
    {
        Rates { baud_rate: br, sample_rate: sr, samples_per_symbol: sr / br }
    }
}

} // verus!
