//! Digital phasors: per-scheme maps from symbol bits (and sample index) to a
//! discrete description of the instantaneous (I, Q) pair.

pub mod apsk;
pub mod bask;
pub mod bfsk;
pub mod bpsk;
pub mod cpfsk;
pub mod dcqpsk;
pub mod dmpsk;
pub mod dqpsk;
pub mod mfsk;
pub mod mpsk;
pub mod msk;
pub mod oqpsk;
pub mod phasor;
pub mod qam;
pub mod qpsk;
pub mod util;
