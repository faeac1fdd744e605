//! A streaming software modem core.
//!
//! Digital modulation turns a stream of message bits into a stream of
//! quadrature (I, Q) samples.  Every quantity that decides the shape of the
//! waveform here is discrete: symbol values packed from bits, constellation
//! coordinates, and phase angles that are exact rational fractions of a full
//! turn.  Scaling by an amplitude and evaluating the trigonometric functions
//! on these angles is left to the surrounding (unverified) front end, which
//! also performs all I/O.

pub mod angle;
pub mod carrier;
pub mod data;
pub mod digital;
pub mod freq;
pub mod modulator;
pub mod rates;
