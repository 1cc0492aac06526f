//! Digital-signal-processing core of an amplitude-demodulation radio
//! receiver: command decoding, pipeline reconfiguration state, rate-adaptation
//! ring buffer, chunk assembly and telemetry framing.
//!
//! Samples travel between the library and the audio devices as raw `u32` bit
//! patterns of the device's single-precision samples; the arithmetic on the
//! samples themselves is performed by the surrounding application.

use vstd::prelude::*;

pub mod chunk;
pub mod command;
pub mod parse;
pub mod pipeline;
pub mod ring;
pub mod telemetry;

verus! {

/// Number of samples in one chunk, the unit of transfer between stages.
pub const CHUNK_SIZE: usize = 1024;

} // verus!
