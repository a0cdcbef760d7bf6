//! Encoding and decoding of raw 16-bit PCM audio to and from Ogg Opus
//! streams, with verified framing, header layout and granule-position
//! arithmetic. The Ogg page layer is an outside crate behind trusted
//! wrappers; the raw Opus frame primitive is the caller's, driven one
//! packet at a time through the `EncodeStream` and `DecodeStream` state
//! machines.
use vstd::prelude::*;

pub mod common;
pub mod decode;
pub mod encode;
pub mod ogg_ext;
pub mod roundtrip;

verus! {

/// Errors surfaced by the encode and decode pipelines.
#[derive(Debug, Clone, Copy, PartialEq, Eq, Structural)]
pub enum Error {
    /// A header magic, version, size or channel-count violation in decode input.
    MalformedAudio,
    /// A requested sample rate outside the supported enumeration.
    InvalidSampleRate,
    /// The Opus primitive rejected its configuration or data.
    CodecFailure,
    /// The Ogg container reader or writer failed.
    IOFailure,
}

} // verus!

