//! Framing and classification of HEVC (H.265) byte streams for a hardware
//! video codec.
//!
//! * [`nal`]: the types of NAL units.
//! * [`annex_b`]: splitting an Annex-B buffer into its units.
//! * [`classify`]: picking the parameter sets and slices that a decoder needs.
//! * [`framing`]: converting between length prefixes and start codes.
//! * [`stream`]: what holds of whole streams in both framings.
//! * [`media`]: the objects of the codec's frameworks as plain values.
//! * [`decoder`], [`encoder`]: what the hardware is asked to do, and what
//!   becomes of its answers. The hardware itself is driven by the caller.
//!
//! The functions are verified: they do not panic, and they return what
//! their contracts say. The one exception is the conversion of a count to a
//! `CFIndex` in [`media`], which is Core Foundation's and is taken on trust.

use vstd::prelude::*;

pub mod annex_b;
pub mod classify;
pub mod decoder;
pub mod encoder;
pub mod framing;
pub mod media;
pub mod nal;
pub mod stream;

pub use annex_b::{nal_units, Nal, NalIterator, NalUnit};
pub use decoder::{
    decode_callback, DecodeError, DecodeRequest, Decoder, DecoderInternal, HardwareReport,
};
pub use encoder::{encode_callback, EncodeError, Encoder};
pub use framing::{annex_b_to_length_prefixed, length_prefixed_to_annex_b};
pub use media::{
    fourcc, get_hevc_param, CMFormatDescription, CMTime, CVBuffer, HevcParam, OpaqueCMBlockBuffer,
    OpaqueCMSampleBuffer, OpaqueVTCompressionSession, OpaqueVTDecompressionSession,
    SessionSpecification,
};
pub use nal::NalType;

verus! {

/// What can be wrong with the bytes of a stream.
#[derive(Copy, Clone, Debug, PartialEq, Eq, Structural)]
pub enum HevcError {
    /// A byte that is no NAL unit type.
    InvalidNalType(u8),
    /// A length prefix that points behind the end of its buffer, or a unit
    /// that is too long for a length prefix.
    MalformedBitstream,
}

} // verus!
