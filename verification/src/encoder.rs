//! The encode path: what becomes of the samples that a hardware encoder
//! hands over.
//!
//! The hardware itself is not in this library. A caller creates the session
//! and submits frames, and reports the status codes here; each sample that
//! comes back is turned into an Annex-B frame by [`encode_callback`].

use vstd::prelude::*;
use crate::framing::{annex_b_of, append_annex_b, push_bytes, push_start_code, start_code};
use crate::media::{
    is_sync_sample, HevcParam, OpaqueCMSampleBuffer, OpaqueVTCompressionSession, SampleView,
};
use crate::HevcError;

verus! {

/// Why a frame was not encoded.
#[derive(Copy, Clone, Debug, PartialEq, Eq, Structural)]
pub enum EncodeError {
    /// The hardware refused to create a session; the status it gave.
    InitializationError(i32),
    /// The hardware refused to wrap the frame in a pixel buffer.
    PixelBufferCreationError(i32),
}

/// An encoder for frames of a fixed size.
#[derive(Debug)]
pub struct Encoder {
    width: u32,
    height: u32,
    encode_session: OpaqueVTCompressionSession,
}

impl Encoder {
    /// The width of a frame in pixels.
    pub closed spec fn spec_width(&self) -> u32 {
        self.width
    }

    /// The height of a frame in pixels.
    pub closed spec fn spec_height(&self) -> u32 {
        self.height
    }

    /// What the session of the encoder was created with.
    pub closed spec fn spec_session(&self) -> OpaqueVTCompressionSession {
        self.encode_session
    }

    /// An encoder for frames of `width` by `height` pixels, given the status
    /// with which the hardware created the session that
    /// [`OpaqueVTCompressionSession::create`] describes. A status other than
    /// zero is an [`EncodeError::InitializationError`].
    pub fn new(width: u32, height: u32, create_status: i32) -> (encoder: Result<
        Self,
        EncodeError,
    >)
        ensures
            create_status == 0 ==> encoder.is_ok() && encoder.unwrap().spec_width() == width
                && encoder.unwrap().spec_height() == height && encoder.unwrap().spec_session()
                == OpaqueVTCompressionSession::spec_create(width, height),
            create_status != 0 ==> encoder.is_err() && encoder.unwrap_err()
                == EncodeError::InitializationError(create_status),
    {
        if create_status != 0 {
            return Err(EncodeError::InitializationError(create_status));
        }
        let encode_session = OpaqueVTCompressionSession::create(width, height);
        Ok(Self { width, height, encode_session })
    }

    /// What the session of the encoder was created with.
    #[verifier::when_used_as_spec(spec_session)]
    pub fn session(&self) -> (session: OpaqueVTCompressionSession)
        ensures
            session == self.spec_session(),
    {
        self.encode_session
    }

    /// The width of a frame in pixels.
    #[verifier::when_used_as_spec(spec_width)]
    pub fn width(&self) -> (width: u32)
        ensures
            width == self.spec_width(),
    {
        self.width
    }

    /// The height of a frame in pixels.
    #[verifier::when_used_as_spec(spec_height)]
    pub fn height(&self) -> (height: u32)
        ensures
            height == self.spec_height(),
    {
        self.height
    }

    /// The result of encoding one frame: the status with which the hardware
    /// wrapped the frame in a pixel buffer decides. Zero gives the number of
    /// bytes that the output callback wrote, anything else a
    /// [`EncodeError::PixelBufferCreationError`].
    pub fn encode_blocking(&mut self, pixel_buffer_status: i32, written_size: usize) -> (encoded:
        Result<usize, EncodeError>)
        ensures
            pixel_buffer_status == 0 ==> encoded == Ok::<usize, EncodeError>(written_size),
            pixel_buffer_status != 0 ==> encoded == Err::<usize, EncodeError>(
                EncodeError::PixelBufferCreationError(pixel_buffer_status),
            ),
            final(self).spec_width() == old(self).spec_width(),
            final(self).spec_height() == old(self).spec_height(),
            final(self).spec_session() == old(self).spec_session(),
    {
        if pixel_buffer_status != 0 {
            return Err(EncodeError::PixelBufferCreationError(pixel_buffer_status));
        }
        Ok(written_size)
    }
}

/// The three parameter sets of a format description in Annex-B framing: the
/// video, the sequence and the picture parameter set, each behind a start
/// code.
pub open spec fn parameter_set_units(parameter_sets: Seq<Seq<u8>>) -> Seq<u8>
    recommends
        parameter_sets.len() >= 3,
{
    start_code() + parameter_sets[0] + start_code() + parameter_sets[1] + start_code()
        + parameter_sets[2]
}

/// The Annex-B frame of a sample: its units, each behind a start code, and
/// before them the parameter sets if the sample is a key frame. `None` if
/// the data of the sample is malformed.
pub open spec fn encoded_frame(sample: SampleView) -> Option<Seq<u8>> {
    match annex_b_of(sample.data) {
        Some(units) => Some(
            if is_sync_sample(sample.not_sync) {
                parameter_set_units(sample.parameter_sets) + units
            } else {
                units
            },
        ),
        None => None,
    }
}

/// Appends one parameter set of `sample_buffer` behind a start code.
fn push_parameter_set(out: &mut Vec<u8>, sample_buffer: &OpaqueCMSampleBuffer, param: HevcParam)
    requires
        param.spec_index() < sample_buffer@.parameter_sets.len(),
    ensures
        final(out)@ == old(out)@ + start_code()
            + sample_buffer@.parameter_sets[param.spec_index() as int],
{
    push_start_code(out);
    match sample_buffer.format_description().parameter_set_at(param.index()) {
        Some(set) => {
            push_bytes(out, set, 0, set.len());
            assert(set@.subrange(0, set@.len() as int) =~= set@);
        },
        None => {},
    }
}

/// Takes an encoded sample from the hardware and gives the Annex-B frame to
/// write out: before a key frame the three parameter sets, then each unit of
/// the sample with a start code in place of its length prefix.
///
/// Fails with [`HevcError::MalformedBitstream`] exactly when a length prefix
/// of the sample points behind its end.
pub fn encode_callback(sample_buffer: &OpaqueCMSampleBuffer) -> (frame: Result<Vec<u8>, HevcError>)
    requires
        is_sync_sample(sample_buffer@.not_sync) ==> sample_buffer@.parameter_sets.len() >= 3,
    ensures
        match frame {
            Ok(output) => encoded_frame(sample_buffer@) == Some(output@),
            Err(e) => e == HevcError::MalformedBitstream && encoded_frame(sample_buffer@).is_none(),
        },
{
    let is_iframe = sample_buffer.is_sync_sample();
    let hevc_data = sample_buffer.data_buffer().data_bytes();

    let mut output: Vec<u8> = Vec::new();

    if is_iframe {
        push_parameter_set(&mut output, sample_buffer, HevcParam::Vps);
        push_parameter_set(&mut output, sample_buffer, HevcParam::Sps);
        push_parameter_set(&mut output, sample_buffer, HevcParam::Pps);
        assert(output@ =~= parameter_set_units(sample_buffer@.parameter_sets));
    }
    let ghost head = output@;

    match append_annex_b(&mut output, hevc_data) {
        Ok(()) => {
            assert(!is_iframe ==> head + annex_b_of(hevc_data@).unwrap() =~= annex_b_of(
                hevc_data@,
            ).unwrap());
            Ok(output)
        },
        Err(e) => Err(e),
    }
}

} // verus!
