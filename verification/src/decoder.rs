//! The decode path: what a hardware decoder is asked to do for a buffer, and
//! what becomes of its answers.
//!
//! The hardware itself is not in this library. A caller asks
//! [`Decoder::prepare`] what to hand to it, does that, and reports the
//! status codes to [`Decoder::decode_blocking`], which keeps the state of the
//! session and gives the result of the call.

use vstd::prelude::*;
use crate::annex_b::annex_b_units;
use crate::classify::{
    classify_first_contact, classify_steady_state, first_contact_of, steady_state_of,
};
use crate::framing::{annex_b_to_length_prefixed, length_prefixed_record};
use crate::media::{
    write_to_buffer, CMFormatDescription, CVBuffer, OpaqueVTDecompressionSession,
};

verus! {

/// Why a buffer was not decoded.
#[derive(Copy, Clone, Debug, PartialEq, Eq, Structural)]
pub enum DecodeError {
    /// The hardware refused to create a session; the status it gave.
    InitializationError(i32),
    /// No session yet, and the buffer holds no video parameter set.
    MissingVpsNalUnit,
    /// No session yet, and the buffer holds no sequence parameter set.
    MissingSpsNalUnit,
    /// No session yet, and the buffer holds no picture parameter set.
    MissingPpsNalUnit,
    /// No session yet, and the buffer holds no IDR slice.
    MissingIFrame,
    /// The buffer holds no slice that a running decoder can take.
    MissingPFrame,
    /// The hardware refused to wrap the frame in a block buffer.
    BlockBufferCreationError(i32),
    /// The hardware refused to wrap the block buffer in a sample buffer.
    SampleBufferCreationError(i32),
    /// The slice is too long for a length prefix.
    MalformedBitstream,
}

/// The status codes that the hardware gave while it worked on a request.
/// Zero means success. A step that was not taken is reported as zero.
#[derive(Copy, Clone, Debug, PartialEq, Eq, Structural)]
pub struct HardwareReport {
    /// From creating the session. Read only if the request asked for one.
    pub session_status: i32,
    /// From wrapping the sample in a block buffer.
    pub block_buffer_status: i32,
    /// From wrapping the block buffer in a sample buffer.
    pub sample_buffer_status: i32,
}

/// The mathematical view of a request.
pub struct RequestView {
    /// The parameter sets to create a session from, if one is to be created.
    pub parameter_sets: Option<Seq<Seq<u8>>>,
    /// The slice to decode, behind its length prefix.
    pub sample: Seq<u8>,
}

/// What the hardware is to do for one buffer.
#[derive(Debug)]
pub struct DecodeRequest {
    /// Create a session for this format first, dropping an earlier one.
    pub format_description: Option<CMFormatDescription>,
    /// The one sample to decode: a slice behind its length prefix.
    pub sample: Vec<u8>,
}

impl View for DecodeRequest {
    type V = RequestView;

    open spec fn view(&self) -> RequestView {
        RequestView {
            parameter_sets: match self.format_description {
                Some(format) => Some(format@),
                None => None,
            },
            sample: self.sample@,
        }
    }
}

/// The request to decode `slice`, which fails if `slice` is too long for a
/// length prefix.
pub open spec fn framed_request(parameter_sets: Option<Seq<Seq<u8>>>, slice: Seq<u8>) -> Result<
    RequestView,
    DecodeError,
> {
    if slice.len() > u32::MAX {
        Err(DecodeError::MalformedBitstream)
    } else {
        Ok(RequestView { parameter_sets, sample: length_prefixed_record(slice) })
    }
}

/// The request that the buffer `src` leads to.
///
/// Without a session the buffer must hold all three parameter sets and an
/// IDR slice; the session is created from the sets and the slice is decoded.
/// With a session the last reference slice is decoded.
pub open spec fn request_of(has_session: bool, src: Seq<u8>) -> Result<RequestView, DecodeError> {
    let units = annex_b_units(src);
    if has_session {
        match steady_state_of(units) {
            Ok(slice) => framed_request(None, slice),
            Err(e) => Err(e),
        }
    } else {
        match first_contact_of(units) {
            Ok(key_frame) => framed_request(
                Some(seq![key_frame.vps, key_frame.sps, key_frame.pps]),
                key_frame.idr,
            ),
            Err(e) => Err(e),
        }
    }
}

/// What the report of the hardware means for a request: the first step that
/// failed decides.
pub open spec fn outcome_of(request: RequestView, report: HardwareReport) -> Result<
    (),
    DecodeError,
> {
    if request.parameter_sets.is_some() && report.session_status != 0 {
        Err(DecodeError::InitializationError(report.session_status))
    } else if report.block_buffer_status != 0 {
        Err(DecodeError::BlockBufferCreationError(report.block_buffer_status))
    } else if report.sample_buffer_status != 0 {
        Err(DecodeError::SampleBufferCreationError(report.sample_buffer_status))
    } else {
        Ok(())
    }
}

/// The result of decoding `src`, given what the hardware reported.
pub open spec fn decode_result(has_session: bool, src: Seq<u8>, report: HardwareReport) -> Result<
    (),
    DecodeError,
> {
    match request_of(has_session, src) {
        Ok(request) => outcome_of(request, report),
        Err(e) => Err(e),
    }
}

/// The parameter sets of the session after decoding `src`: those of the
/// request if it asked for a session and the hardware created it, else the
/// ones before.
pub open spec fn parameter_sets_after(
    current: Option<Seq<Seq<u8>>>,
    src: Seq<u8>,
    report: HardwareReport,
) -> Option<Seq<Seq<u8>>> {
    match request_of(current.is_some(), src) {
        Ok(request) => if request.parameter_sets.is_some() && report.session_status == 0 {
            request.parameter_sets
        } else {
            current
        },
        Err(_) => current,
    }
}

/// The state of the decode session: the session and the format description
/// that it was created from. There is a session exactly when there is a
/// format description.
#[derive(Debug)]
pub struct DecoderInternal {
    decode_session: Option<OpaqueVTDecompressionSession>,
    format_description: Option<CMFormatDescription>,
}

impl DecoderInternal {
    /// A session and a format description come and go together.
    #[verifier::type_invariant]
    pub closed spec fn well_formed(&self) -> bool {
        self.decode_session == if self.format_description.is_some() {
            Some(OpaqueVTDecompressionSession::spec_create())
        } else {
            None
        }
    }

    /// The parameter sets that the session was created from, if there is a
    /// session.
    pub closed spec fn parameter_sets(&self) -> Option<Seq<Seq<u8>>> {
        match self.format_description {
            Some(format) => Some(format@),
            None => None,
        }
    }

    /// What the session was created with, if there is a session.
    pub open spec fn spec_session(&self) -> Option<OpaqueVTDecompressionSession> {
        if self.spec_has_session() {
            Some(OpaqueVTDecompressionSession::spec_create())
        } else {
            None
        }
    }

    /// Whether there is a session.
    pub open spec fn spec_has_session(&self) -> bool {
        self.parameter_sets().is_some()
    }

    /// A decoder state without a session.
    pub fn new() -> (state: Self)
        ensures
            state.parameter_sets().is_none(),
    {
        Self { decode_session: None, format_description: None }
    }

    /// Whether there is a session.
    #[verifier::when_used_as_spec(spec_has_session)]
    pub fn has_session(&self) -> (active: bool)
        ensures
            active == self.spec_has_session(),
    {
        proof {
            use_type_invariant(self);
        }
        self.decode_session.is_some()
    }

    /// What the session was created with, if there is a session.
    #[verifier::when_used_as_spec(spec_session)]
    pub fn session(&self) -> (session: Option<OpaqueVTDecompressionSession>)
        ensures
            session == self.spec_session(),
    {
        proof {
            use_type_invariant(self);
        }
        self.decode_session
    }

    /// Takes note of the attempt to create a session for
    /// `format_description`. If the hardware gave a status other than zero,
    /// nothing changes; else the new session replaces the old one.
    pub fn recreate_decoder(
        &mut self,
        format_description: CMFormatDescription,
        create_status: i32,
    ) -> (created: Result<(), DecodeError>)
        ensures
            create_status != 0 ==> created == Err::<(), DecodeError>(
                DecodeError::InitializationError(create_status),
            ),
            create_status != 0 ==> final(self).parameter_sets() == old(self).parameter_sets(),
            create_status == 0 ==> created.is_ok(),
            create_status == 0 ==> final(self).parameter_sets() == Some(format_description@),
    {
        if create_status != 0 {
            return Err(DecodeError::InitializationError(create_status));
        }
        *self = DecoderInternal {
            decode_session: Some(OpaqueVTDecompressionSession::create()),
            format_description: Some(format_description),
        };
        Ok(())
    }

    /// Says what the hardware is to do for the buffer `src`, or why nothing
    /// can be done with it. The state does not change.
    pub fn prepare(&self, src: &[u8]) -> (request: Result<DecodeRequest, DecodeError>)
        ensures
            match request {
                Ok(r) => request_of(self.spec_has_session(), src@) == Ok::<
                    RequestView,
                    DecodeError,
                >(r@),
                Err(e) => request_of(self.spec_has_session(), src@) == Err::<
                    RequestView,
                    DecodeError,
                >(e),
            },
    {
        let (format_description, frame_data) = if self.has_session() {
            match classify_steady_state(src) {
                Ok(p_slice) => (None, p_slice),
                Err(e) => { return Err(e); },
            }
        } else {
            match classify_first_contact(src) {
                Ok(key_frame) => {
                    let format = CMFormatDescription::from_hevc_parameter_sets(
                        key_frame.vps,
                        key_frame.sps,
                        key_frame.pps,
                    );
                    (Some(format), key_frame.idr)
                },
                Err(e) => { return Err(e); },
            }
        };
        match annex_b_to_length_prefixed(frame_data) {
            Ok(sample) => Ok(DecodeRequest { format_description, sample }),
            Err(_) => Err(DecodeError::MalformedBitstream),
        }
    }

    /// Decodes the buffer `src`, given what the hardware reported of the
    /// request that [`DecoderInternal::prepare`] made for it.
    ///
    /// A buffer that leads to no request fails with the reason, and the
    /// report is not read. Else the first step that failed decides; a session
    /// that was created stays, also when a later step failed.
    pub fn decode(&mut self, src: &[u8], report: &HardwareReport) -> (decoded: Result<
        (),
        DecodeError,
    >)
        ensures
            decoded == decode_result(old(self).spec_has_session(), src@, *report),
            final(self).parameter_sets() == parameter_sets_after(
                old(self).parameter_sets(),
                src@,
                *report,
            ),
    {
        let request = match self.prepare(src) {
            Ok(request) => request,
            Err(e) => { return Err(e); },
        };
        match request.format_description {
            Some(format_description) => {
                match self.recreate_decoder(format_description, report.session_status) {
                    Ok(()) => {},
                    Err(e) => { return Err(e); },
                }
            },
            None => {},
        }
        if report.block_buffer_status != 0 {
            return Err(DecodeError::BlockBufferCreationError(report.block_buffer_status));
        }
        if report.sample_buffer_status != 0 {
            return Err(DecodeError::SampleBufferCreationError(report.sample_buffer_status));
        }
        Ok(())
    }
}

/// A decoder for frames of a fixed size.
#[derive(Debug)]
pub struct Decoder {
    width: u32,
    height: u32,
    decoder_internal: DecoderInternal,
}

impl Decoder {
    /// The width of a frame in pixels.
    pub closed spec fn spec_width(&self) -> u32 {
        self.width
    }

    /// The height of a frame in pixels.
    pub closed spec fn spec_height(&self) -> u32 {
        self.height
    }

    /// The parameter sets that the session was created from, if there is a
    /// session.
    pub closed spec fn parameter_sets(&self) -> Option<Seq<Seq<u8>>> {
        self.decoder_internal.parameter_sets()
    }

    /// Whether there is a session.
    pub open spec fn spec_has_session(&self) -> bool {
        self.parameter_sets().is_some()
    }

    /// What the session was created with, if there is a session.
    pub open spec fn spec_session(&self) -> Option<OpaqueVTDecompressionSession> {
        if self.spec_has_session() {
            Some(OpaqueVTDecompressionSession::spec_create())
        } else {
            None
        }
    }

    /// The size of a decoded frame in bytes, at four bytes a pixel.
    pub open spec fn frame_size(&self) -> int {
        self.spec_width() * self.spec_height() * 4
    }

    /// A decoder for frames of `width` by `height` pixels. It has no session
    /// yet: the first buffer must bring the parameter sets and a key frame.
    pub fn new(width: u32, height: u32) -> (decoder: Result<Self, DecodeError>)
        ensures
            decoder.is_ok(),
            decoder.unwrap().spec_width() == width,
            decoder.unwrap().spec_height() == height,
            decoder.unwrap().parameter_sets().is_none(),
    {
        Ok(Self { width, height, decoder_internal: DecoderInternal::new() })
    }

    /// The width of a frame in pixels.
    #[verifier::when_used_as_spec(spec_width)]
    pub fn width(&self) -> (width: u32)
        ensures
            width == self.spec_width(),
    {
        self.width
    }

    /// The height of a frame in pixels.
    #[verifier::when_used_as_spec(spec_height)]
    pub fn height(&self) -> (height: u32)
        ensures
            height == self.spec_height(),
    {
        self.height
    }

    /// Whether there is a session.
    #[verifier::when_used_as_spec(spec_has_session)]
    pub fn has_session(&self) -> (active: bool)
        ensures
            active == self.spec_has_session(),
    {
        self.decoder_internal.has_session()
    }

    /// What the session was created with, if there is a session.
    #[verifier::when_used_as_spec(spec_session)]
    pub fn session(&self) -> (session: Option<OpaqueVTDecompressionSession>)
        ensures
            session == self.spec_session(),
    {
        self.decoder_internal.session()
    }

    /// Says what the hardware is to do for the buffer `src`, or why nothing
    /// can be done with it. The decoder does not change.
    pub fn prepare(&self, src: &[u8]) -> (request: Result<DecodeRequest, DecodeError>)
        ensures
            match request {
                Ok(r) => request_of(self.spec_has_session(), src@) == Ok::<
                    RequestView,
                    DecodeError,
                >(r@),
                Err(e) => request_of(self.spec_has_session(), src@) == Err::<
                    RequestView,
                    DecodeError,
                >(e),
            },
    {
        self.decoder_internal.prepare(src)
    }

    /// Decodes the buffer `src`, given what the hardware reported of the
    /// request that [`Decoder::prepare`] made for it, and gives the size of
    /// the decoded frame in bytes.
    pub fn decode_blocking(&mut self, src: &[u8], report: &HardwareReport) -> (decoded: Result<
        usize,
        DecodeError,
    >)
        requires
            old(self).frame_size() <= u32::MAX,
        ensures
            decoded == match decode_result(old(self).spec_has_session(), src@, *report) {
                Ok(()) => Ok::<usize, DecodeError>(old(self).frame_size() as usize),
                Err(e) => Err::<usize, DecodeError>(e),
            },
            final(self).parameter_sets() == parameter_sets_after(
                old(self).parameter_sets(),
                src@,
                *report,
            ),
            final(self).spec_width() == old(self).spec_width(),
            final(self).spec_height() == old(self).spec_height(),
    {
        match self.decoder_internal.decode(src, report) {
            Ok(()) => {},
            Err(e) => { return Err(e); },
        }
        assert(self.width * self.height * 4 <= u32::MAX);
        assert(self.width * self.height <= self.width * self.height * 4) by (nonlinear_arith);
        Ok((self.width * self.height * 4) as usize)
    }
}

/// Takes a decoded image from the hardware: copies its first plane to the
/// front of `dst` and says how many bytes that were.
pub fn decode_callback(image_buffer: &CVBuffer, dst: &mut [u8]) -> (written_size: usize)
    requires
        image_buffer@.len() <= old(dst)@.len(),
    ensures
        written_size == image_buffer@.len(),
        written_size == image_buffer.spec_bytes_per_row() * image_buffer.spec_height(),
        final(dst)@ == image_buffer@ + old(dst)@.subrange(
            image_buffer@.len() as int,
            old(dst)@.len() as int,
        ),
{
    write_to_buffer(dst, image_buffer.plane_bytes())
}

} // verus!
