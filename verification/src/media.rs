//! What this library reads of the objects that the codec's frameworks hand
//! over: times, format descriptions, sample buffers and image buffers, as
//! plain values.

use core_foundation::base::CFIndexConvertible;
use vstd::prelude::*;
use crate::framing::{be32, push_bytes};

verus! {

/// A four-character code: the four bytes as one big-endian number.
pub fn fourcc(data: &[u8; 4]) -> (code: u32)
    ensures
        code == be32(data[0], data[1], data[2], data[3]),
{
    let b0: u32 = data[0] as u32;
    let b1: u32 = data[1] as u32;
    let b2: u32 = data[2] as u32;
    let b3: u32 = data[3] as u32;
    b0 * 0x100_0000 + b1 * 0x1_0000 + b2 * 0x100 + b3
}

/// The codec type of HEVC video, `hvc1`.
pub fn hevc_codec_type() -> (code: u32)
    ensures
        code == 0x6876_6331,
{
    fourcc(&[0x68, 0x76, 0x63, 0x31])
}

/// The pixel format of decoded images, `BGRA`.
pub fn bgra_pixel_format() -> (code: u32)
    ensures
        code == 0x4247_5241,
{
    fourcc(&[0x42, 0x47, 0x52, 0x41])
}

/// A count as Core Foundation takes it, a `CFIndex`.
///
/// Calls `core_foundation::base::CFIndexConvertible::to_CFIndex` on a
/// `usize`. That function hands back the same number as an `isize`, and
/// panics on a number above `isize::MAX`, which is left out here.
#[verifier::external_body]
fn to_cf_index(count: usize) -> (index: isize)
    requires
        count <= isize::MAX,
    ensures
        index == count,
{
    count.to_CFIndex()
}

/// What a codec session is created with: the entries of its specification
/// dictionary.
#[derive(Copy, Clone, Debug, PartialEq, Eq, Structural)]
pub struct SessionSpecification {
    /// Whether the session must run on hardware.
    pub require_hardware_acceleration: bool,
    /// The number of entries in the dictionary.
    pub entry_count: isize,
}

impl SessionSpecification {
    /// The specification of every session of this library: it has one entry,
    /// which demands hardware.
    pub fn hardware_only() -> (specification: Self)
        ensures
            specification == (SessionSpecification {
                require_hardware_acceleration: true,
                entry_count: 1,
            }),
    {
        let keys: usize = 1;
        SessionSpecification { require_hardware_acceleration: true, entry_count: to_cf_index(keys) }
    }
}

/// A compression session as this library knows it: what it was created
/// with.
#[derive(Copy, Clone, Debug, PartialEq, Eq, Structural)]
pub struct OpaqueVTCompressionSession {
    /// The width of a frame in pixels.
    pub width: u32,
    /// The height of a frame in pixels.
    pub height: u32,
    /// The codec of the output.
    pub codec_type: u32,
    /// The encoder specification.
    pub specification: SessionSpecification,
}

impl OpaqueVTCompressionSession {
    /// What the session of an encoder for frames of `width` by `height`
    /// pixels is created with: HEVC output (`hvc1`), on hardware only.
    pub open spec fn spec_create(width: u32, height: u32) -> Self {
        OpaqueVTCompressionSession {
            width,
            height,
            codec_type: 0x6876_6331,
            specification: SessionSpecification {
                require_hardware_acceleration: true,
                entry_count: 1,
            },
        }
    }

    /// What the session of an encoder for frames of `width` by `height`
    /// pixels is created with: HEVC output, on hardware only.
    #[verifier::when_used_as_spec(spec_create)]
    pub fn create(width: u32, height: u32) -> (session: Self)
        ensures
            session == Self::spec_create(width, height),
    {
        OpaqueVTCompressionSession {
            width,
            height,
            codec_type: hevc_codec_type(),
            specification: SessionSpecification::hardware_only(),
        }
    }
}

/// A decompression session as this library knows it: what it was created
/// with, besides the format description.
#[derive(Copy, Clone, Debug, PartialEq, Eq, Structural)]
pub struct OpaqueVTDecompressionSession {
    /// The pixel format of the decoded images.
    pub pixel_format: u32,
    /// The decoder specification.
    pub specification: SessionSpecification,
}

impl OpaqueVTDecompressionSession {
    /// What the session of a decoder is created with: images in `BGRA`, on
    /// hardware only.
    pub open spec fn spec_create() -> Self {
        OpaqueVTDecompressionSession {
            pixel_format: 0x4247_5241,
            specification: SessionSpecification {
                require_hardware_acceleration: true,
                entry_count: 1,
            },
        }
    }

    /// What the session of a decoder is created with: BGRA images, on
    /// hardware only.
    #[verifier::when_used_as_spec(spec_create)]
    pub fn create() -> (session: Self)
        ensures
            session == Self::spec_create(),
    {
        OpaqueVTDecompressionSession {
            pixel_format: bgra_pixel_format(),
            specification: SessionSpecification::hardware_only(),
        }
    }
}

/// A point in time or a duration: `value` ticks of `1 / timescale` seconds.
#[derive(Copy, Clone, Debug, PartialEq, Eq, Structural)]
pub struct CMTime {
    pub value: i64,
    pub timescale: i32,
    pub flags: u32,
    pub epoch: i64,
}

impl CMTime {
    /// The time stamp that every encoded frame is given: tick 0 of a clock
    /// that counts seconds.
    pub fn frame_time() -> (time: CMTime)
        ensures
            time == (CMTime { value: 0, timescale: 1, flags: 0, epoch: 0 }),
    {
        CMTime { value: 0, timescale: 1, flags: 0, epoch: 0 }
    }

    /// The invalid time, which stands for "no duration" and for "all frames".
    pub fn invalid() -> (time: CMTime)
        ensures
            time == (CMTime { value: 0, timescale: 0, flags: 0, epoch: 0 }),
    {
        CMTime { value: 0, timescale: 0, flags: 0, epoch: 0 }
    }
}

/// The parameter sets of an HEVC stream. Their places in a format
/// description are fixed.
#[derive(Copy, Clone, Debug, PartialEq, Eq, Structural)]
pub enum HevcParam {
    Vps,
    Sps,
    Pps,
}

impl HevcParam {
    /// The place of this parameter set in a format description.
    pub open spec fn spec_index(&self) -> usize {
        match self {
            HevcParam::Vps => 0,
            HevcParam::Sps => 1,
            HevcParam::Pps => 2,
        }
    }

    /// The place of this parameter set in a format description.
    #[verifier::when_used_as_spec(spec_index)]
    pub fn index(&self) -> (index: usize)
        ensures
            index == self.spec_index(),
    {
        match self {
            HevcParam::Vps => 0,
            HevcParam::Sps => 1,
            HevcParam::Pps => 2,
        }
    }
}

/// A copy of `bytes`.
pub fn copy_of(bytes: &[u8]) -> (copy: Vec<u8>)
    ensures
        copy@ == bytes@,
{
    let mut copy: Vec<u8> = Vec::new();
    push_bytes(&mut copy, bytes, 0, bytes.len());
    assert(bytes@.subrange(0, bytes@.len() as int) =~= bytes@);
    copy
}

/// A video format description: the parameter sets it was made from, in
/// their order.
#[derive(Debug)]
pub struct CMFormatDescription {
    parameter_sets: Vec<Vec<u8>>,
}

impl View for CMFormatDescription {
    type V = Seq<Seq<u8>>;

    closed spec fn view(&self) -> Seq<Seq<u8>> {
        Seq::new(self.parameter_sets@.len(), |i: int| self.parameter_sets@[i]@)
    }
}

impl CMFormatDescription {
    /// The description of a stream with the given three parameter sets.
    pub fn from_hevc_parameter_sets(vps: &[u8], sps: &[u8], pps: &[u8]) -> (format: Self)
        ensures
            format@ == seq![vps@, sps@, pps@],
    {
        let mut parameter_sets: Vec<Vec<u8>> = Vec::new();
        parameter_sets.push(copy_of(vps));
        parameter_sets.push(copy_of(sps));
        parameter_sets.push(copy_of(pps));
        let format = CMFormatDescription { parameter_sets };
        assert(format@ =~= seq![vps@, sps@, pps@]);
        format
    }

    /// A description without parameter sets.
    pub fn empty() -> (format: Self)
        ensures
            format@ == Seq::<Seq<u8>>::empty(),
    {
        let format = CMFormatDescription { parameter_sets: Vec::new() };
        assert(format@ =~= Seq::<Seq<u8>>::empty());
        format
    }

    /// How many parameter sets the description holds.
    pub fn parameter_set_count(&self) -> (count: usize)
        ensures
            count == self@.len(),
    {
        self.parameter_sets.len()
    }

    /// The parameter set at `index`.
    pub fn parameter_set_at(&self, index: usize) -> (set: Option<&[u8]>)
        ensures
            index < self@.len() ==> set.is_some() && set.unwrap()@ == self@[index as int],
            index >= self@.len() ==> set.is_none(),
    {
        if index < self.parameter_sets.len() {
            Some(self.parameter_sets[index].as_slice())
        } else {
            None
        }
    }
}

/// Fetches one parameter set of a format description as bytes of its own,
/// or `None` if the description does not hold it.
pub fn get_hevc_param(format: &CMFormatDescription, param: HevcParam) -> (set: Option<Vec<u8>>)
    ensures
        param.spec_index() < format@.len() ==> set.is_some() && set.unwrap()@
            == format@[param.spec_index() as int],
        param.spec_index() >= format@.len() ==> set.is_none(),
{
    match format.parameter_set_at(param.index()) {
        Some(bytes) => Some(copy_of(bytes)),
        None => None,
    }
}

/// A block of memory that holds encoded data.
#[derive(Debug)]
pub struct OpaqueCMBlockBuffer {
    data: Vec<u8>,
}

impl View for OpaqueCMBlockBuffer {
    type V = Seq<u8>;

    closed spec fn view(&self) -> Seq<u8> {
        self.data@
    }
}

impl OpaqueCMBlockBuffer {
    /// A block that holds `data`.
    pub fn with_memory_block(data: Vec<u8>) -> (block: Self)
        ensures
            block@ == data@,
    {
        OpaqueCMBlockBuffer { data }
    }

    /// The bytes of the block.
    pub fn data_bytes(&self) -> (bytes: &[u8])
        ensures
            bytes@ == self@,
    {
        self.data.as_slice()
    }
}

/// The mathematical view of a sample buffer.
pub struct SampleView {
    /// The encoded data, in length-prefixed framing.
    pub data: Seq<u8>,
    /// The parameter sets of the format description.
    pub parameter_sets: Seq<Seq<u8>>,
    /// For each attachment dictionary its "not a sync sample" entry.
    pub not_sync: Seq<Option<bool>>,
}

/// One encoded sample as the hardware hands it over: the data, the format
/// description and, for each attachment dictionary, its "not a sync sample"
/// entry (`None` where the dictionary has none).
#[derive(Debug)]
pub struct OpaqueCMSampleBuffer {
    data_buffer: OpaqueCMBlockBuffer,
    format_description: CMFormatDescription,
    not_sync: Vec<Option<bool>>,
}

impl View for OpaqueCMSampleBuffer {
    type V = SampleView;

    closed spec fn view(&self) -> SampleView {
        SampleView {
            data: self.data_buffer@,
            parameter_sets: self.format_description@,
            not_sync: self.not_sync@,
        }
    }
}

/// Whether these attachments mark a sample as a key frame. Only the first
/// attachment dictionary counts: the sample is a key frame if that
/// dictionary says nothing of "not sync", or says `false`. A sample without
/// attachments is no key frame.
pub open spec fn is_sync_sample(not_sync: Seq<Option<bool>>) -> bool {
    not_sync.len() > 0 && (not_sync[0].is_none() || not_sync[0] == Some(false))
}

impl OpaqueCMSampleBuffer {
    /// A sample of `data` in the format `format_description`, with the given
    /// attachments.
    pub fn create(
        data_buffer: OpaqueCMBlockBuffer,
        format_description: CMFormatDescription,
        not_sync: Vec<Option<bool>>,
    ) -> (sample: Self)
        ensures
            sample@ == (SampleView {
                data: data_buffer@,
                parameter_sets: format_description@,
                not_sync: not_sync@,
            }),
    {
        OpaqueCMSampleBuffer { data_buffer, format_description, not_sync }
    }

    /// The encoded data.
    pub fn data_buffer(&self) -> (block: &OpaqueCMBlockBuffer)
        ensures
            block@ == self@.data,
    {
        &self.data_buffer
    }

    /// The size of the encoded data in bytes.
    pub fn total_sample_size(&self) -> (size: usize)
        ensures
            size == self@.data.len(),
    {
        self.data_buffer.data_bytes().len()
    }

    /// The format description.
    pub fn format_description(&self) -> (format: &CMFormatDescription)
        ensures
            format@ == self@.parameter_sets,
    {
        &self.format_description
    }

    /// Whether the sample is a key frame.
    pub fn is_sync_sample(&self) -> (sync: bool)
        ensures
            sync == is_sync_sample(self@.not_sync),
    {
        if self.not_sync.len() > 0 {
            match self.not_sync[0] {
                Some(not_sync) => !not_sync,
                None => true,
            }
        } else {
            false
        }
    }
}

/// The first plane of a decoded image: its rows, row after row.
#[derive(Debug)]
pub struct CVBuffer {
    bytes_per_row: usize,
    height: usize,
    plane: Vec<u8>,
}

impl View for CVBuffer {
    type V = Seq<u8>;

    closed spec fn view(&self) -> Seq<u8> {
        self.plane@
    }
}

impl CVBuffer {
    /// The bytes in one row of the plane.
    pub closed spec fn spec_bytes_per_row(&self) -> usize {
        self.bytes_per_row
    }

    /// The rows of the plane.
    pub closed spec fn spec_height(&self) -> usize {
        self.height
    }

    /// The plane holds exactly its rows.
    #[verifier::type_invariant]
    pub closed spec fn well_formed(&self) -> bool {
        self.plane@.len() == self.bytes_per_row * self.height
    }

    /// An image plane of `height` rows of `bytes_per_row` bytes each, or
    /// `None` if `plane` is not of that size.
    pub fn with_plane(bytes_per_row: usize, height: usize, plane: Vec<u8>) -> (image: Option<
        Self,
    >)
        ensures
            image.is_some() <==> plane@.len() == bytes_per_row * height,
            image.is_some() ==> {
                &&& image.unwrap()@ == plane@
                &&& image.unwrap().spec_bytes_per_row() == bytes_per_row
                &&& image.unwrap().spec_height() == height
            },
    {
        let len = plane.len();
        match bytes_per_row.checked_mul(height) {
            Some(size) => {
                if size == len {
                    Some(CVBuffer { bytes_per_row, height, plane })
                } else {
                    None
                }
            },
            None => None,
        }
    }

    /// The bytes in one row of the plane.
    #[verifier::when_used_as_spec(spec_bytes_per_row)]
    pub fn bytes_per_row(&self) -> (bytes: usize)
        ensures
            bytes == self.spec_bytes_per_row(),
    {
        self.bytes_per_row
    }

    /// The rows of the plane.
    #[verifier::when_used_as_spec(spec_height)]
    pub fn height(&self) -> (rows: usize)
        ensures
            rows == self.spec_height(),
    {
        self.height
    }

    /// The bytes of the plane; there are `bytes_per_row() * height()` of
    /// them.
    pub fn plane_bytes(&self) -> (bytes: &[u8])
        ensures
            bytes@ == self@,
            bytes@.len() == self.spec_bytes_per_row() * self.spec_height(),
    {
        proof {
            use_type_invariant(self);
        }
        self.plane.as_slice()
    }
}

/// Writes `data` to the front of `dst` and says how many bytes were written.
/// The rest of `dst` stays as it is.
pub fn write_to_buffer(dst: &mut [u8], data: &[u8]) -> (written_size: usize)
    requires
        data@.len() <= old(dst)@.len(),
    ensures
        written_size == data@.len(),
        final(dst)@ == data@ + old(dst)@.subrange(data@.len() as int, old(dst)@.len() as int),
{
    let ghost before = dst@;
    let mut i: usize = 0;
    while i < data.len()
        invariant
            i <= data.len() <= dst@.len(),
            dst@.len() == before.len(),
            dst@ == data@.subrange(0, i as int) + before.subrange(i as int, before.len() as int),
        decreases data.len() - i,
    {
        dst[i] = data[i];
        i += 1;
        assert(dst@ =~= data@.subrange(0, i as int) + before.subrange(
            i as int,
            before.len() as int,
        ));
    }
    assert(data@.subrange(0, data@.len() as int) =~= data@);
    data.len()
}

} // verus!
