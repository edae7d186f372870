//! The NAL unit types of an HEVC (ITU-T H.265) elementary stream.
//!
//! The type of a unit is a field of six bits in the first byte of its header,
//! so it takes the values 0 to 63. Each of them has a variant of [`NalType`];
//! a byte above 63 is kept as it is in [`NalType::Unknown`].

use vstd::prelude::*;
use vstd::std_specs::convert::FromSpecImpl;

verus! {

/// The type of a NAL unit.
///
/// Types 0 to 31 belong to the video coding layer (coded slice segments),
/// types 32 to 63 do not (parameter sets, delimiters, SEI messages).
#[derive(Copy, Clone, Debug, PartialEq, Eq, Hash, Structural)]
pub enum NalType {
    /// 0: Coded slice segment of a non-TSA, non-STSA trailing picture, non-reference.
    CodedSliceTrailN,
    /// 1: Coded slice segment of a non-TSA, non-STSA trailing picture, reference.
    CodedSliceTrailR,
    /// 2: Coded slice segment of a TSA picture, non-reference.
    CodedSliceTsaN,
    /// 3: Coded slice segment of a TSA picture, reference.
    CodedSliceTsaR,
    /// 4: Coded slice segment of an STSA picture, non-reference.
    CodedSliceStsaN,
    /// 5: Coded slice segment of an STSA picture, reference.
    CodedSliceStsaR,
    /// 6: Coded slice segment of a RADL picture, non-reference.
    CodedSliceRadlN,
    /// 7: Coded slice segment of a RADL picture, reference.
    CodedSliceRadlR,
    /// 8: Coded slice segment of a RASL picture, non-reference.
    CodedSliceRaslN,
    /// 9: Coded slice segment of a RASL picture, reference.
    CodedSliceRaslR,
    /// 10: Reserved non-IRAP sub-layer non-reference VCL type.
    ReservedVclN10,
    /// 11: Reserved non-IRAP sub-layer reference VCL type.
    ReservedVclN11,
    /// 12: Reserved non-IRAP sub-layer non-reference VCL type.
    ReservedVclN12,
    /// 13: Reserved non-IRAP sub-layer reference VCL type.
    ReservedVclN13,
    /// 14: Reserved non-IRAP sub-layer non-reference VCL type.
    ReservedVclN14,
    /// 15: Reserved non-IRAP sub-layer reference VCL type.
    ReservedVclN15,
    /// 16: Coded slice segment of a BLA picture.
    CodedSliceBlaWLp,
    /// 17: Coded slice segment of a BLA picture.
    CodedSliceBlaWRadl,
    /// 18: Coded slice segment of a BLA picture.
    CodedSliceBlaNLp,
    /// 19: Coded slice segment of an IDR picture.
    CodedSliceIdrWRadl,
    /// 20: Coded slice segment of an IDR picture.
    CodedSliceIdrNLp,
    /// 21: Coded slice segment of a CRA picture.
    CodedSliceCra,
    /// 22: Reserved IRAP VCL type.
    ReservedIrapVcl22,
    /// 23: Reserved IRAP VCL type.
    ReservedIrapVcl23,
    /// 24: Reserved non-IRAP VCL type.
    ReservedVcl24,
    /// 25: Reserved non-IRAP VCL type.
    ReservedVcl25,
    /// 26: Reserved non-IRAP VCL type.
    ReservedVcl26,
    /// 27: Reserved non-IRAP VCL type.
    ReservedVcl27,
    /// 28: Reserved non-IRAP VCL type.
    ReservedVcl28,
    /// 29: Reserved non-IRAP VCL type.
    ReservedVcl29,
    /// 30: Reserved non-IRAP VCL type.
    ReservedVcl30,
    /// 31: Reserved non-IRAP VCL type.
    ReservedVcl31,
    /// 32: Video parameter set.
    Vps,
    /// 33: Sequence parameter set.
    Sps,
    /// 34: Picture parameter set.
    Pps,
    /// 35: Access unit delimiter.
    Aud,
    /// 36: End of sequence.
    Eos,
    /// 37: End of bitstream.
    Eob,
    /// 38: Filler data.
    Fd,
    /// 39: Supplemental enhancement information, prefix.
    PrefixSei,
    /// 40: Supplemental enhancement information, suffix.
    SuffixSei,
    /// 41: Reserved.
    ReservedNvcl41,
    /// 42: Reserved.
    ReservedNvcl42,
    /// 43: Reserved.
    ReservedNvcl43,
    /// 44: Reserved.
    ReservedNvcl44,
    /// 45: Reserved.
    ReservedNvcl45,
    /// 46: Reserved.
    ReservedNvcl46,
    /// 47: Reserved.
    ReservedNvcl47,
    /// 48: Unspecified.
    Unspecified48,
    /// 49: Unspecified.
    Unspecified49,
    /// 50: Unspecified.
    Unspecified50,
    /// 51: Unspecified.
    Unspecified51,
    /// 52: Unspecified.
    Unspecified52,
    /// 53: Unspecified.
    Unspecified53,
    /// 54: Unspecified.
    Unspecified54,
    /// 55: Unspecified.
    Unspecified55,
    /// 56: Unspecified.
    Unspecified56,
    /// 57: Unspecified.
    Unspecified57,
    /// 58: Unspecified.
    Unspecified58,
    /// 59: Unspecified.
    Unspecified59,
    /// 60: Unspecified.
    Unspecified60,
    /// 61: Unspecified.
    Unspecified61,
    /// 62: Unspecified.
    Unspecified62,
    /// 63: Unspecified.
    Unspecified63,
    /// A byte that is no six-bit type: 64 or more.
    Unknown(u8),
}

/// The variant that stands for the type code `code`.
pub open spec fn nal_type_of(code: u8) -> NalType {
    match code {
        0 => NalType::CodedSliceTrailN,
        1 => NalType::CodedSliceTrailR,
        2 => NalType::CodedSliceTsaN,
        3 => NalType::CodedSliceTsaR,
        4 => NalType::CodedSliceStsaN,
        5 => NalType::CodedSliceStsaR,
        6 => NalType::CodedSliceRadlN,
        7 => NalType::CodedSliceRadlR,
        8 => NalType::CodedSliceRaslN,
        9 => NalType::CodedSliceRaslR,
        10 => NalType::ReservedVclN10,
        11 => NalType::ReservedVclN11,
        12 => NalType::ReservedVclN12,
        13 => NalType::ReservedVclN13,
        14 => NalType::ReservedVclN14,
        15 => NalType::ReservedVclN15,
        16 => NalType::CodedSliceBlaWLp,
        17 => NalType::CodedSliceBlaWRadl,
        18 => NalType::CodedSliceBlaNLp,
        19 => NalType::CodedSliceIdrWRadl,
        20 => NalType::CodedSliceIdrNLp,
        21 => NalType::CodedSliceCra,
        22 => NalType::ReservedIrapVcl22,
        23 => NalType::ReservedIrapVcl23,
        24 => NalType::ReservedVcl24,
        25 => NalType::ReservedVcl25,
        26 => NalType::ReservedVcl26,
        27 => NalType::ReservedVcl27,
        28 => NalType::ReservedVcl28,
        29 => NalType::ReservedVcl29,
        30 => NalType::ReservedVcl30,
        31 => NalType::ReservedVcl31,
        32 => NalType::Vps,
        33 => NalType::Sps,
        34 => NalType::Pps,
        35 => NalType::Aud,
        36 => NalType::Eos,
        37 => NalType::Eob,
        38 => NalType::Fd,
        39 => NalType::PrefixSei,
        40 => NalType::SuffixSei,
        41 => NalType::ReservedNvcl41,
        42 => NalType::ReservedNvcl42,
        43 => NalType::ReservedNvcl43,
        44 => NalType::ReservedNvcl44,
        45 => NalType::ReservedNvcl45,
        46 => NalType::ReservedNvcl46,
        47 => NalType::ReservedNvcl47,
        48 => NalType::Unspecified48,
        49 => NalType::Unspecified49,
        50 => NalType::Unspecified50,
        51 => NalType::Unspecified51,
        52 => NalType::Unspecified52,
        53 => NalType::Unspecified53,
        54 => NalType::Unspecified54,
        55 => NalType::Unspecified55,
        56 => NalType::Unspecified56,
        57 => NalType::Unspecified57,
        58 => NalType::Unspecified58,
        59 => NalType::Unspecified59,
        60 => NalType::Unspecified60,
        61 => NalType::Unspecified61,
        62 => NalType::Unspecified62,
        63 => NalType::Unspecified63,
        byte => NalType::Unknown(byte),
    }
}

impl NalType {
    /// The byte that this type was read from: 0 to 63 for the types that the
    /// standard lists, and the byte itself for [`NalType::Unknown`].
    pub open spec fn spec_code(self) -> u8 {
        match self {
            NalType::CodedSliceTrailN => 0,
            NalType::CodedSliceTrailR => 1,
            NalType::CodedSliceTsaN => 2,
            NalType::CodedSliceTsaR => 3,
            NalType::CodedSliceStsaN => 4,
            NalType::CodedSliceStsaR => 5,
            NalType::CodedSliceRadlN => 6,
            NalType::CodedSliceRadlR => 7,
            NalType::CodedSliceRaslN => 8,
            NalType::CodedSliceRaslR => 9,
            NalType::ReservedVclN10 => 10,
            NalType::ReservedVclN11 => 11,
            NalType::ReservedVclN12 => 12,
            NalType::ReservedVclN13 => 13,
            NalType::ReservedVclN14 => 14,
            NalType::ReservedVclN15 => 15,
            NalType::CodedSliceBlaWLp => 16,
            NalType::CodedSliceBlaWRadl => 17,
            NalType::CodedSliceBlaNLp => 18,
            NalType::CodedSliceIdrWRadl => 19,
            NalType::CodedSliceIdrNLp => 20,
            NalType::CodedSliceCra => 21,
            NalType::ReservedIrapVcl22 => 22,
            NalType::ReservedIrapVcl23 => 23,
            NalType::ReservedVcl24 => 24,
            NalType::ReservedVcl25 => 25,
            NalType::ReservedVcl26 => 26,
            NalType::ReservedVcl27 => 27,
            NalType::ReservedVcl28 => 28,
            NalType::ReservedVcl29 => 29,
            NalType::ReservedVcl30 => 30,
            NalType::ReservedVcl31 => 31,
            NalType::Vps => 32,
            NalType::Sps => 33,
            NalType::Pps => 34,
            NalType::Aud => 35,
            NalType::Eos => 36,
            NalType::Eob => 37,
            NalType::Fd => 38,
            NalType::PrefixSei => 39,
            NalType::SuffixSei => 40,
            NalType::ReservedNvcl41 => 41,
            NalType::ReservedNvcl42 => 42,
            NalType::ReservedNvcl43 => 43,
            NalType::ReservedNvcl44 => 44,
            NalType::ReservedNvcl45 => 45,
            NalType::ReservedNvcl46 => 46,
            NalType::ReservedNvcl47 => 47,
            NalType::Unspecified48 => 48,
            NalType::Unspecified49 => 49,
            NalType::Unspecified50 => 50,
            NalType::Unspecified51 => 51,
            NalType::Unspecified52 => 52,
            NalType::Unspecified53 => 53,
            NalType::Unspecified54 => 54,
            NalType::Unspecified55 => 55,
            NalType::Unspecified56 => 56,
            NalType::Unspecified57 => 57,
            NalType::Unspecified58 => 58,
            NalType::Unspecified59 => 59,
            NalType::Unspecified60 => 60,
            NalType::Unspecified61 => 61,
            NalType::Unspecified62 => 62,
            NalType::Unspecified63 => 63,
            NalType::Unknown(byte) => byte,
        }
    }

    /// The byte that this type was read from.
    #[verifier::when_used_as_spec(spec_code)]
    pub fn code(self) -> (code: u8)
        ensures
            code == self.spec_code(),
    {
        match self {
            NalType::CodedSliceTrailN => 0,
            NalType::CodedSliceTrailR => 1,
            NalType::CodedSliceTsaN => 2,
            NalType::CodedSliceTsaR => 3,
            NalType::CodedSliceStsaN => 4,
            NalType::CodedSliceStsaR => 5,
            NalType::CodedSliceRadlN => 6,
            NalType::CodedSliceRadlR => 7,
            NalType::CodedSliceRaslN => 8,
            NalType::CodedSliceRaslR => 9,
            NalType::ReservedVclN10 => 10,
            NalType::ReservedVclN11 => 11,
            NalType::ReservedVclN12 => 12,
            NalType::ReservedVclN13 => 13,
            NalType::ReservedVclN14 => 14,
            NalType::ReservedVclN15 => 15,
            NalType::CodedSliceBlaWLp => 16,
            NalType::CodedSliceBlaWRadl => 17,
            NalType::CodedSliceBlaNLp => 18,
            NalType::CodedSliceIdrWRadl => 19,
            NalType::CodedSliceIdrNLp => 20,
            NalType::CodedSliceCra => 21,
            NalType::ReservedIrapVcl22 => 22,
            NalType::ReservedIrapVcl23 => 23,
            NalType::ReservedVcl24 => 24,
            NalType::ReservedVcl25 => 25,
            NalType::ReservedVcl26 => 26,
            NalType::ReservedVcl27 => 27,
            NalType::ReservedVcl28 => 28,
            NalType::ReservedVcl29 => 29,
            NalType::ReservedVcl30 => 30,
            NalType::ReservedVcl31 => 31,
            NalType::Vps => 32,
            NalType::Sps => 33,
            NalType::Pps => 34,
            NalType::Aud => 35,
            NalType::Eos => 36,
            NalType::Eob => 37,
            NalType::Fd => 38,
            NalType::PrefixSei => 39,
            NalType::SuffixSei => 40,
            NalType::ReservedNvcl41 => 41,
            NalType::ReservedNvcl42 => 42,
            NalType::ReservedNvcl43 => 43,
            NalType::ReservedNvcl44 => 44,
            NalType::ReservedNvcl45 => 45,
            NalType::ReservedNvcl46 => 46,
            NalType::ReservedNvcl47 => 47,
            NalType::Unspecified48 => 48,
            NalType::Unspecified49 => 49,
            NalType::Unspecified50 => 50,
            NalType::Unspecified51 => 51,
            NalType::Unspecified52 => 52,
            NalType::Unspecified53 => 53,
            NalType::Unspecified54 => 54,
            NalType::Unspecified55 => 55,
            NalType::Unspecified56 => 56,
            NalType::Unspecified57 => 57,
            NalType::Unspecified58 => 58,
            NalType::Unspecified59 => 59,
            NalType::Unspecified60 => 60,
            NalType::Unspecified61 => 61,
            NalType::Unspecified62 => 62,
            NalType::Unspecified63 => 63,
            NalType::Unknown(byte) => byte,
        }
    }

    /// A type of the video coding layer: a coded slice segment, code 0 to 31.
    pub open spec fn spec_is_vcl(self) -> bool {
        self.spec_code() < 32
    }

    /// Whether this is a type of the video coding layer.
    #[verifier::when_used_as_spec(spec_is_vcl)]
    pub fn is_vcl(self) -> (vcl: bool)
        ensures
            vcl == self.spec_is_vcl(),
    {
        self.code() < 32
    }

    /// One of the two IDR slice types, the key frames that a decoder can
    /// start from.
    pub open spec fn spec_is_idr(self) -> bool {
        self == NalType::CodedSliceIdrWRadl || self == NalType::CodedSliceIdrNLp
    }

    /// Whether this is one of the two IDR slice types.
    #[verifier::when_used_as_spec(spec_is_idr)]
    pub fn is_idr(self) -> (idr: bool)
        ensures
            idr == self.spec_is_idr(),
    {
        self == NalType::CodedSliceIdrWRadl || self == NalType::CodedSliceIdrNLp
    }

    /// A slice type that a running decoder is fed with: a trailing reference
    /// picture, either IDR type, or a CRA picture.
    pub open spec fn spec_is_reference_slice(self) -> bool {
        self == NalType::CodedSliceTrailR || self == NalType::CodedSliceIdrNLp
            || self == NalType::CodedSliceCra || self == NalType::CodedSliceIdrWRadl
    }

    /// Whether a running decoder is fed with this slice type.
    #[verifier::when_used_as_spec(spec_is_reference_slice)]
    pub fn is_reference_slice(self) -> (reference: bool)
        ensures
            reference == self.spec_is_reference_slice(),
    {
        self == NalType::CodedSliceTrailR || self == NalType::CodedSliceIdrNLp
            || self == NalType::CodedSliceCra || self == NalType::CodedSliceIdrWRadl
    }
}

impl From<u8> for NalType {
    /// Never fails: a byte above 63 becomes [`NalType::Unknown`].
    fn from(nal_byte: u8) -> (nal_type: Self) {
        match nal_byte {
            0 => NalType::CodedSliceTrailN,
            1 => NalType::CodedSliceTrailR,
            2 => NalType::CodedSliceTsaN,
            3 => NalType::CodedSliceTsaR,
            4 => NalType::CodedSliceStsaN,
            5 => NalType::CodedSliceStsaR,
            6 => NalType::CodedSliceRadlN,
            7 => NalType::CodedSliceRadlR,
            8 => NalType::CodedSliceRaslN,
            9 => NalType::CodedSliceRaslR,
            10 => NalType::ReservedVclN10,
            11 => NalType::ReservedVclN11,
            12 => NalType::ReservedVclN12,
            13 => NalType::ReservedVclN13,
            14 => NalType::ReservedVclN14,
            15 => NalType::ReservedVclN15,
            16 => NalType::CodedSliceBlaWLp,
            17 => NalType::CodedSliceBlaWRadl,
            18 => NalType::CodedSliceBlaNLp,
            19 => NalType::CodedSliceIdrWRadl,
            20 => NalType::CodedSliceIdrNLp,
            21 => NalType::CodedSliceCra,
            22 => NalType::ReservedIrapVcl22,
            23 => NalType::ReservedIrapVcl23,
            24 => NalType::ReservedVcl24,
            25 => NalType::ReservedVcl25,
            26 => NalType::ReservedVcl26,
            27 => NalType::ReservedVcl27,
            28 => NalType::ReservedVcl28,
            29 => NalType::ReservedVcl29,
            30 => NalType::ReservedVcl30,
            31 => NalType::ReservedVcl31,
            32 => NalType::Vps,
            33 => NalType::Sps,
            34 => NalType::Pps,
            35 => NalType::Aud,
            36 => NalType::Eos,
            37 => NalType::Eob,
            38 => NalType::Fd,
            39 => NalType::PrefixSei,
            40 => NalType::SuffixSei,
            41 => NalType::ReservedNvcl41,
            42 => NalType::ReservedNvcl42,
            43 => NalType::ReservedNvcl43,
            44 => NalType::ReservedNvcl44,
            45 => NalType::ReservedNvcl45,
            46 => NalType::ReservedNvcl46,
            47 => NalType::ReservedNvcl47,
            48 => NalType::Unspecified48,
            49 => NalType::Unspecified49,
            50 => NalType::Unspecified50,
            51 => NalType::Unspecified51,
            52 => NalType::Unspecified52,
            53 => NalType::Unspecified53,
            54 => NalType::Unspecified54,
            55 => NalType::Unspecified55,
            56 => NalType::Unspecified56,
            57 => NalType::Unspecified57,
            58 => NalType::Unspecified58,
            59 => NalType::Unspecified59,
            60 => NalType::Unspecified60,
            61 => NalType::Unspecified61,
            62 => NalType::Unspecified62,
            63 => NalType::Unspecified63,
            byte => NalType::Unknown(byte),
        }
    }
}

impl FromSpecImpl<u8> for NalType {
    open spec fn obeys_from_spec() -> bool {
        true
    }

    open spec fn from_spec(nal_byte: u8) -> Self {
        nal_type_of(nal_byte)
    }
}

/// The type code in a NAL header byte: bits 1 to 6, the byte shifted right by
/// one and cut to six bits. The top bit and the lowest bit are dropped.
pub open spec fn header_type_code(header: u8) -> u8 {
    (header >> 1) & 0x3f
}

/// The type that a NAL header byte announces.
pub open spec fn header_type(header: u8) -> NalType {
    nal_type_of(header_type_code(header))
}

/// Reads the type out of the first byte of a NAL header.
pub fn nal_type_of_header(header: u8) -> (nal_type: NalType)
    ensures
        nal_type == header_type(header),
        !(nal_type is Unknown),
        nal_type.spec_code() == (header / 2) % 64,
{
    let code: u8 = (header >> 1) & 0x3f;
    assert(((header >> 1) & 0x3f) == (header / 2) % 64) by (bit_vector);
    proof {
        lemma_code_of_type(code);
    }
    NalType::from(code)
}

/// Converting a byte to a type and back gives the byte, and only bytes above
/// 63 are unknown.
pub proof fn lemma_code_of_type(code: u8)
    ensures
        nal_type_of(code).spec_code() == code,
        nal_type_of(code) is Unknown <==> code >= 64,
{
}

/// Every type is the type of its own code.
pub proof fn lemma_type_of_code(nal_type: NalType)
    requires
        nal_type is Unknown ==> nal_type->0 >= 64,
    ensures
        nal_type_of(nal_type.spec_code()) == nal_type,
{
}

} // verus!
