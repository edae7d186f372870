//! Picking the units that a decoder needs out of a buffer.
//!
//! A decoder without a session needs the three parameter sets and a key
//! frame; a running decoder needs one reference slice. Where a buffer holds
//! several units of a wanted kind, the last one in stream order counts.

use vstd::prelude::*;
use crate::annex_b::{annex_b_units, NalIterator, NalUnit};
use crate::decoder::DecodeError;
use crate::nal::NalType;

verus! {

/// The kinds of unit that the decode path looks for.
#[derive(Copy, Clone, Debug, PartialEq, Eq, Structural)]
pub enum UnitKind {
    /// A video parameter set.
    Vps,
    /// A sequence parameter set.
    Sps,
    /// A picture parameter set.
    Pps,
    /// A slice of an IDR picture, of either type.
    Idr,
    /// A slice that a running decoder is fed with.
    ReferenceSlice,
}

impl UnitKind {
    /// Whether a unit of type `nal_type` is of this kind.
    pub open spec fn spec_admits(self, nal_type: NalType) -> bool {
        match self {
            UnitKind::Vps => nal_type == NalType::Vps,
            UnitKind::Sps => nal_type == NalType::Sps,
            UnitKind::Pps => nal_type == NalType::Pps,
            UnitKind::Idr => nal_type.spec_is_idr(),
            UnitKind::ReferenceSlice => nal_type.spec_is_reference_slice(),
        }
    }

    /// Whether a unit of type `nal_type` is of this kind.
    #[verifier::when_used_as_spec(spec_admits)]
    pub fn admits(self, nal_type: NalType) -> (admitted: bool)
        ensures
            admitted == self.spec_admits(nal_type),
    {
        match self {
            UnitKind::Vps => nal_type == NalType::Vps,
            UnitKind::Sps => nal_type == NalType::Sps,
            UnitKind::Pps => nal_type == NalType::Pps,
            UnitKind::Idr => nal_type.is_idr(),
            UnitKind::ReferenceSlice => nal_type.is_reference_slice(),
        }
    }
}

/// The bytes of the last unit of `kind` among `units`, if there is one.
pub open spec fn last_of_kind(units: Seq<NalUnit>, kind: UnitKind) -> Option<Seq<u8>>
    decreases units.len(),
{
    if units.len() == 0 {
        None
    } else if kind.spec_admits(units.last().nal_type) {
        Some(units.last().payload)
    } else {
        last_of_kind(units.drop_last(), kind)
    }
}

/// The four units that start a decoder, as values.
pub struct KeyFrame {
    pub vps: Seq<u8>,
    pub sps: Seq<u8>,
    pub pps: Seq<u8>,
    pub idr: Seq<u8>,
}

/// The four units that start a decoder, as they lie in a buffer.
#[derive(Copy, Clone, Debug)]
pub struct KeyFrameUnits<'a> {
    pub vps: &'a [u8],
    pub sps: &'a [u8],
    pub pps: &'a [u8],
    pub idr: &'a [u8],
}

impl<'a> View for KeyFrameUnits<'a> {
    type V = KeyFrame;

    open spec fn view(&self) -> KeyFrame {
        KeyFrame { vps: self.vps@, sps: self.sps@, pps: self.pps@, idr: self.idr@ }
    }
}

/// What a decoder without a session makes of `units`: the last unit of each
/// parameter set kind and the last IDR slice. What is missing is reported in
/// a fixed order: video, sequence and picture parameter set, then the slice.
pub open spec fn first_contact_of(units: Seq<NalUnit>) -> Result<KeyFrame, DecodeError> {
    if last_of_kind(units, UnitKind::Vps).is_none() {
        Err(DecodeError::MissingVpsNalUnit)
    } else if last_of_kind(units, UnitKind::Sps).is_none() {
        Err(DecodeError::MissingSpsNalUnit)
    } else if last_of_kind(units, UnitKind::Pps).is_none() {
        Err(DecodeError::MissingPpsNalUnit)
    } else if last_of_kind(units, UnitKind::Idr).is_none() {
        Err(DecodeError::MissingIFrame)
    } else {
        Ok(
            KeyFrame {
                vps: last_of_kind(units, UnitKind::Vps).unwrap(),
                sps: last_of_kind(units, UnitKind::Sps).unwrap(),
                pps: last_of_kind(units, UnitKind::Pps).unwrap(),
                idr: last_of_kind(units, UnitKind::Idr).unwrap(),
            },
        )
    }
}

/// What a running decoder makes of `units`: the last reference slice.
pub open spec fn steady_state_of(units: Seq<NalUnit>) -> Result<Seq<u8>, DecodeError> {
    match last_of_kind(units, UnitKind::ReferenceSlice) {
        Some(slice) => Ok(slice),
        None => Err(DecodeError::MissingPFrame),
    }
}

/// `found` is what a first-contact classification of `src` may return.
pub open spec fn is_first_contact_of(
    src: Seq<u8>,
    found: Result<KeyFrameUnits<'_>, DecodeError>,
) -> bool {
    match found {
        Ok(key_frame) => first_contact_of(annex_b_units(src)) == Ok::<KeyFrame, DecodeError>(
            key_frame@,
        ),
        Err(e) => first_contact_of(annex_b_units(src)) == Err::<KeyFrame, DecodeError>(e),
    }
}

/// `found` is what a steady-state classification of `src` may return.
pub open spec fn is_steady_state_of(src: Seq<u8>, found: Result<&[u8], DecodeError>) -> bool {
    match found {
        Ok(slice) => steady_state_of(annex_b_units(src)) == Ok::<Seq<u8>, DecodeError>(slice@),
        Err(e) => steady_state_of(annex_b_units(src)) == Err::<Seq<u8>, DecodeError>(e),
    }
}

/// The last unit of a kind is a unit of that kind with none of the kind
/// behind it; there is none exactly when no unit is of the kind.
pub proof fn lemma_last_of_kind(units: Seq<NalUnit>, kind: UnitKind)
    ensures
        match last_of_kind(units, kind) {
            Some(payload) => exists|i: int|
                {
                    &&& 0 <= i < units.len()
                    &&& kind.spec_admits(#[trigger] units[i].nal_type)
                    &&& units[i].payload == payload
                    &&& forall|j: int|
                        i < j < units.len() ==> !kind.spec_admits(#[trigger] units[j].nal_type)
                },
            None => forall|j: int|
                0 <= j < units.len() ==> !kind.spec_admits(#[trigger] units[j].nal_type),
        },
    decreases units.len(),
{
    if units.len() > 0 {
        let last = units.len() - 1;
        if kind.spec_admits(units.last().nal_type) {
            assert(kind.spec_admits(units[last].nal_type));
        } else {
            let front = units.drop_last();
            lemma_last_of_kind(front, kind);
            match last_of_kind(front, kind) {
                Some(payload) => {
                    let i = choose|i: int|
                        {
                            &&& 0 <= i < front.len()
                            &&& kind.spec_admits(#[trigger] front[i].nal_type)
                            &&& front[i].payload == payload
                            &&& forall|j: int|
                                i < j < front.len() ==> !kind.spec_admits(
                                    #[trigger] front[j].nal_type,
                                )
                        };
                    assert(units[i] == front[i]);
                    assert forall|j: int| i < j < units.len() implies !kind.spec_admits(
                        #[trigger] units[j].nal_type,
                    ) by {
                        if j < last {
                            assert(units[j] == front[j]);
                        }
                    }
                    assert(kind.spec_admits(units[i].nal_type));
                },
                None => {
                    assert forall|j: int| 0 <= j < units.len() implies !kind.spec_admits(
                        #[trigger] units[j].nal_type,
                    ) by {
                        if j < last {
                            assert(units[j] == front[j]);
                        }
                    }
                },
            }
        }
    }
}

/// Classifying the same buffer twice gives the same units, or the same
/// error.
pub proof fn lemma_first_contact_repeatable(
    src: Seq<u8>,
    first: Result<KeyFrameUnits<'_>, DecodeError>,
    second: Result<KeyFrameUnits<'_>, DecodeError>,
)
    requires
        is_first_contact_of(src, first),
        is_first_contact_of(src, second),
    ensures
        first is Ok <==> second is Ok,
        first is Ok ==> first->Ok_0@ == second->Ok_0@,
        first is Err ==> first->Err_0 == second->Err_0,
{
}

/// Looking for the reference slice of the same buffer twice gives the same
/// bytes, or the same error.
pub proof fn lemma_steady_state_repeatable(
    src: Seq<u8>,
    first: Result<&[u8], DecodeError>,
    second: Result<&[u8], DecodeError>,
)
    requires
        is_steady_state_of(src, first),
        is_steady_state_of(src, second),
    ensures
        first is Ok <==> second is Ok,
        first is Ok ==> first->Ok_0@ == second->Ok_0@,
        first is Err ==> first->Err_0 == second->Err_0,
{
}

/// What a slot holds, as a value.
pub open spec fn slot_view(slot: Option<&[u8]>) -> Option<Seq<u8>> {
    match slot {
        Some(bytes) => Some(bytes@),
        None => None,
    }
}

/// Scans `src` for the units that start a decoder: the last video, sequence
/// and picture parameter set and the last IDR slice.
pub fn classify_first_contact<'a>(src: &'a [u8]) -> (found: Result<
    KeyFrameUnits<'a>,
    DecodeError,
>)
    ensures
        is_first_contact_of(src@, found),
{
    let mut nal_iter = NalIterator::new(src);
    let mut vps_slice: Option<&'a [u8]> = None;
    let mut sps_slice: Option<&'a [u8]> = None;
    let mut pps_slice: Option<&'a [u8]> = None;
    let mut idr_slice: Option<&'a [u8]> = None;
    let ghost mut seen: Seq<NalUnit> = Seq::empty();

    loop
        invariant
            seen + nal_iter.remaining() == annex_b_units(src@),
            slot_view(vps_slice) == last_of_kind(seen, UnitKind::Vps),
            slot_view(sps_slice) == last_of_kind(seen, UnitKind::Sps),
            slot_view(pps_slice) == last_of_kind(seen, UnitKind::Pps),
            slot_view(idr_slice) == last_of_kind(seen, UnitKind::Idr),
        ensures
            seen == annex_b_units(src@),
            slot_view(vps_slice) == last_of_kind(seen, UnitKind::Vps),
            slot_view(sps_slice) == last_of_kind(seen, UnitKind::Sps),
            slot_view(pps_slice) == last_of_kind(seen, UnitKind::Pps),
            slot_view(idr_slice) == last_of_kind(seen, UnitKind::Idr),
        decreases nal_iter.rest().len(),
    {
        let ghost coming = nal_iter.remaining();
        match nal_iter.next() {
            Some(nal) => {
                proof {
                    let grown = seen.push(nal@);
                    assert(grown.drop_last() =~= seen);
                    assert(grown + nal_iter.remaining() =~= seen + coming);
                    seen = grown;
                }
                if nal.nal_type == NalType::Vps {
                    vps_slice = Some(nal.data);
                }
                if nal.nal_type == NalType::Sps {
                    sps_slice = Some(nal.data);
                }
                if nal.nal_type == NalType::Pps {
                    pps_slice = Some(nal.data);
                }
                if nal.nal_type == NalType::CodedSliceIdrNLp || nal.nal_type
                    == NalType::CodedSliceIdrWRadl {
                    idr_slice = Some(nal.data);
                }
            },
            None => {
                assert(seen + coming =~= seen);
                break ;
            },
        }
    }

    let vps = match vps_slice {
        Some(vps) => vps,
        None => { return Err(DecodeError::MissingVpsNalUnit); },
    };
    let sps = match sps_slice {
        Some(sps) => sps,
        None => { return Err(DecodeError::MissingSpsNalUnit); },
    };
    let pps = match pps_slice {
        Some(pps) => pps,
        None => { return Err(DecodeError::MissingPpsNalUnit); },
    };
    let idr = match idr_slice {
        Some(idr) => idr,
        None => { return Err(DecodeError::MissingIFrame); },
    };
    Ok(KeyFrameUnits { vps, sps, pps, idr })
}

/// Scans `src` for the slice that a running decoder is fed with: the last
/// trailing reference, IDR or CRA slice.
pub fn classify_steady_state<'a>(src: &'a [u8]) -> (found: Result<&'a [u8], DecodeError>)
    ensures
        is_steady_state_of(src@, found),
{
    let mut nal_iter = NalIterator::new(src);
    let mut p_slice: Option<&'a [u8]> = None;
    let ghost mut seen: Seq<NalUnit> = Seq::empty();

    loop
        invariant
            seen + nal_iter.remaining() == annex_b_units(src@),
            slot_view(p_slice) == last_of_kind(seen, UnitKind::ReferenceSlice),
        ensures
            seen == annex_b_units(src@),
            slot_view(p_slice) == last_of_kind(seen, UnitKind::ReferenceSlice),
        decreases nal_iter.rest().len(),
    {
        let ghost coming = nal_iter.remaining();
        match nal_iter.next() {
            Some(nal) => {
                proof {
                    let grown = seen.push(nal@);
                    assert(grown.drop_last() =~= seen);
                    assert(grown + nal_iter.remaining() =~= seen + coming);
                    seen = grown;
                }
                if nal.nal_type == NalType::CodedSliceTrailR || nal.nal_type
                    == NalType::CodedSliceIdrNLp || nal.nal_type == NalType::CodedSliceCra
                    || nal.nal_type == NalType::CodedSliceIdrWRadl {
                    p_slice = Some(nal.data);
                }
            },
            None => {
                assert(seen + coming =~= seen);
                break ;
            },
        }
    }

    match p_slice {
        Some(slice) => Ok(slice),
        None => Err(DecodeError::MissingPFrame),
    }
}

} // verus!
