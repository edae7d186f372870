//! Whole streams in both framings, and what scanning gives back.
//!
//! The functions here are `spec` and `proof` functions only. They say which
//! streams the Annex-B scanner splits into the units they were written
//! from, and that a stream of length-prefixed units survives the way through
//! Annex-B framing.

use vstd::prelude::*;
use crate::annex_b::{
    after_first_unit, annex_b_units, first_unit, is_start_code_end, lemma_first_one_is,
    lemma_next_header_is, lemma_no_next_header, lemma_units_of_step, next_header_of,
    start_code_start, stream_body, units_of, NalUnit,
};
use crate::framing::{
    annex_b_from, annex_b_of, lemma_be32_round_trip, length_prefixed_record, record_len,
    start_code,
};
use crate::nal::header_type;

verus! {

/// A unit as it is written to an Annex-B stream: behind a start code of four
/// bytes (`00 00 00 01`) or of three (`00 00 01`).
pub struct FramedUnit {
    pub long_start_code: bool,
    pub payload: Seq<u8>,
}

/// The bytes of a start code.
pub open spec fn start_code_of(long_start_code: bool) -> Seq<u8> {
    if long_start_code {
        seq![0u8, 0u8, 0u8, 1u8]
    } else {
        seq![0u8, 0u8, 1u8]
    }
}

/// The Annex-B stream of `units`: each start code with its unit behind it.
pub open spec fn framed(units: Seq<FramedUnit>) -> Seq<u8>
    decreases units.len(),
{
    if units.len() == 0 {
        Seq::empty()
    } else {
        start_code_of(units[0].long_start_code) + units[0].payload + framed(units.drop_first())
    }
}

/// The stream of `units` without its first start code.
pub open spec fn framed_body(units: Seq<FramedUnit>) -> Seq<u8>
    recommends
        units.len() > 0,
{
    units[0].payload + framed(units.drop_first())
}

/// The bytes `00 00 01` end at index `j` of `bytes`.
pub open spec fn start_code_ends_at(bytes: Seq<u8>, j: int) -> bool {
    &&& 2 <= j < bytes.len()
    &&& bytes[j] == 1
    &&& bytes[j - 1] == 0
    &&& bytes[j - 2] == 0
}

/// The bytes `00 00 01` occur nowhere in `bytes`.
pub open spec fn free_of_start_codes(bytes: Seq<u8>) -> bool {
    forall|j: int| !start_code_ends_at(bytes, j)
}

/// Unit `i` of `units` can be told from what follows it.
///
/// A unit with another behind it holds no `00 00 01`, and if a short start
/// code follows, it does not end in a zero byte, which the scanner would
/// count to the start code. The last unit is not empty, and no `00 00 01`
/// ends before its last byte.
pub open spec fn unit_is_separated(units: Seq<FramedUnit>, i: int) -> bool {
    let payload = units[i].payload;
    if i + 1 < units.len() {
        &&& free_of_start_codes(payload)
        &&& units[i + 1].long_start_code || payload.len() == 0 || payload.last() != 0
    } else {
        &&& payload.len() > 0
        &&& forall|j: int| !is_start_code_end(payload, j)
    }
}

/// Every unit of `units` can be told from what follows it.
pub open spec fn is_separated(units: Seq<FramedUnit>) -> bool {
    forall|i: int| 0 <= i < units.len() ==> #[trigger] unit_is_separated(units, i)
}

/// A well-formed Annex-B stream: no unit is empty, holds `00 00 01` or ends
/// in a zero byte.
pub open spec fn is_well_formed(units: Seq<FramedUnit>) -> bool {
    forall|i: int|
        0 <= i < units.len() ==> {
            &&& (#[trigger] units[i]).payload.len() > 0
            &&& free_of_start_codes(units[i].payload)
            &&& units[i].payload.last() != 0
        }
}

/// The unit that the scanner makes of `payload`: its type is read from the
/// first byte. Behind an empty unit the scanner reads the zero byte of the
/// next start code instead.
pub open spec fn scanned_unit(payload: Seq<u8>) -> NalUnit {
    NalUnit {
        nal_type: header_type(
            if payload.len() > 0 {
                payload[0]
            } else {
                0u8
            },
        ),
        payload,
    }
}

/// The units that the scanner makes of `units`.
pub open spec fn scanned(units: Seq<FramedUnit>) -> Seq<NalUnit> {
    Seq::new(units.len(), |i: int| scanned_unit(units[i].payload))
}

/// The bytes of each unit.
pub open spec fn payloads_of(units: Seq<NalUnit>) -> Seq<Seq<u8>> {
    Seq::new(units.len(), |i: int| units[i].payload)
}

/// Each of `payloads` behind a long start code.
pub open spec fn long_framed(payloads: Seq<Seq<u8>>) -> Seq<FramedUnit> {
    Seq::new(
        payloads.len(),
        |i: int| FramedUnit { long_start_code: true, payload: payloads[i] },
    )
}

/// The stream of `payloads` in length-prefixed framing.
pub open spec fn length_prefixed_stream(payloads: Seq<Seq<u8>>) -> Seq<u8>
    decreases payloads.len(),
{
    if payloads.len() == 0 {
        Seq::empty()
    } else {
        length_prefixed_record(payloads[0]) + length_prefixed_stream(payloads.drop_first())
    }
}

/// Unit `i` of `payloads` survives the way through both framings.
///
/// A unit with another behind it holds no `00 00 01`. The last unit is not
/// empty, and no `00 00 01` ends before its last byte.
pub open spec fn payload_survives(payloads: Seq<Seq<u8>>, i: int) -> bool {
    let payload = payloads[i];
    &&& payload.len() <= u32::MAX
    &&& if i + 1 < payloads.len() {
        free_of_start_codes(payload)
    } else {
        &&& payload.len() > 0
        &&& forall|j: int| !is_start_code_end(payload, j)
    }
}

/// Every unit of `payloads` survives the way through both framings.
pub open spec fn all_survive(payloads: Seq<Seq<u8>>) -> bool {
    forall|i: int| 0 <= i < payloads.len() ==> #[trigger] payload_survives(payloads, i)
}

/// The units behind the first of a separated stream are separated too.
proof fn lemma_separated_tail(units: Seq<FramedUnit>)
    requires
        units.len() > 0,
        is_separated(units),
    ensures
        is_separated(units.drop_first()),
{
    let tail = units.drop_first();
    assert forall|i: int| 0 <= i < tail.len() implies #[trigger] unit_is_separated(tail, i) by {
        assert(unit_is_separated(units, i + 1));
        assert(tail[i] == units[i + 1]);
        if i + 1 < tail.len() {
            assert(tail[i + 1] == units[i + 2]);
        }
    }
}

/// A separated stream has at least one byte behind its first start code.
proof fn lemma_body_not_empty(units: Seq<FramedUnit>)
    requires
        units.len() > 0,
        is_separated(units),
    ensures
        framed_body(units).len() > 0,
{
    let tail = units.drop_first();
    if tail.len() == 0 {
        assert(unit_is_separated(units, 0));
    } else {
        assert(framed(tail).len() >= start_code_of(tail[0].long_start_code).len());
    }
}

/// Behind its first start code, a separated stream scans into its units.
proof fn lemma_body_scans(units: Seq<FramedUnit>)
    requires
        units.len() > 0,
        is_separated(units),
    ensures
        units_of(framed_body(units)) == scanned(units),
    decreases units.len(),
{
    let payload = units[0].payload;
    let tail = units.drop_first();
    let rest = framed_body(units);
    lemma_body_not_empty(units);
    lemma_units_of_step(rest);
    assert(unit_is_separated(units, 0));
    if tail.len() == 0 {
        assert(rest =~= payload);
        lemma_no_next_header(rest);
        assert(first_unit(rest) == scanned_unit(payload));
        assert(after_first_unit(rest) =~= Seq::<u8>::empty());
        assert(units_of(after_first_unit(rest)) =~= Seq::<NalUnit>::empty());
        assert(units_of(rest) =~= scanned(units));
    } else {
        let long = tail[0].long_start_code;
        assert(tail[0] == units[1]);
        let code = start_code_of(long);
        let behind = framed_body(tail);
        lemma_separated_tail(units);
        lemma_body_not_empty(tail);
        assert(framed(tail) =~= code + behind);
        assert(rest =~= payload + code + behind);
        let end = payload.len() + code.len() - 1;
        assert(rest[end] == code[code.len() - 1]);
        assert(rest[end - 1] == code[code.len() - 2]);
        assert(rest[end - 2] == code[code.len() - 3]);
        assert(is_start_code_end(rest, end));
        assert forall|j: int| 0 <= j < end implies !is_start_code_end(rest, j) by {
            if 2 <= j < payload.len() {
                assert(rest[j] == payload[j]);
                assert(rest[j - 1] == payload[j - 1]);
                assert(rest[j - 2] == payload[j - 2]);
                assert(!start_code_ends_at(payload, j));
            } else if payload.len() <= j {
                assert(rest[j] == code[j - payload.len()]);
            }
        }
        lemma_next_header_is(rest, end);
        assert(start_code_start(rest, end) == payload.len()) by {
            if long {
                assert(rest[end - 3] == code[0]);
            } else if payload.len() > 0 {
                assert(rest[end - 3] == payload.last());
            }
        }
        assert(rest.subrange(0, payload.len() as int) =~= payload);
        assert(rest[0] == if payload.len() > 0 {
            payload[0]
        } else {
            0u8
        }) by {
            if payload.len() == 0 {
                assert(rest[0] == code[0]);
            }
        }
        assert(first_unit(rest) == scanned_unit(payload));
        assert(after_first_unit(rest) =~= behind);
        lemma_body_scans(tail);
        assert(units_of(rest) =~= scanned(units)) by {
            assert forall|i: int| 0 <= i < units.len() implies units_of(rest)[i] == scanned(
                units,
            )[i] by {
                if i > 0 {
                    assert(scanned(tail)[i - 1] == scanned_unit(tail[i - 1].payload));
                    assert(tail[i - 1] == units[i]);
                }
            }
        }
    }
}

/// Scanning a separated Annex-B stream gives back its units: as many as
/// there are start codes, each with the type that its first byte announces
/// and with its own bytes, none of the next start code among them.
pub proof fn lemma_separated_stream_scans(units: Seq<FramedUnit>)
    requires
        is_separated(units),
    ensures
        annex_b_units(framed(units)) == scanned(units),
        annex_b_units(framed(units)).len() == units.len(),
{
    let bytes = framed(units);
    if units.len() == 0 {
        lemma_first_one_is(bytes, 0);
        assert(annex_b_units(bytes) =~= scanned(units));
    } else {
        let code = start_code_of(units[0].long_start_code);
        let body = framed_body(units);
        lemma_body_not_empty(units);
        assert(bytes =~= code + body);
        let one = code.len() - 1;
        assert(bytes[one] == code[one]);
        assert forall|j: int| 0 <= j < one implies bytes[j] != 1 by {
            assert(bytes[j] == code[j]);
        }
        lemma_first_one_is(bytes, one);
        assert(stream_body(bytes) =~= body);
        lemma_body_scans(units);
    }
}

/// A well-formed Annex-B stream of `n` start codes, each followed by a unit
/// that is not empty, scans into exactly `n` units. Each has the type in
/// bits 1 to 6 of its first byte, and the bytes up to the next start code.
pub proof fn lemma_well_formed_stream_scans(units: Seq<FramedUnit>)
    requires
        is_well_formed(units),
    ensures
        annex_b_units(framed(units)).len() == units.len(),
        forall|i: int|
            0 <= i < units.len() ==> {
                &&& (#[trigger] annex_b_units(framed(units))[i]).payload == units[i].payload
                &&& annex_b_units(framed(units))[i].nal_type == header_type(units[i].payload[0])
            },
{
    assert forall|i: int| 0 <= i < units.len() implies #[trigger] unit_is_separated(units, i) by {
        let payload = units[i].payload;
        assert(payload.len() > 0 && free_of_start_codes(payload) && payload.last() != 0);
        assert forall|j: int| !is_start_code_end(payload, j) by {
            assert(!start_code_ends_at(payload, j));
        }
    }
    lemma_separated_stream_scans(units);
    assert forall|i: int| 0 <= i < units.len() implies {
        &&& (#[trigger] annex_b_units(framed(units))[i]).payload == units[i].payload
        &&& annex_b_units(framed(units))[i].nal_type == header_type(units[i].payload[0])
    } by {
        assert(scanned(units)[i] == scanned_unit(units[i].payload));
    }
}

/// Records in front of `data` do not change what is read behind them.
proof fn lemma_annex_b_from_shift(front: Seq<u8>, data: Seq<u8>, offset: int)
    requires
        0 <= offset <= data.len(),
    ensures
        annex_b_from(front + data, front.len() + offset) == annex_b_from(data, offset),
    decreases data.len() - offset,
{
    let whole = front + data;
    let shifted = front.len() + offset;
    if offset + 4 < data.len() {
        assert(whole[shifted] == data[offset]);
        assert(whole[shifted + 1] == data[offset + 1]);
        assert(whole[shifted + 2] == data[offset + 2]);
        assert(whole[shifted + 3] == data[offset + 3]);
        let len = record_len(data, offset);
        assert(record_len(whole, shifted) == len);
        let end = offset + 4 + len;
        if end <= data.len() {
            lemma_annex_b_from_shift(front, data, end);
            assert(whole.subrange(shifted + 4, front.len() + end) =~= data.subrange(
                offset + 4,
                end,
            ));
        }
    }
}

/// Re-framing a length-prefixed stream whose last unit is not empty puts
/// each unit behind a long start code.
pub proof fn lemma_reframed_stream(payloads: Seq<Seq<u8>>)
    requires
        forall|i: int| 0 <= i < payloads.len() ==> (#[trigger] payloads[i]).len() <= u32::MAX,
        payloads.len() > 0 ==> payloads.last().len() > 0,
    ensures
        annex_b_of(length_prefixed_stream(payloads)) == Some(framed(long_framed(payloads))),
    decreases payloads.len(),
{
    let data = length_prefixed_stream(payloads);
    if payloads.len() > 0 {
        let payload = payloads[0];
        let tail = payloads.drop_first();
        let record = length_prefixed_record(payload);
        let behind = length_prefixed_stream(tail);
        let size = payload.len() as int;
        lemma_be32_round_trip(size);
        assert(record.len() == 4 + size);
        assert(data =~= record + behind);
        assert(data[0] == record[0] && data[1] == record[1] && data[2] == record[2] && data[3]
            == record[3]);
        assert(record_len(data, 0) == size);
        assert(tail.len() > 0 ==> tail.last() == payloads.last());
        assert forall|i: int| 0 <= i < tail.len() implies (#[trigger] tail[i]).len()
            <= u32::MAX by {
            assert(tail[i] == payloads[i + 1]);
        }
        lemma_reframed_stream(tail);
        if tail.len() == 0 {
            assert(behind =~= Seq::<u8>::empty());
        } else {
            lemma_stream_longer_than_prefix(tail);
        }
        assert(4 < data.len());
        lemma_annex_b_from_shift(record, behind, 0);
        assert(annex_b_from(data, 4 + size) == annex_b_from(behind, 0));
        assert(data.subrange(4, 4 + size) =~= payload);
        assert(long_framed(payloads).drop_first() =~= long_framed(tail));
        assert(start_code_of(true) =~= start_code());
    } else {
        assert(framed(long_framed(payloads)) =~= Seq::<u8>::empty());
    }
}

/// A length-prefixed stream whose last unit is not empty has more than the
/// four bytes of a prefix.
proof fn lemma_stream_longer_than_prefix(payloads: Seq<Seq<u8>>)
    requires
        payloads.len() > 0,
        payloads.last().len() > 0,
    ensures
        length_prefixed_stream(payloads).len() > 4,
    decreases payloads.len(),
{
    let tail = payloads.drop_first();
    if tail.len() > 0 {
        assert(tail.last() == payloads.last());
        lemma_stream_longer_than_prefix(tail);
    } else {
        assert(payloads[0] == payloads.last());
    }
}

/// Round trip: units that are put behind length prefixes, re-framed to
/// Annex-B and scanned come out as they went in, as many and byte for byte.
pub proof fn lemma_round_trip(payloads: Seq<Seq<u8>>)
    requires
        all_survive(payloads),
    ensures
        annex_b_of(length_prefixed_stream(payloads)).is_some(),
        payloads_of(annex_b_units(annex_b_of(length_prefixed_stream(payloads)).unwrap()))
            == payloads,
{
    let units = long_framed(payloads);
    assert forall|i: int| 0 <= i < payloads.len() implies (#[trigger] payloads[i]).len()
        <= u32::MAX by {
        assert(payload_survives(payloads, i));
    }
    if payloads.len() > 0 {
        assert(payload_survives(payloads, payloads.len() - 1));
    }
    lemma_reframed_stream(payloads);
    assert forall|i: int| 0 <= i < units.len() implies #[trigger] unit_is_separated(units, i) by {
        assert(payload_survives(payloads, i));
    }
    lemma_separated_stream_scans(units);
    assert(payloads_of(scanned(units)) =~= payloads);
}

} // verus!
