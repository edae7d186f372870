//! Splitting an Annex-B byte stream into NAL units.
//!
//! In Annex-B framing the units of a stream are separated by start codes,
//! `00 00 01` or `00 00 00 01`. The scanner here is deliberately lenient:
//!
//! * Everything up to and including the first byte `01` of the buffer is
//!   skipped, whatever stands before it. Leading garbage is tolerated, and a
//!   stray `01` before the first real start code is taken for its end.
//! * After that, a start code ends at a byte `01` that follows two zero bytes
//!   and is not the last byte of the buffer. A third zero byte before them
//!   belongs to the start code too, where there is one.
//! * The bytes of a unit run from its header byte up to the next start code,
//!   or to the end of the buffer.
//!
//! The `spec` functions of this module say the same over `Seq<u8>`;
//! [`annex_b_units`] is the sequence of units of a whole buffer.

use vstd::prelude::*;
use vstd::slice::slice_subrange;
use crate::nal::{header_type, nal_type_of_header, NalType};

verus! {

/// A NAL unit as a value: its type and its bytes, header included.
pub struct NalUnit {
    pub nal_type: NalType,
    pub payload: Seq<u8>,
}

/// A NAL unit found in a buffer: its type and the bytes of the buffer that
/// belong to it, from the header byte to the next start code.
#[derive(Copy, Clone, Debug)]
pub struct Nal<'a> {
    pub nal_type: NalType,
    pub data: &'a [u8],
}

impl<'a> View for Nal<'a> {
    type V = NalUnit;

    open spec fn view(&self) -> NalUnit {
        NalUnit { nal_type: self.nal_type, payload: self.data@ }
    }
}

/// The units that a sequence of [`Nal`] stands for.
pub open spec fn nal_views(units: Seq<Nal<'_>>) -> Seq<NalUnit> {
    Seq::new(units.len(), |i: int| units[i]@)
}

/// The index of the first byte `01` at or after `from`, or the length of
/// `bytes` if there is none.
pub open spec fn first_one_from(bytes: Seq<u8>, from: int) -> int
    decreases bytes.len() - from,
{
    if from < 0 || from >= bytes.len() {
        bytes.len() as int
    } else if bytes[from] == 1 {
        from
    } else {
        first_one_from(bytes, from + 1)
    }
}

/// What is left of a buffer after its first start code: the bytes behind the
/// first `01`. Empty if there is no `01`, or nothing behind it.
pub open spec fn stream_body(bytes: Seq<u8>) -> Seq<u8> {
    let one = first_one_from(bytes, 0);
    if one + 1 >= bytes.len() {
        Seq::empty()
    } else {
        bytes.subrange(one + 1, bytes.len() as int)
    }
}

/// A start code ends at index `i` of `data`: a `01` after two zero bytes,
/// with at least one byte behind it.
pub open spec fn is_start_code_end(data: Seq<u8>, i: int) -> bool {
    &&& 2 <= i < data.len() - 1
    &&& data[i] == 1
    &&& data[i - 1] == 0
    &&& data[i - 2] == 0
}

/// The first index at or after `from` at which a start code ends, or the
/// length of `data` if there is none.
pub open spec fn start_code_end_from(data: Seq<u8>, from: int) -> int
    decreases data.len() - from,
{
    if from < 0 || from >= data.len() {
        data.len() as int
    } else if is_start_code_end(data, from) {
        from
    } else {
        start_code_end_from(data, from + 1)
    }
}

/// Where the start code that ends at `end` begins: three bytes earlier if a
/// zero byte stands there, else two.
pub open spec fn start_code_start(data: Seq<u8>, end: int) -> int {
    if end >= 3 && data[end - 3] == 0 {
        end - 3
    } else {
        end - 2
    }
}

/// The first start code in `data`, as the index of its first byte and the
/// index of its last; `None` if `data` holds no start code.
pub open spec fn next_header_of(data: Seq<u8>) -> Option<(int, int)> {
    let end = start_code_end_from(data, 0);
    if end >= data.len() {
        None
    } else {
        Some((start_code_start(data, end), end))
    }
}

/// The unit at the front of `rest`, which begins with a header byte.
pub open spec fn first_unit(rest: Seq<u8>) -> NalUnit
    recommends
        rest.len() > 0,
{
    NalUnit {
        nal_type: header_type(rest[0]),
        payload: match next_header_of(rest) {
            Some((start, _)) => rest.subrange(0, start),
            None => rest,
        },
    }
}

/// What follows the unit at the front of `rest` and the start code behind it.
pub open spec fn after_first_unit(rest: Seq<u8>) -> Seq<u8> {
    match next_header_of(rest) {
        Some((_, end)) => rest.subrange(end + 1, rest.len() as int),
        None => Seq::empty(),
    }
}

/// The units of `rest`, which is empty or begins with a header byte.
pub open spec fn units_of(rest: Seq<u8>) -> Seq<NalUnit>
    decreases rest.len(),
{
    if rest.len() == 0 {
        Seq::empty()
    } else {
        proof {
            lemma_start_code_end_from(rest, 0);
        }
        seq![first_unit(rest)] + units_of(after_first_unit(rest))
    }
}

/// The units of an Annex-B buffer, in stream order.
pub open spec fn annex_b_units(bytes: Seq<u8>) -> Seq<NalUnit> {
    units_of(stream_body(bytes))
}

/// `first_one_from` finds the least index of a `01` from `from` on.
pub proof fn lemma_first_one_from(bytes: Seq<u8>, from: int)
    requires
        0 <= from <= bytes.len(),
    ensures
        from <= first_one_from(bytes, from) <= bytes.len(),
        first_one_from(bytes, from) < bytes.len() ==> bytes[first_one_from(bytes, from)] == 1,
        forall|j: int| from <= j < first_one_from(bytes, from) ==> bytes[j] != 1,
    decreases bytes.len() - from,
{
    if from < bytes.len() && bytes[from] != 1 {
        lemma_first_one_from(bytes, from + 1);
    }
}

/// `start_code_end_from` finds the least index from `from` on at which a
/// start code ends.
pub proof fn lemma_start_code_end_from(data: Seq<u8>, from: int)
    requires
        0 <= from <= data.len(),
    ensures
        from <= start_code_end_from(data, from) <= data.len(),
        start_code_end_from(data, from) < data.len() ==> is_start_code_end(
            data,
            start_code_end_from(data, from),
        ),
        forall|j: int|
            from <= j < start_code_end_from(data, from) ==> !is_start_code_end(data, j),
    decreases data.len() - from,
{
    if from < data.len() && !is_start_code_end(data, from) {
        lemma_start_code_end_from(data, from + 1);
    }
}

/// The first `01` of `bytes` is at `one` if no byte before it is `01`.
pub proof fn lemma_first_one_is(bytes: Seq<u8>, one: int)
    requires
        0 <= one <= bytes.len(),
        one < bytes.len() ==> bytes[one] == 1,
        forall|j: int| 0 <= j < one ==> bytes[j] != 1,
    ensures
        first_one_from(bytes, 0) == one,
{
    lemma_first_one_from(bytes, 0);
}

/// The first start code of `data` ends at `end` if none ends before it.
pub proof fn lemma_next_header_is(data: Seq<u8>, end: int)
    requires
        is_start_code_end(data, end),
        forall|j: int| 0 <= j < end ==> !is_start_code_end(data, j),
    ensures
        next_header_of(data) == Some((start_code_start(data, end), end)),
{
    lemma_start_code_end_from(data, 0);
}

/// `data` has no first start code if no start code ends anywhere in it.
pub proof fn lemma_no_next_header(data: Seq<u8>)
    requires
        forall|j: int| 0 <= j < data.len() ==> !is_start_code_end(data, j),
    ensures
        next_header_of(data).is_none(),
{
    lemma_start_code_end_from(data, 0);
}

/// A start code that is found lies inside the data, has three or four bytes
/// and leaves at least one byte behind it.
pub proof fn lemma_next_header_bounds(data: Seq<u8>)
    ensures
        match next_header_of(data) {
            Some((start, end)) => {
                &&& 0 <= start
                &&& start + 2 <= end <= start + 3
                &&& end + 1 < data.len()
                &&& is_start_code_end(data, end)
            },
            None => true,
        },
{
    lemma_start_code_end_from(data, 0);
}

/// A buffer holds no unit exactly when no byte before its last is `01`.
/// A buffer without any start code in it is such a buffer, unless a lone
/// `01` stands in it before the last byte.
pub proof fn lemma_no_units(bytes: Seq<u8>)
    ensures
        annex_b_units(bytes).len() == 0 <==> forall|j: int|
            0 <= j < bytes.len() - 1 ==> bytes[j] != 1,
{
    lemma_first_one_from(bytes, 0);
    let one = first_one_from(bytes, 0);
    if one + 1 < bytes.len() {
        assert(bytes[one] == 1);
        lemma_units_of_step(stream_body(bytes));
    }
}

/// One or two bytes behind a start code are exactly one unit.
pub proof fn lemma_short_body_is_one_unit(rest: Seq<u8>)
    requires
        0 < rest.len() < 3,
    ensures
        units_of(rest) == seq![NalUnit { nal_type: header_type(rest[0]), payload: rest }],
{
    lemma_no_next_header(rest);
    lemma_units_of_step(rest);
    assert(units_of(after_first_unit(rest)) =~= Seq::<NalUnit>::empty());
    assert(units_of(rest) =~= seq![NalUnit { nal_type: header_type(rest[0]), payload: rest }]);
}

/// Scans `rest` unit by unit: how many units it holds, and that each step
/// makes it shorter.
pub proof fn lemma_units_of_step(rest: Seq<u8>)
    requires
        rest.len() > 0,
    ensures
        after_first_unit(rest).len() < rest.len(),
        units_of(rest) == seq![first_unit(rest)] + units_of(after_first_unit(rest)),
        units_of(rest).len() == 1 + units_of(after_first_unit(rest)).len(),
        units_of(rest)[0] == first_unit(rest),
{
    lemma_next_header_bounds(rest);
}

/// A scanner over the NAL units of an Annex-B buffer.
///
/// It holds what is left of the buffer: nothing, or the bytes from the header
/// byte of the next unit on.
pub struct NalIterator<'a> {
    hevc_bytes: &'a [u8],
}

impl<'a> NalIterator<'a> {
    /// The bytes that are still to be scanned.
    pub closed spec fn rest(&self) -> Seq<u8> {
        self.hevc_bytes@
    }

    /// The units that are still to come.
    pub open spec fn remaining(&self) -> Seq<NalUnit> {
        units_of(self.rest())
    }

    /// Starts a scan of `hevc_bytes` behind its first start code.
    ///
    /// Only the closing `01` of that start code is looked for; the zero bytes
    /// before it are not checked.
    pub fn new(hevc_bytes: &'a [u8]) -> (iter: Self)
        ensures
            iter.rest() == stream_body(hevc_bytes@),
            iter.remaining() == annex_b_units(hevc_bytes@),
    {
        let mut cursor: usize = 0;

        while cursor < hevc_bytes.len() && hevc_bytes[cursor] != 1
            invariant
                cursor <= hevc_bytes.len(),
                forall|j: int| 0 <= j < cursor ==> hevc_bytes@[j] != 1,
            decreases hevc_bytes.len() - cursor,
        {
            cursor += 1;
        }

        proof {
            lemma_first_one_is(hevc_bytes@, cursor as int);
        }

        if hevc_bytes.len() - cursor <= 1 {
            return Self { hevc_bytes: slice_subrange(hevc_bytes, 0, 0) };
        }
        cursor += 1;
        Self { hevc_bytes: slice_subrange(hevc_bytes, cursor, hevc_bytes.len()) }
    }

    /// Finds the first start code in `data`: the index of its first byte and
    /// the index of its closing `01`.
    ///
    /// The first two bytes and the last byte of `data` are never taken for
    /// the end of a start code.
    pub fn next_header(data: &[u8]) -> (header: Option<(usize, usize)>)
        ensures
            match header {
                Some((start, end)) => next_header_of(data@) == Some((start as int, end as int)),
                None => next_header_of(data@).is_none(),
            },
    {
        if data.len() < 3 {
            proof {
                lemma_no_next_header(data@);
            }
            return None;
        }
        let mut i: usize = 2;
        while i < data.len() - 1
            invariant
                2 <= i <= data.len() - 1,
                forall|j: int| 0 <= j < i ==> !is_start_code_end(data@, j),
            decreases data.len() - i,
        {
            if data[i] == 1 {
                let last_two_are_zero = data[i - 1] == 0 && data[i - 2] == 0;

                if last_two_are_zero {
                    proof {
                        lemma_next_header_is(data@, i as int);
                    }
                    if i >= 3 && data[i - 3] == 0 {
                        return Some((i - 3, i));
                    } else {
                        return Some((i - 2, i));
                    }
                }
            }
            i += 1;
        }
        proof {
            lemma_no_next_header(data@);
        }
        None
    }

    /// Hands out the next unit and moves behind the start code that ends it.
    /// Once the buffer is used up, the answer is `None` for good.
    pub fn next(&mut self) -> (unit: Option<Nal<'a>>)
        ensures
            old(self).rest().len() == 0 ==> unit.is_none()
                && final(self).rest() == old(self).rest(),
            old(self).rest().len() > 0 ==> unit.is_some()
                && unit.unwrap()@ == first_unit(old(self).rest())
                && final(self).rest() == after_first_unit(old(self).rest()),
            unit.is_none() ==> old(self).remaining().len() == 0,
            unit.is_some() ==> old(self).remaining()
                == seq![unit.unwrap()@] + final(self).remaining(),
            final(self).rest().len() <= old(self).rest().len(),
            unit.is_some() ==> final(self).rest().len() < old(self).rest().len(),
    {
        if self.hevc_bytes.len() == 0 {
            return None;
        }
        proof {
            lemma_units_of_step(self.hevc_bytes@);
            lemma_next_header_bounds(self.hevc_bytes@);
        }

        let nal_type = nal_type_of_header(self.hevc_bytes[0]);

        match Self::next_header(self.hevc_bytes) {
            Some((next_header_start, next_header_end)) => {
                let nal = Nal {
                    nal_type,
                    data: slice_subrange(self.hevc_bytes, 0, next_header_start),
                };

                self.hevc_bytes =
                slice_subrange(self.hevc_bytes, next_header_end + 1, self.hevc_bytes.len());

                Some(nal)
            },
            None => {
                let nal = Nal { nal_type, data: self.hevc_bytes };

                self.hevc_bytes = slice_subrange(self.hevc_bytes, 0, 0);

                Some(nal)
            },
        }
    }
}

/// All the NAL units of an Annex-B buffer, in stream order.
pub fn nal_units<'a>(hevc_bytes: &'a [u8]) -> (units: Vec<Nal<'a>>)
    ensures
        nal_views(units@) == annex_b_units(hevc_bytes@),
{
    let mut iter = NalIterator::new(hevc_bytes);
    let mut units: Vec<Nal<'a>> = Vec::new();
    assert(nal_views(units@) =~= Seq::<NalUnit>::empty());
    loop
        invariant
            nal_views(units@) + iter.remaining() == annex_b_units(hevc_bytes@),
        ensures
            nal_views(units@) == annex_b_units(hevc_bytes@),
        decreases iter.rest().len(),
    {
        let ghost before = nal_views(units@);
        let ghost coming = iter.remaining();
        match iter.next() {
            Some(nal) => {
                units.push(nal);
                assert(nal_views(units@) =~= before + seq![nal@]);
                assert(nal_views(units@) + iter.remaining() =~= before + coming);
            },
            None => {
                assert(before + coming =~= before);
                break ;
            },
        }
    }
    units
}

} // verus!
