//! Converting between the two framings of NAL units.
//!
//! A hardware codec keeps each unit behind a length prefix of four bytes,
//! big-endian. Files and network streams use Annex-B framing, in which each
//! unit follows a start code. This module rewrites one into the other and
//! refuses a buffer whose length prefix points behind its end.

use vstd::prelude::*;
use crate::HevcError;

verus! {

/// The size of a length prefix, and of the start code that replaces it.
pub const LENGTH_PREFIX_SIZE: usize = 4;

/// The number that four bytes spell in big-endian order.
pub open spec fn be32(b0: u8, b1: u8, b2: u8, b3: u8) -> int {
    b0 * 0x100_0000 + b1 * 0x1_0000 + b2 * 0x100 + b3
}

/// The four bytes that spell `n` in big-endian order.
pub open spec fn be32_bytes(n: int) -> Seq<u8>
    recommends
        0 <= n <= u32::MAX,
{
    seq![
        (n / 0x100_0000) as u8,
        (n / 0x1_0000 % 0x100) as u8,
        (n / 0x100 % 0x100) as u8,
        (n % 0x100) as u8,
    ]
}

/// The start code that this library writes: `00 00 00 01`.
pub open spec fn start_code() -> Seq<u8> {
    seq![0u8, 0u8, 0u8, 1u8]
}

/// The length that the prefix at `offset` declares.
pub open spec fn record_len(data: Seq<u8>, offset: int) -> int
    recommends
        0 <= offset,
        offset + 4 <= data.len(),
{
    be32(data[offset], data[offset + 1], data[offset + 2], data[offset + 3])
}

/// One unit behind its length prefix.
pub open spec fn length_prefixed_record(payload: Seq<u8>) -> Seq<u8> {
    be32_bytes(payload.len() as int) + payload
}

/// The Annex-B form of the length-prefixed records of `data` from `offset`
/// on, or `None` if one of them declares more bytes than are left.
///
/// Reading stops where four bytes or fewer are left: a last prefix with
/// nothing behind it is passed over.
pub open spec fn annex_b_from(data: Seq<u8>, offset: int) -> Option<Seq<u8>>
    decreases data.len() - offset,
{
    if offset < 0 || offset + 4 >= data.len() {
        Some(Seq::empty())
    } else {
        let len = record_len(data, offset);
        let end = offset + 4 + len;
        if end > data.len() {
            None
        } else {
            match annex_b_from(data, end) {
                Some(rest) => Some(start_code() + data.subrange(offset + 4, end) + rest),
                None => None,
            }
        }
    }
}

/// The Annex-B form of a length-prefixed buffer, or `None` if the buffer is
/// malformed.
pub open spec fn annex_b_of(data: Seq<u8>) -> Option<Seq<u8>> {
    annex_b_from(data, 0)
}

/// A record begins at `offset`: the records from `from` on lead there.
pub open spec fn record_starts_at(data: Seq<u8>, from: int, offset: int) -> bool
    decreases data.len() - from,
{
    if from == offset {
        true
    } else if from < 0 || from > offset || from + 4 >= data.len() {
        false
    } else {
        let end = from + 4 + record_len(data, from);
        end <= data.len() && record_starts_at(data, end, offset)
    }
}

/// Big-endian encoding and decoding undo each other.
pub proof fn lemma_be32_round_trip(n: int)
    requires
        0 <= n <= u32::MAX,
    ensures
        be32_bytes(n).len() == 4,
        be32(be32_bytes(n)[0], be32_bytes(n)[1], be32_bytes(n)[2], be32_bytes(n)[3]) == n,
{
}

/// Four bytes spell a number that fits in 32 bits.
pub proof fn lemma_be32_range(b0: u8, b1: u8, b2: u8, b3: u8)
    ensures
        0 <= be32(b0, b1, b2, b3) <= u32::MAX,
        be32_bytes(be32(b0, b1, b2, b3)) == seq![b0, b1, b2, b3],
{
    let n = be32(b0, b1, b2, b3);
    let high = b0 * 0x100 + b1;
    let mid = high * 0x100 + b2;
    assert(n == mid * 0x100 + b3);
    assert(n % 0x100 == b3 && n / 0x100 == mid);
    assert(mid % 0x100 == b2 && mid / 0x100 == high);
    assert(high % 0x100 == b1 && high / 0x100 == b0);
    assert(n / 0x1_0000 == high) by {
        assert(n == high * 0x1_0000 + (b2 * 0x100 + b3));
    }
    assert(n / 0x100_0000 == b0) by {
        assert(n == b0 * 0x100_0000 + (b1 * 0x1_0000 + b2 * 0x100 + b3));
    }
    assert(be32_bytes(n) =~= seq![b0, b1, b2, b3]);
}

/// A record whose declared length is exactly what is left behind its prefix
/// is the last one: it is converted and nothing fails. (With a declared
/// length of zero there is nothing behind the prefix, and the prefix is
/// passed over.)
pub proof fn lemma_exact_last_record(data: Seq<u8>, offset: int)
    requires
        0 <= offset,
        offset + 4 <= data.len(),
        record_len(data, offset) == data.len() - (offset + 4),
    ensures
        annex_b_from(data, offset) == if record_len(data, offset) > 0 {
            Some(start_code() + data.subrange(offset + 4, data.len() as int))
        } else {
            Some(Seq::empty())
        },
{
    if record_len(data, offset) > 0 {
        let end = data.len() as int;
        assert(annex_b_from(data, end) == Some(Seq::<u8>::empty()));
        assert(start_code() + data.subrange(offset + 4, end) + Seq::<u8>::empty()
            =~= start_code() + data.subrange(offset + 4, end));
    }
}

/// A buffer whose records lead to one that declares exactly the bytes that
/// are left behind its prefix is well formed: it has an Annex-B form.
pub proof fn lemma_exact_last_record_ends_buffer(data: Seq<u8>, from: int, offset: int)
    requires
        0 <= from,
        record_starts_at(data, from, offset),
        offset + 4 <= data.len(),
        record_len(data, offset) == data.len() - (offset + 4),
    ensures
        annex_b_from(data, from).is_some(),
    decreases data.len() - from,
{
    if from == offset {
        lemma_exact_last_record(data, offset);
    } else {
        lemma_be32_range(data[from], data[from + 1], data[from + 2], data[from + 3]);
        lemma_exact_last_record_ends_buffer(data, from + 4 + record_len(data, from), offset);
    }
}

/// A buffer in which some record declares more bytes than are left behind
/// its prefix has no Annex-B form.
pub proof fn lemma_overlong_record(data: Seq<u8>, from: int, offset: int)
    requires
        0 <= from,
        record_starts_at(data, from, offset),
        offset + 4 < data.len(),
        record_len(data, offset) > data.len() - (offset + 4),
    ensures
        annex_b_from(data, from).is_none(),
    decreases data.len() - from,
{
    if from != offset {
        lemma_be32_range(data[from], data[from + 1], data[from + 2], data[from + 3]);
        lemma_overlong_record(data, from + 4 + record_len(data, from), offset);
    }
}

/// Reads the big-endian number in the four bytes of `data` at `offset`.
pub fn read_be32(data: &[u8], offset: usize) -> (n: u32)
    requires
        offset + 4 <= data.len(),
    ensures
        n == record_len(data@, offset as int),
{
    let b0: u32 = data[offset] as u32;
    let b1: u32 = data[offset + 1] as u32;
    let b2: u32 = data[offset + 2] as u32;
    let b3: u32 = data[offset + 3] as u32;
    b0 * 0x100_0000 + b1 * 0x1_0000 + b2 * 0x100 + b3
}

/// Appends the four bytes that spell `n` in big-endian order.
pub fn push_be32(out: &mut Vec<u8>, n: u32)
    ensures
        final(out)@ == old(out)@ + be32_bytes(n as int),
{
    let ghost before = out@;
    out.push((n / 0x100_0000) as u8);
    out.push((n / 0x1_0000 % 0x100) as u8);
    out.push((n / 0x100 % 0x100) as u8);
    out.push((n % 0x100) as u8);
    assert(out@ =~= before + be32_bytes(n as int));
}

/// Appends the start code `00 00 00 01`.
pub fn push_start_code(out: &mut Vec<u8>)
    ensures
        final(out)@ == old(out)@ + start_code(),
{
    let ghost before = out@;
    out.push(0);
    out.push(0);
    out.push(0);
    out.push(1);
    assert(out@ =~= before + start_code());
}

/// Appends the bytes of `data` from `from` up to `to`.
pub fn push_bytes(out: &mut Vec<u8>, data: &[u8], from: usize, to: usize)
    requires
        from <= to <= data.len(),
    ensures
        final(out)@ == old(out)@ + data@.subrange(from as int, to as int),
{
    let ghost before = out@;
    let mut i: usize = from;
    while i < to
        invariant
            from <= i <= to <= data.len(),
            out@ == before + data@.subrange(from as int, i as int),
        decreases to - i,
    {
        out.push(data[i]);
        i += 1;
        assert(out@ =~= before + data@.subrange(from as int, i as int));
    }
}

/// Rewrites a buffer of length-prefixed units in Annex-B framing: each
/// prefix is replaced by a start code.
///
/// Fails with [`HevcError::MalformedBitstream`] exactly when a prefix
/// declares more bytes than the buffer holds behind it. Four bytes or fewer
/// at the end of the buffer are not read as a record.
pub fn length_prefixed_to_annex_b(data: &[u8]) -> (framed: Result<Vec<u8>, HevcError>)
    ensures
        match framed {
            Ok(out) => annex_b_of(data@) == Some(out@),
            Err(e) => e == HevcError::MalformedBitstream && annex_b_of(data@).is_none(),
        },
{
    let mut output: Vec<u8> = Vec::new();
    append_annex_b(&mut output, data)?;
    Ok(output)
}

/// Appends the Annex-B form of a buffer of length-prefixed units to `out`.
/// On failure `out` is left as it was.
pub fn append_annex_b(out: &mut Vec<u8>, data: &[u8]) -> (done: Result<(), HevcError>)
    ensures
        match done {
            Ok(()) => annex_b_of(data@).is_some() && final(out)@ == old(out)@ + annex_b_of(
                data@,
            ).unwrap(),
            Err(e) => e == HevcError::MalformedBitstream && annex_b_of(data@).is_none()
                && final(out)@ == old(out)@,
        },
{
    let ghost before = out@;
    let ghost mut done: Seq<u8> = Seq::empty();
    let start = out.len();
    let mut buffer_offset: usize = 0;
    assert(out@ =~= before + done);
    while data.len() - buffer_offset > LENGTH_PREFIX_SIZE
        invariant
            buffer_offset <= data.len(),
            start == before.len(),
            before == old(out)@,
            out@ == before + done,
            annex_b_of(data@) == match annex_b_from(data@, buffer_offset as int) {
                Some(rest) => Some(done + rest),
                None => None,
            },
        decreases data.len() - buffer_offset,
    {
        let nal_len = read_be32(data, buffer_offset) as usize;
        let hevc_offset = buffer_offset + LENGTH_PREFIX_SIZE;
        if nal_len > data.len() - hevc_offset {
            out.truncate(start);
            assert(out@ =~= before);
            return Err(HevcError::MalformedBitstream);
        }
        let ghost payload = data@.subrange(hevc_offset as int, hevc_offset + nal_len);
        push_start_code(out);
        push_bytes(out, data, hevc_offset, hevc_offset + nal_len);
        proof {
            let next = annex_b_from(data@, hevc_offset + nal_len);
            if next.is_some() {
                assert(done + (start_code() + payload + next.unwrap()) =~= (done + start_code()
                    + payload) + next.unwrap());
            }
            done = done + start_code() + payload;
            assert(out@ =~= before + done);
        }
        buffer_offset = hevc_offset + nal_len;
    }
    proof {
        assert(done + Seq::<u8>::empty() =~= done);
    }
    Ok(())
}

/// Puts one NAL unit behind its length prefix, as a hardware decoder takes
/// it.
///
/// Fails with [`HevcError::MalformedBitstream`] exactly when the unit is too
/// long for a prefix of 32 bits.
pub fn annex_b_to_length_prefixed(payload: &[u8]) -> (framed: Result<Vec<u8>, HevcError>)
    ensures
        match framed {
            Ok(out) => payload@.len() <= u32::MAX && out@ == length_prefixed_record(payload@),
            Err(e) => e == HevcError::MalformedBitstream && payload@.len() > u32::MAX,
        },
{
    if payload.len() > 0xffff_ffff {
        return Err(HevcError::MalformedBitstream);
    }
    let mut length_prefixed_data: Vec<u8> = Vec::new();
    push_be32(&mut length_prefixed_data, payload.len() as u32);
    push_bytes(&mut length_prefixed_data, payload, 0, payload.len());
    assert(payload@.subrange(0, payload@.len() as int) =~= payload@);
    assert(length_prefixed_data@ =~= length_prefixed_record(payload@));
    Ok(length_prefixed_data)
}

} // verus!
