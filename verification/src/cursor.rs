//! A minimal reader over an immutable byte slice.
//!
//! Every reader advances the slice past the bytes it consumed, and only on
//! success: when fewer bytes remain than a value requires, the reader returns
//! `None` and leaves the slice untouched. Multi-byte integers come in
//! little-endian and big-endian variants, matching the wire format's mix of
//! byte orders.
use vstd::prelude::*;

verus! {

use vstd::bytes::{
    spec_u16_from_le_bytes,
    spec_u32_from_le_bytes,
    spec_u32_to_le_bytes,
    spec_u64_from_le_bytes,
    spec_u64_to_le_bytes,
    u32_from_le_bytes,
    u64_from_le_bytes,
};
use vstd::slice::slice_subrange;

/// The big-endian image of a 16-bit integer.
pub open spec fn spec_u16_to_be_bytes(x: u16) -> Seq<u8> {
    seq![((x >> 8) & 0xff) as u8, (x & 0xff) as u8]
}

/// The 16-bit integer read big-endian from two bytes.
pub open spec fn spec_u16_from_be_bytes(s: Seq<u8>) -> u16
    recommends
        s.len() == 2,
{
    (((s[0] as u16) << 8) | (s[1] as u16)) as u16
}

/// The big-endian image of a 64-bit integer.
pub open spec fn spec_u64_to_be_bytes(x: u64) -> Seq<u8> {
    seq![
        ((x >> 56) & 0xff) as u8,
        ((x >> 48) & 0xff) as u8,
        ((x >> 40) & 0xff) as u8,
        ((x >> 32) & 0xff) as u8,
        ((x >> 24) & 0xff) as u8,
        ((x >> 16) & 0xff) as u8,
        ((x >> 8) & 0xff) as u8,
        (x & 0xff) as u8,
    ]
}

/// The 64-bit integer read big-endian from eight bytes.
pub open spec fn spec_u64_from_be_bytes(s: Seq<u8>) -> u64
    recommends
        s.len() == 8,
{
    (((s[0] as u64) << 56) | ((s[1] as u64) << 48) | ((s[2] as u64) << 40) | ((s[3] as u64) << 32)
        | ((s[4] as u64) << 24) | ((s[5] as u64) << 16) | ((s[6] as u64) << 8) | (s[7] as u64)) as u64
}

/// Reading a big-endian 16-bit value back from its image yields the value,
/// and writing the value read from two bytes yields the bytes.
pub proof fn lemma_u16_be_bytes_round_trip()
    ensures
        forall|x: u16| #[trigger] spec_u16_from_be_bytes(spec_u16_to_be_bytes(x)) == x,
        forall|s: Seq<u8>|
            s.len() == 2 ==> #[trigger] spec_u16_to_be_bytes(spec_u16_from_be_bytes(s)) == s,
{
    assert forall|x: u16| #[trigger] spec_u16_from_be_bytes(spec_u16_to_be_bytes(x)) == x by {
        let hi = ((x >> 8) & 0xff) as u8;
        let lo = (x & 0xff) as u8;
        assert((((hi as u16) << 8) | (lo as u16)) as u16 == x) by {
            assert(hi == ((x >> 8) & 0xff) as u8 && lo == (x & 0xff) as u8 ==> (((hi as u16) << 8)
                | (lo as u16)) as u16 == x) by (bit_vector);
        }
    }
    assert forall|s: Seq<u8>| s.len() == 2 implies #[trigger] spec_u16_to_be_bytes(
        spec_u16_from_be_bytes(s),
    ) == s by {
        let x = spec_u16_from_be_bytes(s);
        let b0 = s[0];
        let b1 = s[1];
        assert(x == (((b0 as u16) << 8) | (b1 as u16)) as u16 ==> ((x >> 8) & 0xff) as u8 == b0 && (
        x & 0xff) as u8 == b1) by (bit_vector);
        assert(spec_u16_to_be_bytes(x) =~= s);
    }
}

/// Reading a big-endian 64-bit value back from its image yields the value,
/// and writing the value read from eight bytes yields the bytes.
pub proof fn lemma_u64_be_bytes_round_trip()
    ensures
        forall|x: u64| #[trigger] spec_u64_from_be_bytes(spec_u64_to_be_bytes(x)) == x,
        forall|s: Seq<u8>|
            s.len() == 8 ==> #[trigger] spec_u64_to_be_bytes(spec_u64_from_be_bytes(s)) == s,
{
    assert forall|x: u64| #[trigger] spec_u64_from_be_bytes(spec_u64_to_be_bytes(x)) == x by {
        let b0 = ((x >> 56) & 0xff) as u8;
        let b1 = ((x >> 48) & 0xff) as u8;
        let b2 = ((x >> 40) & 0xff) as u8;
        let b3 = ((x >> 32) & 0xff) as u8;
        let b4 = ((x >> 24) & 0xff) as u8;
        let b5 = ((x >> 16) & 0xff) as u8;
        let b6 = ((x >> 8) & 0xff) as u8;
        let b7 = (x & 0xff) as u8;
        assert(b0 == ((x >> 56) & 0xff) as u8 && b1 == ((x >> 48) & 0xff) as u8 && b2 == ((x >> 40)
            & 0xff) as u8 && b3 == ((x >> 32) & 0xff) as u8 && b4 == ((x >> 24) & 0xff) as u8 && b5
            == ((x >> 16) & 0xff) as u8 && b6 == ((x >> 8) & 0xff) as u8 && b7 == (x & 0xff) as u8
            ==> (((b0 as u64) << 56) | ((b1 as u64) << 48) | ((b2 as u64) << 40) | ((b3 as u64)
            << 32) | ((b4 as u64) << 24) | ((b5 as u64) << 16) | ((b6 as u64) << 8) | (
        b7 as u64)) as u64 == x) by (bit_vector);
    }
    assert forall|s: Seq<u8>| s.len() == 8 implies #[trigger] spec_u64_to_be_bytes(
        spec_u64_from_be_bytes(s),
    ) == s by {
        let x = spec_u64_from_be_bytes(s);
        let b0 = s[0];
        let b1 = s[1];
        let b2 = s[2];
        let b3 = s[3];
        let b4 = s[4];
        let b5 = s[5];
        let b6 = s[6];
        let b7 = s[7];
        assert(x == (((b0 as u64) << 56) | ((b1 as u64) << 48) | ((b2 as u64) << 40) | ((b3 as u64)
            << 32) | ((b4 as u64) << 24) | ((b5 as u64) << 16) | ((b6 as u64) << 8) | (
        b7 as u64)) as u64 ==> ((x >> 56) & 0xff) as u8 == b0 && ((x >> 48) & 0xff) as u8 == b1 && (
        (x >> 40) & 0xff) as u8 == b2 && ((x >> 32) & 0xff) as u8 == b3 && ((x >> 24)
            & 0xff) as u8 == b4 && ((x >> 16) & 0xff) as u8 == b5 && ((x >> 8) & 0xff) as u8 == b6
            && (x & 0xff) as u8 == b7) by (bit_vector);
        assert(spec_u64_to_be_bytes(x) =~= s);
    }
}

/// Reads one byte.
pub fn read_u8(data: &mut &[u8]) -> (r: Option<u8>)
    ensures
        match r {
            Some(v) => old(data)@.len() >= 1 && v == old(data)@[0] && final(data)@ == old(data)@.skip(1),
            None => old(data)@.len() < 1 && final(data)@ == old(data)@,
        },
{
    let d: &[u8] = *data;
    if d.len() < 1 {
        return None;
    }
    let v = *vstd::slice::slice_index_get(d, 0);
    *data = slice_subrange(d, 1, d.len());
    assert(data@ =~= old(data)@.skip(1));
    Some(v)
}

/// Reads a little-endian 32-bit integer.
pub fn read_u32_le(data: &mut &[u8]) -> (r: Option<u32>)
    ensures
        match r {
            Some(v) => old(data)@.len() >= 4 && v == spec_u32_from_le_bytes(old(data)@.take(4))
                && final(data)@ == old(data)@.skip(4),
            None => old(data)@.len() < 4 && final(data)@ == old(data)@,
        },
{
    let d: &[u8] = *data;
    if d.len() < 4 {
        return None;
    }
    let v = u32_from_le_bytes(slice_subrange(d, 0, 4));
    *data = slice_subrange(d, 4, d.len());
    assert(old(data)@.subrange(0, 4) =~= old(data)@.take(4));
    assert(data@ =~= old(data)@.skip(4));
    Some(v)
}

/// Reads a little-endian 64-bit integer.
pub fn read_u64_le(data: &mut &[u8]) -> (r: Option<u64>)
    ensures
        match r {
            Some(v) => old(data)@.len() >= 8 && v == spec_u64_from_le_bytes(old(data)@.take(8))
                && final(data)@ == old(data)@.skip(8),
            None => old(data)@.len() < 8 && final(data)@ == old(data)@,
        },
{
    let d: &[u8] = *data;
    if d.len() < 8 {
        return None;
    }
    let v = u64_from_le_bytes(slice_subrange(d, 0, 8));
    *data = slice_subrange(d, 8, d.len());
    assert(old(data)@.subrange(0, 8) =~= old(data)@.take(8));
    assert(data@ =~= old(data)@.skip(8));
    Some(v)
}

/// Reads a big-endian 16-bit integer.
pub fn read_u16_be(data: &mut &[u8]) -> (r: Option<u16>)
    ensures
        match r {
            Some(v) => old(data)@.len() >= 2 && v == spec_u16_from_be_bytes(old(data)@.take(2))
                && final(data)@ == old(data)@.skip(2),
            None => old(data)@.len() < 2 && final(data)@ == old(data)@,
        },
{
    let d: &[u8] = *data;
    if d.len() < 2 {
        return None;
    }
    let b0 = *vstd::slice::slice_index_get(d, 0);
    let b1 = *vstd::slice::slice_index_get(d, 1);
    let v = ((b0 as u16) << 8u16) | (b1 as u16);
    *data = slice_subrange(d, 2, d.len());
    assert(data@ =~= old(data)@.skip(2));
    assert(v == spec_u16_from_be_bytes(old(data)@.take(2)));
    Some(v)
}

/// Reads a big-endian 64-bit integer.
pub fn read_u64_be(data: &mut &[u8]) -> (r: Option<u64>)
    ensures
        match r {
            Some(v) => old(data)@.len() >= 8 && v == spec_u64_from_be_bytes(old(data)@.take(8))
                && final(data)@ == old(data)@.skip(8),
            None => old(data)@.len() < 8 && final(data)@ == old(data)@,
        },
{
    let d: &[u8] = *data;
    if d.len() < 8 {
        return None;
    }
    let b0 = *vstd::slice::slice_index_get(d, 0);
    let b1 = *vstd::slice::slice_index_get(d, 1);
    let b2 = *vstd::slice::slice_index_get(d, 2);
    let b3 = *vstd::slice::slice_index_get(d, 3);
    let b4 = *vstd::slice::slice_index_get(d, 4);
    let b5 = *vstd::slice::slice_index_get(d, 5);
    let b6 = *vstd::slice::slice_index_get(d, 6);
    let b7 = *vstd::slice::slice_index_get(d, 7);
    let v = ((b0 as u64) << 56u64) | ((b1 as u64) << 48u64) | ((b2 as u64) << 40u64) | ((b3
        as u64) << 32u64) | ((b4 as u64) << 24u64) | ((b5 as u64) << 16u64) | ((b6 as u64)
        << 8u64) | (b7 as u64);
    *data = slice_subrange(d, 8, d.len());
    assert(data@ =~= old(data)@.skip(8));
    assert(v == spec_u64_from_be_bytes(old(data)@.take(8)));
    Some(v)
}

/// Reads a borrowed sub-slice of exactly `n` bytes.
pub fn read_slice<'a>(data: &mut &'a [u8], n: usize) -> (r: Option<&'a [u8]>)
    ensures
        match r {
            Some(s) => old(data)@.len() >= n && s@ == old(data)@.take(n as int) && final(data)@
                == old(data)@.skip(n as int),
            None => old(data)@.len() < n && final(data)@ == old(data)@,
        },
{
    let d: &'a [u8] = *data;
    if d.len() < n {
        return None;
    }
    let s = slice_subrange(d, 0, n);
    *data = slice_subrange(d, n, d.len());
    assert(s@ =~= old(data)@.take(n as int));
    assert(data@ =~= old(data)@.skip(n as int));
    Some(s)
}

/// Appends a little-endian 32-bit integer to the buffer.
pub fn write_u32_le(out: &mut Vec<u8>, x: u32)
    ensures
        final(out)@ == old(out)@ + spec_u32_to_le_bytes(x),
{
    let bytes = vstd::bytes::u32_to_le_bytes(x);
    out.extend_from_slice(bytes.as_slice());
    assert(out@ =~= old(out)@ + spec_u32_to_le_bytes(x));
}

/// Appends a little-endian 64-bit integer to the buffer.
pub fn write_u64_le(out: &mut Vec<u8>, x: u64)
    ensures
        final(out)@ == old(out)@ + spec_u64_to_le_bytes(x),
{
    let bytes = vstd::bytes::u64_to_le_bytes(x);
    out.extend_from_slice(bytes.as_slice());
    assert(out@ =~= old(out)@ + spec_u64_to_le_bytes(x));
}

/// Appends a big-endian 16-bit integer to the buffer.
pub fn write_u16_be(out: &mut Vec<u8>, x: u16)
    ensures
        final(out)@ == old(out)@ + spec_u16_to_be_bytes(x),
{
    out.push(((x >> 8u16) & 0xff) as u8);
    out.push((x & 0xff) as u8);
    assert(out@ =~= old(out)@ + spec_u16_to_be_bytes(x));
}

/// Appends a big-endian 64-bit integer to the buffer.
pub fn write_u64_be(out: &mut Vec<u8>, x: u64)
    ensures
        final(out)@ == old(out)@ + spec_u64_to_be_bytes(x),
{
    out.push(((x >> 56u64) & 0xff) as u8);
    out.push(((x >> 48u64) & 0xff) as u8);
    out.push(((x >> 40u64) & 0xff) as u8);
    out.push(((x >> 32u64) & 0xff) as u8);
    out.push(((x >> 24u64) & 0xff) as u8);
    out.push(((x >> 16u64) & 0xff) as u8);
    out.push(((x >> 8u64) & 0xff) as u8);
    out.push((x & 0xff) as u8);
    assert(out@ =~= old(out)@ + spec_u64_to_be_bytes(x));
}

/// The little-endian image of a signed 32-bit integer (its two's-complement bits).
pub open spec fn spec_i32_to_le_bytes(x: i32) -> Seq<u8> {
    spec_u32_to_le_bytes(x as u32)
}

/// The signed 32-bit integer read little-endian from four bytes.
pub open spec fn spec_i32_from_le_bytes(s: Seq<u8>) -> i32
    recommends
        s.len() == 4,
{
    spec_u32_from_le_bytes(s) as i32
}

/// The little-endian image of a signed 64-bit integer (its two's-complement bits).
pub open spec fn spec_i64_to_le_bytes(x: i64) -> Seq<u8> {
    spec_u64_to_le_bytes(x as u64)
}

/// The signed 64-bit integer read little-endian from eight bytes.
pub open spec fn spec_i64_from_le_bytes(s: Seq<u8>) -> i64
    recommends
        s.len() == 8,
{
    spec_u64_from_le_bytes(s) as i64
}

/// Reading a signed value back from its little-endian image yields the value,
/// and writing the value read from the right number of bytes yields the bytes.
pub proof fn lemma_signed_le_bytes_round_trip()
    ensures
        forall|x: i32| #[trigger] spec_i32_from_le_bytes(spec_i32_to_le_bytes(x)) == x,
        forall|s: Seq<u8>|
            s.len() == 4 ==> #[trigger] spec_i32_to_le_bytes(spec_i32_from_le_bytes(s)) == s,
        forall|x: i64| #[trigger] spec_i64_from_le_bytes(spec_i64_to_le_bytes(x)) == x,
        forall|s: Seq<u8>|
            s.len() == 8 ==> #[trigger] spec_i64_to_le_bytes(spec_i64_from_le_bytes(s)) == s,
{
    vstd::bytes::lemma_auto_spec_u32_to_from_le_bytes();
    vstd::bytes::lemma_auto_spec_u64_to_from_le_bytes();
    assert forall|x: i32| #[trigger] spec_i32_from_le_bytes(spec_i32_to_le_bytes(x)) == x by {
        assert(spec_u32_to_le_bytes(x as u32).len() == 4);
        assert(spec_u32_from_le_bytes(spec_u32_to_le_bytes(x as u32)) == x as u32);
        assert(((x as u32) as i32) == x) by (bit_vector);
    }
    assert forall|s: Seq<u8>| s.len() == 4 implies #[trigger] spec_i32_to_le_bytes(
        spec_i32_from_le_bytes(s),
    ) == s by {
        let v = spec_u32_from_le_bytes(s);
        assert(spec_u32_to_le_bytes(v).len() == 4);
        assert(((v as i32) as u32) == v) by (bit_vector);
        assert(spec_u32_to_le_bytes(spec_u32_from_le_bytes(s)) == s);
    }
    assert forall|x: i64| #[trigger] spec_i64_from_le_bytes(spec_i64_to_le_bytes(x)) == x by {
        assert(spec_u64_to_le_bytes(x as u64).len() == 8);
        assert(spec_u64_from_le_bytes(spec_u64_to_le_bytes(x as u64)) == x as u64);
        assert(((x as u64) as i64) == x) by (bit_vector);
    }
    assert forall|s: Seq<u8>| s.len() == 8 implies #[trigger] spec_i64_to_le_bytes(
        spec_i64_from_le_bytes(s),
    ) == s by {
        let v = spec_u64_from_le_bytes(s);
        assert(spec_u64_to_le_bytes(v).len() == 8);
        assert(((v as i64) as u64) == v) by (bit_vector);
        assert(spec_u64_to_le_bytes(spec_u64_from_le_bytes(s)) == s);
    }
}

/// Reads a little-endian signed 32-bit integer.
pub fn read_i32_le(data: &mut &[u8]) -> (r: Option<i32>)
    ensures
        match r {
            Some(v) => old(data)@.len() >= 4 && v == spec_i32_from_le_bytes(old(data)@.take(4))
                && final(data)@ == old(data)@.skip(4),
            None => old(data)@.len() < 4 && final(data)@ == old(data)@,
        },
{
    match read_u32_le(data) {
        Some(v) => Some(#[verifier::truncate] (v as i32)),
        None => None,
    }
}

/// Reads a little-endian signed 64-bit integer.
pub fn read_i64_le(data: &mut &[u8]) -> (r: Option<i64>)
    ensures
        match r {
            Some(v) => old(data)@.len() >= 8 && v == spec_i64_from_le_bytes(old(data)@.take(8))
                && final(data)@ == old(data)@.skip(8),
            None => old(data)@.len() < 8 && final(data)@ == old(data)@,
        },
{
    match read_u64_le(data) {
        Some(v) => Some(#[verifier::truncate] (v as i64)),
        None => None,
    }
}

/// Appends a little-endian signed 32-bit integer to the buffer.
pub fn write_i32_le(out: &mut Vec<u8>, x: i32)
    ensures
        final(out)@ == old(out)@ + spec_i32_to_le_bytes(x),
{
    write_u32_le(out, #[verifier::truncate] (x as u32));
}

/// Appends a little-endian signed 64-bit integer to the buffer.
pub fn write_i64_le(out: &mut Vec<u8>, x: i64)
    ensures
        final(out)@ == old(out)@ + spec_i64_to_le_bytes(x),
{
    write_u64_le(out, #[verifier::truncate] (x as u64));
}

} // verus!
