//! Fixed-width integer layouts used on the wire, and a cursor over received bytes
use vstd::prelude::*;
use crate::messages::codec::CodecError;

verus! {

/// Little-endian layout of a 32-bit integer.
pub open spec fn u32_le(x: u32) -> Seq<u8> {
    seq![x as u8, (x >> 8u32) as u8, (x >> 16u32) as u8, (x >> 24u32) as u8]
}

/// Little-endian layout of a 64-bit integer.
pub open spec fn u64_le(x: u64) -> Seq<u8> {
    seq![
        x as u8,
        (x >> 8u64) as u8,
        (x >> 16u64) as u8,
        (x >> 24u64) as u8,
        (x >> 32u64) as u8,
        (x >> 40u64) as u8,
        (x >> 48u64) as u8,
        (x >> 56u64) as u8,
    ]
}

/// Big-endian layout of a 16-bit integer.
pub open spec fn u16_be(x: u16) -> Seq<u8> {
    seq![(x >> 8u16) as u8, x as u8]
}

/// The 32-bit integer whose little-endian layout starts `b`.
pub open spec fn u32_from_le(b: Seq<u8>) -> u32 {
    (b[0] as u32) | ((b[1] as u32) << 8u32) | ((b[2] as u32) << 16u32) | ((b[3] as u32) << 24u32)
}

/// The 64-bit integer whose little-endian layout starts `b`.
pub open spec fn u64_from_le(b: Seq<u8>) -> u64 {
    (b[0] as u64) | ((b[1] as u64) << 8u64) | ((b[2] as u64) << 16u64) | ((b[3] as u64) << 24u64)
        | ((b[4] as u64) << 32u64) | ((b[5] as u64) << 40u64) | ((b[6] as u64) << 48u64) | ((
    b[7] as u64) << 56u64)
}

/// The 16-bit integer whose big-endian layout starts `b`.
pub open spec fn u16_from_be(b: Seq<u8>) -> u16 {
    ((b[0] as u16) << 8u16) | (b[1] as u16)
}

/// A 32-bit integer is read back from its little-endian bytes, whatever follows them.
pub proof fn lemma_u32_le(x: u32, rest: Seq<u8>)
    ensures
        u32_le(x).len() == 4,
        u32_from_le(u32_le(x) + rest) == x,
{
    let b = u32_le(x) + rest;
    let (b0, b1, b2, b3) = (b[0], b[1], b[2], b[3]);
    assert(b0 == x as u8 && b1 == (x >> 8u32) as u8 && b2 == (x >> 16u32) as u8 && b3 == (x
        >> 24u32) as u8);
    assert(b0 == x as u8 && b1 == (x >> 8u32) as u8 && b2 == (x >> 16u32) as u8 && b3 == (x
        >> 24u32) as u8 ==> ((b0 as u32) | ((b1 as u32) << 8u32) | ((b2 as u32) << 16u32) | ((
    b3 as u32) << 24u32)) == x) by (bit_vector);
}

/// A 64-bit integer is read back from its little-endian bytes, whatever follows them.
pub proof fn lemma_u64_le(x: u64, rest: Seq<u8>)
    ensures
        u64_le(x).len() == 8,
        u64_from_le(u64_le(x) + rest) == x,
{
    let b = u64_le(x) + rest;
    let (b0, b1, b2, b3, b4, b5, b6, b7) = (b[0], b[1], b[2], b[3], b[4], b[5], b[6], b[7]);
    assert(b0 == x as u8 && b1 == (x >> 8u64) as u8 && b2 == (x >> 16u64) as u8 && b3 == (x
        >> 24u64) as u8 && b4 == (x >> 32u64) as u8 && b5 == (x >> 40u64) as u8 && b6 == (x
        >> 48u64) as u8 && b7 == (x >> 56u64) as u8);
    assert(b0 == x as u8 && b1 == (x >> 8u64) as u8 && b2 == (x >> 16u64) as u8 && b3 == (x
        >> 24u64) as u8 && b4 == (x >> 32u64) as u8 && b5 == (x >> 40u64) as u8 && b6 == (x
        >> 48u64) as u8 && b7 == (x >> 56u64) as u8 ==> ((b0 as u64) | ((b1 as u64) << 8u64) | ((
    b2 as u64) << 16u64) | ((b3 as u64) << 24u64) | ((b4 as u64) << 32u64) | ((b5 as u64)
        << 40u64) | ((b6 as u64) << 48u64) | ((b7 as u64) << 56u64)) == x) by (bit_vector);
}

/// A 16-bit integer is read back from its big-endian bytes, whatever follows them.
pub proof fn lemma_u16_be(x: u16, rest: Seq<u8>)
    ensures
        u16_be(x).len() == 2,
        u16_from_be(u16_be(x) + rest) == x,
{
    let b = u16_be(x) + rest;
    let (b0, b1) = (b[0], b[1]);
    assert(b0 == (x >> 8u16) as u8 && b1 == x as u8);
    assert(b0 == (x >> 8u16) as u8 && b1 == x as u8 ==> (((b0 as u16) << 8u16) | (b1 as u16))
        == x) by (bit_vector);
}

/// Appends `x` to `buf` in little-endian order.
pub fn put_u32_le(buf: &mut Vec<u8>, x: u32)
    ensures
        final(buf)@ == old(buf)@ + u32_le(x),
{
    buf.push(x as u8);
    buf.push((x >> 8u32) as u8);
    buf.push((x >> 16u32) as u8);
    buf.push((x >> 24u32) as u8);
    assert(final(buf)@ =~= old(buf)@ + u32_le(x));
}

/// Appends `x` to `buf` in little-endian order.
pub fn put_u64_le(buf: &mut Vec<u8>, x: u64)
    ensures
        final(buf)@ == old(buf)@ + u64_le(x),
{
    buf.push(x as u8);
    buf.push((x >> 8u64) as u8);
    buf.push((x >> 16u64) as u8);
    buf.push((x >> 24u64) as u8);
    buf.push((x >> 32u64) as u8);
    buf.push((x >> 40u64) as u8);
    buf.push((x >> 48u64) as u8);
    buf.push((x >> 56u64) as u8);
    assert(final(buf)@ =~= old(buf)@ + u64_le(x));
}

/// Appends `x` to `buf` in big-endian order.
pub fn put_u16_be(buf: &mut Vec<u8>, x: u16)
    ensures
        final(buf)@ == old(buf)@ + u16_be(x),
{
    buf.push((x >> 8u16) as u8);
    buf.push(x as u8);
    assert(final(buf)@ =~= old(buf)@ + u16_be(x));
}

/// Appends all of `bytes` to `buf`.
pub fn put_bytes(buf: &mut Vec<u8>, bytes: &[u8])
    ensures
        final(buf)@ == old(buf)@ + bytes@,
{
    let mut i: usize = 0;
    while i < bytes.len()
        invariant
            i <= bytes@.len(),
            buf@ == old(buf)@ + bytes@.take(i as int),
        decreases bytes@.len() - i,
    {
        buf.push(bytes[i]);
        i = i + 1;
        assert(buf@ =~= old(buf)@ + bytes@.take(i as int));
    }
    assert(bytes@.take(i as int) =~= bytes@);
}

/// Splits the first `n` bytes off the cursor `bytes`.
pub fn take_bytes<'a>(bytes: &mut &'a [u8], n: usize) -> (r: Result<&'a [u8], CodecError>)
    ensures
        match r {
            Ok(head) => {
                &&& n <= old(bytes)@.len()
                &&& head@ == old(bytes)@.take(n as int)
                &&& final(bytes)@ == old(bytes)@.skip(n as int)
            },
            Err(e) => {
                &&& old(bytes)@.len() < n
                &&& e == CodecError::UnexpectedEnd
                &&& final(bytes)@ == old(bytes)@
            },
        },
{
    if bytes.len() < n {
        return Err(CodecError::UnexpectedEnd);
    }
    let (head, tail) = bytes.split_at(n);
    *bytes = tail;
    Ok(head)
}

/// Reads one byte off the cursor `bytes`.
pub fn read_u8(bytes: &mut &[u8]) -> (r: Result<u8, CodecError>)
    ensures
        match r {
            Ok(x) => {
                &&& 1 <= old(bytes)@.len()
                &&& x == old(bytes)@[0]
                &&& final(bytes)@ == old(bytes)@.skip(1)
            },
            Err(e) => old(bytes)@.len() < 1 && e == CodecError::UnexpectedEnd,
        },
{
    let head = take_bytes(bytes, 1)?;
    Ok(head[0])
}

/// Reads a little-endian 32-bit integer off the cursor `bytes`.
pub fn read_u32_le(bytes: &mut &[u8]) -> (r: Result<u32, CodecError>)
    ensures
        match r {
            Ok(x) => {
                &&& 4 <= old(bytes)@.len()
                &&& x == u32_from_le(old(bytes)@)
                &&& final(bytes)@ == old(bytes)@.skip(4)
            },
            Err(e) => old(bytes)@.len() < 4 && e == CodecError::UnexpectedEnd,
        },
{
    let b = take_bytes(bytes, 4)?;
    Ok((b[0] as u32) | ((b[1] as u32) << 8u32) | ((b[2] as u32) << 16u32) | ((b[3] as u32)
        << 24u32))
}

/// Reads a little-endian 64-bit integer off the cursor `bytes`.
pub fn read_u64_le(bytes: &mut &[u8]) -> (r: Result<u64, CodecError>)
    ensures
        match r {
            Ok(x) => {
                &&& 8 <= old(bytes)@.len()
                &&& x == u64_from_le(old(bytes)@)
                &&& final(bytes)@ == old(bytes)@.skip(8)
            },
            Err(e) => old(bytes)@.len() < 8 && e == CodecError::UnexpectedEnd,
        },
{
    let b = take_bytes(bytes, 8)?;
    Ok((b[0] as u64) | ((b[1] as u64) << 8u64) | ((b[2] as u64) << 16u64) | ((b[3] as u64)
        << 24u64) | ((b[4] as u64) << 32u64) | ((b[5] as u64) << 40u64) | ((b[6] as u64)
        << 48u64) | ((b[7] as u64) << 56u64))
}

/// Reads a big-endian 16-bit integer off the cursor `bytes`.
pub fn read_u16_be(bytes: &mut &[u8]) -> (r: Result<u16, CodecError>)
    ensures
        match r {
            Ok(x) => {
                &&& 2 <= old(bytes)@.len()
                &&& x == u16_from_be(old(bytes)@)
                &&& final(bytes)@ == old(bytes)@.skip(2)
            },
            Err(e) => old(bytes)@.len() < 2 && e == CodecError::UnexpectedEnd,
        },
{
    let b = take_bytes(bytes, 2)?;
    Ok(((b[0] as u16) << 8u16) | (b[1] as u16))
}

/// Whether `a` and `b` hold the same bytes.
pub fn same_bytes(a: &[u8], b: &[u8]) -> (r: bool)
    ensures
        r == (a@ == b@),
{
    if a.len() != b.len() {
        return false;
    }
    let mut i: usize = 0;
    while i < a.len()
        invariant
            a@.len() == b@.len(),
            i <= a@.len(),
            forall|k: int| 0 <= k < i ==> a@[k] == b@[k],
        decreases a@.len() - i,
    {
        if a[i] != b[i] {
            return false;
        }
        i = i + 1;
    }
    assert(a@ =~= b@);
    true
}

} // verus!
