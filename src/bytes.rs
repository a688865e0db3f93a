//! Fixed-width integers on the wire, read and written through `byteorder`.
use vstd::prelude::*;

verus! {

/// The big-endian value of two bytes.
pub open spec fn be16(hi: u8, lo: u8) -> u16 {
    (hi as int * 256 + lo as int) as u16
}

/// The big-endian value of four bytes.
pub open spec fn be32(b: Seq<u8>) -> u32
    recommends
        b.len() == 4,
{
    (b[0] as int * 0x100_0000 + b[1] as int * 0x1_0000 + b[2] as int * 0x100 + b[3] as int) as u32
}

/// The two bytes of `v`, most significant first.
pub open spec fn be16_bytes(v: u16) -> Seq<u8> {
    seq![(v / 256) as u8, (v % 256) as u8]
}

/// The four bytes of `v`, most significant first.
pub open spec fn be32_bytes(v: u32) -> Seq<u8> {
    seq![
        (v / 0x100_0000) as u8,
        ((v / 0x1_0000) % 0x100) as u8,
        ((v / 0x100) % 0x100) as u8,
        (v % 0x100) as u8,
    ]
}

/// The four bytes of `v`, least significant first.
pub open spec fn le32_bytes(v: u32) -> Seq<u8> {
    be32_bytes(v).reverse()
}

/// Relies on `byteorder::BigEndian::read_u16`: the first two bytes, most significant first.
#[verifier::external_body]
pub(crate) fn read_be_u16(buf: &[u8], at: usize) -> (r: u16)
    requires
        at + 2 <= buf@.len(),
    ensures
        r == be16(buf@[at as int], buf@[at + 1]),
{
    <byteorder::BigEndian as byteorder::ByteOrder>::read_u16(&buf[at..])
}

/// Relies on `byteorder::BigEndian::read_u32`: the first four bytes, most significant first.
#[verifier::external_body]
pub(crate) fn read_be_u32(buf: &[u8], at: usize) -> (r: u32)
    requires
        at + 4 <= buf@.len(),
    ensures
        r == be32(buf@.subrange(at as int, at + 4)),
{
    <byteorder::BigEndian as byteorder::ByteOrder>::read_u32(&buf[at..])
}

/// Relies on `byteorder::BigEndian::write_u16`: writes two bytes, most significant first.
#[verifier::external_body]
pub(crate) fn write_be_u16(buf: &mut [u8], at: usize, v: u16)
    requires
        at + 2 <= old(buf)@.len(),
    ensures
        final(buf)@ == old(buf)@.update(at as int, be16_bytes(v)[0]).update(at + 1, be16_bytes(v)[1]),
{
    <byteorder::BigEndian as byteorder::ByteOrder>::write_u16(&mut buf[at..], v)
}

/// Relies on `byteorder::BigEndian::write_u32`: writes four bytes, most significant first.
#[verifier::external_body]
pub(crate) fn write_be_u32(buf: &mut [u8], at: usize, v: u32)
    requires
        at + 4 <= old(buf)@.len(),
    ensures
        final(buf)@ == old(buf)@.subrange(0, at as int) + be32_bytes(v) + old(buf)@.subrange(
            at + 4,
            old(buf)@.len() as int,
        ),
{
    <byteorder::BigEndian as byteorder::ByteOrder>::write_u32(&mut buf[at..], v)
}

/// Relies on `byteorder::LittleEndian::write_u32`: writes four bytes, least significant first.
#[verifier::external_body]
pub(crate) fn write_le_u32(buf: &mut [u8], at: usize, v: u32)
    requires
        at + 4 <= old(buf)@.len(),
    ensures
        final(buf)@ == old(buf)@.subrange(0, at as int) + le32_bytes(v) + old(buf)@.subrange(
            at + 4,
            old(buf)@.len() as int,
        ),
{
    <byteorder::LittleEndian as byteorder::ByteOrder>::write_u32(&mut buf[at..], v)
}

/// The bytes `buf[start..end]` as a new vector.
pub fn copy_range(buf: &[u8], start: usize, end: usize) -> (r: Vec<u8>)
    requires
        start <= end <= buf@.len(),
    ensures
        r@ == buf@.subrange(start as int, end as int),
{
    let mut r: Vec<u8> = Vec::with_capacity(end - start);
    let mut i: usize = start;
    while i < end
        invariant
            start <= i <= end <= buf@.len(),
            r@ == buf@.subrange(start as int, i as int),
        decreases end - i,
    {
        r.push(buf[i]);
        i = i + 1;
    }
    r
}

/// Appends `src[start..end]` to `dst`.
pub fn extend_range(dst: &mut Vec<u8>, src: &[u8], start: usize, end: usize)
    requires
        start <= end <= src@.len(),
    ensures
        final(dst)@ == old(dst)@ + src@.subrange(start as int, end as int),
{
    let mut i: usize = start;
    while i < end
        invariant
            start <= i <= end <= src@.len(),
            dst@ == old(dst)@ + src@.subrange(start as int, i as int),
        decreases end - i,
    {
        dst.push(src[i]);
        i = i + 1;
    }
}

/// Writes `src` into `dst` from position `at` on.
pub fn write_range(dst: &mut [u8], at: usize, src: &[u8])
    requires
        at + src@.len() <= old(dst)@.len(),
    ensures
        final(dst)@ == old(dst)@.subrange(0, at as int) + src@ + old(dst)@.subrange(
            at + src@.len(),
            old(dst)@.len() as int,
        ),
{
    let dlen = dst.len();
    let mut i: usize = 0;
    while i < src.len()
        invariant
            at + src@.len() <= dst@.len(),
            dst@.len() == old(dst)@.len(),
            dlen == dst@.len(),
            i <= src@.len(),
            dst@ == old(dst)@.subrange(0, at as int) + src@.subrange(0, i as int) + old(
                dst,
            )@.subrange(at + i, old(dst)@.len() as int),
        decreases src@.len() - i,
    {
        dst[at + i] = src[i];
        i = i + 1;
        assert(dst@ =~= old(dst)@.subrange(0, at as int) + src@.subrange(0, i as int) + old(
            dst,
        )@.subrange(at + i, old(dst)@.len() as int));
    }
    assert(src@.subrange(0, i as int) =~= src@);
}

} // verus!
