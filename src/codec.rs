//! Byte-level building blocks shared by every record: the two-byte header
//! with its 9-bit length, big-endian integers, and UTF-8 text.
use vstd::prelude::*;
use vstd::utf8::*;

verus! {

/// Largest value length that the 9-bit length field can carry.
pub const MAX_VALUE_LEN: usize = 511;

/// The two header bytes: the 7-bit type code above the high bit of the
/// length, then the low eight bits of the length.
pub open spec fn header_bytes(code: u8, len: nat) -> Seq<u8> {
    seq![(code * 2 + len / 256) as u8, (len % 256) as u8]
}

/// The type code carried by the first header byte.
pub open spec fn header_code(b0: u8) -> u8 {
    b0 / 2
}

/// The value length carried by the two header bytes.
pub open spec fn header_len(b0: u8, b1: u8) -> nat {
    (b0 % 2) as nat * 256 + b1 as nat
}

pub open spec fn be16(x: u16) -> Seq<u8> {
    seq![(x / 256) as u8, (x % 256) as u8]
}

pub open spec fn from_be16(b: Seq<u8>) -> u16 {
    (b[0] as nat * 256 + b[1] as nat) as u16
}

pub open spec fn be32(x: u32) -> Seq<u8> {
    be16((x / 0x1_0000) as u16) + be16((x % 0x1_0000) as u16)
}

pub open spec fn from_be32(b: Seq<u8>) -> u32 {
    (from_be16(b.subrange(0, 2)) as nat * 0x1_0000 + from_be16(b.subrange(2, 4)) as nat) as u32
}

pub proof fn lemma_header_round_trip(code: u8, len: nat)
    requires
        code <= 127,
        len <= 511,
    ensures
        header_code(header_bytes(code, len)[0]) == code,
        header_len(header_bytes(code, len)[0], header_bytes(code, len)[1]) == len,
{
}

pub proof fn lemma_be16_round_trip(x: u16)
    ensures
        from_be16(be16(x)) == x,
        be16(x).len() == 2,
{
}

pub proof fn lemma_from_be16_round_trip(b: Seq<u8>)
    requires
        b.len() == 2,
    ensures
        be16(from_be16(b)) == b,
{
    assert(be16(from_be16(b)) =~= b);
}

pub proof fn lemma_be32_round_trip(x: u32)
    ensures
        from_be32(be32(x)) == x,
        be32(x).len() == 4,
{
    let hi = (x / 0x1_0000) as u16;
    let lo = (x % 0x1_0000) as u16;
    lemma_be16_round_trip(hi);
    lemma_be16_round_trip(lo);
    assert(be32(x).subrange(0, 2) =~= be16(hi));
    assert(be32(x).subrange(2, 4) =~= be16(lo));
}

pub proof fn lemma_from_be32_round_trip(b: Seq<u8>)
    requires
        b.len() == 4,
    ensures
        be32(from_be32(b)) == b,
{
    let hi = from_be16(b.subrange(0, 2));
    let lo = from_be16(b.subrange(2, 4));
    lemma_from_be16_round_trip(b.subrange(0, 2));
    lemma_from_be16_round_trip(b.subrange(2, 4));
    let x = from_be32(b);
    assert((x / 0x1_0000) as u16 == hi);
    assert((x % 0x1_0000) as u16 == lo);
    assert(be32(from_be32(b)) =~= b);
}

/// Appends `src` to `out`.
pub fn push_all(out: &mut Vec<u8>, src: &[u8])
    ensures
        final(out)@ == old(out)@ + src@,
{
    let mut i: usize = 0;
    while i < src.len()
        invariant
            i <= src@.len(),
            out@ == old(out)@ + src@.subrange(0, i as int),
        decreases src@.len() - i,
    {
        out.push(src[i]);
        i = i + 1;
        assert(src@.subrange(0, i as int) =~= src@.subrange(0, i - 1).push(src@[i - 1]));
    }
    assert(src@.subrange(0, i as int) =~= src@);
}

/// Appends the header of a record whose type code is `code` and whose value
/// is `len` bytes long.
pub fn push_header(out: &mut Vec<u8>, code: u8, len: usize)
    requires
        code <= 127,
        len <= MAX_VALUE_LEN,
    ensures
        final(out)@ == old(out)@ + header_bytes(code, len as nat),
{
    let b0: u8 = code * 2 + (len / 256) as u8;
    let b1: u8 = (len % 256) as u8;
    out.push(b0);
    out.push(b1);
    assert(final(out)@ =~= old(out)@ + header_bytes(code, len as nat));
}

pub fn push_be16(out: &mut Vec<u8>, x: u16)
    ensures
        final(out)@ == old(out)@ + be16(x),
{
    out.push((x / 256) as u8);
    out.push((x % 256) as u8);
    assert(final(out)@ =~= old(out)@ + be16(x));
}

pub fn push_be32(out: &mut Vec<u8>, x: u32)
    ensures
        final(out)@ == old(out)@ + be32(x),
{
    push_be16(out, (x / 0x1_0000) as u16);
    push_be16(out, (x % 0x1_0000) as u16);
    assert(final(out)@ =~= old(out)@ + be32(x));
}

pub fn read_be16(b: &[u8], at: usize) -> (r: u16)
    requires
        at + 2 <= b@.len(),
    ensures
        r == from_be16(b@.subrange(at as int, at + 2)),
{
    (b[at] as u16) * 256 + (b[at + 1] as u16)
}

pub fn read_be32(b: &[u8], at: usize) -> (r: u32)
    requires
        at + 4 <= b@.len(),
    ensures
        r == from_be32(b@.subrange(at as int, at + 4)),
{
    let n = b.len();
    let hi = read_be16(b, at);
    let lo = read_be16(b, at + 2);
    assert(b@.subrange(at as int, at + 4).subrange(0, 2) =~= b@.subrange(at as int, at + 2));
    assert(b@.subrange(at as int, at + 4).subrange(2, 4) =~= b@.subrange(at + 2, at + 4));
    (hi as u32) * 0x1_0000 + (lo as u32)
}

/// The bytes of `b` from `from` to `to`, as a vector.
pub fn copy_range(b: &[u8], from: usize, to: usize) -> (r: Vec<u8>)
    requires
        from <= to <= b@.len(),
    ensures
        r@ == b@.subrange(from as int, to as int),
{
    let mut r: Vec<u8> = Vec::new();
    let mut i: usize = from;
    while i < to
        invariant
            from <= i <= to <= b@.len(),
            r@ == b@.subrange(from as int, i as int),
        decreases to - i,
    {
        r.push(b[i]);
        i = i + 1;
        assert(r@ =~= b@.subrange(from as int, i as int));
    }
    r
}

/// Appends the UTF-8 encoding of `s`.
pub fn push_utf8(out: &mut Vec<u8>, s: &String)
    ensures
        final(out)@ == old(out)@ + encode_utf8(s@),
{
    push_all(out, s.as_str().as_bytes());
}

/// Number of bytes in the UTF-8 encoding of `s`.
pub fn utf8_len(s: &String) -> (r: usize)
    ensures
        r == encode_utf8(s@).len(),
{
    s.as_str().as_bytes().len()
}

/// Relies on `String::from_utf8`: it accepts exactly the valid UTF-8 byte
/// sequences and then holds the characters they encode.
#[verifier::external_body]
pub(crate) fn string_from_utf8(b: Vec<u8>) -> (r: Option<String>)
    ensures
        r is Some <==> valid_utf8(b@),
        r matches Some(s) ==> s@ == decode_utf8(b@),
{
    String::from_utf8(b).ok()
}

/// Decodes the bytes of `b` from `from` to its end as UTF-8 text.
pub fn text_from_utf8(b: &[u8], from: usize) -> (r: Option<String>)
    requires
        from <= b@.len(),
    ensures
        r is Some <==> valid_utf8(b@.subrange(from as int, b@.len() as int)),
        r matches Some(s) ==> s@ == decode_utf8(b@.subrange(from as int, b@.len() as int)),
{
    string_from_utf8(copy_range(b, from, b.len()))
}

} // verus!
