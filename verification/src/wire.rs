//! Scalars on the wire: big-endian, fixed width, two's complement for the signed ones.

use vstd::prelude::*;
use vstd::slice::{slice_subrange, slice_to_vec};
use vstd::utf8::{decode_utf8, valid_utf8};

verus! {

/// The four bytes of `x`, most significant first.
#[verifier::opaque]
pub open spec fn u32_to_be(x: u32) -> Seq<u8> {
    seq![
        (x / 0x100_0000) as u8,
        (x / 0x1_0000 % 0x100) as u8,
        (x / 0x100 % 0x100) as u8,
        (x % 0x100) as u8,
    ]
}

/// The number that four big-endian bytes stand for.
#[verifier::opaque]
pub open spec fn u32_of_be(b: Seq<u8>) -> u32
    recommends
        b.len() == 4,
{
    (b[0] * 0x100_0000 + b[1] * 0x1_0000 + b[2] * 0x100 + b[3]) as u32
}

/// The eight bytes of `x`, most significant first.
#[verifier::opaque]
pub open spec fn u64_to_be(x: u64) -> Seq<u8> {
    seq![
        (x / 0x100_0000_0000_0000) as u8,
        (x / 0x1_0000_0000_0000 % 0x100) as u8,
        (x / 0x100_0000_0000 % 0x100) as u8,
        (x / 0x1_0000_0000 % 0x100) as u8,
        (x / 0x100_0000 % 0x100) as u8,
        (x / 0x1_0000 % 0x100) as u8,
        (x / 0x100 % 0x100) as u8,
        (x % 0x100) as u8,
    ]
}

/// The number that eight big-endian bytes stand for.
#[verifier::opaque]
pub open spec fn u64_of_be(b: Seq<u8>) -> u64
    recommends
        b.len() == 8,
{
    (b[0] * 0x100_0000_0000_0000 + b[1] * 0x1_0000_0000_0000 + b[2] * 0x100_0000_0000 + b[3]
        * 0x1_0000_0000 + b[4] * 0x100_0000 + b[5] * 0x1_0000 + b[6] * 0x100 + b[7]) as u64
}

/// The two's-complement bit pattern of `x`.
pub open spec fn i32_bits(x: i32) -> u32 {
    if x >= 0 {
        x as u32
    } else {
        (x + 0x1_0000_0000) as u32
    }
}

/// The signed number whose two's-complement bit pattern is `v`.
pub open spec fn i32_of_bits(v: u32) -> i32 {
    if v < 0x8000_0000 {
        v as i32
    } else {
        (v - 0x1_0000_0000) as i32
    }
}

/// The two's-complement bit pattern of `x`.
pub open spec fn i64_bits(x: i64) -> u64 {
    if x >= 0 {
        x as u64
    } else {
        (x + 0x1_0000_0000_0000_0000) as u64
    }
}

/// The signed number whose two's-complement bit pattern is `v`.
pub open spec fn i64_of_bits(v: u64) -> i64 {
    if v < 0x8000_0000_0000_0000 {
        v as i64
    } else {
        (v - 0x1_0000_0000_0000_0000) as i64
    }
}

pub open spec fn i32_to_be(x: i32) -> Seq<u8> {
    u32_to_be(i32_bits(x))
}

pub open spec fn i32_of_be(b: Seq<u8>) -> i32
    recommends
        b.len() == 4,
{
    i32_of_bits(u32_of_be(b))
}

pub open spec fn i64_to_be(x: i64) -> Seq<u8> {
    u64_to_be(i64_bits(x))
}

pub open spec fn i64_of_be(b: Seq<u8>) -> i64
    recommends
        b.len() == 8,
{
    i64_of_bits(u64_of_be(b))
}

/// Reading back what was written gives the number again.
pub proof fn lemma_u32_be(x: u32)
    ensures
        u32_to_be(x).len() == 4,
        u32_of_be(u32_to_be(x)) == x,
{
    reveal(u32_to_be);
    reveal(u32_of_be);
}

/// Reading back what was written gives the number again.
pub proof fn lemma_u64_be(x: u64)
    ensures
        u64_to_be(x).len() == 8,
        u64_of_be(u64_to_be(x)) == x,
{
    reveal(u64_to_be);
    reveal(u64_of_be);
    let b = u64_to_be(x);
    assert(b[0] * 0x100_0000_0000_0000 + b[1] * 0x1_0000_0000_0000 + b[2] * 0x100_0000_0000 + b[3]
        * 0x1_0000_0000 + b[4] * 0x100_0000 + b[5] * 0x1_0000 + b[6] * 0x100 + b[7] == x) by {
        assert((x / 0x100_0000_0000_0000) * 0x100_0000_0000_0000 + (x / 0x1_0000_0000_0000 % 0x100)
            * 0x1_0000_0000_0000 + (x / 0x100_0000_0000 % 0x100) * 0x100_0000_0000 + (x
            / 0x1_0000_0000 % 0x100) * 0x1_0000_0000 + (x / 0x100_0000 % 0x100) * 0x100_0000 + (x
            / 0x1_0000 % 0x100) * 0x1_0000 + (x / 0x100 % 0x100) * 0x100 + (x % 0x100) == x)
            by (bit_vector);
    }
}

/// Reading back what was written gives the number again.
pub proof fn lemma_i32_be(x: i32)
    ensures
        i32_to_be(x).len() == 4,
        i32_of_be(i32_to_be(x)) == x,
{
    lemma_u32_be(i32_bits(x));
}

/// Reading back what was written gives the number again.
pub proof fn lemma_i64_be(x: i64)
    ensures
        i64_to_be(x).len() == 8,
        i64_of_be(i64_to_be(x)) == x,
{
    lemma_u64_be(i64_bits(x));
}

/// The bit pattern of a signed number, computed.
pub fn bits_of_i32(x: i32) -> (v: u32)
    ensures
        v == i32_bits(x),
{
    if x >= 0 {
        x as u32
    } else {
        ((x + i32::MAX) + 1) as u32 + 0x8000_0000u32
    }
}

/// The signed number of a bit pattern, computed.
pub fn i32_from_bits(v: u32) -> (x: i32)
    ensures
        x == i32_of_bits(v),
{
    if v < 0x8000_0000u32 {
        v as i32
    } else {
        (v - 0x8000_0000u32) as i32 + i32::MIN
    }
}

/// The bit pattern of a signed number, computed.
pub fn bits_of_i64(x: i64) -> (v: u64)
    ensures
        v == i64_bits(x),
{
    if x >= 0 {
        x as u64
    } else {
        ((x + i64::MAX) + 1) as u64 + 0x8000_0000_0000_0000u64
    }
}

/// The signed number of a bit pattern, computed.
pub fn i64_from_bits(v: u64) -> (x: i64)
    ensures
        x == i64_of_bits(v),
{
    if v < 0x8000_0000_0000_0000u64 {
        v as i64
    } else {
        (v - 0x8000_0000_0000_0000u64) as i64 + i64::MIN
    }
}

/// Appends the big-endian bytes of `x`.
pub fn put_u32(out: &mut Vec<u8>, x: u32)
    ensures
        final(out)@ == old(out)@ + u32_to_be(x),
{
    proof {
        reveal(u32_to_be);
    }
    out.push((x / 0x100_0000) as u8);
    out.push((x / 0x1_0000 % 0x100) as u8);
    out.push((x / 0x100 % 0x100) as u8);
    out.push((x % 0x100) as u8);
}

/// Appends the big-endian bytes of `x`.
pub fn put_u64(out: &mut Vec<u8>, x: u64)
    ensures
        final(out)@ == old(out)@ + u64_to_be(x),
{
    proof {
        reveal(u64_to_be);
    }
    out.push((x / 0x100_0000_0000_0000) as u8);
    out.push((x / 0x1_0000_0000_0000 % 0x100) as u8);
    out.push((x / 0x100_0000_0000 % 0x100) as u8);
    out.push((x / 0x1_0000_0000 % 0x100) as u8);
    out.push((x / 0x100_0000 % 0x100) as u8);
    out.push((x / 0x1_0000 % 0x100) as u8);
    out.push((x / 0x100 % 0x100) as u8);
    out.push((x % 0x100) as u8);
}

/// Reads the big-endian number that starts at `at`.
pub fn get_u32(data: &[u8], at: usize) -> (v: u32)
    requires
        at + 4 <= data.len(),
    ensures
        v == u32_of_be(data@.subrange(at as int, at + 4)),
{
    proof {
        reveal(u32_of_be);
    }
    let b0: u32 = data[at] as u32;
    let b1: u32 = data[at + 1] as u32;
    let b2: u32 = data[at + 2] as u32;
    let b3: u32 = data[at + 3] as u32;
    b0 * 0x100_0000 + b1 * 0x1_0000 + b2 * 0x100 + b3
}

/// Reads the big-endian number that starts at `at`.
pub fn get_u64(data: &[u8], at: usize) -> (v: u64)
    requires
        at + 8 <= data.len(),
    ensures
        v == u64_of_be(data@.subrange(at as int, at + 8)),
{
    proof {
        reveal(u64_of_be);
    }
    let b0: u64 = data[at] as u64;
    let b1: u64 = data[at + 1] as u64;
    let b2: u64 = data[at + 2] as u64;
    let b3: u64 = data[at + 3] as u64;
    let b4: u64 = data[at + 4] as u64;
    let b5: u64 = data[at + 5] as u64;
    let b6: u64 = data[at + 6] as u64;
    let b7: u64 = data[at + 7] as u64;
    b0 * 0x100_0000_0000_0000 + b1 * 0x1_0000_0000_0000 + b2 * 0x100_0000_0000 + b3
        * 0x1_0000_0000 + b4 * 0x100_0000 + b5 * 0x1_0000 + b6 * 0x100 + b7
}

/// Appends `bytes` as they are.
pub fn put_bytes(out: &mut Vec<u8>, bytes: &[u8])
    ensures
        final(out)@ == old(out)@ + bytes@,
{
    let mut i: usize = 0;
    while i < bytes.len()
        invariant
            i <= bytes.len(),
            out@ == old(out)@ + bytes@.take(i as int),
        decreases bytes.len() - i,
    {
        out.push(bytes[i]);
        i += 1;
    }
    assert(bytes@.take(i as int) == bytes@);
}

/// A copy of the bytes from `from` up to `to`.
pub fn copy_range(data: &[u8], from: usize, to: usize) -> (out: Vec<u8>)
    requires
        from <= to <= data.len(),
    ensures
        out@ == data@.subrange(from as int, to as int),
{
    slice_to_vec(slice_subrange(data, from, to))
}

/// `core::str::from_utf8` of std, asked only whether it succeeds: it does exactly on
/// well-formed UTF-8.
#[verifier::external_body]
pub(crate) fn is_utf8(bytes: &[u8]) -> (ok: bool)
    ensures
        ok == valid_utf8(bytes@),
{
    core::str::from_utf8(bytes).is_ok()
}

/// `String::from_utf8` of std: the text that the bytes encode when they are well-formed
/// UTF-8, and nothing otherwise.
#[verifier::external_body]
pub(crate) fn string_from_utf8(bytes: Vec<u8>) -> (out: Option<String>)
    ensures
        match out {
            Some(text) => valid_utf8(bytes@) && text@ == decode_utf8(bytes@),
            None => !valid_utf8(bytes@),
        },
{
    match String::from_utf8(bytes) {
        Ok(text) => Some(text),
        Err(_) => None,
    }
}

/// Where `a + b` stands at `at`, `a` stands at `at` and `b` right after it.
pub proof fn lemma_split(data: Seq<u8>, at: int, a: Seq<u8>, b: Seq<u8>)
    requires
        0 <= at,
        at + a.len() + b.len() <= data.len(),
        data.subrange(at, at + a.len() + b.len()) == a + b,
    ensures
        data.subrange(at, at + a.len()) == a,
        data.subrange(at + a.len(), at + a.len() + b.len()) == b,
{
    let whole = data.subrange(at, at + a.len() + b.len());
    assert(data.subrange(at, at + a.len()) == whole.subrange(0, a.len() as int));
    assert(whole.subrange(0, a.len() as int) == a);
    assert(data.subrange(at + a.len(), at + a.len() + b.len()) == whole.subrange(
        a.len() as int,
        (a.len() + b.len()) as int,
    ));
    assert(whole.subrange(a.len() as int, (a.len() + b.len()) as int) == b);
}

} // verus!
