//! Big-endian numbers and fixed-size arrays taken from raw bytes.
use vstd::prelude::*;
use byteorder::{BigEndian, ByteOrder};

verus! {

/// The number that two bytes spell, most significant byte first.
pub open spec fn u16_from_be(b: Seq<u8>) -> u16 {
    (b[0] as int * 0x100 + b[1] as int) as u16
}

/// The number that four bytes spell, most significant byte first.
pub open spec fn u32_from_be(b: Seq<u8>) -> u32 {
    (b[0] as int * 0x100_0000 + b[1] as int * 0x1_0000 + b[2] as int * 0x100 + b[3] as int) as u32
}

/// The number that eight bytes spell, most significant byte first.
pub open spec fn u64_from_be(b: Seq<u8>) -> u64 {
    (u32_from_be(b.subrange(0, 4)) as int * 0x1_0000_0000 + u32_from_be(
        b.subrange(4, 8),
    ) as int) as u64
}

/// The array of `N` bytes that holds exactly the bytes of `b`.
pub open spec fn array_of<const N: usize>(b: Seq<u8>) -> [u8; N] {
    choose|a: [u8; N]| a@ == b
}

/// An array is the one that `array_of` picks for its own bytes.
pub proof fn lemma_array_of<const N: usize>(a: [u8; N])
    ensures
        array_of::<N>(a@) == a,
{
    let c = array_of::<N>(a@);
    assert(c@ == a@);
    assert(c =~= a);
}

/// Calls `byteorder::BigEndian::read_u16`, which reads the first two bytes of its
/// argument as a big-endian number.
#[verifier::external_body]
pub(crate) fn be_u16(bytes: &[u8; 2]) -> (v: u16)
    ensures
        v == u16_from_be(bytes@),
{
    BigEndian::read_u16(bytes)
}

/// Calls `byteorder::BigEndian::read_u32`, which reads the first four bytes of its
/// argument as a big-endian number.
#[verifier::external_body]
pub(crate) fn be_u32(bytes: &[u8; 4]) -> (v: u32)
    ensures
        v == u32_from_be(bytes@),
{
    BigEndian::read_u32(bytes)
}

/// Calls `byteorder::BigEndian::read_u64`, which reads the first eight bytes of its
/// argument as a big-endian number.
#[verifier::external_body]
pub(crate) fn be_u64(bytes: &[u8; 8]) -> (v: u64)
    ensures
        v == u64_from_be(bytes@),
{
    BigEndian::read_u64(bytes)
}

/// The `N` bytes of `bytes` that start at `at`, as an array.
pub fn array_at<const N: usize>(bytes: &[u8], at: usize) -> (a: [u8; N])
    requires
        at + N <= bytes@.len(),
    ensures
        a@ == bytes@.subrange(at as int, at + N),
        a == array_of::<N>(bytes@.subrange(at as int, at + N)),
{
    let len: usize = bytes.len();
    let mut a: [u8; N] = [0u8; N];
    let mut i: usize = 0;
    while i < N
        invariant
            i <= N,
            at + N <= len,
            len == bytes@.len(),
            forall|j: int| 0 <= j < i ==> a@[j] == bytes@[at + j],
        decreases N - i,
    {
        a[i] = bytes[at + i];
        i = i + 1;
    }
    assert(a@ =~= bytes@.subrange(at as int, at + N));
    proof {
        lemma_array_of::<N>(a);
    }
    a
}

/// The big-endian `u16` at offset `at` of `bytes`.
pub fn u16_at(bytes: &[u8], at: usize) -> (v: u16)
    requires
        at + 2 <= bytes@.len(),
    ensures
        v == u16_from_be(bytes@.subrange(at as int, at + 2)),
{
    let a: [u8; 2] = array_at::<2>(bytes, at);
    be_u16(&a)
}

/// The big-endian `u32` at offset `at` of `bytes`.
pub fn u32_at(bytes: &[u8], at: usize) -> (v: u32)
    requires
        at + 4 <= bytes@.len(),
    ensures
        v == u32_from_be(bytes@.subrange(at as int, at + 4)),
{
    let a: [u8; 4] = array_at::<4>(bytes, at);
    be_u32(&a)
}

/// The big-endian `u64` at offset `at` of `bytes`.
pub fn u64_at(bytes: &[u8], at: usize) -> (v: u64)
    requires
        at + 8 <= bytes@.len(),
    ensures
        v == u64_from_be(bytes@.subrange(at as int, at + 8)),
{
    let a: [u8; 8] = array_at::<8>(bytes, at);
    be_u64(&a)
}

} // verus!
