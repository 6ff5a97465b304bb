//! Big-endian packing of 16- and 32-bit words and bounds-checked byte access.
use std::ops::Range;
use vstd::prelude::*;

verus! {

/// The result of an access that may fall outside the addressed buffer.
pub type AccessResult<T> = Result<T, ()>;

/// The word whose big-endian bytes are `hi` and `lo`.
pub open spec fn be16(hi: u8, lo: u8) -> u16 {
    (hi as int * 0x100 + lo as int) as u16
}

/// The big-endian value of a two-byte sequence.
pub open spec fn word_of(b: Seq<u8>) -> u16
    recommends
        b.len() == 2,
{
    be16(b[0], b[1])
}

/// The two big-endian bytes of a word.
pub open spec fn bytes_of_word(v: u16) -> Seq<u8> {
    seq![(v / 0x100) as u8, (v % 0x100) as u8]
}

/// The big-endian value of a four-byte sequence.
pub open spec fn u32_of(b: Seq<u8>) -> u32
    recommends
        b.len() == 4,
{
    (b[0] as int * 0x100_0000 + b[1] as int * 0x1_0000 + b[2] as int * 0x100 + b[3] as int) as u32
}

/// The four big-endian bytes of a 32-bit value.
pub open spec fn bytes_of_u32(v: u32) -> Seq<u8> {
    seq![
        (v / 0x100_0000) as u8,
        (v / 0x1_0000 % 0x100) as u8,
        (v / 0x100 % 0x100) as u8,
        (v % 0x100) as u8,
    ]
}

/// Whether `lo..hi` lies within a buffer of `len` bytes.
pub open spec fn range_fits(lo: usize, hi: usize, len: nat) -> bool {
    lo <= hi && hi <= len
}

/// The bytes `range` of `bytes`, or an error when the range is reversed or
/// runs past the end.
pub fn get_slice(bytes: &[u8], range: Range<usize>) -> (r: AccessResult<&[u8]>)
    ensures
        r is Ok <==> range_fits(range.start, range.end, bytes@.len()),
        r is Ok ==> r->Ok_0@ == bytes@.subrange(range.start as int, range.end as int),
{
    let lo = range.start;
    let hi = range.end;
    if lo > hi || hi > bytes.len() {
        Err(())
    } else {
        Ok(&bytes[lo..hi])
    }
}

/// A mutable view of the bytes `range` of `bytes`, or an error when the range
/// is reversed or runs past the end.
pub fn get_slice_mut(bytes: &mut [u8], range: Range<usize>) -> (r: AccessResult<&mut [u8]>)
    ensures
        r is Ok <==> range_fits(range.start, range.end, old(bytes)@.len()),
        r is Ok ==> r->Ok_0@ == old(bytes)@.subrange(range.start as int, range.end as int),
        r is Ok ==> final(bytes)@ == old(bytes)@.subrange(0, range.start as int) + final(r->Ok_0)@
            + old(bytes)@.subrange(range.end as int, old(bytes)@.len() as int),
        r is Err ==> final(bytes)@ == old(bytes)@,
{
    let lo = range.start;
    let hi = range.end;
    if lo > hi || hi > bytes.len() {
        Err(())
    } else {
        let (head, _tail) = bytes.split_at_mut(hi);
        let (_front, mid) = head.split_at_mut(lo);
        Ok(mid)
    }
}

/// The value of four big-endian bytes.
pub fn u32_from_bytes(bytes: [u8; 4]) -> (r: u32)
    ensures
        r == u32_of(bytes@),
{
    let byte_0 = bytes[0] as u32 * 0x100_0000;
    let byte_1 = bytes[1] as u32 * 0x1_0000;
    let byte_2 = bytes[2] as u32 * 0x100;
    let byte_3 = bytes[3] as u32;
    byte_0 + byte_1 + byte_2 + byte_3
}

/// The four big-endian bytes of `val`.
pub fn u32_to_bytes(val: u32) -> (r: [u8; 4])
    ensures
        r@ == bytes_of_u32(val),
{
    let r = [
        (val / 0x100_0000) as u8,
        (val / 0x1_0000 % 0x100) as u8,
        (val / 0x100 % 0x100) as u8,
        (val % 0x100) as u8,
    ];
    assert(r@ =~= bytes_of_u32(val));
    r
}

/// The value of two big-endian bytes.
pub fn u16_from_bytes(bytes: [u8; 2]) -> (r: u16)
    ensures
        r == word_of(bytes@),
{
    let high_byte = bytes[0] as u16;
    let low_byte = bytes[1] as u16;
    high_byte * 0x100 + low_byte
}

/// The two big-endian bytes of `val`.
pub fn u16_to_bytes(val: u16) -> (r: [u8; 2])
    ensures
        r@ == bytes_of_word(val),
{
    let r = [(val / 0x100) as u8, (val % 0x100) as u8];
    assert(r@ =~= bytes_of_word(val));
    r
}

/// Writes `val` big-endian at `addr..addr + 2`, or fails, leaving `bytes`
/// as it was, when that range runs past the end.
pub fn set_u16_at(bytes: &mut [u8], addr: usize, val: u16) -> (r: AccessResult<()>)
    ensures
        r is Ok <==> addr + 1 < old(bytes)@.len(),
        r is Ok ==> final(bytes)@ == old(bytes)@.update(addr as int, bytes_of_word(val)[0]).update(
            addr + 1,
            bytes_of_word(val)[1],
        ),
        r is Err ==> final(bytes)@ == old(bytes)@,
{
    let u16_bytes = u16_to_bytes(val);
    if addr < bytes.len() && bytes.len() - addr >= 2 {
        bytes[addr] = u16_bytes[0];
        bytes[addr + 1] = u16_bytes[1];
        Ok(())
    } else {
        Err(())
    }
}

/// The big-endian word at `addr..addr + 2`, or an error when that range runs
/// past the end.
pub fn get_u16_at(bytes: &[u8], addr: usize) -> (r: AccessResult<u16>)
    ensures
        r is Ok <==> addr + 1 < bytes@.len(),
        r is Ok ==> r->Ok_0 == be16(bytes@[addr as int], bytes@[addr + 1]),
{
    if addr < bytes.len() && bytes.len() - addr >= 2 {
        Ok(u16_from_bytes([bytes[addr], bytes[addr + 1]]))
    } else {
        Err(())
    }
}

/// Whether `addr` is a multiple of `alignment`.
pub fn is_aligned(addr: usize, alignment: usize) -> (r: bool)
    requires
        alignment > 0,
    ensures
        r == (addr % alignment == 0),
{
    addr % alignment == 0
}

/// Packing a word into its two bytes and reading them back gives the word.
pub proof fn lemma_word_round_trip(v: u16)
    ensures
        word_of(bytes_of_word(v)) == v,
{
    assert((((v / 0x100) as u8) as int) * 0x100 + (((v % 0x100) as u8) as int) == v) by (nonlinear_arith);
}

/// Reading two bytes as a word and packing it again gives the same bytes.
pub proof fn lemma_word_bytes_round_trip(b: Seq<u8>)
    requires
        b.len() == 2,
    ensures
        bytes_of_word(word_of(b)) == b,
{
    let v = word_of(b);
    let (h, l) = (b[0], b[1]);
    assert(v == h as int * 0x100 + l as int);
    assert((h as int * 0x100 + l as int) / 0x100 == h as int) by (nonlinear_arith)
        requires
            0 <= l < 0x100,
    ;
    assert((h as int * 0x100 + l as int) % 0x100 == l as int) by (nonlinear_arith)
        requires
            0 <= l < 0x100,
    ;
    assert(bytes_of_word(v) =~= b);
}

/// Packing a 32-bit value into its four bytes and reading them back gives the
/// value.
pub proof fn lemma_u32_round_trip(v: u32)
    ensures
        u32_of(bytes_of_u32(v)) == v,
{
    assert((v / 0x100_0000) * 0x100_0000 + (v / 0x1_0000 % 0x100) * 0x1_0000 + (v / 0x100 % 0x100)
        * 0x100 + v % 0x100 == v) by (bit_vector);
    assert(v / 0x100_0000 < 0x100) by (bit_vector);
}

/// Reading four bytes as a 32-bit value and packing it again gives the same
/// bytes.
pub proof fn lemma_u32_bytes_round_trip(b: Seq<u8>)
    requires
        b.len() == 4,
    ensures
        bytes_of_u32(u32_of(b)) == b,
{
    let (b0, b1, b2, b3) = (b[0] as u32, b[1] as u32, b[2] as u32, b[3] as u32);
    let v = u32_of(b);
    assert(v == b0 * 0x100_0000 + b1 * 0x1_0000 + b2 * 0x100 + b3);
    assert(v / 0x100_0000 == b0 && v / 0x1_0000 % 0x100 == b1 && v / 0x100 % 0x100 == b2 && v
        % 0x100 == b3) by (bit_vector)
        requires
            b0 < 0x100 && b1 < 0x100 && b2 < 0x100 && b3 < 0x100,
            v == b0 * 0x100_0000 + b1 * 0x1_0000 + b2 * 0x100 + b3,
    ;
    assert(bytes_of_u32(v) =~= b);
}

} // verus!
