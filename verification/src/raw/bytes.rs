//! Bounds-checked access to the bytes of a buffer, and the little-endian
//! integers that lie in them.
use vstd::prelude::*;
use vstd::slice::slice_subrange;

use super::Error;

verus! {

/// The 16-bit integer whose little-endian bytes start at `off` in `s`.
pub open spec fn spec_u16_le(s: Seq<u8>, off: int) -> u16 {
    (s[off] as int + s[off + 1] as int * 0x100) as u16
}

/// The 32-bit integer whose little-endian bytes start at `off` in `s`.
pub open spec fn spec_u32_le(s: Seq<u8>, off: int) -> u32 {
    (spec_u16_le(s, off) as int + spec_u16_le(s, off + 2) as int * 0x1_0000) as u32
}

/// The 64-bit integer whose little-endian bytes start at `off` in `s`.
pub open spec fn spec_u64_le(s: Seq<u8>, off: int) -> u64 {
    (spec_u32_le(s, off) as int + spec_u32_le(s, off + 4) as int * 0x1_0000_0000) as u64
}

/// The signed 64-bit integer whose two's complement little-endian bytes
/// start at `off` in `s`.
pub open spec fn spec_i64_le(s: Seq<u8>, off: int) -> i64 {
    let u = spec_u64_le(s, off) as int;
    if u < 0x8000_0000_0000_0000 {
        u as i64
    } else {
        (u - 0x1_0000_0000_0000_0000) as i64
    }
}

/// Whether the span of `length` bytes at `offset` lies within a buffer of
/// `len` bytes.
pub open spec fn span_fits(len: nat, offset: u64, length: u64) -> bool {
    offset + length <= len
}

/// The `length` bytes of `buf` that start at `offset`.
///
/// Every read of the library goes through this function before any byte is
/// interpreted. The sum of `offset` and `length` is formed without wrapping.
pub fn get_span<'a>(buf: &'a [u8], offset: u64, length: u64) -> (r: Result<&'a [u8], Error>)
    ensures
        span_fits(buf@.len(), offset, length) ==> r is Ok && r.unwrap()@ == buf@.subrange(
            offset as int,
            offset + length,
        ),
        !span_fits(buf@.len(), offset, length) ==> r == Err::<&[u8], Error>(Error::OutOfBounds),
{
    let len: u64 = buf.len() as u64;
    if offset > len || length > len - offset {
        return Err(Error::OutOfBounds);
    }
    Ok(slice_subrange(buf, offset as usize, (offset + length) as usize))
}

/// Whether the span of `length` bytes at the address `addr` of an object
/// that is loaded at `base` lies within an image of `len` bytes.
pub open spec fn rebased_span_fits(len: nat, base: usize, addr: u64, length: u64) -> bool {
    base + addr + length <= len
}

/// The `length` bytes at the virtual address `addr` of an object that is
/// loaded at `base` in `image`: the bytes from `base + addr` on. The sums
/// are formed without wrapping.
pub fn get_rebased_span<'a>(image: &'a [u8], base: usize, addr: u64, length: u64) -> (r: Result<
    &'a [u8],
    Error,
>)
    ensures
        rebased_span_fits(image@.len(), base, addr, length) ==> r is Ok && r.unwrap()@
            == image@.subrange(base + addr, base + addr + length),
        !rebased_span_fits(image@.len(), base, addr, length) ==> r == Err::<&[u8], Error>(
            Error::OutOfBounds,
        ),
{
    let len: u64 = image.len() as u64;
    let base: u64 = base as u64;
    if base > len || addr > len - base {
        return Err(Error::OutOfBounds);
    }
    get_span(image, base + addr, length)
}

/// Whether two runs of bytes are equal.
pub fn bytes_equal(a: &[u8], b: &[u8]) -> (r: bool)
    ensures
        r == (a@ == b@),
{
    if a.len() != b.len() {
        return false;
    }
    let mut i: usize = 0;
    while i < a.len()
        invariant
            a@.len() == b@.len(),
            i <= a@.len(),
            forall|j: int| 0 <= j < i ==> a@[j] == b@[j],
        decreases a@.len() - i,
    {
        if a[i] != b[i] {
            return false;
        }
        i = i + 1;
    }
    assert(a@ =~= b@);
    true
}

/// Reads the byte at `off`.
pub fn read_u8(buf: &[u8], off: usize) -> (r: u8)
    requires
        off < buf.len(),
    ensures
        r == buf@[off as int],
{
    buf[off]
}

/// Reads the little-endian 16-bit integer at `off`.
pub fn read_u16(buf: &[u8], off: usize) -> (r: u16)
    requires
        off + 2 <= buf.len(),
    ensures
        r == spec_u16_le(buf@, off as int),
{
    let lo: u16 = buf[off] as u16;
    let hi: u16 = buf[off + 1] as u16;
    lo + hi * 0x100
}

/// Reads the little-endian 32-bit integer at `off`.
pub fn read_u32(buf: &[u8], off: usize) -> (r: u32)
    requires
        off + 4 <= buf.len(),
    ensures
        r == spec_u32_le(buf@, off as int),
{
    let lo: u32 = read_u16(buf, off) as u32;
    let hi: u32 = read_u16(buf, off + 2) as u32;
    lo + hi * 0x1_0000
}

/// Reads the little-endian 64-bit integer at `off`.
pub fn read_u64(buf: &[u8], off: usize) -> (r: u64)
    requires
        off + 8 <= buf.len(),
    ensures
        r == spec_u64_le(buf@, off as int),
{
    let lo: u64 = read_u32(buf, off) as u64;
    let hi: u64 = read_u32(buf, off + 4) as u64;
    lo + hi * 0x1_0000_0000
}

/// Reads the little-endian two's complement 64-bit integer at `off`.
pub fn read_i64(buf: &[u8], off: usize) -> (r: i64)
    requires
        off + 8 <= buf.len(),
    ensures
        r == spec_i64_le(buf@, off as int),
{
    let u: u64 = read_u64(buf, off);
    if u < 0x8000_0000_0000_0000 {
        u as i64
    } else {
        let low: i64 = (u - 0x8000_0000_0000_0000) as i64;
        low + i64::MIN
    }
}

/// Byte `k` of the little-endian form of `x`: the digit of weight `256^k`.
pub open spec fn spec_le_byte(x: int, k: int) -> u8 {
    let weight: int = if k == 0 {
        0x1
    } else if k == 1 {
        0x100
    } else if k == 2 {
        0x1_0000
    } else if k == 3 {
        0x100_0000
    } else if k == 4 {
        0x1_0000_0000
    } else if k == 5 {
        0x100_0000_0000
    } else if k == 6 {
        0x1_0000_0000_0000
    } else {
        0x100_0000_0000_0000
    };
    ((x / weight) % 0x100) as u8
}

/// A 16-bit integer is read back from its little-endian bytes.
pub proof fn lemma_u16_le_of_bytes(s: Seq<u8>, off: int, x: u16)
    requires
        s[off] == spec_le_byte(x as int, 0),
        s[off + 1] == spec_le_byte(x as int, 1),
    ensures
        spec_u16_le(s, off) == x,
{
}

/// A 32-bit integer is read back from its little-endian bytes.
pub proof fn lemma_u32_le_of_bytes(s: Seq<u8>, off: int, x: u32)
    requires
        forall|k: int| 0 <= k < 4 ==> s[off + k] == #[trigger] spec_le_byte(x as int, k),
    ensures
        spec_u32_le(s, off) == x,
{
    let lo = (x % 0x1_0000) as u16;
    let hi = (x / 0x1_0000) as u16;
    assert(s[off] == spec_le_byte(x as int, 0));
    assert(s[off + 1] == spec_le_byte(x as int, 1));
    assert(s[off + 2] == spec_le_byte(x as int, 2));
    assert(s[off + 3] == spec_le_byte(x as int, 3));
    assert(spec_u16_le(s, off) == lo);
    assert(spec_u16_le(s, off + 2) == hi);
}

/// The bytes of the two halves of a 64-bit integer are the bytes of the
/// integer.
proof fn lemma_le_byte_halves(x: u64)
    ensures
        forall|k: int|
            0 <= k < 4 ==> #[trigger] spec_le_byte((x % 0x1_0000_0000) as int, k) == spec_le_byte(
                x as int,
                k,
            ),
        forall|k: int|
            0 <= k < 4 ==> #[trigger] spec_le_byte((x / 0x1_0000_0000) as int, k) == spec_le_byte(
                x as int,
                k + 4,
            ),
{
    assert((x % 0x1_0000_0000) % 0x100 == x % 0x100) by (bit_vector);
    assert(((x % 0x1_0000_0000) / 0x100) % 0x100 == (x / 0x100) % 0x100) by (bit_vector);
    assert(((x % 0x1_0000_0000) / 0x1_0000) % 0x100 == (x / 0x1_0000) % 0x100) by (bit_vector);
    assert(((x % 0x1_0000_0000) / 0x100_0000) % 0x100 == (x / 0x100_0000) % 0x100)
        by (bit_vector);
    assert((x / 0x1_0000_0000) % 0x100 == (x / 0x1_0000_0000) % 0x100) by (bit_vector);
    assert(((x / 0x1_0000_0000) / 0x100) % 0x100 == (x / 0x100_0000_0000) % 0x100)
        by (bit_vector);
    assert(((x / 0x1_0000_0000) / 0x1_0000) % 0x100 == (x / 0x1_0000_0000_0000) % 0x100)
        by (bit_vector);
    assert(((x / 0x1_0000_0000) / 0x100_0000) % 0x100 == (x / 0x100_0000_0000_0000) % 0x100)
        by (bit_vector);
}

/// A 64-bit integer is read back from its little-endian bytes.
pub proof fn lemma_u64_le_of_bytes(s: Seq<u8>, off: int, x: u64)
    requires
        forall|k: int| 0 <= k < 8 ==> s[off + k] == #[trigger] spec_le_byte(x as int, k),
    ensures
        spec_u64_le(s, off) == x,
{
    let lo = (x % 0x1_0000_0000) as u32;
    let hi = (x / 0x1_0000_0000) as u32;
    lemma_le_byte_halves(x);
    assert forall|k: int| 0 <= k < 4 implies s[off + k] == #[trigger] spec_le_byte(
        lo as int,
        k,
    ) by {
        assert(s[off + k] == spec_le_byte(x as int, k));
    }
    lemma_u32_le_of_bytes(s, off, lo);
    assert forall|k: int| 0 <= k < 4 implies s[off + 4 + k] == #[trigger] spec_le_byte(
        hi as int,
        k,
    ) by {
        assert(s[off + (4 + k)] == spec_le_byte(x as int, k + 4));
    }
    lemma_u32_le_of_bytes(s, off + 4, hi);
}

} // verus!
