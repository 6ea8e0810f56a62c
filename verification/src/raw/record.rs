//! Tables of fixed-size records.
use vstd::arithmetic::mul::{lemma_mul_inequality, lemma_mul_is_distributive_add_other_way};
use vstd::prelude::*;
use vstd::slice::slice_subrange;

use super::bytes::get_span;
use super::Error;

verus! {

/// A record that occupies a fixed number of bytes and is read field by field
/// out of them.
pub trait Record: Sized {
    /// The number of bytes that one record occupies.
    spec fn spec_size() -> nat;

    /// The record that the first `spec_size()` bytes of `bytes` hold.
    spec fn spec_decode(bytes: Seq<u8>) -> Self;

    /// The number of bytes that one record occupies.
    fn size() -> (n: u64)
        ensures
            n == Self::spec_size(),
            n > 0,
    ;

    /// Reads the record that starts at `offset`.
    fn decode(bytes: &[u8], offset: usize) -> (r: Self)
        requires
            offset + Self::spec_size() <= bytes.len(),
        ensures
            r == Self::spec_decode(
                bytes@.subrange(offset as int, offset + Self::spec_size()),
            ),
    ;
}

/// The `size` bytes of `bytes` that start at `offset`: the bytes of one
/// record.
pub fn get_record<'a>(bytes: &'a [u8], offset: usize, size: usize) -> (r: &'a [u8])
    requires
        offset + size <= bytes.len(),
    ensures
        r@ == bytes@.subrange(offset as int, offset + size),
{
    slice_subrange(bytes, offset, offset + size)
}

/// The bytes of the record with index `i` in a table that starts at the
/// beginning of `bytes`.
pub open spec fn spec_record_bytes<R: Record>(bytes: Seq<u8>, i: int) -> Seq<u8> {
    bytes.subrange(i * R::spec_size(), (i + 1) * R::spec_size())
}

/// The first `count` records of a table that starts at the beginning of
/// `bytes`, one directly after the other.
pub open spec fn spec_records<R: Record>(bytes: Seq<u8>, count: nat) -> Seq<R> {
    Seq::new(count, |i: int| R::spec_decode(spec_record_bytes::<R>(bytes, i)))
}

/// Whether `count` records lie within `len` bytes.
pub open spec fn records_fit<R: Record>(len: nat, count: nat) -> bool {
    count * R::spec_size() <= len
}

/// Whether `count` records lie within `len` bytes, computed without
/// overflow.
pub fn check_records_fit<R: Record>(len: u64, count: u64) -> (r: bool)
    ensures
        r == records_fit::<R>(len as nat, count as nat),
{
    let size: u64 = R::size();
    let most: u64 = len / size;
    proof {
        let s = size as int;
        let c = count as int;
        let l = len as int;
        let m = most as int;
        assert(m * s <= l && l < (m + 1) * s) by (nonlinear_arith)
            requires
                s > 0,
                l >= 0,
                m == l / s,
        ;
        if c <= m {
            assert(c * s <= m * s) by (nonlinear_arith)
                requires
                    c <= m,
                    s > 0,
            ;
        } else {
            assert(c * s >= (m + 1) * s) by (nonlinear_arith)
                requires
                    c >= m + 1,
                    s > 0,
            ;
        }
    }
    count <= most
}

/// Reads the first `count` records of a table that starts at the beginning
/// of `bytes`.
pub fn decode_records<R: Record>(bytes: &[u8], count: usize) -> (v: Vec<R>)
    requires
        records_fit::<R>(bytes@.len(), count as nat),
    ensures
        v@ == spec_records::<R>(bytes@, count as nat),
{
    let size: u64 = R::size();
    let mut v: Vec<R> = Vec::new();
    let mut i: usize = 0;
    let mut offset: usize = 0;
    while i < count
        invariant
            i <= count,
            size == R::spec_size(),
            size > 0,
            offset == i * size,
            count * R::spec_size() <= bytes.len(),
            v@ == spec_records::<R>(bytes@, i as nat),
        decreases count - i,
    {
        proof {
            lemma_mul_inequality(i + 1, count as int, size as int);
            lemma_mul_is_distributive_add_other_way(size as int, i as int, 1);
        }
        let r: R = R::decode(bytes, offset);
        v.push(r);
        offset = offset + size as usize;
        i = i + 1;
        assert(v@ =~= spec_records::<R>(bytes@, i as nat));
    }
    v
}

/// The records of a table that a file header describes, in a buffer with
/// the content `buf`: `count` records in the span of `entsize * count` bytes
/// at `offset`. The table is malformed where that span does not lie within
/// the buffer, or the records do not lie within the span.
pub open spec fn spec_table<R: Record>(buf: Seq<u8>, offset: u64, entsize: u16, count: u16)
    -> Result<Seq<R>, Error> {
    let span = entsize * count;
    if offset + span > buf.len() || !records_fit::<R>(span as nat, count as nat) {
        Err(Error::MalformedTable)
    } else {
        Ok(spec_records::<R>(buf.subrange(offset as int, offset + span), count as nat))
    }
}

/// Reads the table of `count` records that lies in the span of
/// `entsize * count` bytes at `offset` in `buf`.
pub fn parse_table<R: Record>(buf: &[u8], offset: u64, entsize: u16, count: u16) -> (r: Result<
    Vec<R>,
    Error,
>)
    ensures
        match r {
            Ok(v) => spec_table::<R>(buf@, offset, entsize, count) == Ok::<Seq<R>, Error>(v@),
            Err(e) => spec_table::<R>(buf@, offset, entsize, count) == Err::<Seq<R>, Error>(e),
        },
{
    assert(entsize * count <= 0xffff * 0xffff) by (nonlinear_arith)
        requires
            0 <= entsize <= 0xffff,
            0 <= count <= 0xffff,
    ;
    let span: u64 = entsize as u64 * count as u64;
    let bytes = match get_span(buf, offset, span) {
        Ok(bytes) => bytes,
        Err(_) => {
            return Err(Error::MalformedTable);
        },
    };
    if !check_records_fit::<R>(span, count as u64) {
        return Err(Error::MalformedTable);
    }
    Ok(decode_records::<R>(bytes, count as usize))
}

/// The records of a table that fills `bytes` and declares entries of
/// `entsize` bytes: `bytes.len() / entsize` records from the beginning of
/// `bytes` on. The table is malformed where `entsize` is zero or that many
/// records do not lie within `bytes`.
pub open spec fn spec_entries<R: Record>(bytes: Seq<u8>, entsize: u64) -> Result<Seq<R>, Error> {
    if entsize == 0 || !records_fit::<R>(bytes.len(), bytes.len() / (entsize as nat)) {
        Err(Error::MalformedTable)
    } else {
        Ok(spec_records::<R>(bytes, bytes.len() / (entsize as nat)))
    }
}

/// Reads the table that fills `bytes` and declares entries of `entsize`
/// bytes.
pub fn parse_entries<R: Record>(bytes: &[u8], entsize: u64) -> (r: Result<Vec<R>, Error>)
    ensures
        match r {
            Ok(v) => spec_entries::<R>(bytes@, entsize) == Ok::<Seq<R>, Error>(v@),
            Err(e) => spec_entries::<R>(bytes@, entsize) == Err::<Seq<R>, Error>(e),
        },
        r is Ok ==> r.unwrap()@.len() == bytes@.len() / (entsize as nat),
{
    if entsize == 0 {
        return Err(Error::MalformedTable);
    }
    let len: u64 = bytes.len() as u64;
    let count: u64 = len / entsize;
    if !check_records_fit::<R>(len, count) {
        return Err(Error::MalformedTable);
    }
    assert(count <= len) by (nonlinear_arith)
        requires
            count == len / entsize,
            entsize > 0,
    ;
    Ok(decode_records::<R>(bytes, count as usize))
}

/// The least index from `from` on at which `s` holds a value that `wanted`
/// accepts, if there is one.
pub open spec fn spec_first_index<T>(s: Seq<T>, wanted: spec_fn(T) -> bool, from: int) -> Option<
    int,
>
    decreases s.len() - from,
{
    if from < 0 || from >= s.len() {
        None
    } else if wanted(s[from]) {
        Some(from)
    } else {
        spec_first_index(s, wanted, from + 1)
    }
}

/// Where `wanted` accepts no value of `s` from `from` up to `to`, the first
/// accepted value from `from` on is the first from `to` on.
pub proof fn lemma_first_index_skip<T>(s: Seq<T>, wanted: spec_fn(T) -> bool, from: int, to: int)
    requires
        0 <= from <= to <= s.len(),
        forall|j: int| from <= j < to ==> !wanted(s[j]),
    ensures
        spec_first_index(s, wanted, from) == spec_first_index(s, wanted, to),
    decreases to - from,
{
    if from < to {
        lemma_first_index_skip(s, wanted, from + 1, to);
    }
}

/// `spec_first_index` finds a value if and only if `wanted` accepts one,
/// and then the first such.
pub proof fn lemma_first_index<T>(s: Seq<T>, wanted: spec_fn(T) -> bool, from: int)
    requires
        0 <= from <= s.len(),
    ensures
        match spec_first_index(s, wanted, from) {
            Some(i) => from <= i < s.len() && wanted(s[i]) && forall|j: int|
                from <= j < i ==> !wanted(s[j]),
            None => forall|j: int| from <= j < s.len() ==> !wanted(s[j]),
        },
    decreases s.len() - from,
{
    if from < s.len() && !wanted(s[from]) {
        lemma_first_index(s, wanted, from + 1);
    }
}

/// The greatest index below `below` at which `s` holds a value that
/// `wanted` accepts, if there is one.
pub open spec fn spec_last_index<T>(s: Seq<T>, wanted: spec_fn(T) -> bool, below: int) -> Option<
    int,
>
    decreases below,
{
    if below <= 0 || below > s.len() {
        None
    } else if wanted(s[below - 1]) {
        Some(below - 1)
    } else {
        spec_last_index(s, wanted, below - 1)
    }
}

/// `spec_last_index` finds a value if and only if `wanted` accepts one
/// below `below`, and then the last such.
pub proof fn lemma_last_index<T>(s: Seq<T>, wanted: spec_fn(T) -> bool, below: int)
    requires
        0 <= below <= s.len(),
    ensures
        match spec_last_index(s, wanted, below) {
            Some(i) => 0 <= i < below && wanted(s[i]) && forall|j: int|
                i < j < below ==> !wanted(s[j]),
            None => forall|j: int| 0 <= j < below ==> !wanted(s[j]),
        },
    decreases below,
{
    if below > 0 && !wanted(s[below - 1]) {
        lemma_last_index(s, wanted, below - 1);
    }
}

} // verus!
