//! String tables: runs of bytes, each ended by a NUL byte.
use vstd::prelude::*;
use vstd::slice::slice_subrange;
use vstd::string::StringSliceAdditionalSpecFns;
use vstd::utf8::{decode_utf8, encode_utf8_decode_utf8, valid_utf8};

use super::bytes::bytes_equal;
use super::header::SectionHeader;
use super::{Error, SHT_STRTAB};

verus! {

/// The position of the first NUL byte of `s` at or after `from`, or the
/// length of `s` where there is none.
pub open spec fn spec_nul_index(s: Seq<u8>, from: int) -> int
    decreases s.len() - from,
{
    if from >= s.len() {
        s.len() as int
    } else if s[from] == 0 {
        from
    } else {
        spec_nul_index(s, from + 1)
    }
}

/// The string that starts at `offset` in a table with the content `s`: the
/// bytes up to the next NUL byte, which is left out. There is none where
/// `offset` lies past the table or no NUL byte follows.
pub open spec fn spec_string_at(s: Seq<u8>, offset: int) -> Result<Seq<u8>, Error> {
    if offset >= s.len() {
        Err(Error::IndexOutOfRange)
    } else if spec_nul_index(s, offset) >= s.len() {
        Err(Error::MalformedStringTable)
    } else {
        Ok(s.subrange(offset, spec_nul_index(s, offset)))
    }
}

/// The string that starts at `offset` in a table with the content `s`, as
/// text. There is none where there is no string at `offset`, or where the
/// string is not valid UTF-8.
pub open spec fn spec_str_at(s: Seq<u8>, offset: int) -> Result<Seq<char>, Error> {
    match spec_string_at(s, offset) {
        Err(e) => Err(e),
        Ok(bytes) => if valid_utf8(bytes) {
            Ok(decode_utf8(bytes))
        } else {
            Err(Error::InvalidString)
        },
    }
}

/// The strings of a table with the content `s` that start at or after
/// `from`, in table order, `from` being the start of one: every run of
/// bytes that a NUL byte ends. Bytes after the last NUL byte form no string.
pub open spec fn spec_strings_from(s: Seq<u8>, from: int) -> Seq<Seq<u8>>
    decreases s.len() - from,
{
    let end = spec_nul_index(s, from);
    if from < 0 || end < from || end >= s.len() {
        Seq::empty()
    } else {
        seq![s.subrange(from, end)] + spec_strings_from(s, end + 1)
    }
}

/// `spec_nul_index` is the least position of a NUL byte from `from` on.
pub proof fn lemma_nul_index(s: Seq<u8>, from: int)
    requires
        0 <= from <= s.len(),
    ensures
        from <= spec_nul_index(s, from) <= s.len(),
        spec_nul_index(s, from) < s.len() ==> s[spec_nul_index(s, from)] == 0,
        forall|j: int| from <= j < spec_nul_index(s, from) ==> s[j] != 0,
    decreases s.len() - from,
{
    if from < s.len() && s[from] != 0 {
        lemma_nul_index(s, from + 1);
    }
}

/// Where no byte from `from` up to `to` is NUL, the first NUL byte from
/// `from` on is the first from `to` on.
pub proof fn lemma_nul_index_skip(s: Seq<u8>, from: int, to: int)
    requires
        0 <= from <= to <= s.len(),
        forall|j: int| from <= j < to ==> s[j] != 0,
    ensures
        spec_nul_index(s, from) == spec_nul_index(s, to),
    decreases to - from,
{
    if from < to {
        lemma_nul_index_skip(s, from + 1, to);
    }
}

/// The bytes of `bytes` as a string slice, where they are valid UTF-8.
///
/// Calls `core::str::from_utf8`, which checks the bytes and, where they are
/// valid UTF-8, hands out the same bytes as a `str`. Not proved: that it
/// accepts exactly the valid encodings and that the `str` holds the bytes
/// it was given.
#[verifier::external_body]
pub(crate) fn str_from_utf8<'a>(bytes: &'a [u8]) -> (r: Option<&'a str>)
    ensures
        r is Some <==> valid_utf8(bytes@),
        r is Some ==> r.unwrap().spec_bytes() == bytes@,
{
    core::str::from_utf8(bytes).ok()
}

/// Whether two texts are equal.
pub fn str_equal(a: &str, b: &str) -> (r: bool)
    ensures
        r == (a@ == b@),
{
    proof {
        encode_utf8_decode_utf8(a@);
        encode_utf8_decode_utf8(b@);
    }
    bytes_equal(a.as_bytes(), b.as_bytes())
}

/// A string table: the bytes of a section of strings.
#[derive(Debug, Clone, Copy)]
pub struct StringTable<'a> {
    buf: &'a [u8],
}

impl<'a> View for StringTable<'a> {
    type V = Seq<u8>;

    /// The bytes of the table.
    closed spec fn view(&self) -> Seq<u8> {
        self.buf@
    }
}

impl<'a> StringTable<'a> {
    /// A table is empty or starts with a NUL byte: the empty string at
    /// offset 0.
    #[verifier::type_invariant]
    pub closed spec fn spec_wf(self) -> bool {
        self.buf@.len() == 0 || self.buf@[0] == 0
    }

    /// What parsing the section `hdr` of a buffer with the content `buf`
    /// gives: the section's bytes, or the first of these that applies: the
    /// section is no string table; its bytes do not lie within the buffer;
    /// it is not empty and does not start with a NUL byte.
    pub open spec fn spec_parse(buf: Seq<u8>, hdr: SectionHeader) -> Result<Seq<u8>, Error> {
        let bytes = hdr.spec_section_buffer(buf);
        if hdr.sh_type != SHT_STRTAB {
            Err(Error::WrongKind)
        } else if !hdr.spec_in_bounds(buf.len()) {
            Err(Error::OutOfBounds)
        } else if bytes.len() > 0 && bytes[0] != 0 {
            Err(Error::MalformedStringTable)
        } else {
            Ok(bytes)
        }
    }

    /// Reads the section `hdr` of `buf` as a string table.
    pub fn parse(buf: &'a [u8], hdr: &SectionHeader) -> (r: Result<StringTable<'a>, Error>)
        ensures
            match r {
                Ok(table) => Self::spec_parse(buf@, *hdr) == Ok::<Seq<u8>, Error>(table@),
                Err(e) => Self::spec_parse(buf@, *hdr) == Err::<Seq<u8>, Error>(e),
            },
            hdr.sh_type == SHT_STRTAB && hdr.spec_in_bounds(buf@.len()) && hdr.sh_size > 0
                && buf@[hdr.sh_offset as int] != 0 ==> r is Err && r->Err_0
                == Error::MalformedStringTable,
    {
        if hdr.sh_type != SHT_STRTAB {
            return Err(Error::WrongKind);
        }
        let bytes = match hdr.get_section_buffer(buf) {
            Ok(bytes) => bytes,
            Err(e) => {
                return Err(e);
            },
        };
        if bytes.len() > 0 && bytes[0] != 0 {
            return Err(Error::MalformedStringTable);
        }
        Ok(StringTable { buf: bytes })
    }

    /// The number of bytes in the table.
    pub fn len(&self) -> (n: usize)
        ensures
            n == self@.len(),
    {
        self.buf.len()
    }

    /// The string that starts at `offset`, without its terminator.
    ///
    /// Fails with `IndexOutOfRange` where `offset` lies past the table, and
    /// with `MalformedStringTable` where no NUL byte follows `offset`: the
    /// scan never leaves the table. In a table that is not empty, the
    /// string at offset 0 is the empty string.
    pub fn get_string(&self, offset: usize) -> (r: Result<&'a [u8], Error>)
        ensures
            match r {
                Ok(bytes) => spec_string_at(self@, offset as int) == Ok::<Seq<u8>, Error>(bytes@),
                Err(e) => spec_string_at(self@, offset as int) == Err::<Seq<u8>, Error>(e),
            },
            r is Ok ==> {
                let bytes = r.unwrap()@;
                &&& offset + bytes.len() < self@.len()
                &&& bytes == self@.subrange(offset as int, offset + bytes.len())
                &&& self@[offset + bytes.len()] == 0
                &&& forall|j: int| 0 <= j < bytes.len() ==> bytes[j] != 0
            },
            offset < self@.len() ==> (r is Err <==> forall|j: int|
                offset <= j < self@.len() ==> self@[j] != 0),
            offset == 0 && self@.len() > 0 ==> r is Ok && r.unwrap()@ == Seq::<u8>::empty(),
    {
        proof {
            use_type_invariant(self);
            if offset <= self@.len() {
                lemma_nul_index(self@, offset as int);
            }
            if offset == 0 && self@.len() > 0 {
                assert(self@.subrange(0, 0) =~= Seq::<u8>::empty());
            }
        }
        let len: usize = self.buf.len();
        if offset >= len {
            return Err(Error::IndexOutOfRange);
        }
        let mut end: usize = offset;
        while end < len && self.buf[end] != 0
            invariant
                len == self.buf@.len(),
                offset <= end <= len,
                forall|j: int| offset <= j < end ==> self.buf@[j] != 0,
            decreases len - end,
        {
            end = end + 1;
        }
        proof {
            lemma_nul_index_skip(self.buf@, offset as int, end as int);
        }
        if end >= len {
            return Err(Error::MalformedStringTable);
        }
        Ok(slice_subrange(self.buf, offset, end))
    }

    /// The string that starts at `offset`, as text.
    ///
    /// Fails as `get_string` does where there is no string at `offset`, and
    /// with `InvalidString` where the string is not valid UTF-8.
    pub fn get_str(&self, offset: usize) -> (r: Result<&'a str, Error>)
        ensures
            match r {
                Ok(text) => spec_str_at(self@, offset as int) == Ok::<Seq<char>, Error>(text@),
                Err(e) => spec_str_at(self@, offset as int) == Err::<Seq<char>, Error>(e),
            },
    {
        let bytes = match self.get_string(offset) {
            Ok(bytes) => bytes,
            Err(e) => {
                return Err(e);
            },
        };
        match str_from_utf8(bytes) {
            Some(text) => {
                proof {
                    encode_utf8_decode_utf8(text@);
                }
                Ok(text)
            },
            None => Err(Error::InvalidString),
        }
    }

    /// Every string of the table, in table order.
    pub fn get_all_strings(&self) -> (strings: Vec<&'a [u8]>)
        ensures
            strings@.len() == spec_strings_from(self@, 0).len(),
            forall|k: int|
                0 <= k < strings@.len() ==> (#[trigger] strings@[k])@ == spec_strings_from(
                    self@,
                    0,
                )[k],
    {
        let len: usize = self.buf.len();
        let mut strings: Vec<&'a [u8]> = Vec::new();
        let mut start: usize = 0;
        let mut i: usize = 0;
        while i < len
            invariant
                len == self.buf@.len(),
                start <= i <= len,
                forall|j: int| start <= j < i ==> self.buf@[j] != 0,
                strings@.len() + spec_strings_from(self.buf@, start as int).len()
                    == spec_strings_from(self.buf@, 0).len(),
                forall|k: int|
                    0 <= k < strings@.len() ==> (#[trigger] strings@[k])@ == spec_strings_from(
                        self.buf@,
                        0,
                    )[k],
                forall|k: int|
                    0 <= k < spec_strings_from(self.buf@, start as int).len()
                        ==> #[trigger] spec_strings_from(self.buf@, start as int)[k]
                        == spec_strings_from(self.buf@, 0)[strings@.len() + k],
            decreases len - i,
        {
            if self.buf[i] == 0 {
                proof {
                    lemma_nul_index_skip(self.buf@, start as int, i as int);
                    let rest = spec_strings_from(self.buf@, i + 1);
                    let here = spec_strings_from(self.buf@, start as int);
                    assert(here == seq![self.buf@.subrange(start as int, i as int)] + rest);
                    assert(here[0] == self.buf@.subrange(start as int, i as int));
                    assert forall|k: int| 0 <= k < rest.len() implies #[trigger] rest[k]
                        == spec_strings_from(self.buf@, 0)[strings@.len() + 1 + k] by {
                        assert(rest[k] == here[k + 1]);
                    }
                }
                strings.push(slice_subrange(self.buf, start, i));
                start = i + 1;
            }
            i = i + 1;
        }
        proof {
            lemma_nul_index_skip(self.buf@, start as int, len as int);
        }
        strings
    }
}

} // verus!
