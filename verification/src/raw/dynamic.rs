//! The dynamic table: tag and value pairs that describe dynamic linking.
use vstd::prelude::*;

use super::bytes::{
    get_rebased_span, read_u64, rebased_span_fits, spec_u64_le,
};
use super::header::{ProgramHeader, SectionHeader};
use super::record::{
    get_record, lemma_first_index, lemma_first_index_skip, parse_entries, spec_entries, spec_first_index, Record,
};
use super::{Error, DT_RELA, PT_DYNAMIC, SHT_DYNAMIC};

verus! {

/// One entry of the dynamic table.
#[derive(Debug, Clone, Copy, PartialEq, Eq, Structural)]
pub struct Dynamic {
    pub d_tag: u64,
    pub d_value: u64,
}

impl Dynamic {
    /// The tag, which says what the value means.
    pub fn get_tag(&self) -> (r: u64)
        ensures
            r == self.d_tag,
    {
        self.d_tag
    }

    /// The value: an address, a size or a flag word, as the tag says.
    pub fn get_value(&self) -> (r: u64)
        ensures
            r == self.d_value,
    {
        self.d_value
    }
}

impl Record for Dynamic {
    /// A dynamic entry occupies 16 bytes.
    open spec fn spec_size() -> nat {
        16
    }

    open spec fn spec_decode(bytes: Seq<u8>) -> Dynamic {
        Dynamic { d_tag: spec_u64_le(bytes, 0), d_value: spec_u64_le(bytes, 8) }
    }

    fn size() -> (n: u64) {
        16
    }

    fn decode(bytes: &[u8], offset: usize) -> (r: Dynamic) {
        let record = get_record(bytes, offset, 16);
        Dynamic { d_tag: read_u64(record, 0), d_value: read_u64(record, 8) }
    }
}

/// Whether `tag` is the tag of the entry `entry`.
pub open spec fn spec_has_tag(tag: u64) -> spec_fn(Dynamic) -> bool {
    |entry: Dynamic| entry.d_tag == tag
}

/// The first entry of `entries` with the tag `tag`, if there is one.
pub open spec fn spec_find_entry(entries: Seq<Dynamic>, tag: u64) -> Option<Dynamic> {
    match spec_first_index(entries, spec_has_tag(tag), 0) {
        Some(i) => Some(entries[i]),
        None => None,
    }
}

/// The entries of a dynamic table.
#[derive(Debug, Clone)]
pub struct DynamicTable {
    entries: Vec<Dynamic>,
}

impl View for DynamicTable {
    type V = Seq<Dynamic>;

    /// The entries, in table order.
    closed spec fn view(&self) -> Seq<Dynamic> {
        self.entries@
    }
}

impl DynamicTable {
    /// What parsing the section `hdr` of a buffer with the content `buf`
    /// gives: `sh_size / sh_entsize` entries read from the section's bytes,
    /// or the first of these that applies: the section is no dynamic
    /// section; its bytes do not lie within the buffer; it is empty; its
    /// entry size is zero or its entries do not lie within it.
    pub open spec fn spec_parse_section(buf: Seq<u8>, hdr: SectionHeader) -> Result<
        Seq<Dynamic>,
        Error,
    > {
        if hdr.sh_type != SHT_DYNAMIC {
            Err(Error::WrongKind)
        } else if !hdr.spec_in_bounds(buf.len()) {
            Err(Error::OutOfBounds)
        } else if hdr.sh_size == 0 {
            Err(Error::MalformedTable)
        } else {
            spec_entries::<Dynamic>(hdr.spec_section_buffer(buf), hdr.sh_entsize)
        }
    }

    /// What parsing the segment `hdr` of an object that is loaded at
    /// `base_addr` in an image with the content `image` gives:
    /// `p_memsz / 16` entries read from the `p_memsz` bytes at
    /// `base_addr + p_vaddr`, or the first of these that applies: the
    /// segment is no dynamic segment; those bytes do not lie within the
    /// image.
    pub open spec fn spec_parse_segment(image: Seq<u8>, base_addr: usize, hdr: ProgramHeader)
        -> Result<Seq<Dynamic>, Error> {
        if hdr.p_type != PT_DYNAMIC {
            Err(Error::WrongKind)
        } else if !rebased_span_fits(image.len(), base_addr, hdr.p_vaddr, hdr.p_memsz) {
            Err(Error::OutOfBounds)
        } else {
            spec_entries::<Dynamic>(
                image.subrange(base_addr + hdr.p_vaddr, base_addr + hdr.p_vaddr + hdr.p_memsz),
                16,
            )
        }
    }

    /// Reads the dynamic table that lies in the section `hdr` of the file
    /// `buf`.
    pub fn parse_section(buf: &[u8], hdr: &SectionHeader) -> (r: Result<DynamicTable, Error>)
        ensures
            match r {
                Ok(table) => Self::spec_parse_section(buf@, *hdr) == Ok::<Seq<Dynamic>, Error>(
                    table@,
                ),
                Err(e) => Self::spec_parse_section(buf@, *hdr) == Err::<Seq<Dynamic>, Error>(e),
            },
            r is Ok ==> r.unwrap()@.len() == hdr.sh_size as nat / hdr.sh_entsize as nat,
    {
        if hdr.sh_type != SHT_DYNAMIC {
            return Err(Error::WrongKind);
        }
        let bytes = match hdr.get_section_buffer(buf) {
            Ok(bytes) => bytes,
            Err(e) => {
                return Err(e);
            },
        };
        if bytes.len() == 0 {
            return Err(Error::MalformedTable);
        }
        match parse_entries::<Dynamic>(bytes, hdr.sh_entsize) {
            Ok(entries) => Ok(DynamicTable { entries }),
            Err(e) => Err(e),
        }
    }

    /// Reads the dynamic table that lies in the segment `hdr` of an object
    /// whose loadable segments are mapped into `image`, the object's
    /// virtual address 0 at position `base_addr`.
    pub fn parse_segment(image: &[u8], base_addr: usize, hdr: &ProgramHeader) -> (r: Result<
        DynamicTable,
        Error,
    >)
        ensures
            match r {
                Ok(table) => Self::spec_parse_segment(image@, base_addr, *hdr) == Ok::<
                    Seq<Dynamic>,
                    Error,
                >(table@),
                Err(e) => Self::spec_parse_segment(image@, base_addr, *hdr) == Err::<
                    Seq<Dynamic>,
                    Error,
                >(e),
            },
            r is Ok ==> r.unwrap()@.len() == hdr.p_memsz as nat / 16,
    {
        if hdr.get_type() != PT_DYNAMIC {
            return Err(Error::WrongKind);
        }
        let bytes = match get_rebased_span(image, base_addr, hdr.get_vaddr(), hdr.get_memsz()) {
            Ok(bytes) => bytes,
            Err(e) => {
                return Err(e);
            },
        };
        match parse_entries::<Dynamic>(bytes, 16) {
            Ok(entries) => Ok(DynamicTable { entries }),
            Err(e) => Err(e),
        }
    }

    /// The number of entries.
    pub fn len(&self) -> (n: usize)
        ensures
            n == self@.len(),
    {
        self.entries.len()
    }

    /// Whether the table locates a relocation table with addends: whether
    /// it has an entry with the tag `DT_RELA`.
    pub fn has_relocations(&self) -> (r: bool)
        ensures
            r == spec_find_entry(self@, DT_RELA).is_some(),
            r <==> exists|i: int| 0 <= i < self@.len() && self@[i].d_tag == DT_RELA,
    {
        self.find_entry(DT_RELA).is_some()
    }

    /// The entry at `index`. Fails with `IndexOutOfRange` where `index` is
    /// not below the number of entries.
    pub fn get_entry(&self, index: usize) -> (r: Result<&Dynamic, Error>)
        ensures
            index < self@.len() ==> r == Ok::<&Dynamic, Error>(&self@[index as int]),
            index >= self@.len() ==> r == Err::<&Dynamic, Error>(Error::IndexOutOfRange),
    {
        if index >= self.entries.len() {
            return Err(Error::IndexOutOfRange);
        }
        Ok(&self.entries[index])
    }

    /// The first entry with the tag `tag`, or `None` where no entry has it.
    pub fn find_entry(&self, tag: u64) -> (r: Option<&Dynamic>)
        ensures
            match spec_find_entry(self@, tag) {
                Some(entry) => r == Some(&entry),
                None => r is None,
            },
            r is Some ==> r.unwrap().d_tag == tag && self@.contains(*r.unwrap()),
            r is None <==> forall|i: int| 0 <= i < self@.len() ==> self@[i].d_tag != tag,
    {
        proof {
            lemma_first_index(self@, spec_has_tag(tag), 0);
        }
        let mut i: usize = 0;
        while i < self.entries.len()
            invariant
                i <= self.entries@.len(),
                forall|j: int| 0 <= j < i ==> !spec_has_tag(tag)(self.entries@[j]),
            decreases self.entries@.len() - i,
        {
            if self.entries[i].get_tag() == tag {
                proof {
                    lemma_first_index_skip(self.entries@, spec_has_tag(tag), 0, i as int);
                }
                return Some(&self.entries[i]);
            }
            i = i + 1;
        }
        proof {
            lemma_first_index_skip(self.entries@, spec_has_tag(tag), 0, i as int);
        }
        None
    }

    /// Every entry, in table order.
    pub fn iter(&self) -> (r: &[Dynamic])
        ensures
            r@ == self@,
    {
        self.entries.as_slice()
    }
}

} // verus!
