//! Relocation tables, with and without addends.
use vstd::prelude::*;

use super::bytes::{
    get_rebased_span, read_i64, read_u64, rebased_span_fits, spec_i64_le, spec_u64_le,
};
use super::dynamic::{spec_find_entry, Dynamic, DynamicTable};
use super::header::SectionHeader;
use super::record::{get_record, parse_entries, spec_entries, Record};
use super::{Error, DT_RELA, DT_RELAENT, DT_RELASZ, SHT_RELA};

verus! {

/// The type of relocation that a packed info word names: its low 32 bits.
pub open spec fn spec_info_type(info: u64) -> u32 {
    (info & 0xffff_ffff) as u32
}

/// The index of the symbol that a packed info word names: its high 32 bits.
pub open spec fn spec_info_symbol(info: u64) -> u32 {
    (info >> 32) as u32
}

/// The two halves of an info word make up the word: the symbol index
/// counts units of `2^32`, the type is what is left.
pub proof fn lemma_info_split(info: u64)
    ensures
        spec_info_type(info) == info % 0x1_0000_0000,
        spec_info_symbol(info) == info / 0x1_0000_0000,
        info == spec_info_symbol(info) * 0x1_0000_0000 + spec_info_type(info),
{
    assert(info & 0xffff_ffff == info % 0x1_0000_0000) by (bit_vector);
    assert(info >> 32 == info / 0x1_0000_0000) by (bit_vector);
}

/// The type of relocation that the info word `info` names.
pub fn info_type(info: u64) -> (r: u32)
    ensures
        r == spec_info_type(info),
        r == info % 0x1_0000_0000,
{
    proof {
        lemma_info_split(info);
    }
    (info & 0xffff_ffff) as u32
}

/// The index of the symbol that the info word `info` names.
pub fn info_symbol(info: u64) -> (r: u32)
    ensures
        r == spec_info_symbol(info),
        r == info / 0x1_0000_0000,
{
    proof {
        lemma_info_split(info);
    }
    (info >> 32) as u32
}

/// A relocation record: a fixed-size record of a relocation table.
pub trait Relocation: Record {

}

/// A relocation without an addend.
#[derive(Debug, Clone, Copy, PartialEq, Eq, Structural)]
pub struct Rel {
    /// Location at which the relocation must be applied.
    pub r_offset: u64,
    /// Symbol table index and type of relocation.
    pub r_info: u64,
}

impl Rel {
    /// The location at which the relocation must be applied.
    pub fn get_offset(&self) -> (r: u64)
        ensures
            r == self.r_offset,
    {
        self.r_offset
    }

    /// The packed info word.
    pub fn get_info(&self) -> (r: u64)
        ensures
            r == self.r_info,
    {
        self.r_info
    }

    /// The index of the symbol that the relocation refers to.
    pub fn get_symbol(&self) -> (r: u32)
        ensures
            r == spec_info_symbol(self.r_info),
            r == self.r_info / 0x1_0000_0000,
    {
        info_symbol(self.r_info)
    }

    /// The type of the relocation.
    pub fn get_type(&self) -> (r: u32)
        ensures
            r == spec_info_type(self.r_info),
            r == self.r_info % 0x1_0000_0000,
    {
        info_type(self.r_info)
    }
}

impl Record for Rel {
    /// A relocation without an addend occupies 16 bytes.
    open spec fn spec_size() -> nat {
        16
    }

    open spec fn spec_decode(bytes: Seq<u8>) -> Rel {
        Rel { r_offset: spec_u64_le(bytes, 0), r_info: spec_u64_le(bytes, 8) }
    }

    fn size() -> (n: u64) {
        16
    }

    fn decode(bytes: &[u8], offset: usize) -> (r: Rel) {
        let record = get_record(bytes, offset, 16);
        Rel { r_offset: read_u64(record, 0), r_info: read_u64(record, 8) }
    }
}

impl Relocation for Rel {

}

/// A relocation with an addend.
#[derive(Debug, Clone, Copy, PartialEq, Eq, Structural)]
pub struct Rela {
    /// Location at which the relocation must be applied.
    pub r_offset: u64,
    /// Symbol table index and type of relocation.
    pub r_info: u64,
    /// Constant addend for applying the relocation.
    pub r_addend: i64,
}

impl Rela {
    /// The location at which the relocation must be applied.
    pub fn get_offset(&self) -> (r: u64)
        ensures
            r == self.r_offset,
    {
        self.r_offset
    }

    /// The packed info word.
    pub fn get_info(&self) -> (r: u64)
        ensures
            r == self.r_info,
    {
        self.r_info
    }

    /// The index of the symbol that the relocation refers to.
    pub fn get_symbol(&self) -> (r: u32)
        ensures
            r == spec_info_symbol(self.r_info),
            r == self.r_info / 0x1_0000_0000,
    {
        info_symbol(self.r_info)
    }

    /// The type of the relocation.
    pub fn get_type(&self) -> (r: u32)
        ensures
            r == spec_info_type(self.r_info),
            r == self.r_info % 0x1_0000_0000,
    {
        info_type(self.r_info)
    }

    /// The constant addend.
    pub fn get_addend(&self) -> (r: i64)
        ensures
            r == self.r_addend,
    {
        self.r_addend
    }
}

impl Record for Rela {
    /// A relocation with an addend occupies 24 bytes.
    open spec fn spec_size() -> nat {
        24
    }

    open spec fn spec_decode(bytes: Seq<u8>) -> Rela {
        Rela {
            r_offset: spec_u64_le(bytes, 0),
            r_info: spec_u64_le(bytes, 8),
            r_addend: spec_i64_le(bytes, 16),
        }
    }

    fn size() -> (n: u64) {
        24
    }

    fn decode(bytes: &[u8], offset: usize) -> (r: Rela) {
        let record = get_record(bytes, offset, 24);
        Rela {
            r_offset: read_u64(record, 0),
            r_info: read_u64(record, 8),
            r_addend: read_i64(record, 16),
        }
    }
}

impl Relocation for Rela {

}

/// Where the dynamic table `entries` says the relocation table with
/// addends lies: its virtual address, its size in bytes and the size of one
/// entry, in this order. All three entries must be there.
pub open spec fn spec_rela_location(entries: Seq<Dynamic>) -> Option<(u64, u64, u64)> {
    match (
        spec_find_entry(entries, DT_RELA),
        spec_find_entry(entries, DT_RELASZ),
        spec_find_entry(entries, DT_RELAENT),
    ) {
        (Some(addr), Some(size), Some(entsize)) => Some(
            (addr.d_value, size.d_value, entsize.d_value),
        ),
        _ => None,
    }
}

/// The entries of a relocation table, of the shape `R`.
#[derive(Debug, Clone)]
pub struct RelocationTable<R: Relocation> {
    relocs: Vec<R>,
}

impl<R: Relocation> View for RelocationTable<R> {
    type V = Seq<R>;

    /// The entries, in table order.
    closed spec fn view(&self) -> Seq<R> {
        self.relocs@
    }
}

impl<R: Relocation> RelocationTable<R> {
    /// What parsing the section `hdr` of a buffer with the content `buf`
    /// gives: `sh_size / sh_entsize` entries read from the section's bytes,
    /// or the first of these that applies: the section is no relocation
    /// section with addends; its bytes do not lie within the buffer; it is
    /// empty; its entry size is zero or its entries do not lie within it.
    pub open spec fn spec_parse_section_header(buf: Seq<u8>, hdr: SectionHeader) -> Result<
        Seq<R>,
        Error,
    > {
        if hdr.sh_type != SHT_RELA {
            Err(Error::WrongKind)
        } else if !hdr.spec_in_bounds(buf.len()) {
            Err(Error::OutOfBounds)
        } else if hdr.sh_size == 0 {
            Err(Error::MalformedTable)
        } else {
            spec_entries::<R>(hdr.spec_section_buffer(buf), hdr.sh_entsize)
        }
    }

    /// Reads the relocation table that lies in the section `hdr` of the
    /// file `buf`.
    pub fn parse_section_header(buf: &[u8], hdr: &SectionHeader) -> (r: Result<
        RelocationTable<R>,
        Error,
    >)
        ensures
            match r {
                Ok(table) => Self::spec_parse_section_header(buf@, *hdr) == Ok::<Seq<R>, Error>(
                    table@,
                ),
                Err(e) => Self::spec_parse_section_header(buf@, *hdr) == Err::<Seq<R>, Error>(e),
            },
            r is Ok ==> r.unwrap()@.len() == hdr.sh_size as nat / hdr.sh_entsize as nat,
    {
        if hdr.sh_type != SHT_RELA {
            return Err(Error::WrongKind);
        }
        let bytes = match hdr.get_section_buffer(buf) {
            Ok(bytes) => bytes,
            Err(e) => {
                return Err(e);
            },
        };
        if bytes.len() == 0 {
            return Err(Error::MalformedTable);
        }
        match parse_entries::<R>(bytes, hdr.sh_entsize) {
            Ok(relocs) => Ok(RelocationTable { relocs }),
            Err(e) => Err(e),
        }
    }

    /// The number of entries.
    pub fn len(&self) -> (n: usize)
        ensures
            n == self@.len(),
    {
        self.relocs.len()
    }

    /// The entry at `index`. Fails with `IndexOutOfRange` where `index` is
    /// not below the number of entries.
    pub fn get_relocation(&self, index: usize) -> (r: Result<&R, Error>)
        ensures
            index < self@.len() ==> r == Ok::<&R, Error>(&self@[index as int]),
            index >= self@.len() ==> r == Err::<&R, Error>(Error::IndexOutOfRange),
    {
        if index >= self.relocs.len() {
            return Err(Error::IndexOutOfRange);
        }
        Ok(&self.relocs[index])
    }

    /// Every entry, in table order.
    pub fn iter(&self) -> (r: &[R])
        ensures
            r@ == self@,
    {
        self.relocs.as_slice()
    }
}

impl RelocationTable<Rela> {
    /// What locating the relocation table through the dynamic table
    /// `entries` gives, for an object that is loaded at `base` in an image
    /// with the content `image`: `size / entsize` entries read from the
    /// `size` bytes at `base + address`, or the first of these that
    /// applies: one of the three entries that give address, size and entry
    /// size is missing; those bytes do not lie within the image; the entry
    /// size is zero or the entries do not lie within those bytes.
    pub open spec fn spec_parse_rela_dynamic(image: Seq<u8>, base: usize, entries: Seq<Dynamic>)
        -> Result<Seq<Rela>, Error> {
        match spec_rela_location(entries) {
            None => Err(Error::MissingDynamicEntry),
            Some((addr, size, entsize)) => if !rebased_span_fits(image.len(), base, addr, size) {
                Err(Error::OutOfBounds)
            } else {
                spec_entries::<Rela>(image.subrange(base + addr, base + addr + size), entsize)
            },
        }
    }

    /// Reads the relocation table that the dynamic table locates, for an
    /// object whose loadable segments are mapped into `image`, the object's
    /// virtual address 0 at position `base`.
    ///
    /// Only tables with addends are found this way; the entries that would
    /// locate a table without addends are not looked up.
    pub fn parse_rela_dynamic(image: &[u8], base: usize, dynamic: &DynamicTable) -> (r: Result<
        RelocationTable<Rela>,
        Error,
    >)
        ensures
            match r {
                Ok(table) => Self::spec_parse_rela_dynamic(image@, base, dynamic@) == Ok::<
                    Seq<Rela>,
                    Error,
                >(table@),
                Err(e) => Self::spec_parse_rela_dynamic(image@, base, dynamic@) == Err::<
                    Seq<Rela>,
                    Error,
                >(e),
            },
            spec_rela_location(dynamic@) is None <==> r is Err && r->Err_0
                == Error::MissingDynamicEntry,
            (forall|i: int| 0 <= i < dynamic@.len() ==> dynamic@[i].d_tag != DT_RELA) ==> r is Err
                && r->Err_0 == Error::MissingDynamicEntry,
            (forall|i: int| 0 <= i < dynamic@.len() ==> dynamic@[i].d_tag != DT_RELASZ) ==> r
                is Err && r->Err_0 == Error::MissingDynamicEntry,
            (forall|i: int| 0 <= i < dynamic@.len() ==> dynamic@[i].d_tag != DT_RELAENT) ==> r
                is Err && r->Err_0 == Error::MissingDynamicEntry,
    {
        let addr = match dynamic.find_entry(DT_RELA) {
            Some(entry) => entry.get_value(),
            None => {
                return Err(Error::MissingDynamicEntry);
            },
        };
        let size = match dynamic.find_entry(DT_RELASZ) {
            Some(entry) => entry.get_value(),
            None => {
                return Err(Error::MissingDynamicEntry);
            },
        };
        let entsize = match dynamic.find_entry(DT_RELAENT) {
            Some(entry) => entry.get_value(),
            None => {
                return Err(Error::MissingDynamicEntry);
            },
        };
        let bytes = match get_rebased_span(image, base, addr, size) {
            Ok(bytes) => bytes,
            Err(e) => {
                return Err(e);
            },
        };
        match parse_entries::<Rela>(bytes, entsize) {
            Ok(relocs) => Ok(RelocationTable { relocs }),
            Err(e) => Err(e),
        }
    }
}

} // verus!
