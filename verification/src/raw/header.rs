//! The file header, the program headers and the section headers.
use vstd::prelude::*;

use super::bytes::{
    get_span, lemma_u16_le_of_bytes, lemma_u32_le_of_bytes, lemma_u64_le_of_bytes, read_u16,
    read_u32, read_u64, read_u8, span_fits, spec_le_byte, spec_u16_le, spec_u32_le, spec_u64_le,
};
use super::record::{
    get_record, lemma_first_index, lemma_first_index_skip, lemma_last_index, parse_table,
    spec_first_index, spec_last_index, spec_record_bytes, spec_table, Record,
};
use super::string::{spec_str_at, str_equal, StringTable};
use super::{Error, ELF_CLASS_64, ELF_DATA_LITTLE};

verus! {

/// The identification block that a file header starts with.
#[derive(Debug, Clone, Copy, PartialEq, Eq)]
pub struct Ident {
    pub magic: [u8; 4],
    pub class: u8,
    pub data: u8,
    pub version: u8,
    pub os_abi: u8,
    pub abi_version: u8,
    pub _padding: [u8; 7],
}

impl Ident {
    /// An identification block occupies 16 bytes.
    pub open spec fn spec_size() -> nat {
        16
    }

    /// The identification block that the first 16 bytes of `s` hold.
    pub open spec fn spec_decode(s: Seq<u8>) -> Ident {
        Ident {
            magic: [s[0], s[1], s[2], s[3]],
            class: s[4],
            data: s[5],
            version: s[6],
            os_abi: s[7],
            abi_version: s[8],
            _padding: [s[9], s[10], s[11], s[12], s[13], s[14], s[15]],
        }
    }

    /// The byte at position `i` of the 16 bytes that hold this block.
    pub open spec fn spec_byte(self, i: int) -> u8 {
        if i < 4 {
            self.magic@[i]
        } else if i == 4 {
            self.class
        } else if i == 5 {
            self.data
        } else if i == 6 {
            self.version
        } else if i == 7 {
            self.os_abi
        } else if i == 8 {
            self.abi_version
        } else {
            self._padding@[i - 9]
        }
    }

    /// Whether the block starts with the bytes `7F 45 4C 46`.
    pub open spec fn spec_has_magic(self) -> bool {
        self.magic@ == seq![0x7fu8, 0x45u8, 0x4cu8, 0x46u8]
    }

    /// Whether the block starts with the ELF magic number.
    pub fn has_magic(&self) -> (r: bool)
        ensures
            r == self.spec_has_magic(),
    {
        let r = self.magic[0] == 0x7f && self.magic[1] == 0x45 && self.magic[2] == 0x4c
            && self.magic[3] == 0x46;
        proof {
            if r {
                assert(self.magic@ =~= seq![0x7fu8, 0x45u8, 0x4cu8, 0x46u8]);
            }
        }
        r
    }
}

/// Whether `s` starts with the four bytes of the magic number:
/// `7F 45 4C 46`.
pub open spec fn spec_starts_with_magic(s: Seq<u8>) -> bool {
    s.len() >= 4 && s[0] == 0x7f && s[1] == 0x45 && s[2] == 0x4c && s[3] == 0x46
}

/// The header at the start of every ELF object.
#[derive(Debug, Clone, Copy, PartialEq, Eq)]
pub struct FileHeader {
    pub e_ident: Ident,
    pub e_type: u16,
    pub e_machine: u16,
    pub e_version: u32,
    pub e_entry: u64,
    pub e_phoff: u64,
    pub e_shoff: u64,
    pub e_flags: u32,
    pub e_ehsize: u16,
    pub e_phentsize: u16,
    pub e_phnum: u16,
    pub e_shentsize: u16,
    pub e_shnum: u16,
    pub e_shstrndx: u16,
}

impl FileHeader {
    /// A file header occupies 64 bytes.
    pub open spec fn spec_size() -> nat {
        64
    }

    /// The file header that the first 64 bytes of `s` hold, whatever they
    /// identify.
    pub open spec fn spec_decode(s: Seq<u8>) -> FileHeader {
        FileHeader {
            e_ident: Ident::spec_decode(s),
            e_type: spec_u16_le(s, 16),
            e_machine: spec_u16_le(s, 18),
            e_version: spec_u32_le(s, 20),
            e_entry: spec_u64_le(s, 24),
            e_phoff: spec_u64_le(s, 32),
            e_shoff: spec_u64_le(s, 40),
            e_flags: spec_u32_le(s, 48),
            e_ehsize: spec_u16_le(s, 52),
            e_phentsize: spec_u16_le(s, 54),
            e_phnum: spec_u16_le(s, 56),
            e_shentsize: spec_u16_le(s, 58),
            e_shnum: spec_u16_le(s, 60),
            e_shstrndx: spec_u16_le(s, 62),
        }
    }

    /// Whether the header identifies a 64-bit little-endian ELF object.
    pub open spec fn spec_supported(self) -> bool {
        &&& self.e_ident.spec_has_magic()
        &&& self.e_ident.class == ELF_CLASS_64
        &&& self.e_ident.data == ELF_DATA_LITTLE
    }

    /// What parsing a buffer with the content `s` gives: the header that its
    /// first 64 bytes hold, or the first of these that applies: the buffer
    /// is shorter than a header; it does not start with the magic number;
    /// its class is not 64-bit; its data encoding is not little-endian.
    pub open spec fn spec_parse(s: Seq<u8>) -> Result<FileHeader, Error> {
        let header = Self::spec_decode(s);
        if s.len() < Self::spec_size() {
            Err(Error::TooShort)
        } else if !header.e_ident.spec_has_magic() {
            Err(Error::InvalidMagicNumber)
        } else if header.e_ident.class != ELF_CLASS_64 {
            Err(Error::InvalidClass)
        } else if header.e_ident.data != ELF_DATA_LITTLE {
            Err(Error::InvalidEndianness)
        } else {
            Ok(header)
        }
    }

    /// The byte at position `i` of the 64 bytes that hold this header.
    pub open spec fn spec_byte(self, i: int) -> u8 {
        if i < 16 {
            self.e_ident.spec_byte(i)
        } else if i < 18 {
            spec_le_byte(self.e_type as int, i - 16)
        } else if i < 20 {
            spec_le_byte(self.e_machine as int, i - 18)
        } else if i < 24 {
            spec_le_byte(self.e_version as int, i - 20)
        } else if i < 32 {
            spec_le_byte(self.e_entry as int, i - 24)
        } else if i < 40 {
            spec_le_byte(self.e_phoff as int, i - 32)
        } else if i < 48 {
            spec_le_byte(self.e_shoff as int, i - 40)
        } else if i < 52 {
            spec_le_byte(self.e_flags as int, i - 48)
        } else if i < 54 {
            spec_le_byte(self.e_ehsize as int, i - 52)
        } else if i < 56 {
            spec_le_byte(self.e_phentsize as int, i - 54)
        } else if i < 58 {
            spec_le_byte(self.e_phnum as int, i - 56)
        } else if i < 60 {
            spec_le_byte(self.e_shentsize as int, i - 58)
        } else if i < 62 {
            spec_le_byte(self.e_shnum as int, i - 60)
        } else {
            spec_le_byte(self.e_shstrndx as int, i - 62)
        }
    }

    /// The 64 bytes that hold this header in a file.
    pub open spec fn spec_encode(self) -> Seq<u8> {
        Seq::new(64, |i: int| self.spec_byte(i))
    }

    /// Reads the file header at the start of `buf` and checks that it
    /// identifies an object that this library reads.
    pub fn parse(buf: &[u8]) -> (r: Result<FileHeader, Error>)
        ensures
            r == Self::spec_parse(buf@),
            buf@.len() < 64 ==> r == Err::<FileHeader, Error>(Error::TooShort),
            buf@.len() >= 64 && !spec_starts_with_magic(buf@) ==> r == Err::<FileHeader, Error>(
                Error::InvalidMagicNumber,
            ),
            buf@.len() >= 64 && spec_starts_with_magic(buf@) && buf@[4] != ELF_CLASS_64 ==> r
                == Err::<FileHeader, Error>(Error::InvalidClass),
            buf@.len() >= 64 && spec_starts_with_magic(buf@) && buf@[4] == ELF_CLASS_64 && buf@[5]
                != ELF_DATA_LITTLE ==> r == Err::<FileHeader, Error>(Error::InvalidEndianness),
            buf@.len() >= 64 && spec_starts_with_magic(buf@) && buf@[4] == ELF_CLASS_64 && buf@[5]
                == ELF_DATA_LITTLE ==> r == Ok::<FileHeader, Error>(Self::spec_decode(buf@)),
    {
        if buf.len() < 64 {
            return Err(Error::TooShort);
        }
        let e_ident = Ident {
            magic: [read_u8(buf, 0), read_u8(buf, 1), read_u8(buf, 2), read_u8(buf, 3)],
            class: read_u8(buf, 4),
            data: read_u8(buf, 5),
            version: read_u8(buf, 6),
            os_abi: read_u8(buf, 7),
            abi_version: read_u8(buf, 8),
            _padding: [
                read_u8(buf, 9),
                read_u8(buf, 10),
                read_u8(buf, 11),
                read_u8(buf, 12),
                read_u8(buf, 13),
                read_u8(buf, 14),
                read_u8(buf, 15),
            ],
        };
        let header = FileHeader {
            e_ident,
            e_type: read_u16(buf, 16),
            e_machine: read_u16(buf, 18),
            e_version: read_u32(buf, 20),
            e_entry: read_u64(buf, 24),
            e_phoff: read_u64(buf, 32),
            e_shoff: read_u64(buf, 40),
            e_flags: read_u32(buf, 48),
            e_ehsize: read_u16(buf, 52),
            e_phentsize: read_u16(buf, 54),
            e_phnum: read_u16(buf, 56),
            e_shentsize: read_u16(buf, 58),
            e_shnum: read_u16(buf, 60),
            e_shstrndx: read_u16(buf, 62),
        };
        assert(header == Self::spec_decode(buf@));
        assert(header.e_ident.spec_has_magic() == spec_starts_with_magic(buf@)) by {
            if header.e_ident.spec_has_magic() {
                assert(header.e_ident.magic@[0] == 0x7f);
                assert(header.e_ident.magic@[1] == 0x45);
                assert(header.e_ident.magic@[2] == 0x4c);
                assert(header.e_ident.magic@[3] == 0x46);
            } else if spec_starts_with_magic(buf@) {
                assert(header.e_ident.magic@ =~= seq![0x7fu8, 0x45u8, 0x4cu8, 0x46u8]);
            }
        }
        if !header.e_ident.has_magic() {
            return Err(Error::InvalidMagicNumber);
        }
        if header.e_ident.class != ELF_CLASS_64 {
            return Err(Error::InvalidClass);
        }
        if header.e_ident.data != ELF_DATA_LITTLE {
            return Err(Error::InvalidEndianness);
        }
        Ok(header)
    }
}

/// A program header: one segment of the object as a loader sees it.
#[derive(Debug, Clone, Copy, PartialEq, Eq, Structural)]
pub struct ProgramHeader {
    pub p_type: u32,
    pub p_flags: u32,
    pub p_offset: u64,
    pub p_vaddr: u64,
    pub p_paddr: u64,
    pub p_filesz: u64,
    pub p_memsz: u64,
    pub p_align: u64,
}

impl ProgramHeader {
    /// The virtual address at which the segment is mapped.
    pub fn get_vaddr(&self) -> (r: u64)
        ensures
            r == self.p_vaddr,
    {
        self.p_vaddr
    }

    /// The number of bytes that the segment occupies in memory.
    pub fn get_memsz(&self) -> (r: u64)
        ensures
            r == self.p_memsz,
    {
        self.p_memsz
    }

    /// The number of bytes that the segment occupies in the file.
    pub fn get_filesz(&self) -> (r: u64)
        ensures
            r == self.p_filesz,
    {
        self.p_filesz
    }

    /// The offset of the segment in the file.
    pub fn get_offset(&self) -> (r: u64)
        ensures
            r == self.p_offset,
    {
        self.p_offset
    }

    /// The permission bits of the segment.
    pub fn get_flags(&self) -> (r: u32)
        ensures
            r == self.p_flags,
    {
        self.p_flags
    }

    /// The numeric code of the segment's type.
    pub fn get_type(&self) -> (r: u32)
        ensures
            r == self.p_type,
    {
        self.p_type
    }

    /// Whether the virtual address `addr` lies in the memory of the
    /// segment: at or after `p_vaddr`, and less than `p_memsz` bytes after
    /// it.
    pub open spec fn spec_contains_address(self, addr: u64) -> bool {
        self.p_vaddr <= addr < self.p_vaddr + self.p_memsz
    }

    /// Whether the virtual address `addr` lies in the memory of the
    /// segment. The end of the segment is formed without wrapping.
    pub fn contains_address(&self, addr: u64) -> (r: bool)
        ensures
            r == self.spec_contains_address(addr),
    {
        addr >= self.p_vaddr && addr - self.p_vaddr < self.p_memsz
    }
}

impl ProgramHeader {
    /// Reads the program headers that the file header `header` describes:
    /// `e_phnum` records in the span of `e_phentsize * e_phnum` bytes at
    /// `e_phoff`.
    pub fn parse_headers(buf: &[u8], header: &FileHeader) -> (r: Result<Vec<ProgramHeader>, Error>)
        ensures
            match r {
                Ok(v) => spec_table::<ProgramHeader>(
                    buf@,
                    header.e_phoff,
                    header.e_phentsize,
                    header.e_phnum,
                ) == Ok::<Seq<ProgramHeader>, Error>(v@),
                Err(e) => spec_table::<ProgramHeader>(
                    buf@,
                    header.e_phoff,
                    header.e_phentsize,
                    header.e_phnum,
                ) == Err::<Seq<ProgramHeader>, Error>(e),
            },
            r is Ok ==> r.unwrap()@.len() == header.e_phnum,
    {
        parse_table::<ProgramHeader>(buf, header.e_phoff, header.e_phentsize, header.e_phnum)
    }
}

impl Record for ProgramHeader {
    /// A program header occupies 0x38 bytes.
    open spec fn spec_size() -> nat {
        0x38
    }

    open spec fn spec_decode(bytes: Seq<u8>) -> ProgramHeader {
        ProgramHeader {
            p_type: spec_u32_le(bytes, 0),
            p_flags: spec_u32_le(bytes, 4),
            p_offset: spec_u64_le(bytes, 8),
            p_vaddr: spec_u64_le(bytes, 16),
            p_paddr: spec_u64_le(bytes, 24),
            p_filesz: spec_u64_le(bytes, 32),
            p_memsz: spec_u64_le(bytes, 40),
            p_align: spec_u64_le(bytes, 48),
        }
    }

    fn size() -> (n: u64) {
        0x38
    }

    fn decode(bytes: &[u8], offset: usize) -> (r: ProgramHeader) {
        let record = get_record(bytes, offset, 0x38);
        ProgramHeader {
            p_type: read_u32(record, 0),
            p_flags: read_u32(record, 4),
            p_offset: read_u64(record, 8),
            p_vaddr: read_u64(record, 16),
            p_paddr: read_u64(record, 24),
            p_filesz: read_u64(record, 32),
            p_memsz: read_u64(record, 40),
            p_align: read_u64(record, 48),
        }
    }
}

/// A section header: one section of the object as a linker sees it.
#[derive(Debug, Clone, Copy, PartialEq, Eq, Structural)]
pub struct SectionHeader {
    pub sh_name: u32,
    pub sh_type: u32,
    pub sh_flags: u64,
    pub sh_addr: u64,
    pub sh_offset: u64,
    pub sh_size: u64,
    pub sh_link: u32,
    pub sh_info: u32,
    pub sh_addralign: u64,
    pub sh_entsize: u64,
}

impl SectionHeader {
    /// Whether the section's bytes lie within a buffer of `len` bytes.
    pub open spec fn spec_in_bounds(self, len: nat) -> bool {
        span_fits(len, self.sh_offset, self.sh_size)
    }

    /// The section's bytes in a buffer with the content `buf`.
    pub open spec fn spec_section_buffer(self, buf: Seq<u8>) -> Seq<u8> {
        buf.subrange(self.sh_offset as int, self.sh_offset + self.sh_size)
    }

    /// The bytes of `buf` that the section occupies: `sh_size` bytes from
    /// `sh_offset` on. Fails where they do not lie within `buf`.
    pub fn get_section_buffer<'a>(&self, buf: &'a [u8]) -> (r: Result<&'a [u8], Error>)
        ensures
            self.spec_in_bounds(buf@.len()) ==> r is Ok && r.unwrap()@
                == self.spec_section_buffer(buf@),
            !self.spec_in_bounds(buf@.len()) ==> r == Err::<&[u8], Error>(Error::OutOfBounds),
    {
        get_span(buf, self.sh_offset, self.sh_size)
    }
}

impl SectionHeader {
    /// Reads the section headers that the file header `header` describes:
    /// `e_shnum` records in the span of `e_shentsize * e_shnum` bytes at
    /// `e_shoff`.
    pub fn parse_headers(buf: &[u8], header: &FileHeader) -> (r: Result<Vec<SectionHeader>, Error>)
        ensures
            match r {
                Ok(v) => spec_table::<SectionHeader>(
                    buf@,
                    header.e_shoff,
                    header.e_shentsize,
                    header.e_shnum,
                ) == Ok::<Seq<SectionHeader>, Error>(v@),
                Err(e) => spec_table::<SectionHeader>(
                    buf@,
                    header.e_shoff,
                    header.e_shentsize,
                    header.e_shnum,
                ) == Err::<Seq<SectionHeader>, Error>(e),
            },
            r is Ok ==> r.unwrap()@.len() == header.e_shnum,
    {
        parse_table::<SectionHeader>(buf, header.e_shoff, header.e_shentsize, header.e_shnum)
    }
}

impl Record for SectionHeader {
    /// A section header occupies 0x40 bytes.
    open spec fn spec_size() -> nat {
        0x40
    }

    open spec fn spec_decode(bytes: Seq<u8>) -> SectionHeader {
        SectionHeader {
            sh_name: spec_u32_le(bytes, 0),
            sh_type: spec_u32_le(bytes, 4),
            sh_flags: spec_u64_le(bytes, 8),
            sh_addr: spec_u64_le(bytes, 16),
            sh_offset: spec_u64_le(bytes, 24),
            sh_size: spec_u64_le(bytes, 32),
            sh_link: spec_u32_le(bytes, 40),
            sh_info: spec_u32_le(bytes, 44),
            sh_addralign: spec_u64_le(bytes, 48),
            sh_entsize: spec_u64_le(bytes, 56),
        }
    }

    fn size() -> (n: u64) {
        0x40
    }

    fn decode(bytes: &[u8], offset: usize) -> (r: SectionHeader) {
        let record = get_record(bytes, offset, 0x40);
        SectionHeader {
            sh_name: read_u32(record, 0),
            sh_type: read_u32(record, 4),
            sh_flags: read_u64(record, 8),
            sh_addr: read_u64(record, 16),
            sh_offset: read_u64(record, 24),
            sh_size: read_u64(record, 32),
            sh_link: read_u32(record, 40),
            sh_info: read_u32(record, 44),
            sh_addralign: read_u64(record, 48),
            sh_entsize: read_u64(record, 56),
        }
    }
}

/// Whether the first 64 bytes of `s` are the bytes that hold `header`.
pub open spec fn holds_file_header(s: Seq<u8>, header: FileHeader) -> bool {
    &&& s.len() >= 64
    &&& forall|i: int| 0 <= i < 64 ==> s[i] == #[trigger] header.spec_byte(i)
}

proof fn lemma_ident_read_back(s: Seq<u8>, header: FileHeader)
    requires
        holds_file_header(s, header),
    ensures
        Ident::spec_decode(s) == header.e_ident,
{
    let d = Ident::spec_decode(s);
    assert(s[0] == header.spec_byte(0));
    assert(s[1] == header.spec_byte(1));
    assert(s[2] == header.spec_byte(2));
    assert(s[3] == header.spec_byte(3));
    assert(s[4] == header.spec_byte(4));
    assert(s[5] == header.spec_byte(5));
    assert(s[6] == header.spec_byte(6));
    assert(s[7] == header.spec_byte(7));
    assert(s[8] == header.spec_byte(8));
    assert(s[9] == header.spec_byte(9));
    assert(s[10] == header.spec_byte(10));
    assert(s[11] == header.spec_byte(11));
    assert(s[12] == header.spec_byte(12));
    assert(s[13] == header.spec_byte(13));
    assert(s[14] == header.spec_byte(14));
    assert(s[15] == header.spec_byte(15));
    assert(d.magic =~= header.e_ident.magic);
    assert(d._padding =~= header.e_ident._padding);
}

/// A 16-bit field is read back from the bytes that hold the header,
/// where those from `off` on are the field's little-endian bytes.
proof fn lemma_u16_field_read_back(s: Seq<u8>, header: FileHeader, off: int, x: u16)
    requires
        holds_file_header(s, header),
        0 <= off,
        off + 2 <= 64,
        forall|k: int|
            0 <= k < 2 ==> header.spec_byte(off + k) == #[trigger] spec_le_byte(x as int, k),
    ensures
        spec_u16_le(s, off) == x,
{
    assert forall|k: int| 0 <= k < 2 implies s[off + k] == #[trigger] spec_le_byte(
        x as int,
        k,
    ) by {
        assert(s[off + k] == header.spec_byte(off + k));
    }
    lemma_u16_le_of_bytes(s, off, x);
}

/// A 32-bit field is read back from the bytes that hold the header,
/// where those from `off` on are the field's little-endian bytes.
proof fn lemma_u32_field_read_back(s: Seq<u8>, header: FileHeader, off: int, x: u32)
    requires
        holds_file_header(s, header),
        0 <= off,
        off + 4 <= 64,
        forall|k: int|
            0 <= k < 4 ==> header.spec_byte(off + k) == #[trigger] spec_le_byte(x as int, k),
    ensures
        spec_u32_le(s, off) == x,
{
    assert forall|k: int| 0 <= k < 4 implies s[off + k] == #[trigger] spec_le_byte(
        x as int,
        k,
    ) by {
        assert(s[off + k] == header.spec_byte(off + k));
    }
    lemma_u32_le_of_bytes(s, off, x);
}

/// A 64-bit field is read back from the bytes that hold the header,
/// where those from `off` on are the field's little-endian bytes.
proof fn lemma_u64_field_read_back(s: Seq<u8>, header: FileHeader, off: int, x: u64)
    requires
        holds_file_header(s, header),
        0 <= off,
        off + 8 <= 64,
        forall|k: int|
            0 <= k < 8 ==> header.spec_byte(off + k) == #[trigger] spec_le_byte(x as int, k),
    ensures
        spec_u64_le(s, off) == x,
{
    assert forall|k: int| 0 <= k < 8 implies s[off + k] == #[trigger] spec_le_byte(
        x as int,
        k,
    ) by {
        assert(s[off + k] == header.spec_byte(off + k));
    }
    lemma_u64_le_of_bytes(s, off, x);
}

/// A header that identifies a 64-bit little-endian object is read back
/// unchanged, field by field, from the 64 bytes that hold it, whatever
/// follows them in the buffer.
pub proof fn lemma_file_header_round_trip(header: FileHeader, rest: Seq<u8>)
    requires
        header.spec_supported(),
    ensures
        FileHeader::spec_parse(header.spec_encode() + rest) == Ok::<FileHeader, Error>(header),
{
    let s = header.spec_encode() + rest;
    assert(holds_file_header(s, header));
    lemma_ident_read_back(s, header);
    lemma_u16_field_read_back(s, header, 16, header.e_type);
    lemma_u16_field_read_back(s, header, 18, header.e_machine);
    lemma_u32_field_read_back(s, header, 20, header.e_version);
    lemma_u64_field_read_back(s, header, 24, header.e_entry);
    lemma_u64_field_read_back(s, header, 32, header.e_phoff);
    lemma_u64_field_read_back(s, header, 40, header.e_shoff);
    lemma_u32_field_read_back(s, header, 48, header.e_flags);
    lemma_u16_field_read_back(s, header, 52, header.e_ehsize);
    lemma_u16_field_read_back(s, header, 54, header.e_phentsize);
    lemma_u16_field_read_back(s, header, 56, header.e_phnum);
    lemma_u16_field_read_back(s, header, 58, header.e_shentsize);
    lemma_u16_field_read_back(s, header, 60, header.e_shnum);
    lemma_u16_field_read_back(s, header, 62, header.e_shstrndx);
}

/// What a parsed `Headers` holds, as plain values.
pub struct HeadersView {
    pub header: FileHeader,
    pub program_headers: Seq<ProgramHeader>,
    pub section_headers: Seq<SectionHeader>,
    pub sh_names: Seq<u8>,
}

/// The headers of an ELF object: the file header, the program headers, the
/// section headers, and the string table that names the sections.
pub struct Headers<'a> {
    pub header: FileHeader,
    pub program_headers: Vec<ProgramHeader>,
    pub section_headers: Vec<SectionHeader>,
    pub sh_names: StringTable<'a>,
}

impl<'a> View for Headers<'a> {
    type V = HeadersView;

    open spec fn view(&self) -> HeadersView {
        HeadersView {
            header: self.header,
            program_headers: self.program_headers@,
            section_headers: self.section_headers@,
            sh_names: self.sh_names@,
        }
    }
}

/// Whether `sh_type` is the type of the section header `hdr`.
pub open spec fn spec_has_type(sh_type: u32) -> spec_fn(SectionHeader) -> bool {
    |hdr: SectionHeader| hdr.sh_type == sh_type
}

impl<'a> Headers<'a> {
    /// What parsing a buffer with the content `buf` gives. The steps, each
    /// of which may fail with its own error: the file header; the program
    /// headers; the section headers; the section that `e_shstrndx` names,
    /// which must exist; that section as the string table of section names.
    pub open spec fn spec_parse(buf: Seq<u8>) -> Result<HeadersView, Error> {
        match FileHeader::spec_parse(buf) {
            Err(e) => Err(e),
            Ok(header) => match spec_table::<ProgramHeader>(
                buf,
                header.e_phoff,
                header.e_phentsize,
                header.e_phnum,
            ) {
                Err(e) => Err(e),
                Ok(program_headers) => match spec_table::<SectionHeader>(
                    buf,
                    header.e_shoff,
                    header.e_shentsize,
                    header.e_shnum,
                ) {
                    Err(e) => Err(e),
                    Ok(section_headers) => if header.e_shstrndx >= section_headers.len() {
                        Err(Error::UnresolvedLink)
                    } else {
                        match StringTable::spec_parse(
                            buf,
                            section_headers[header.e_shstrndx as int],
                        ) {
                            Err(e) => Err(e),
                            Ok(sh_names) => Ok(
                                HeadersView { header, program_headers, section_headers, sh_names },
                            ),
                        }
                    },
                },
            },
        }
    }

    /// Reads the headers of the ELF object in `buf`.
    pub fn parse(buf: &'a [u8]) -> (r: Result<Headers<'a>, Error>)
        ensures
            match r {
                Ok(headers) => Self::spec_parse(buf@) == Ok::<HeadersView, Error>(headers@),
                Err(e) => Self::spec_parse(buf@) == Err::<HeadersView, Error>(e),
            },
            buf@.len() < 64 ==> r is Err && r->Err_0 == Error::TooShort,
    {
        let header = match FileHeader::parse(buf) {
            Ok(header) => header,
            Err(e) => {
                return Err(e);
            },
        };
        let program_headers = match ProgramHeader::parse_headers(buf, &header) {
            Ok(table) => table,
            Err(e) => {
                return Err(e);
            },
        };
        let section_headers = match SectionHeader::parse_headers(buf, &header) {
            Ok(table) => table,
            Err(e) => {
                return Err(e);
            },
        };
        let names_index: usize = header.e_shstrndx as usize;
        if names_index >= section_headers.len() {
            return Err(Error::UnresolvedLink);
        }
        let sh_names = match StringTable::parse(buf, &section_headers[names_index]) {
            Ok(table) => table,
            Err(e) => {
                return Err(e);
            },
        };
        Ok(Headers { header, program_headers, section_headers, sh_names })
    }

    /// The section header at `index`, or `None` where `index` is not below
    /// the number of sections.
    pub fn get_section_header_by_index(&self, index: usize) -> (r: Option<&SectionHeader>)
        ensures
            index < self.section_headers@.len() ==> r == Some(&self.section_headers@[index as int]),
            index >= self.section_headers@.len() ==> r is None,
    {
        if index >= self.section_headers.len() {
            return None;
        }
        Some(&self.section_headers[index])
    }

    /// The first section header of type `sh_type`, or `None` where no
    /// section has that type.
    pub fn find_section_header(&self, sh_type: u32) -> (r: Option<&SectionHeader>)
        ensures
            match spec_first_index(self.section_headers@, spec_has_type(sh_type), 0) {
                Some(i) => r == Some(&self.section_headers@[i]),
                None => r is None,
            },
            r is Some ==> r.unwrap().sh_type == sh_type && self.section_headers@.contains(
                *r.unwrap(),
            ),
            r is None <==> forall|i: int|
                0 <= i < self.section_headers@.len() ==> self.section_headers@[i].sh_type
                    != sh_type,
    {
        proof {
            lemma_first_index(self.section_headers@, spec_has_type(sh_type), 0);
        }
        let mut i: usize = 0;
        while i < self.section_headers.len()
            invariant
                i <= self.section_headers@.len(),
                forall|j: int| 0 <= j < i ==> !spec_has_type(sh_type)(self.section_headers@[j]),
            decreases self.section_headers@.len() - i,
        {
            if self.section_headers[i].sh_type == sh_type {
                proof {
                    lemma_first_index_skip(
                        self.section_headers@,
                        spec_has_type(sh_type),
                        0,
                        i as int,
                    );
                }
                return Some(&self.section_headers[i]);
            }
            i = i + 1;
        }
        proof {
            lemma_first_index_skip(self.section_headers@, spec_has_type(sh_type), 0, i as int);
        }
        None
    }
}

/// After a parse that succeeds, the section header at index `i` is the
/// record that lies `i` records after `e_shoff` in the buffer, and the
/// program header at index `i` the one that lies `i` records after
/// `e_phoff`.
pub proof fn lemma_parsed_header_positions(buf: Seq<u8>, i: int)
    requires
        Headers::spec_parse(buf) is Ok,
        0 <= i,
    ensures
        ({
            let headers = Headers::spec_parse(buf)->Ok_0;
            let header = headers.header;
            &&& header == FileHeader::spec_decode(buf)
            &&& headers.section_headers.len() == header.e_shnum
            &&& headers.program_headers.len() == header.e_phnum
            &&& i < header.e_shnum ==> header.e_shoff + (i + 1) * 0x40 <= buf.len()
                && headers.section_headers[i] == SectionHeader::spec_decode(
                buf.subrange(header.e_shoff + i * 0x40, header.e_shoff + (i + 1) * 0x40),
            )
            &&& i < header.e_phnum ==> header.e_phoff + (i + 1) * 0x38 <= buf.len()
                && headers.program_headers[i] == ProgramHeader::spec_decode(
                buf.subrange(header.e_phoff + i * 0x38, header.e_phoff + (i + 1) * 0x38),
            )
        }),
{
    let headers = Headers::spec_parse(buf)->Ok_0;
    let header = headers.header;
    if i < header.e_shnum {
        let span = header.e_shentsize * header.e_shnum;
        let table = buf.subrange(header.e_shoff as int, header.e_shoff + span);
        assert((i + 1) * 0x40 <= header.e_shnum * 0x40);
        assert(spec_record_bytes::<SectionHeader>(table, i) =~= buf.subrange(
            header.e_shoff + i * 0x40,
            header.e_shoff + (i + 1) * 0x40,
        ));
    }
    if i < header.e_phnum {
        let span = header.e_phentsize * header.e_phnum;
        let table = buf.subrange(header.e_phoff as int, header.e_phoff + span);
        assert((i + 1) * 0x38 <= header.e_phnum * 0x38);
        assert(spec_record_bytes::<ProgramHeader>(table, i) =~= buf.subrange(
            header.e_phoff + i * 0x38,
            header.e_phoff + (i + 1) * 0x38,
        ));
    }
}

/// What a parsed `Elf64Headers` holds, as plain values.
pub struct Elf64HeadersView {
    pub headers: HeadersView,
    /// The name of each section, in section order.
    pub sh_by_name: Seq<Seq<char>>,
}

/// The headers of an ELF object with the name of every section resolved
/// when the object is parsed, for lookups of sections by name.
pub struct Elf64Headers<'a> {
    pub headers: Headers<'a>,
    /// The name of each section, in section order.
    pub sh_by_name: Vec<&'a str>,
}

impl<'a> View for Elf64Headers<'a> {
    type V = Elf64HeadersView;

    open spec fn view(&self) -> Elf64HeadersView {
        Elf64HeadersView {
            headers: self.headers@,
            sh_by_name: Seq::new(self.sh_by_name@.len(), |i: int| self.sh_by_name@[i]@),
        }
    }
}

/// Whether the name of the section `hdr` does not resolve against a table
/// of section names with the content `names`.
pub open spec fn spec_unnamed(names: Seq<u8>) -> spec_fn(SectionHeader) -> bool {
    |hdr: SectionHeader| spec_str_at(names, hdr.sh_name as int) is Err
}

/// Whether `name` is the text `text`.
pub open spec fn spec_is_text(name: Seq<char>) -> spec_fn(Seq<char>) -> bool {
    |text: Seq<char>| text == name
}

/// The names of the sections `sections`, each the text at its `sh_name` in
/// a table of section names with the content `names`; or the error of the
/// first section whose name does not resolve.
pub open spec fn spec_section_names(names: Seq<u8>, sections: Seq<SectionHeader>) -> Result<
    Seq<Seq<char>>,
    Error,
> {
    match spec_first_index(sections, spec_unnamed(names), 0) {
        Some(i) => Err(spec_str_at(names, sections[i].sh_name as int)->Err_0),
        None => Ok(
            Seq::new(
                sections.len(),
                |i: int| spec_str_at(names, sections[i].sh_name as int)->Ok_0,
            ),
        ),
    }
}

impl<'a> Elf64Headers<'a> {
    /// What parsing a buffer with the content `buf` gives: its headers, and
    /// the name of every section; or the error of the headers, or else that
    /// of the first section whose name does not resolve.
    pub open spec fn spec_parse(buf: Seq<u8>) -> Result<Elf64HeadersView, Error> {
        match Headers::spec_parse(buf) {
            Err(e) => Err(e),
            Ok(headers) => match spec_section_names(headers.sh_names, headers.section_headers) {
                Err(e) => Err(e),
                Ok(sh_by_name) => Ok(Elf64HeadersView { headers, sh_by_name }),
            },
        }
    }

    /// Reads the headers of the ELF object in `buf`, and resolves the name
    /// of every section.
    pub fn parse(buf: &'a [u8]) -> (r: Result<Elf64Headers<'a>, Error>)
        ensures
            match r {
                Ok(parsed) => Self::spec_parse(buf@) == Ok::<Elf64HeadersView, Error>(parsed@),
                Err(e) => Self::spec_parse(buf@) == Err::<Elf64HeadersView, Error>(e),
            },
            r is Ok ==> r.unwrap().sh_by_name@.len() == r.unwrap().headers.section_headers@.len(),
    {
        let headers = match Headers::parse(buf) {
            Ok(headers) => headers,
            Err(e) => {
                return Err(e);
            },
        };
        let mut sh_by_name: Vec<&'a str> = Vec::new();
        let mut i: usize = 0;
        while i < headers.section_headers.len()
            invariant
                Headers::spec_parse(buf@) == Ok::<HeadersView, Error>(headers@),
                i <= headers.section_headers@.len(),
                sh_by_name@.len() == i,
                forall|j: int|
                    0 <= j < i ==> !spec_unnamed(headers.sh_names@)(
                        #[trigger] headers.section_headers@[j],
                    ),
                forall|j: int|
                    0 <= j < i ==> spec_str_at(
                        headers.sh_names@,
                        headers.section_headers@[j].sh_name as int,
                    ) == Ok::<Seq<char>, Error>((#[trigger] sh_by_name@[j])@),
            decreases headers.section_headers@.len() - i,
        {
            proof {
                lemma_first_index_skip(
                    headers.section_headers@,
                    spec_unnamed(headers.sh_names@),
                    0,
                    i as int,
                );
            }
            match headers.sh_names.get_str(headers.section_headers[i].sh_name as usize) {
                Ok(name) => {
                    sh_by_name.push(name);
                },
                Err(e) => {
                    return Err(e);
                },
            }
            i = i + 1;
        }
        proof {
            lemma_first_index_skip(
                headers.section_headers@,
                spec_unnamed(headers.sh_names@),
                0,
                i as int,
            );
        }
        let parsed = Elf64Headers { headers, sh_by_name };
        assert(parsed@.sh_by_name =~= spec_section_names(
            parsed.headers@.sh_names,
            parsed.headers@.section_headers,
        )->Ok_0);
        Ok(parsed)
    }

    /// The header of the section named `name`: the last one, where several
    /// sections have that name. `None` where no section has it.
    pub fn get_header(&self, name: &str) -> (r: Option<&SectionHeader>)
        ensures
            match spec_last_index(
                self@.sh_by_name,
                spec_is_text(name@),
                vstd::math::min(
                    self@.sh_by_name.len() as int,
                    self@.headers.section_headers.len() as int,
                ),
            ) {
                Some(i) => r == Some(&self.headers.section_headers@[i]),
                None => r is None,
            },
            r is None <==> forall|i: int|
                0 <= i < self@.sh_by_name.len() && i < self@.headers.section_headers.len()
                    ==> self@.sh_by_name[i] != name@,
    {
        proof {
            lemma_last_index(
                self@.sh_by_name,
                spec_is_text(name@),
                vstd::math::min(
                    self@.sh_by_name.len() as int,
                    self@.headers.section_headers.len() as int,
                ),
            );
        }
        let mut below: usize = if self.sh_by_name.len() < self.headers.section_headers.len() {
            self.sh_by_name.len()
        } else {
            self.headers.section_headers.len()
        };
        let ghost top = below as int;
        while below > 0
            invariant
                below <= top,
                top == vstd::math::min(
                    self@.sh_by_name.len() as int,
                    self@.headers.section_headers.len() as int,
                ),
                self@.sh_by_name.len() == self.sh_by_name@.len(),
                spec_last_index(self@.sh_by_name, spec_is_text(name@), below as int)
                    == spec_last_index(self@.sh_by_name, spec_is_text(name@), top),
            decreases below,
        {
            assert(self@.sh_by_name[below - 1] == self.sh_by_name@[below - 1]@);
            if str_equal(self.sh_by_name[below - 1], name) {
                return Some(&self.headers.section_headers[below - 1]);
            }
            below = below - 1;
        }
        None
    }
}

} // verus!
