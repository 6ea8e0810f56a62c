//! The records of an ELF object as they lie in the file.
use vstd::prelude::*;

pub mod bytes;
pub mod dynamic;
pub mod header;
pub mod record;
pub mod relocation;
pub mod string;
pub mod symbol;

verus! {

/// The four bytes every ELF object starts with.
pub const ELF_MAGIC: [u8; 4] = [0x7f, 0x45, 0x4c, 0x46];

pub const ELF_CLASS_32: u8 = 0x01;
pub const ELF_CLASS_64: u8 = 0x02;

pub const ELF_DATA_LITTLE: u8 = 0x01;
pub const ELF_DATA_BIG: u8 = 0x02;

pub const SHT_NULL: u32 = 0x00;
pub const SHT_PROGBITS: u32 = 0x01;
pub const SHT_SYMTAB: u32 = 0x02;
pub const SHT_STRTAB: u32 = 0x03;
pub const SHT_RELA: u32 = 0x04;
pub const SHT_DYNAMIC: u32 = 0x06;
pub const SHT_DYNSYM: u32 = 0x0B;

pub const PT_DYNAMIC: u32 = 0x02;

pub const DT_NULL: u64 = 0;
pub const DT_NEEDED: u64 = 1;
pub const DT_PTRRELSZ: u64 = 2;
pub const DT_PLTGOT: u64 = 3;
pub const DT_STRTAB: u64 = 5;
pub const DT_SYMTAB: u64 = 6;
pub const DT_RELA: u64 = 7;
pub const DT_RELASZ: u64 = 8;
pub const DT_RELAENT: u64 = 9;
pub const DT_INIT: u64 = 12;
pub const DT_REL: u64 = 17;
pub const DT_RELSZ: u64 = 18;
pub const DT_RELENT: u64 = 19;

pub const R_AARCH64_RELATIV: u32 = 0x403;

/// An index into a symbol table.
pub type SymbolTableIndex = u32;

/// Why a buffer could not be read as the ELF structure that was asked for.
#[derive(Debug, Clone, Copy, PartialEq, Eq, Structural)]
pub enum Error {
    /// The buffer is shorter than a file header.
    TooShort,
    /// The buffer does not start with the ELF magic number.
    InvalidMagicNumber,
    /// The object is not a 64-bit object.
    InvalidClass,
    /// The object is not little-endian.
    InvalidEndianness,
    /// A span of bytes reaches past the end of the buffer.
    OutOfBounds,
    /// A table's declared geometry does not fit the bytes it lies in.
    MalformedTable,
    /// A section or segment is of another kind than the one asked for.
    WrongKind,
    /// A string table does not start with the empty string, or a string in
    /// it has no terminator.
    MalformedStringTable,
    /// A string is not valid UTF-8.
    InvalidString,
    /// A section index in a header names no section.
    UnresolvedLink,
    /// The dynamic table lacks an entry that is needed to find another table.
    MissingDynamicEntry,
    /// An index lies past the last entry of a table.
    IndexOutOfRange,
}

impl Error {
    /// A short description of the error.
    pub open spec fn spec_message(self) -> Seq<char> {
        match self {
            Error::TooShort => "invalid header length"@,
            Error::InvalidMagicNumber => "invalid magic number"@,
            Error::InvalidClass => "invalid class"@,
            Error::InvalidEndianness => "invalid endianness"@,
            Error::OutOfBounds => "invalid offset and size"@,
            Error::MalformedTable => "invalid table"@,
            Error::WrongKind => "section or segment not of the expected kind"@,
            Error::MalformedStringTable => "invalid string table"@,
            Error::InvalidString => "invalid string"@,
            Error::UnresolvedLink => "invalid section link"@,
            Error::MissingDynamicEntry => "missing dynamic entry"@,
            Error::IndexOutOfRange => "invalid index"@,
        }
    }

    /// A short description of the error.
    pub fn message(&self) -> (r: &'static str)
        ensures
            r@ == self.spec_message(),
    {
        match self {
            Error::TooShort => "invalid header length",
            Error::InvalidMagicNumber => "invalid magic number",
            Error::InvalidClass => "invalid class",
            Error::InvalidEndianness => "invalid endianness",
            Error::OutOfBounds => "invalid offset and size",
            Error::MalformedTable => "invalid table",
            Error::WrongKind => "section or segment not of the expected kind",
            Error::MalformedStringTable => "invalid string table",
            Error::InvalidString => "invalid string",
            Error::UnresolvedLink => "invalid section link",
            Error::MissingDynamicEntry => "missing dynamic entry",
            Error::IndexOutOfRange => "invalid index",
        }
    }
}

/// The sizes of the records, which the format fixes: a file header of 64
/// bytes that starts with an identification block of 16, program headers
/// of 0x38 bytes, section headers of 0x40, symbols of 24, relocations of 16
/// without an addend and of 24 with one, dynamic entries of 16.
pub proof fn lemma_record_sizes(header: header::FileHeader)
    ensures
        header::FileHeader::spec_size() == 64,
        header::Ident::spec_size() == 16,
        header.spec_encode().len() == header::FileHeader::spec_size(),
        <header::ProgramHeader as record::Record>::spec_size() == 0x38,
        <header::SectionHeader as record::Record>::spec_size() == 0x40,
        <symbol::Symbol as record::Record>::spec_size() == 24,
        <relocation::Rel as record::Record>::spec_size() == 16,
        <relocation::Rela as record::Record>::spec_size() == 24,
        <dynamic::Dynamic as record::Record>::spec_size() == 16,
{
}

} // verus!
