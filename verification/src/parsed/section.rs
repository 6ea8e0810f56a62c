//! The types of sections.
use vstd::prelude::*;

verus! {

/// What a section holds.
#[derive(Debug, Clone, Copy, PartialEq, Eq, Structural)]
pub enum SectionType {
    Null,
    Progbits,
    Symtab,
    Strtab,
    Rela,
    Hash,
    Dynamic,
    Note,
    Nobits,
    Rel,
    Shlib,
    Dynsym,
    InitArray,
    FiniArray,
    PreinitArray,
    Group,
    SymtabShndx,
    ShtNum,
}

impl SectionType {
    /// The numeric code of this value.
    pub open spec fn spec_to_u32(self) -> u32 {
        match self {
            SectionType::Null => 0x0,
            SectionType::Progbits => 0x1,
            SectionType::Symtab => 0x2,
            SectionType::Strtab => 0x3,
            SectionType::Rela => 0x4,
            SectionType::Hash => 0x5,
            SectionType::Dynamic => 0x6,
            SectionType::Note => 0x7,
            SectionType::Nobits => 0x8,
            SectionType::Rel => 0x9,
            SectionType::Shlib => 0xa,
            SectionType::Dynsym => 0xb,
            SectionType::InitArray => 0xe,
            SectionType::FiniArray => 0xf,
            SectionType::PreinitArray => 0x10,
            SectionType::Group => 0x11,
            SectionType::SymtabShndx => 0x12,
            SectionType::ShtNum => 0x13,
        }
    }

    /// The value that the numeric code `value` stands for, if it stands for
    /// one.
    pub open spec fn spec_from_u32(value: u32) -> Option<SectionType> {
        if value == 0x0 {
            Some(SectionType::Null)
        } else if value == 0x1 {
            Some(SectionType::Progbits)
        } else if value == 0x2 {
            Some(SectionType::Symtab)
        } else if value == 0x3 {
            Some(SectionType::Strtab)
        } else if value == 0x4 {
            Some(SectionType::Rela)
        } else if value == 0x5 {
            Some(SectionType::Hash)
        } else if value == 0x6 {
            Some(SectionType::Dynamic)
        } else if value == 0x7 {
            Some(SectionType::Note)
        } else if value == 0x8 {
            Some(SectionType::Nobits)
        } else if value == 0x9 {
            Some(SectionType::Rel)
        } else if value == 0xa {
            Some(SectionType::Shlib)
        } else if value == 0xb {
            Some(SectionType::Dynsym)
        } else if value == 0xe {
            Some(SectionType::InitArray)
        } else if value == 0xf {
            Some(SectionType::FiniArray)
        } else if value == 0x10 {
            Some(SectionType::PreinitArray)
        } else if value == 0x11 {
            Some(SectionType::Group)
        } else if value == 0x12 {
            Some(SectionType::SymtabShndx)
        } else if value == 0x13 {
            Some(SectionType::ShtNum)
        } else {
            None
        }
    }

    /// Decodes the numeric code `value`. `None` where the code stands for
    /// no value of this type. A value that is found encodes to `value`
    /// again.
    pub fn from_u32(value: u32) -> (r: Option<SectionType>)
        ensures
            r == Self::spec_from_u32(value),
            r is Some ==> r.unwrap().spec_to_u32() == value,
    {
        match value {
            0x0 => Some(SectionType::Null),
            0x1 => Some(SectionType::Progbits),
            0x2 => Some(SectionType::Symtab),
            0x3 => Some(SectionType::Strtab),
            0x4 => Some(SectionType::Rela),
            0x5 => Some(SectionType::Hash),
            0x6 => Some(SectionType::Dynamic),
            0x7 => Some(SectionType::Note),
            0x8 => Some(SectionType::Nobits),
            0x9 => Some(SectionType::Rel),
            0xa => Some(SectionType::Shlib),
            0xb => Some(SectionType::Dynsym),
            0xe => Some(SectionType::InitArray),
            0xf => Some(SectionType::FiniArray),
            0x10 => Some(SectionType::PreinitArray),
            0x11 => Some(SectionType::Group),
            0x12 => Some(SectionType::SymtabShndx),
            0x13 => Some(SectionType::ShtNum),
            _ => None,
        }
    }

    /// The numeric code of this value, which decodes to this value again.
    pub fn to_u32(&self) -> (r: u32)
        ensures
            r == self.spec_to_u32(),
            Self::spec_from_u32(r) == Some(*self),
    {
        match self {
            SectionType::Null => 0x0,
            SectionType::Progbits => 0x1,
            SectionType::Symtab => 0x2,
            SectionType::Strtab => 0x3,
            SectionType::Rela => 0x4,
            SectionType::Hash => 0x5,
            SectionType::Dynamic => 0x6,
            SectionType::Note => 0x7,
            SectionType::Nobits => 0x8,
            SectionType::Rel => 0x9,
            SectionType::Shlib => 0xa,
            SectionType::Dynsym => 0xb,
            SectionType::InitArray => 0xe,
            SectionType::FiniArray => 0xf,
            SectionType::PreinitArray => 0x10,
            SectionType::Group => 0x11,
            SectionType::SymtabShndx => 0x12,
            SectionType::ShtNum => 0x13,
        }
    }
}

/// Decoding a numeric code and encoding the result gives the code again,
/// and encoding a value and decoding the result gives the value again.
pub proof fn lemma_section_type_round_trip(value: u32, decoded: SectionType)
    ensures
        SectionType::spec_from_u32(value) == Some(decoded) ==> decoded.spec_to_u32() == value,
        SectionType::spec_from_u32(decoded.spec_to_u32()) == Some(decoded),
{
}

} // verus!
