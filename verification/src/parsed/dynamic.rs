//! The tags of dynamic entries.
use vstd::prelude::*;

verus! {

/// What the value of a dynamic entry means. The tag space is open: a code
/// that is not listed here is no error, it has no name.
#[derive(Debug, Clone, Copy, PartialEq, Eq, Structural)]
pub enum DynamicTag {
    Null,
    Needed,
    PtrRelSz,
    PltGot,
    StrTab,
    SymTab,
    Rela,
    RelaSz,
    RelaEnt,
    StrSz,
    SymEnt,
    Init,
    Fini,
    Rel,
    RelSz,
    RelEnt,
    PltRel,
    Debug,
    JmpRel,
    InitArray,
    FiniArray,
    InitArraySz,
    FiniArraySz,
}

impl DynamicTag {
    /// The numeric code of this value.
    pub open spec fn spec_to_u64(self) -> u64 {
        match self {
            DynamicTag::Null => 0,
            DynamicTag::Needed => 1,
            DynamicTag::PtrRelSz => 2,
            DynamicTag::PltGot => 3,
            DynamicTag::StrTab => 5,
            DynamicTag::SymTab => 6,
            DynamicTag::Rela => 7,
            DynamicTag::RelaSz => 8,
            DynamicTag::RelaEnt => 9,
            DynamicTag::StrSz => 10,
            DynamicTag::SymEnt => 11,
            DynamicTag::Init => 12,
            DynamicTag::Fini => 13,
            DynamicTag::Rel => 17,
            DynamicTag::RelSz => 18,
            DynamicTag::RelEnt => 19,
            DynamicTag::PltRel => 20,
            DynamicTag::Debug => 21,
            DynamicTag::JmpRel => 23,
            DynamicTag::InitArray => 25,
            DynamicTag::FiniArray => 26,
            DynamicTag::InitArraySz => 27,
            DynamicTag::FiniArraySz => 28,
        }
    }

    /// The value that the numeric code `value` stands for, if it stands for
    /// one.
    pub open spec fn spec_from_u64(value: u64) -> Option<DynamicTag> {
        if value == 0 {
            Some(DynamicTag::Null)
        } else if value == 1 {
            Some(DynamicTag::Needed)
        } else if value == 2 {
            Some(DynamicTag::PtrRelSz)
        } else if value == 3 {
            Some(DynamicTag::PltGot)
        } else if value == 5 {
            Some(DynamicTag::StrTab)
        } else if value == 6 {
            Some(DynamicTag::SymTab)
        } else if value == 7 {
            Some(DynamicTag::Rela)
        } else if value == 8 {
            Some(DynamicTag::RelaSz)
        } else if value == 9 {
            Some(DynamicTag::RelaEnt)
        } else if value == 10 {
            Some(DynamicTag::StrSz)
        } else if value == 11 {
            Some(DynamicTag::SymEnt)
        } else if value == 12 {
            Some(DynamicTag::Init)
        } else if value == 13 {
            Some(DynamicTag::Fini)
        } else if value == 17 {
            Some(DynamicTag::Rel)
        } else if value == 18 {
            Some(DynamicTag::RelSz)
        } else if value == 19 {
            Some(DynamicTag::RelEnt)
        } else if value == 20 {
            Some(DynamicTag::PltRel)
        } else if value == 21 {
            Some(DynamicTag::Debug)
        } else if value == 23 {
            Some(DynamicTag::JmpRel)
        } else if value == 25 {
            Some(DynamicTag::InitArray)
        } else if value == 26 {
            Some(DynamicTag::FiniArray)
        } else if value == 27 {
            Some(DynamicTag::InitArraySz)
        } else if value == 28 {
            Some(DynamicTag::FiniArraySz)
        } else {
            None
        }
    }

    /// Decodes the numeric code `value`. `None` where the code stands for
    /// no value of this type. A value that is found encodes to `value`
    /// again.
    pub fn from_u64(value: u64) -> (r: Option<DynamicTag>)
        ensures
            r == Self::spec_from_u64(value),
            r is Some ==> r.unwrap().spec_to_u64() == value,
    {
        match value {
            0 => Some(DynamicTag::Null),
            1 => Some(DynamicTag::Needed),
            2 => Some(DynamicTag::PtrRelSz),
            3 => Some(DynamicTag::PltGot),
            5 => Some(DynamicTag::StrTab),
            6 => Some(DynamicTag::SymTab),
            7 => Some(DynamicTag::Rela),
            8 => Some(DynamicTag::RelaSz),
            9 => Some(DynamicTag::RelaEnt),
            10 => Some(DynamicTag::StrSz),
            11 => Some(DynamicTag::SymEnt),
            12 => Some(DynamicTag::Init),
            13 => Some(DynamicTag::Fini),
            17 => Some(DynamicTag::Rel),
            18 => Some(DynamicTag::RelSz),
            19 => Some(DynamicTag::RelEnt),
            20 => Some(DynamicTag::PltRel),
            21 => Some(DynamicTag::Debug),
            23 => Some(DynamicTag::JmpRel),
            25 => Some(DynamicTag::InitArray),
            26 => Some(DynamicTag::FiniArray),
            27 => Some(DynamicTag::InitArraySz),
            28 => Some(DynamicTag::FiniArraySz),
            _ => None,
        }
    }

    /// The numeric code of this value, which decodes to this value again.
    pub fn to_u64(&self) -> (r: u64)
        ensures
            r == self.spec_to_u64(),
            Self::spec_from_u64(r) == Some(*self),
    {
        match self {
            DynamicTag::Null => 0,
            DynamicTag::Needed => 1,
            DynamicTag::PtrRelSz => 2,
            DynamicTag::PltGot => 3,
            DynamicTag::StrTab => 5,
            DynamicTag::SymTab => 6,
            DynamicTag::Rela => 7,
            DynamicTag::RelaSz => 8,
            DynamicTag::RelaEnt => 9,
            DynamicTag::StrSz => 10,
            DynamicTag::SymEnt => 11,
            DynamicTag::Init => 12,
            DynamicTag::Fini => 13,
            DynamicTag::Rel => 17,
            DynamicTag::RelSz => 18,
            DynamicTag::RelEnt => 19,
            DynamicTag::PltRel => 20,
            DynamicTag::Debug => 21,
            DynamicTag::JmpRel => 23,
            DynamicTag::InitArray => 25,
            DynamicTag::FiniArray => 26,
            DynamicTag::InitArraySz => 27,
            DynamicTag::FiniArraySz => 28,
        }
    }
}

/// Decoding a numeric code and encoding the result gives the code again,
/// and encoding a value and decoding the result gives the value again.
pub proof fn lemma_dynamic_tag_round_trip(value: u64, decoded: DynamicTag)
    ensures
        DynamicTag::spec_from_u64(value) == Some(decoded) ==> decoded.spec_to_u64() == value,
        DynamicTag::spec_from_u64(decoded.spec_to_u64()) == Some(decoded),
{
}

} // verus!
