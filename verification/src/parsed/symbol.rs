//! The types of symbols.
use vstd::prelude::*;

verus! {

/// What a symbol names.
#[derive(Debug, Clone, Copy, PartialEq, Eq, Structural)]
pub enum SymbolType {
    NoType,
    Object,
    Func,
    Section,
    File,
    Common,
    Loos,
    Hios,
    Loproc,
    Hiproc,
}

impl SymbolType {
    /// The numeric code of this value.
    pub open spec fn spec_to_u8(self) -> u8 {
        match self {
            SymbolType::NoType => 0,
            SymbolType::Object => 1,
            SymbolType::Func => 2,
            SymbolType::Section => 3,
            SymbolType::File => 4,
            SymbolType::Common => 5,
            SymbolType::Loos => 10,
            SymbolType::Hios => 12,
            SymbolType::Loproc => 13,
            SymbolType::Hiproc => 15,
        }
    }

    /// The value that the numeric code `value` stands for, if it stands for
    /// one.
    pub open spec fn spec_from_u8(value: u8) -> Option<SymbolType> {
        if value == 0 {
            Some(SymbolType::NoType)
        } else if value == 1 {
            Some(SymbolType::Object)
        } else if value == 2 {
            Some(SymbolType::Func)
        } else if value == 3 {
            Some(SymbolType::Section)
        } else if value == 4 {
            Some(SymbolType::File)
        } else if value == 5 {
            Some(SymbolType::Common)
        } else if value == 10 {
            Some(SymbolType::Loos)
        } else if value == 12 {
            Some(SymbolType::Hios)
        } else if value == 13 {
            Some(SymbolType::Loproc)
        } else if value == 15 {
            Some(SymbolType::Hiproc)
        } else {
            None
        }
    }

    /// Decodes the numeric code `value`. `None` where the code stands for
    /// no value of this type. A value that is found encodes to `value`
    /// again.
    pub fn from_u8(value: u8) -> (r: Option<SymbolType>)
        ensures
            r == Self::spec_from_u8(value),
            r is Some ==> r.unwrap().spec_to_u8() == value,
    {
        match value {
            0 => Some(SymbolType::NoType),
            1 => Some(SymbolType::Object),
            2 => Some(SymbolType::Func),
            3 => Some(SymbolType::Section),
            4 => Some(SymbolType::File),
            5 => Some(SymbolType::Common),
            10 => Some(SymbolType::Loos),
            12 => Some(SymbolType::Hios),
            13 => Some(SymbolType::Loproc),
            15 => Some(SymbolType::Hiproc),
            _ => None,
        }
    }

    /// The numeric code of this value, which decodes to this value again.
    pub fn to_u8(&self) -> (r: u8)
        ensures
            r == self.spec_to_u8(),
            Self::spec_from_u8(r) == Some(*self),
    {
        match self {
            SymbolType::NoType => 0,
            SymbolType::Object => 1,
            SymbolType::Func => 2,
            SymbolType::Section => 3,
            SymbolType::File => 4,
            SymbolType::Common => 5,
            SymbolType::Loos => 10,
            SymbolType::Hios => 12,
            SymbolType::Loproc => 13,
            SymbolType::Hiproc => 15,
        }
    }
}

/// Decoding a numeric code and encoding the result gives the code again,
/// and encoding a value and decoding the result gives the value again.
pub proof fn lemma_symbol_type_round_trip(value: u8, decoded: SymbolType)
    ensures
        SymbolType::spec_from_u8(value) == Some(decoded) ==> decoded.spec_to_u8() == value,
        SymbolType::spec_from_u8(decoded.spec_to_u8()) == Some(decoded),
{
}

} // verus!
