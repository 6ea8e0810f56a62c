//! The types of relocations.
use vstd::prelude::*;

verus! {

/// How a relocation is applied. The codes are specific to an architecture:
/// a code that is not listed here is no error, it has no name.
#[derive(Debug, Clone, Copy, PartialEq, Eq, Structural)]
pub enum RelocationType {
    AArch64Relative,
}

impl RelocationType {
    /// The numeric code of this value.
    pub open spec fn spec_to_u32(self) -> u32 {
        match self {
            RelocationType::AArch64Relative => 0x403,
        }
    }

    /// The value that the numeric code `value` stands for, if it stands for
    /// one.
    pub open spec fn spec_from_u32(value: u32) -> Option<RelocationType> {
        if value == 0x403 {
            Some(RelocationType::AArch64Relative)
        } else {
            None
        }
    }

    /// Decodes the numeric code `value`. `None` where the code stands for
    /// no value of this type. A value that is found encodes to `value`
    /// again.
    pub fn from_u32(value: u32) -> (r: Option<RelocationType>)
        ensures
            r == Self::spec_from_u32(value),
            r is Some ==> r.unwrap().spec_to_u32() == value,
    {
        match value {
            0x403 => Some(RelocationType::AArch64Relative),
            _ => None,
        }
    }

    /// The numeric code of this value, which decodes to this value again.
    pub fn to_u32(&self) -> (r: u32)
        ensures
            r == self.spec_to_u32(),
            Self::spec_from_u32(r) == Some(*self),
    {
        match self {
            RelocationType::AArch64Relative => 0x403,
        }
    }
}

/// Decoding a numeric code and encoding the result gives the code again,
/// and encoding a value and decoding the result gives the value again.
pub proof fn lemma_relocation_type_round_trip(value: u32, decoded: RelocationType)
    ensures
        RelocationType::spec_from_u32(value) == Some(decoded) ==> decoded.spec_to_u32() == value,
        RelocationType::spec_from_u32(decoded.spec_to_u32()) == Some(decoded),
{
}

} // verus!
