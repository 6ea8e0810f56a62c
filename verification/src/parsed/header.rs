//! The file header with its codes decoded.
use vstd::prelude::*;
use vstd::std_specs::convert::TryFromSpecImpl;

use super::{Address, Error};
use crate::raw::header::FileHeader;

verus! {

/// The class of an object: the width of its addresses.
#[derive(Debug, Clone, Copy, PartialEq, Eq, Structural)]
pub enum ObjectClass {
    Elf32,
    Elf64,
}

impl ObjectClass {
    /// The numeric code of this value.
    pub open spec fn spec_to_u8(self) -> u8 {
        match self {
            ObjectClass::Elf32 => 0x01,
            ObjectClass::Elf64 => 0x02,
        }
    }

    /// The value that the numeric code `value` stands for, if it stands for
    /// one.
    pub open spec fn spec_from_u8(value: u8) -> Option<ObjectClass> {
        if value == 0x01 {
            Some(ObjectClass::Elf32)
        } else if value == 0x02 {
            Some(ObjectClass::Elf64)
        } else {
            None
        }
    }

    /// Decodes the numeric code `value`. `None` where the code stands for
    /// no value of this type. A value that is found encodes to `value`
    /// again.
    pub fn from_u8(value: u8) -> (r: Option<ObjectClass>)
        ensures
            r == Self::spec_from_u8(value),
            r is Some ==> r.unwrap().spec_to_u8() == value,
    {
        match value {
            0x01 => Some(ObjectClass::Elf32),
            0x02 => Some(ObjectClass::Elf64),
            _ => None,
        }
    }

    /// The numeric code of this value, which decodes to this value again.
    pub fn to_u8(&self) -> (r: u8)
        ensures
            r == self.spec_to_u8(),
            Self::spec_from_u8(r) == Some(*self),
    {
        match self {
            ObjectClass::Elf32 => 0x01,
            ObjectClass::Elf64 => 0x02,
        }
    }
}

/// Decoding a numeric code and encoding the result gives the code again,
/// and encoding a value and decoding the result gives the value again.
pub proof fn lemma_object_class_round_trip(value: u8, decoded: ObjectClass)
    ensures
        ObjectClass::spec_from_u8(value) == Some(decoded) ==> decoded.spec_to_u8() == value,
        ObjectClass::spec_from_u8(decoded.spec_to_u8()) == Some(decoded),
{
}

/// The data encoding of an object: its byte order.
#[derive(Debug, Clone, Copy, PartialEq, Eq, Structural)]
pub enum ObjectData {
    Little,
    Big,
}

impl ObjectData {
    /// The numeric code of this value.
    pub open spec fn spec_to_u8(self) -> u8 {
        match self {
            ObjectData::Little => 0x01,
            ObjectData::Big => 0x02,
        }
    }

    /// The value that the numeric code `value` stands for, if it stands for
    /// one.
    pub open spec fn spec_from_u8(value: u8) -> Option<ObjectData> {
        if value == 0x01 {
            Some(ObjectData::Little)
        } else if value == 0x02 {
            Some(ObjectData::Big)
        } else {
            None
        }
    }

    /// Decodes the numeric code `value`. `None` where the code stands for
    /// no value of this type. A value that is found encodes to `value`
    /// again.
    pub fn from_u8(value: u8) -> (r: Option<ObjectData>)
        ensures
            r == Self::spec_from_u8(value),
            r is Some ==> r.unwrap().spec_to_u8() == value,
    {
        match value {
            0x01 => Some(ObjectData::Little),
            0x02 => Some(ObjectData::Big),
            _ => None,
        }
    }

    /// The numeric code of this value, which decodes to this value again.
    pub fn to_u8(&self) -> (r: u8)
        ensures
            r == self.spec_to_u8(),
            Self::spec_from_u8(r) == Some(*self),
    {
        match self {
            ObjectData::Little => 0x01,
            ObjectData::Big => 0x02,
        }
    }
}

/// Decoding a numeric code and encoding the result gives the code again,
/// and encoding a value and decoding the result gives the value again.
pub proof fn lemma_object_data_round_trip(value: u8, decoded: ObjectData)
    ensures
        ObjectData::spec_from_u8(value) == Some(decoded) ==> decoded.spec_to_u8() == value,
        ObjectData::spec_from_u8(decoded.spec_to_u8()) == Some(decoded),
{
}

/// The type of an object. The two reserved ranges keep the code that was
/// found.
#[derive(Debug, Clone, Copy, PartialEq, Eq, Structural)]
pub enum ObjectType {
    /// No object type.
    NoType,
    Rel,
    Exec,
    Dyn,
    Core,
    /// A code that is reserved for the operating system: `0xFE00` to
    /// `0xFEFF`.
    Os(u16),
    /// A code that is reserved for the processor: `0xFF00` to `0xFFFF`.
    Proc(u16),
}

impl ObjectType {
    /// Whether a reserved code lies in the range of its variant.
    pub open spec fn spec_wf(self) -> bool {
        match self {
            ObjectType::Os(code) => 0xFE00 <= code <= 0xFEFF,
            ObjectType::Proc(code) => 0xFF00 <= code,
            _ => true,
        }
    }

    /// The numeric code of this type.
    pub open spec fn spec_to_u16(self) -> u16 {
        match self {
            ObjectType::NoType => 0x00,
            ObjectType::Rel => 0x01,
            ObjectType::Exec => 0x02,
            ObjectType::Dyn => 0x03,
            ObjectType::Core => 0x04,
            ObjectType::Os(code) => code,
            ObjectType::Proc(code) => code,
        }
    }

    /// The type that the numeric code `value` stands for, if it stands for
    /// one.
    pub open spec fn spec_from_u16(value: u16) -> Option<ObjectType> {
        if value == 0x00 {
            Some(ObjectType::NoType)
        } else if value == 0x01 {
            Some(ObjectType::Rel)
        } else if value == 0x02 {
            Some(ObjectType::Exec)
        } else if value == 0x03 {
            Some(ObjectType::Dyn)
        } else if value == 0x04 {
            Some(ObjectType::Core)
        } else if 0xFE00 <= value <= 0xFEFF {
            Some(ObjectType::Os(value))
        } else if 0xFF00 <= value {
            Some(ObjectType::Proc(value))
        } else {
            None
        }
    }

    /// Decodes the numeric code `value`. `None` where the code is neither
    /// one of the five base types nor in a reserved range. A type that is
    /// found encodes to `value` again.
    pub fn from_u16(value: u16) -> (r: Option<ObjectType>)
        ensures
            r == Self::spec_from_u16(value),
            r is Some ==> r.unwrap().spec_wf() && r.unwrap().spec_to_u16() == value,
    {
        match value {
            0x00 => Some(ObjectType::NoType),
            0x01 => Some(ObjectType::Rel),
            0x02 => Some(ObjectType::Exec),
            0x03 => Some(ObjectType::Dyn),
            0x04 => Some(ObjectType::Core),
            0xFE00..=0xFEFF => Some(ObjectType::Os(value)),
            0xFF00..=0xFFFF => Some(ObjectType::Proc(value)),
            _ => None,
        }
    }

    /// The numeric code of this type, which decodes to this type again
    /// where a reserved code lies in its range.
    pub fn to_u16(&self) -> (r: u16)
        ensures
            r == self.spec_to_u16(),
            self.spec_wf() ==> Self::spec_from_u16(r) == Some(*self),
    {
        match self {
            ObjectType::NoType => 0x00,
            ObjectType::Rel => 0x01,
            ObjectType::Exec => 0x02,
            ObjectType::Dyn => 0x03,
            ObjectType::Core => 0x04,
            ObjectType::Os(code) => *code,
            ObjectType::Proc(code) => *code,
        }
    }
}

/// Decoding a numeric code and encoding the result gives the code again,
/// and encoding a type and decoding the result gives the type again,
/// where a reserved code lies in its range.
pub proof fn lemma_object_type_round_trip(value: u16, decoded: ObjectType)
    ensures
        ObjectType::spec_from_u16(value) == Some(decoded) ==> decoded.spec_to_u16() == value,
        decoded.spec_wf() ==> ObjectType::spec_from_u16(decoded.spec_to_u16()) == Some(decoded),
{
}

/// A file header with its codes decoded.
#[derive(Debug, Clone, Copy, PartialEq, Eq, Structural)]
pub struct Header {
    pub class: ObjectClass,
    pub data: ObjectData,
    pub object_type: ObjectType,
    pub machine: u16,
    pub entrypoint: Address,
}

impl Header {
    /// The typed form of the raw header `hdr`: its class, data encoding and
    /// object type decoded, its machine code and entry point as they are.
    /// There is none where one of the three codes stands for nothing.
    pub open spec fn spec_from_raw(hdr: FileHeader) -> Result<Header, Error> {
        match (
            ObjectClass::spec_from_u8(hdr.e_ident.class),
            ObjectData::spec_from_u8(hdr.e_ident.data),
            ObjectType::spec_from_u16(hdr.e_type),
        ) {
            (Some(class), Some(data), Some(object_type)) => Ok(
                Header { class, data, object_type, machine: hdr.e_machine, entrypoint: hdr.e_entry },
            ),
            _ => Err(Error::InvalidElf),
        }
    }

    /// Decodes the codes of the raw header `hdr`.
    pub fn from_raw(hdr: &FileHeader) -> (r: Result<Header, Error>)
        ensures
            r == Self::spec_from_raw(*hdr),
    {
        let class = match ObjectClass::from_u8(hdr.e_ident.class) {
            Some(class) => class,
            None => {
                return Err(Error::InvalidElf);
            },
        };
        let data = match ObjectData::from_u8(hdr.e_ident.data) {
            Some(data) => data,
            None => {
                return Err(Error::InvalidElf);
            },
        };
        let object_type = match ObjectType::from_u16(hdr.e_type) {
            Some(object_type) => object_type,
            None => {
                return Err(Error::InvalidElf);
            },
        };
        Ok(Header { class, data, object_type, machine: hdr.e_machine, entrypoint: hdr.e_entry })
    }
}

impl<'a> TryFrom<&'a FileHeader> for Header {
    type Error = Error;

    /// Decodes the codes of the raw header `hdr`, as `from_raw` does.
    fn try_from(hdr: &'a FileHeader) -> (r: Result<Header, Error>) {
        Header::from_raw(hdr)
    }
}

impl<'a> TryFromSpecImpl<&'a FileHeader> for Header {
    open spec fn obeys_try_from_spec() -> bool {
        true
    }

    open spec fn try_from_spec(hdr: &'a FileHeader) -> Result<Header, Error> {
        Header::spec_from_raw(*hdr)
    }
}

} // verus!
