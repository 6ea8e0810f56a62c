//! Typed values for the numeric codes that the raw records carry.
use vstd::prelude::*;

pub mod dynamic;
pub mod header;
pub mod relocation;
pub mod section;
pub mod segment;
pub mod symbol;

verus! {

/// A virtual address of the object.
pub type Address = u64;

/// Why a raw header has no typed form.
#[derive(Debug, Clone, Copy, PartialEq, Eq, Structural)]
pub enum Error {
    /// The class, the data encoding or the object type has no defined meaning.
    InvalidElf,
}

impl Error {
    /// A short description of the error.
    pub open spec fn spec_message(self) -> Seq<char> {
        match self {
            Error::InvalidElf => "invalid elf"@,
        }
    }

    /// A short description of the error.
    pub fn message(&self) -> (r: &'static str)
        ensures
            r@ == self.spec_message(),
    {
        match self {
            Error::InvalidElf => "invalid elf",
        }
    }
}

} // verus!
