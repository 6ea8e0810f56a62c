//! The types and the permission flags of segments.
use vstd::prelude::*;

verus! {

/// What a segment is for. Objects use codes beyond these: a code that is
/// not listed here is no error, it has no name.
#[derive(Debug, Clone, Copy, PartialEq, Eq, Structural)]
pub enum SegmentType {
    Null,
    Load,
    Dynamic,
    Interp,
    Note,
    Shlib,
    Phdr,
    Tls,
}

impl SegmentType {
    /// The numeric code of this value.
    pub open spec fn spec_to_u32(self) -> u32 {
        match self {
            SegmentType::Null => 0x0,
            SegmentType::Load => 0x1,
            SegmentType::Dynamic => 0x2,
            SegmentType::Interp => 0x3,
            SegmentType::Note => 0x4,
            SegmentType::Shlib => 0x5,
            SegmentType::Phdr => 0x6,
            SegmentType::Tls => 0x7,
        }
    }

    /// The value that the numeric code `value` stands for, if it stands for
    /// one.
    pub open spec fn spec_from_u32(value: u32) -> Option<SegmentType> {
        if value == 0x0 {
            Some(SegmentType::Null)
        } else if value == 0x1 {
            Some(SegmentType::Load)
        } else if value == 0x2 {
            Some(SegmentType::Dynamic)
        } else if value == 0x3 {
            Some(SegmentType::Interp)
        } else if value == 0x4 {
            Some(SegmentType::Note)
        } else if value == 0x5 {
            Some(SegmentType::Shlib)
        } else if value == 0x6 {
            Some(SegmentType::Phdr)
        } else if value == 0x7 {
            Some(SegmentType::Tls)
        } else {
            None
        }
    }

    /// Decodes the numeric code `value`. `None` where the code stands for
    /// no value of this type. A value that is found encodes to `value`
    /// again.
    pub fn from_u32(value: u32) -> (r: Option<SegmentType>)
        ensures
            r == Self::spec_from_u32(value),
            r is Some ==> r.unwrap().spec_to_u32() == value,
    {
        match value {
            0x0 => Some(SegmentType::Null),
            0x1 => Some(SegmentType::Load),
            0x2 => Some(SegmentType::Dynamic),
            0x3 => Some(SegmentType::Interp),
            0x4 => Some(SegmentType::Note),
            0x5 => Some(SegmentType::Shlib),
            0x6 => Some(SegmentType::Phdr),
            0x7 => Some(SegmentType::Tls),
            _ => None,
        }
    }

    /// The numeric code of this value, which decodes to this value again.
    pub fn to_u32(&self) -> (r: u32)
        ensures
            r == self.spec_to_u32(),
            Self::spec_from_u32(r) == Some(*self),
    {
        match self {
            SegmentType::Null => 0x0,
            SegmentType::Load => 0x1,
            SegmentType::Dynamic => 0x2,
            SegmentType::Interp => 0x3,
            SegmentType::Note => 0x4,
            SegmentType::Shlib => 0x5,
            SegmentType::Phdr => 0x6,
            SegmentType::Tls => 0x7,
        }
    }
}

/// Decoding a numeric code and encoding the result gives the code again,
/// and encoding a value and decoding the result gives the value again.
pub proof fn lemma_segment_type_round_trip(value: u32, decoded: SegmentType)
    ensures
        SegmentType::spec_from_u32(value) == Some(decoded) ==> decoded.spec_to_u32() == value,
        SegmentType::spec_from_u32(decoded.spec_to_u32()) == Some(decoded),
{
}

/// One permission of a segment.
#[derive(Debug, Clone, Copy, PartialEq, Eq, Structural)]
pub enum SegmentFlag {
    Execute,
    Write,
    Read,
}

impl SegmentFlag {
    /// The bit that stands for this permission in a flag word.
    pub open spec fn spec_bit(self) -> u8 {
        match self {
            SegmentFlag::Execute => 0b001,
            SegmentFlag::Write => 0b010,
            SegmentFlag::Read => 0b100,
        }
    }

    /// The bit that stands for this permission in a flag word.
    pub fn bit(&self) -> (r: u8)
        ensures
            r == self.spec_bit(),
    {
        match self {
            SegmentFlag::Execute => 0b001,
            SegmentFlag::Write => 0b010,
            SegmentFlag::Read => 0b100,
        }
    }

    /// The letter that stands for this permission in a listing.
    pub open spec fn spec_name(self) -> Seq<char> {
        match self {
            SegmentFlag::Execute => seq!['E'],
            SegmentFlag::Write => seq!['W'],
            SegmentFlag::Read => seq!['R'],
        }
    }

    /// The letter that stands for this permission in a listing.
    pub fn name(&self) -> (r: &'static str)
        ensures
            r@ == self.spec_name(),
    {
        proof {
            reveal_strlit("E");
            reveal_strlit("W");
            reveal_strlit("R");
        }
        match self {
            SegmentFlag::Execute => {
                assert("E"@ =~= seq!['E']);
                "E"
            },
            SegmentFlag::Write => {
                assert("W"@ =~= seq!['W']);
                "W"
            },
            SegmentFlag::Read => {
                assert("R"@ =~= seq!['R']);
                "R"
            },
        }
    }
}

/// Whether the flag word `bits` has the bit of the permission `flag`: the
/// binary digit of the weight `flag.spec_bit()` is 1.
pub open spec fn spec_has_flag(bits: u8, flag: SegmentFlag) -> bool {
    (bits / flag.spec_bit()) % 2 == 1
}

/// A flag word has the bit of a permission if and only if the bitwise
/// `and` of the word and the bit is not zero.
pub proof fn lemma_has_flag(bits: u8, flag: SegmentFlag)
    ensures
        spec_has_flag(bits, flag) <==> bits & flag.spec_bit() != 0,
{
    assert((bits / 1) % 2 == 1 <==> bits & 0b001 != 0) by (bit_vector);
    assert((bits / 2) % 2 == 1 <==> bits & 0b010 != 0) by (bit_vector);
    assert((bits / 4) % 2 == 1 <==> bits & 0b100 != 0) by (bit_vector);
}

/// The permissions whose bits the flag word `bits` has.
pub open spec fn spec_flag_set(bits: u8) -> Set<SegmentFlag> {
    Set::new(|flag: SegmentFlag| spec_has_flag(bits, flag))
}

/// The permissions whose bits the flag word `bits` has, the one with the
/// lowest bit first.
pub open spec fn spec_flag_list(bits: u8) -> Seq<SegmentFlag> {
    let execute = if spec_has_flag(bits, SegmentFlag::Execute) {
        seq![SegmentFlag::Execute]
    } else {
        Seq::empty()
    };
    let write = if spec_has_flag(bits, SegmentFlag::Write) {
        seq![SegmentFlag::Write]
    } else {
        Seq::empty()
    };
    let read = if spec_has_flag(bits, SegmentFlag::Read) {
        seq![SegmentFlag::Read]
    } else {
        Seq::empty()
    };
    execute + write + read
}

/// Whether the flag word `bits` has no bit but those of the three
/// permissions.
pub open spec fn spec_valid_flag_bits(bits: u8) -> bool {
    bits < 8
}

/// The permissions of a segment: any of read, write and execute.
#[derive(Debug, Clone, Copy, PartialEq, Eq, Structural)]
pub struct SegmentFlags {
    bits: u8,
}

impl View for SegmentFlags {
    type V = Set<SegmentFlag>;

    /// The permissions that are granted: those of the flag word.
    open spec fn view(&self) -> Set<SegmentFlag> {
        spec_flag_set(self.spec_bits())
    }
}

impl SegmentFlags {
    /// The flag word: the bits of the permissions that are granted.
    pub closed spec fn spec_bits(self) -> u8 {
        self.bits
    }

    /// The flag word has no bit but those of the three permissions.
    #[verifier::type_invariant]
    pub closed spec fn spec_wf(self) -> bool {
        spec_valid_flag_bits(self.bits)
    }

    /// The permissions of the flag word `bits`. `None` where `bits` has a
    /// bit that stands for no permission.
    pub fn from_bits(bits: u8) -> (r: Option<SegmentFlags>)
        ensures
            spec_valid_flag_bits(bits) ==> r is Some && r.unwrap().spec_bits() == bits
                && r.unwrap()@ == spec_flag_set(bits),
            !spec_valid_flag_bits(bits) ==> r is None,
    {
        assert(bits & !0b111u8 == 0 <==> bits <= 7) by (bit_vector);
        if bits & !0b111u8 == 0 {
            Some(SegmentFlags { bits })
        } else {
            None
        }
    }

    /// The permissions of a program header's flag word `p_flags`: those of
    /// its low byte, which must have no bit that stands for no permission.
    /// The higher bytes are ignored.
    pub fn from_raw(p_flags: u32) -> (r: Option<SegmentFlags>)
        ensures
            r is Some <==> p_flags % 0x100 < 8,
            r is Some ==> r.unwrap().spec_bits() == p_flags % 0x100 && r.unwrap()@
                == spec_flag_set((p_flags % 0x100) as u8),
    {
        assert(p_flags & 0xff == p_flags % 0x100) by (bit_vector);
        Self::from_bits((p_flags & 0xff) as u8)
    }

    /// The flag word: the bits of the permissions that are granted.
    pub fn bits(&self) -> (r: u8)
        ensures
            r == self.spec_bits(),
            spec_valid_flag_bits(r),
    {
        proof {
            use_type_invariant(self);
        }
        self.bits
    }

    /// Whether the permission `flag` is granted.
    pub fn contains(&self, flag: SegmentFlag) -> (r: bool)
        ensures
            r == self@.contains(flag),
            r == spec_has_flag(self.spec_bits(), flag),
    {
        proof {
            lemma_has_flag(self.bits, flag);
        }
        self.bits & flag.bit() != 0
    }

    /// The permissions that are granted, the one with the lowest bit first:
    /// execute, write, read.
    pub fn iter(&self) -> (r: Vec<SegmentFlag>)
        ensures
            r@ == spec_flag_list(self.spec_bits()),
            forall|flag: SegmentFlag| r@.contains(flag) <==> self@.contains(flag),
    {
        let mut flags: Vec<SegmentFlag> = Vec::new();
        if self.contains(SegmentFlag::Execute) {
            flags.push(SegmentFlag::Execute);
        }
        if self.contains(SegmentFlag::Write) {
            flags.push(SegmentFlag::Write);
        }
        if self.contains(SegmentFlag::Read) {
            flags.push(SegmentFlag::Read);
        }
        proof {
            assert(flags@ =~= spec_flag_list(self.bits));
            assert forall|flag: SegmentFlag| flags@.contains(flag) <==> self@.contains(flag) by {
                if self@.contains(flag) {
                    match flag {
                        SegmentFlag::Execute => {
                            assert(flags@[0] == flag);
                        },
                        SegmentFlag::Write => {
                            if self@.contains(SegmentFlag::Execute) {
                                assert(flags@[1] == flag);
                            } else {
                                assert(flags@[0] == flag);
                            }
                        },
                        SegmentFlag::Read => {
                            assert(flags@[flags@.len() - 1] == flag);
                        },
                    }
                }
            }
        }
        flags
    }
}

} // verus!
