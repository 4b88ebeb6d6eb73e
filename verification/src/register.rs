//! The register file's names.

use vstd::prelude::*;

verus! {

/// One of the eight 16-bit slots of the register file.
///
/// The declaration order is part of the wire format: a register is written
/// into an instruction word as its ordinal, a number from 0 to 7.
#[derive(Debug, Clone, Copy, PartialEq, Eq, Structural)]
pub enum Register {
    A,
    B,
    C,
    M,
    Sp,
    Pc,
    Bp,
    Flags,
}

impl Register {
    /// The ordinal of the register: its slot in the register file and its
    /// 4-bit id in an instruction word.
    pub open spec fn id(self) -> int {
        match self {
            Register::A => 0,
            Register::B => 1,
            Register::C => 2,
            Register::M => 3,
            Register::Sp => 4,
            Register::Pc => 5,
            Register::Bp => 6,
            Register::Flags => 7,
        }
    }

    /// The register with ordinal `id`, if there is one.
    pub open spec fn of_id(id: int) -> Option<Register> {
        if id == 0 {
            Some(Register::A)
        } else if id == 1 {
            Some(Register::B)
        } else if id == 2 {
            Some(Register::C)
        } else if id == 3 {
            Some(Register::M)
        } else if id == 4 {
            Some(Register::Sp)
        } else if id == 5 {
            Some(Register::Pc)
        } else if id == 6 {
            Some(Register::Bp)
        } else if id == 7 {
            Some(Register::Flags)
        } else {
            None
        }
    }

    /// The slot of the register in the register file.
    pub fn index(self) -> (i: usize)
        ensures
            i == self.id(),
            i < 8,
    {
        match self {
            Register::A => 0,
            Register::B => 1,
            Register::C => 2,
            Register::M => 3,
            Register::Sp => 4,
            Register::Pc => 5,
            Register::Bp => 6,
            Register::Flags => 7,
        }
    }

    /// Reads a register id. The ids 0 to 7 name the registers in declaration
    /// order; every other value is unassigned.
    pub fn from_u8(v: u8) -> (r: Option<Self>)
        ensures
            r == Self::of_id(v as int),
            r is Some <==> v < 8,
            r matches Some(reg) ==> reg.id() == v,
    {
        match v {
            0 => Some(Register::A),
            1 => Some(Register::B),
            2 => Some(Register::C),
            3 => Some(Register::M),
            4 => Some(Register::Sp),
            5 => Some(Register::Pc),
            6 => Some(Register::Bp),
            7 => Some(Register::Flags),
            _ => None,
        }
    }

    /// Every register has an ordinal from 0 to 7, and reading that ordinal
    /// back gives the register: the ids 0..=7 and the eight registers
    /// correspond one to one.
    pub proof fn lemma_id_roundtrip(r: Register)
        ensures
            0 <= r.id() < 8,
            Self::of_id(r.id()) == Some(r),
    {
    }

    /// An id names a register exactly when it lies in 0..=7, and then the
    /// register found has that id. In particular the ids 8..=15, which a
    /// 4-bit field can also hold, name nothing.
    pub proof fn lemma_of_id(id: int)
        ensures
            Self::of_id(id) is Some <==> 0 <= id < 8,
            Self::of_id(id) matches Some(r) ==> r.id() == id,
            8 <= id <= 15 ==> Self::of_id(id) is None,
    {
    }
}

} // verus!
