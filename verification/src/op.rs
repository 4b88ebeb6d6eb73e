//! The instruction set: mnemonics, opcode bytes, and the packing of an
//! instruction into a 16-bit word.
//!
//! A word holds the opcode in its low byte and the operands above it: an
//! 8-bit immediate fills the high byte; a register id sits in bits 8 to 11, a
//! second one in bits 12 to 15; bits that an instruction does not use are
//! zero.

use crate::register::Register;
use crate::text::str_eq;
use vstd::prelude::*;

verus! {

/// An operation together with its operands.
#[derive(Debug, Clone, Copy, PartialEq, Eq, Structural)]
pub enum Instruction {
    Nop,
    Push(u8),
    PopRegister(Register),
    AddStack,
    JmpReg(Register),
    JmpImm,
    AddRegister(Register, Register),
    PushRegister(Register),
    Signal(u8),
}

impl Instruction {
    /// The operation of the instruction.
    pub open spec fn opcode(self) -> OpCode {
        match self {
            Instruction::Nop => OpCode::Nop,
            Instruction::Push(_) => OpCode::Push,
            Instruction::PopRegister(_) => OpCode::PopRegister,
            Instruction::AddStack => OpCode::AddStack,
            Instruction::JmpReg(_) => OpCode::JmpReg,
            Instruction::JmpImm => OpCode::JmpImm,
            Instruction::AddRegister(_, _) => OpCode::AddRegister,
            Instruction::PushRegister(_) => OpCode::PushRegister,
            Instruction::Signal(_) => OpCode::Signal,
        }
    }

    /// The operands as the number held by the high byte of the word: the
    /// immediate itself, or the first register id plus sixteen times the
    /// second.
    pub open spec fn payload(self) -> int {
        match self {
            Instruction::Push(x) => x as int,
            Instruction::Signal(x) => x as int,
            Instruction::PopRegister(r) => r.id(),
            Instruction::PushRegister(r) => r.id(),
            Instruction::JmpReg(r) => r.id(),
            Instruction::AddRegister(r1, r2) => r1.id() + 16 * r2.id(),
            Instruction::Nop => 0,
            Instruction::AddStack => 0,
            Instruction::JmpImm => 0,
        }
    }

    /// The word that encodes the instruction.
    pub open spec fn word(self) -> int {
        self.opcode().byte() + 256 * self.payload()
    }

    /// A register id placed in bits 8 to 11.
    fn encode_r1(r: Register) -> (w: u16)
        ensures
            w == 256 * r.id(),
    {
        let id: u16 = r.index() as u16;
        assert(id << 8 == 256 * id) by (bit_vector)
            requires
                id < 8,
        ;
        id << 8
    }

    /// A register id placed in bits 12 to 15.
    fn encode_r2(r: Register) -> (w: u16)
        ensures
            w == 4096 * r.id(),
    {
        let id: u16 = r.index() as u16;
        assert(id << 12 == 4096 * id) by (bit_vector)
            requires
                id < 8,
        ;
        id << 12
    }

    /// The low byte of `num` placed in the high byte of the word.
    fn encode_num(num: u16) -> (w: u16)
        ensures
            w == 256 * (num % 256),
    {
        assert(num << 8 == 256 * (num % 256)) by (bit_vector);
        num << 8
    }

    /// The operand bits of an instruction on two registers: `r1` in bits 8 to
    /// 11 and `r2` in bits 12 to 15, the low byte left zero.
    pub fn encode_rs(r1: Register, r2: Register) -> (w: u16)
        ensures
            w == 256 * (r1.id() + 16 * r2.id()),
    {
        let a = Self::encode_r1(r1);
        let b = Self::encode_r2(r2);
        let ghost id1 = r1.id() as u16;
        let ghost id2 = r2.id() as u16;
        assert(a | b == a + b) by (bit_vector)
            requires
                id1 < 8,
                id2 < 8,
                a == 256 * id1,
                b == 4096 * id2,
        ;
        a | b
    }

    /// Packs the instruction into its 16-bit word.
    pub fn encode_u16(&self) -> (w: u16)
        ensures
            w == self.word(),
            w % 256 == self.opcode().byte(),
            w / 256 == self.payload(),
    {
        let op: u16 = self.op().to_u8() as u16;
        let operands: u16 = match self {
            Instruction::Nop => 0,
            Instruction::Push(x) => Self::encode_num(*x as u16),
            Instruction::JmpImm => 0,
            Instruction::JmpReg(r) => Self::encode_r1(*r),
            Instruction::PopRegister(r) => Self::encode_r1(*r),
            Instruction::PushRegister(r) => Self::encode_r1(*r),
            Instruction::AddStack => 0,
            Instruction::AddRegister(r1, r2) => Self::encode_rs(*r1, *r2),
            Instruction::Signal(x) => Self::encode_num(*x as u16),
        };
        let ghost payload = self.payload() as u16;
        assert(op | operands == op + operands) by (bit_vector)
            requires
                op < 256,
                payload < 256,
                operands == 256 * payload,
        ;
        op | operands
    }

    /// The operation of the instruction.
    pub fn op(&self) -> (op: OpCode)
        ensures
            op == self.opcode(),
    {
        match self {
            Instruction::Nop => OpCode::Nop,
            Instruction::Push(_) => OpCode::Push,
            Instruction::PopRegister(_) => OpCode::PopRegister,
            Instruction::AddStack => OpCode::AddStack,
            Instruction::JmpReg(_) => OpCode::JmpReg,
            Instruction::JmpImm => OpCode::JmpImm,
            Instruction::AddRegister(_, _) => OpCode::AddRegister,
            Instruction::PushRegister(_) => OpCode::PushRegister,
            Instruction::Signal(_) => OpCode::Signal,
        }
    }
}

/// The operations of the machine. Each has a one-byte code, which the
/// assembler writes and the engine reads, and a mnemonic.
#[derive(Debug, Clone, Copy, PartialEq, Eq, Structural)]
pub enum OpCode {
    Nop,
    Push,
    PopRegister,
    PushRegister,
    JmpReg,
    JmpImm,
    Signal,
    AddStack,
    AddRegister,
}

impl OpCode {
    /// The byte that identifies the operation in an instruction word.
    pub open spec fn byte(self) -> u8 {
        match self {
            OpCode::Nop => 0x00,
            OpCode::Push => 0x01,
            OpCode::PopRegister => 0x02,
            OpCode::PushRegister => 0x03,
            OpCode::JmpReg => 0x07,
            OpCode::JmpImm => 0x08,
            OpCode::Signal => 0x0f,
            OpCode::AddStack => 0x10,
            OpCode::AddRegister => 0x11,
        }
    }

    /// The name of the operation in assembler source.
    pub open spec fn mnemonic(self) -> Seq<char> {
        match self {
            OpCode::Nop => "Nop"@,
            OpCode::Push => "Push"@,
            OpCode::PopRegister => "PopRegister"@,
            OpCode::PushRegister => "PushRegister"@,
            OpCode::JmpReg => "JmpReg"@,
            OpCode::JmpImm => "JmpImm"@,
            OpCode::Signal => "Signal"@,
            OpCode::AddStack => "AddStack"@,
            OpCode::AddRegister => "AddRegister"@,
        }
    }

    /// Whether `b` is the code of some operation.
    pub open spec fn is_code(b: u8) -> bool {
        b == 0x00 || b == 0x01 || b == 0x02 || b == 0x03 || b == 0x07 || b == 0x08 || b == 0x0f
            || b == 0x10 || b == 0x11
    }

    /// The operation with code `b`, if there is one.
    pub open spec fn of_byte(b: u8) -> Option<OpCode> {
        if b == 0x00 {
            Some(OpCode::Nop)
        } else if b == 0x01 {
            Some(OpCode::Push)
        } else if b == 0x02 {
            Some(OpCode::PopRegister)
        } else if b == 0x03 {
            Some(OpCode::PushRegister)
        } else if b == 0x07 {
            Some(OpCode::JmpReg)
        } else if b == 0x08 {
            Some(OpCode::JmpImm)
        } else if b == 0x0f {
            Some(OpCode::Signal)
        } else if b == 0x10 {
            Some(OpCode::AddStack)
        } else if b == 0x11 {
            Some(OpCode::AddRegister)
        } else {
            None
        }
    }

    /// The operation whose mnemonic is exactly `s`, if there is one. The
    /// match is case-sensitive.
    pub open spec fn of_mnemonic(s: Seq<char>) -> Option<OpCode> {
        if s == OpCode::Nop.mnemonic() {
            Some(OpCode::Nop)
        } else if s == OpCode::Push.mnemonic() {
            Some(OpCode::Push)
        } else if s == OpCode::PopRegister.mnemonic() {
            Some(OpCode::PopRegister)
        } else if s == OpCode::PushRegister.mnemonic() {
            Some(OpCode::PushRegister)
        } else if s == OpCode::Signal.mnemonic() {
            Some(OpCode::Signal)
        } else if s == OpCode::AddStack.mnemonic() {
            Some(OpCode::AddStack)
        } else if s == OpCode::AddRegister.mnemonic() {
            Some(OpCode::AddRegister)
        } else if s == OpCode::JmpReg.mnemonic() {
            Some(OpCode::JmpReg)
        } else if s == OpCode::JmpImm.mnemonic() {
            Some(OpCode::JmpImm)
        } else {
            None
        }
    }

    /// The byte that identifies the operation in an instruction word.
    pub fn to_u8(self) -> (b: u8)
        ensures
            b == self.byte(),
    {
        match self {
            OpCode::Nop => 0x00,
            OpCode::Push => 0x01,
            OpCode::PopRegister => 0x02,
            OpCode::PushRegister => 0x03,
            OpCode::JmpReg => 0x07,
            OpCode::JmpImm => 0x08,
            OpCode::Signal => 0x0f,
            OpCode::AddStack => 0x10,
            OpCode::AddRegister => 0x11,
        }
    }

    /// Looks a mnemonic up. Only the exact spelling of a mnemonic is
    /// recognised.
    pub fn from_string(s: &str) -> (r: Option<Self>)
        ensures
            r == Self::of_mnemonic(s@),
            r matches Some(op) ==> op.mnemonic() == s@,
    {
        if str_eq(s, "Nop") {
            Some(OpCode::Nop)
        } else if str_eq(s, "Push") {
            Some(OpCode::Push)
        } else if str_eq(s, "PopRegister") {
            Some(OpCode::PopRegister)
        } else if str_eq(s, "PushRegister") {
            Some(OpCode::PushRegister)
        } else if str_eq(s, "Signal") {
            Some(OpCode::Signal)
        } else if str_eq(s, "AddStack") {
            Some(OpCode::AddStack)
        } else if str_eq(s, "AddRegister") {
            Some(OpCode::AddRegister)
        } else if str_eq(s, "JmpReg") {
            Some(OpCode::JmpReg)
        } else if str_eq(s, "JmpImm") {
            Some(OpCode::JmpImm)
        } else {
            None
        }
    }

    /// Reads an opcode byte. Only the nine assigned codes name an operation.
    pub fn from_u8(b: u8) -> (r: Option<Self>)
        ensures
            r == Self::of_byte(b),
            r is Some <==> Self::is_code(b),
            r matches Some(op) ==> op.byte() == b,
    {
        match b {
            0x00 => Some(OpCode::Nop),
            0x01 => Some(OpCode::Push),
            0x02 => Some(OpCode::PopRegister),
            0x03 => Some(OpCode::PushRegister),
            0x07 => Some(OpCode::JmpReg),
            0x08 => Some(OpCode::JmpImm),
            0x0f => Some(OpCode::Signal),
            0x10 => Some(OpCode::AddStack),
            0x11 => Some(OpCode::AddRegister),
            _ => None,
        }
    }

    /// Reading the code of an operation gives the operation back, and a byte
    /// names an operation exactly when it is one of the nine codes.
    pub proof fn lemma_byte_roundtrip(op: OpCode, b: u8)
        ensures
            Self::is_code(op.byte()),
            Self::of_byte(op.byte()) == Some(op),
            Self::of_byte(b) is Some <==> Self::is_code(b),
            Self::of_byte(b) matches Some(found) ==> found.byte() == b,
    {
    }

    /// Looking the mnemonic of an operation up gives the operation back: no
    /// two operations share a mnemonic.
    pub proof fn lemma_mnemonic_roundtrip(op: OpCode)
        ensures
            Self::of_mnemonic(op.mnemonic()) == Some(op),
    {
        reveal_strlit("Nop");
        reveal_strlit("Push");
        reveal_strlit("PopRegister");
        reveal_strlit("PushRegister");
        reveal_strlit("JmpReg");
        reveal_strlit("JmpImm");
        reveal_strlit("Signal");
        reveal_strlit("AddStack");
        reveal_strlit("AddRegister");
        // Most mnemonics differ in length.
        assert("Nop"@.len() == 3);
        assert("Push"@.len() == 4);
        assert("PushRegister"@.len() == 12);
        assert("AddStack"@.len() == 8);
        // Those of equal length differ at some position.
        assert("PopRegister"@[1] != "AddRegister"@[1]);
        assert("JmpReg"@[3] != "JmpImm"@[3]);
    }
}

} // verus!
