//! The execution engine.
//!
//! A [`Machine`] owns eight 16-bit registers, a halt flag, a table of signal
//! handlers and its memory. [`Machine::step`] fetches the word at `Pc`,
//! advances `Pc`, decodes the word and executes the instruction.
//!
//! What the engine does is stated over [`MachineView`], the machine as plain
//! mathematics: [`MachineView::step`] is the transition that `step` carries
//! out.
//!
//! Registers are 16 bits wide and all arithmetic on them wraps: `Sp` and `Pc`
//! wrap around the address space, and the sums of `AddStack` and
//! `AddRegister` are taken modulo 65536.

use crate::memory::{Addressable, LinearMemory, DEFAULT_CAPACITY};
use crate::op::{Instruction, OpCode};
use crate::register::Register;
use crate::text::{push_decimal, push_hex_upper};
use std::collections::HashMap;
use vstd::prelude::*;
use vstd::string::*;

verus! {

/// Why the engine stopped.
#[derive(Debug, Clone, Copy, PartialEq, Eq, Structural)]
pub enum MachineErr {
    /// The low byte of the fetched word is no opcode, or it is the opcode of
    /// an instruction that the engine does not execute.
    UnknownOp,
    /// A register field of the fetched word holds an unassigned id.
    UnknownReg,
    /// A pop found no word below `Sp`.
    ReadFault,
    /// A push found no room for a word at `Sp`.
    WriteFault,
    /// There is no word at `Pc`.
    PcFault,
    /// No handler is registered for the signal raised.
    UnknownSignal,
    /// The program image could not be opened.
    UnknownFile,
}

/// The instruction that a word stands for.
///
/// The low byte selects the operation; the high byte holds the operands.
/// Bits that the operation does not use are ignored.
pub open spec fn decode(ins: u16) -> Result<Instruction, MachineErr> {
    let payload = ins / 256;
    let r1 = Register::of_id((payload % 16) as int);
    let r2 = Register::of_id((payload / 16) as int);
    match OpCode::of_byte((ins % 256) as u8) {
        None => Err(MachineErr::UnknownOp),
        Some(OpCode::Nop) => Ok(Instruction::Nop),
        Some(OpCode::AddStack) => Ok(Instruction::AddStack),
        Some(OpCode::JmpImm) => Ok(Instruction::JmpImm),
        Some(OpCode::Push) => Ok(Instruction::Push(payload as u8)),
        Some(OpCode::Signal) => Ok(Instruction::Signal(payload as u8)),
        Some(OpCode::PopRegister) => match r1 {
            Some(r) => Ok(Instruction::PopRegister(r)),
            None => Err(MachineErr::UnknownReg),
        },
        Some(OpCode::PushRegister) => match r1 {
            Some(r) => Ok(Instruction::PushRegister(r)),
            None => Err(MachineErr::UnknownReg),
        },
        Some(OpCode::JmpReg) => match r1 {
            Some(r) => Ok(Instruction::JmpReg(r)),
            None => Err(MachineErr::UnknownReg),
        },
        Some(OpCode::AddRegister) => match (r1, r2) {
            (Some(a), Some(b)) => Ok(Instruction::AddRegister(a, b)),
            _ => Err(MachineErr::UnknownReg),
        },
    }
}

/// The high byte of an instruction word.
fn parse_instruction_arg(ins: u16) -> (arg: u8)
    ensures
        arg == ins / 256,
{
    let high: u16 = (ins & 0xff00) >> 8;
    assert(high == ins / 256) by (bit_vector)
        requires
            high == (ins & 0xff00) >> 8,
    ;
    high as u8
}

/// The register named by bits 8 to 11 of an instruction word.
fn parse_instruction_r1(ins: u16) -> (r: Result<Register, MachineErr>)
    ensures
        r == match Register::of_id(((ins / 256) % 16) as int) {
            Some(reg) => Ok::<Register, MachineErr>(reg),
            None => Err(MachineErr::UnknownReg),
        },
{
    let field: u16 = (ins & 0xf00) >> 8;
    assert(field == (ins / 256) % 16) by (bit_vector)
        requires
            field == (ins & 0xf00) >> 8,
    ;
    match Register::from_u8(field as u8) {
        Some(reg) => Ok(reg),
        None => Err(MachineErr::UnknownReg),
    }
}

/// The register named by bits 12 to 15 of an instruction word.
fn parse_instruction_r2(ins: u16) -> (r: Result<Register, MachineErr>)
    ensures
        r == match Register::of_id(((ins / 256) / 16) as int) {
            Some(reg) => Ok::<Register, MachineErr>(reg),
            None => Err(MachineErr::UnknownReg),
        },
{
    let field: u16 = (ins & 0xf000) >> 12;
    assert(field == (ins / 256) / 16) by (bit_vector)
        requires
            field == (ins & 0xf000) >> 12,
    ;
    match Register::from_u8(field as u8) {
        Some(reg) => Ok(reg),
        None => Err(MachineErr::UnknownReg),
    }
}

/// Decodes an instruction word.
///
/// Fails with `UnknownOp` exactly when the low byte is not one of the nine
/// opcodes, and with `UnknownReg` exactly when the opcode takes registers and
/// a register field holds an id above 7.
pub fn parse_instruction(ins: u16) -> (r: Result<Instruction, MachineErr>)
    ensures
        r == decode(ins),
        r == Err::<Instruction, MachineErr>(MachineErr::UnknownOp) <==> !OpCode::is_code(
            (ins % 256) as u8,
        ),
        r matches Ok(i) ==> i.opcode().byte() == ins % 256,
{
    let low: u16 = ins & 0xff;
    assert(low == ins % 256) by (bit_vector)
        requires
            low == ins & 0xff,
    ;
    let op = match OpCode::from_u8(low as u8) {
        Some(op) => op,
        None => {
            return Err(MachineErr::UnknownOp);
        },
    };
    match op {
        OpCode::Nop => Ok(Instruction::Nop),
        OpCode::Push => {
            let arg = parse_instruction_arg(ins);
            Ok(Instruction::Push(arg))
        },
        OpCode::PopRegister => match parse_instruction_r1(ins) {
            Ok(r) => Ok(Instruction::PopRegister(r)),
            Err(e) => Err(e),
        },
        OpCode::PushRegister => match parse_instruction_r1(ins) {
            Ok(r) => Ok(Instruction::PushRegister(r)),
            Err(e) => Err(e),
        },
        OpCode::JmpReg => match parse_instruction_r1(ins) {
            Ok(r) => Ok(Instruction::JmpReg(r)),
            Err(e) => Err(e),
        },
        OpCode::JmpImm => Ok(Instruction::JmpImm),
        OpCode::AddRegister => {
            let reg1 = match parse_instruction_r1(ins) {
                Ok(r) => r,
                Err(e) => {
                    return Err(e);
                },
            };
            let reg2 = match parse_instruction_r2(ins) {
                Ok(r) => r,
                Err(e) => {
                    return Err(e);
                },
            };
            Ok(Instruction::AddRegister(reg1, reg2))
        },
        OpCode::AddStack => Ok(Instruction::AddStack),
        OpCode::Signal => {
            let arg = parse_instruction_arg(ins);
            Ok(Instruction::Signal(arg))
        },
    }
}

/// Decoding undoes encoding: the word of an instruction decodes to that
/// instruction, with the same operation and the same operands.
pub proof fn lemma_decode_encode(i: Instruction)
    ensures
        0 <= i.word() < 0x1_0000,
        decode(i.word() as u16) == Ok::<Instruction, MachineErr>(i),
{
    match i {
        Instruction::AddRegister(r1, r2) => {
            Register::lemma_id_roundtrip(r1);
            Register::lemma_id_roundtrip(r2);
        },
        Instruction::PopRegister(r) => {
            Register::lemma_id_roundtrip(r);
        },
        Instruction::PushRegister(r) => {
            Register::lemma_id_roundtrip(r);
        },
        Instruction::JmpReg(r) => {
            Register::lemma_id_roundtrip(r);
        },
        _ => {},
    }
}

/// A word fails to decode with `UnknownOp` exactly when its low byte is none
/// of the nine opcodes 0x00, 0x01, 0x02, 0x03, 0x07, 0x08, 0x0F, 0x10, 0x11;
/// whatever its high byte holds, such a word never decodes to an instruction.
pub proof fn lemma_unknown_opcode(word: u16)
    ensures
        decode(word) == Err::<Instruction, MachineErr>(MachineErr::UnknownOp) <==> !OpCode::is_code(
            (word % 256) as u8,
        ),
{
}

/// A word fails to decode with `UnknownReg` exactly when its operation takes
/// registers and a register field it reads holds one of the ids 8 to 15.
/// With ids from 0 to 7 in those fields the word decodes, and the registers
/// of the instruction are the ones with those ids.
pub proof fn lemma_unknown_register(word: u16)
    ensures
        ({
            let first = (word / 256) % 16;
            let second = (word / 256) / 16;
            match OpCode::of_byte((word % 256) as u8) {
                Some(OpCode::PopRegister) => if first >= 8 {
                    decode(word) == Err::<Instruction, MachineErr>(MachineErr::UnknownReg)
                } else {
                    decode(word) matches Ok(Instruction::PopRegister(r)) && r.id() == first
                },
                Some(OpCode::PushRegister) => if first >= 8 {
                    decode(word) == Err::<Instruction, MachineErr>(MachineErr::UnknownReg)
                } else {
                    decode(word) matches Ok(Instruction::PushRegister(r)) && r.id() == first
                },
                Some(OpCode::JmpReg) => if first >= 8 {
                    decode(word) == Err::<Instruction, MachineErr>(MachineErr::UnknownReg)
                } else {
                    decode(word) matches Ok(Instruction::JmpReg(r)) && r.id() == first
                },
                Some(OpCode::AddRegister) => if first >= 8 || second >= 8 {
                    decode(word) == Err::<Instruction, MachineErr>(MachineErr::UnknownReg)
                } else {
                    decode(word) matches Ok(Instruction::AddRegister(r1, r2)) && r1.id() == first
                        && r2.id() == second
                },
                _ => decode(word) != Err::<Instruction, MachineErr>(MachineErr::UnknownReg),
            }
        }),
{
    Register::lemma_of_id(((word / 256) % 16) as int);
    Register::lemma_of_id(((word / 256) / 16) as int);
}

/// A machine as plain data: what its registers, halt flag, memory and handler
/// table hold.
pub struct MachineView<H> {
    /// The register file, one entry per register in the order of their ids.
    pub registers: Seq<u16>,
    /// The halt flag.
    pub halt: bool,
    /// The backed addresses of memory and the byte at each.
    pub memory: Map<u16, u8>,
    /// The handler registered for each signal id that has one.
    pub handlers: Map<u8, H>,
}

/// How a step ends.
pub enum Outcome<H> {
    /// The engine finished the step by itself, leaving this state and
    /// returning this result.
    Finished(MachineView<H>, Result<(), MachineErr>),
    /// The engine handed the machine, in this state, to this handler; the
    /// handler decides the state the step leaves and the result it returns.
    Dispatched(MachineView<H>, H),
}

impl<H> MachineView<H> {
    /// The register file has its eight slots.
    pub open spec fn wf(self) -> bool {
        self.registers.len() == 8
    }

    /// A new machine: registers zero, not halted, no handlers, and a zeroed
    /// memory of the default capacity.
    pub open spec fn initial() -> Self {
        MachineView {
            registers: Seq::new(8, |i: int| 0u16),
            halt: false,
            memory: crate::memory::zeroed(DEFAULT_CAPACITY as nat),
            handlers: Map::empty(),
        }
    }

    /// The value of a register.
    pub open spec fn reg(self, r: Register) -> u16 {
        self.registers[r.id()]
    }

    /// The machine with one register set and nothing else changed.
    pub open spec fn with_reg(self, r: Register, v: u16) -> Self {
        MachineView { registers: self.registers.update(r.id(), v), ..self }
    }

    /// Pushing `v`: the word is stored at `Sp` and `Sp` moves up by two. If
    /// there is no room for a word at `Sp`, nothing changes and the push
    /// fails with `WriteFault`.
    pub open spec fn push(self, v: u16) -> (Self, Result<(), MachineErr>) {
        let sp = self.reg(Register::Sp);
        if crate::memory::has_word(self.memory, sp) {
            (
                MachineView {
                    memory: crate::memory::store_word(self.memory, sp, v),
                    ..self
                }.with_reg(Register::Sp, sp.wrapping_add(2)),
                Ok(()),
            )
        } else {
            (self, Err(MachineErr::WriteFault))
        }
    }

    /// Popping: the word just below `Sp` is read and `Sp` moves down by two.
    /// If there is no word there, nothing changes and the pop fails with
    /// `ReadFault`.
    pub open spec fn pop(self) -> (Self, Result<u16, MachineErr>) {
        let below = self.reg(Register::Sp).wrapping_sub(2);
        match crate::memory::word_at(self.memory, below) {
            Some(v) => (self.with_reg(Register::Sp, below), Ok(v)),
            None => (self, Err(MachineErr::ReadFault)),
        }
    }

    /// Executing one decoded instruction.
    ///
    /// A failure keeps what was done before it: `AddStack` whose second pop
    /// fails has still popped once. The two jumps have an encoding but no
    /// meaning to the engine, which refuses them with `UnknownOp`.
    pub open spec fn execute(self, ins: Instruction) -> Outcome<H> {
        match ins {
            Instruction::Nop => Outcome::Finished(self, Ok(())),
            Instruction::Push(v) => {
                let (s, r) = self.push(v as u16);
                Outcome::Finished(s, r)
            },
            Instruction::PopRegister(r) => match self.pop() {
                (s, Ok(v)) => Outcome::Finished(s.with_reg(r, v), Ok(())),
                (s, Err(e)) => Outcome::Finished(s, Err(e)),
            },
            Instruction::PushRegister(r) => {
                let (s, r) = self.push(self.reg(r));
                Outcome::Finished(s, r)
            },
            Instruction::AddStack => match self.pop() {
                (s1, Ok(a)) => match s1.pop() {
                    (s2, Ok(b)) => {
                        let (s3, r) = s2.push(a.wrapping_add(b));
                        Outcome::Finished(s3, r)
                    },
                    (s2, Err(e)) => Outcome::Finished(s2, Err(e)),
                },
                (s1, Err(e)) => Outcome::Finished(s1, Err(e)),
            },
            Instruction::AddRegister(r1, r2) => Outcome::Finished(
                self.with_reg(r1, self.reg(r1).wrapping_add(self.reg(r2))),
                Ok(()),
            ),
            Instruction::Signal(id) => if self.handlers.contains_key(id) {
                Outcome::Dispatched(self, self.handlers[id])
            } else {
                Outcome::Finished(self, Err(MachineErr::UnknownSignal))
            },
            Instruction::JmpReg(_) => Outcome::Finished(self, Err(MachineErr::UnknownOp)),
            Instruction::JmpImm => Outcome::Finished(self, Err(MachineErr::UnknownOp)),
        }
    }

    /// One fetch-decode-execute cycle.
    ///
    /// The word at `Pc` is fetched; without one the step fails with `PcFault`
    /// and nothing changes. `Pc` then moves up by two, before anything else
    /// happens, so it has advanced even if decoding or executing fails.
    pub open spec fn step(self) -> Outcome<H> {
        let pc = self.reg(Register::Pc);
        match crate::memory::word_at(self.memory, pc) {
            None => Outcome::Finished(self, Err(MachineErr::PcFault)),
            Some(word) => {
                let fetched = self.with_reg(Register::Pc, pc.wrapping_add(2));
                match decode(word) {
                    Err(e) => Outcome::Finished(fetched, Err(e)),
                    Ok(ins) => fetched.execute(ins),
                }
            },
        }
    }

    /// A fetched word whose low byte is none of the opcodes stops the step
    /// with `UnknownOp`. The word is not passed over as if it did nothing:
    /// the step fails, and all it has done is advance `Pc`.
    pub proof fn lemma_step_unknown_opcode(self, word: u16)
        requires
            crate::memory::word_at(self.memory, self.reg(Register::Pc)) == Some(word),
            !OpCode::is_code((word % 256) as u8),
        ensures
            self.step() == Outcome::Finished(
                self.with_reg(Register::Pc, self.reg(Register::Pc).wrapping_add(2)),
                Err(MachineErr::UnknownOp),
            ),
    {
    }

    /// The engine never raises or lowers the halt flag and never touches the
    /// handler table: whatever a step does by itself leaves both as they
    /// were, and a handler that it calls finds them as they were and is the
    /// one registered for some signal. Only a handler can halt the machine.
    pub proof fn lemma_step_keeps_halt(self)
        ensures
            match self.step() {
                Outcome::Finished(after, _) => after.halt == self.halt && after.handlers
                    == self.handlers,
                Outcome::Dispatched(before, handler) => {
                    &&& before.halt == self.halt
                    &&& before.handlers == self.handlers
                    &&& exists|id: u8| #[trigger]
                        self.handlers.contains_key(id) && self.handlers[id] == handler
                },
            },
    {
    }

    /// A step that the engine finishes itself fails in one of six ways only;
    /// `UnknownFile` is for the host that loads the program and is never the
    /// engine's own answer.
    pub proof fn lemma_step_errors(self)
        ensures
            self.step() matches Outcome::Finished(_, Err(e)) ==> e != MachineErr::UnknownFile,
    {
    }

    /// A step leaves the register file with its eight slots.
    pub proof fn lemma_step_keeps_wf(self)
        requires
            self.wf(),
        ensures
            match self.step() {
                Outcome::Finished(after, _) => after.wf(),
                Outcome::Dispatched(before, _) => before.wf(),
            },
    {
    }

    /// The text that reports the registers: three lines, the general
    /// registers, then the pointers, then the flags in upper-case
    /// hexadecimal.
    pub open spec fn report(self) -> Seq<char> {
        "A: "@ + crate::text::decimal(self.reg(Register::A) as nat) + " | B: "@
            + crate::text::decimal(self.reg(Register::B) as nat) + " | C: "@
            + crate::text::decimal(self.reg(Register::C) as nat) + " | M: "@
            + crate::text::decimal(self.reg(Register::M) as nat) + "\nSP: "@
            + crate::text::decimal(self.reg(Register::Sp) as nat) + " | PC: "@
            + crate::text::decimal(self.reg(Register::Pc) as nat) + " | BP: "@
            + crate::text::decimal(self.reg(Register::Bp) as nat) + "\nFLAGS: "@
            + crate::text::hex_upper(self.reg(Register::Flags) as nat)
    }
}

/// What a machine does when a `Signal` instruction raises an id.
///
/// A handler is given the whole machine and may change any of it: registers,
/// memory, the halt flag, the handler table. `effect` is the handler's own
/// account of what it does; the engine promises its callers no more about a
/// dispatched step than this account.
pub trait SignalHandler: Copy {
    /// Whether the handler may turn `before` into `after` and return
    /// `result`. A handler that says nothing may do anything.
    open spec fn effect(
        &self,
        before: MachineView<Self>,
        after: MachineView<Self>,
        result: Result<(), MachineErr>,
    ) -> bool {
        true
    }

    /// Handles the signal.
    fn handle(&self, vm: &mut Machine<Self>) -> (result: Result<(), MachineErr>)
        ensures
            self.effect(old(vm)@, final(vm)@, result),
    ;
}

/// The machine: register file, handler table, halt flag and memory.
pub struct Machine<H> {
    register: [u16; 8],
    signal_handlers: HashMap<u8, H>,
    pub halt: bool,
    pub memory: Box<dyn Addressable>,
}

impl<H> View for Machine<H> {
    type V = MachineView<H>;

    closed spec fn view(&self) -> MachineView<H> {
        MachineView {
            registers: self.register@,
            halt: self.halt,
            memory: self.memory.cells(),
            handlers: self.signal_handlers@,
        }
    }
}

impl<H> Default for Machine<H> {
    fn default() -> (m: Self)
        ensures
            m@ == MachineView::<H>::initial(),
    {
        Self::new()
    }
}

impl<H> Machine<H> {
    /// A machine with zeroed registers, the halt flag down, no handlers, and
    /// a zeroed memory of the default capacity.
    pub fn new() -> (m: Self)
        ensures
            m@ == MachineView::<H>::initial(),
            m@.wf(),
    {
        let m = Machine {
            register: [0u16; 8],
            signal_handlers: HashMap::new(),
            halt: false,
            memory: Box::new(LinearMemory::new(DEFAULT_CAPACITY)),
        };
        assert(m@.registers =~= Seq::new(8, |i: int| 0u16));
        m
    }

    /// Every machine has its eight registers.
    pub proof fn lemma_wf(&self)
        ensures
            self@.wf(),
    {
    }

    /// The registers as text: `A`, `B`, `C`, `M` on the first line, `SP`,
    /// `PC`, `BP` on the second, all in decimal, and `FLAGS` in upper-case
    /// hexadecimal on the third.
    pub fn state(&self) -> (s: String)
        ensures
            s@ == self@.report(),
    {
        let mut s = String::from_str("A: ");
        push_decimal(&mut s, self.get_register(Register::A));
        s.append(" | B: ");
        push_decimal(&mut s, self.get_register(Register::B));
        s.append(" | C: ");
        push_decimal(&mut s, self.get_register(Register::C));
        s.append(" | M: ");
        push_decimal(&mut s, self.get_register(Register::M));
        s.append("\nSP: ");
        push_decimal(&mut s, self.get_register(Register::Sp));
        s.append(" | PC: ");
        push_decimal(&mut s, self.get_register(Register::Pc));
        s.append(" | BP: ");
        push_decimal(&mut s, self.get_register(Register::Bp));
        s.append("\nFLAGS: ");
        push_hex_upper(&mut s, self.get_register(Register::Flags));
        s
    }

    /// Whether the halt flag is up.
    pub fn is_halted(&self) -> (halted: bool)
        ensures
            halted == self@.halt,
    {
        self.halt
    }

    /// Copies a program image into memory, its first byte at `offset`.
    ///
    /// Returns `true` if the whole image fits. If any part of it falls out
    /// of bounds, nothing is copied and the result is `false`.
    pub fn load(&mut self, image: &[u8], offset: u16) -> (ok: bool)
        ensures
            ok == crate::memory::has_range(old(self)@.memory, offset, image@.len()),
            final(self)@ == (MachineView {
                memory: crate::memory::store_bytes(old(self)@.memory, offset, image@),
                ..old(self)@
            }),
    {
        self.memory.load_from_vec(image, offset)
    }

    /// Registers `f` for the signal `index`, in place of any handler
    /// registered for it before.
    pub fn define_handler(&mut self, index: u8, f: H)
        ensures
            final(self)@ == (MachineView {
                handlers: old(self)@.handlers.insert(index, f),
                ..old(self)@
            }),
            final(self)@.handlers.contains_key(index),
            final(self)@.handlers[index] == f,
    {
        self.signal_handlers.insert(index, f);
    }

    /// The value of a register.
    pub fn get_register(&self, r: Register) -> (v: u16)
        ensures
            v == self@.reg(r),
    {
        self.register[r.index()]
    }

    /// Sets a register and changes nothing else.
    pub fn set_register(&mut self, r: Register, v: u16)
        ensures
            final(self)@ == old(self)@.with_reg(r, v),
    {
        self.register[r.index()] = v;
    }

    /// Pops the word just below `Sp`.
    ///
    /// On success `Sp` has moved down by two and the word is returned. If
    /// there is no word below `Sp` the pop fails with `ReadFault` and the
    /// machine is unchanged.
    pub fn pop(&mut self) -> (r: Result<u16, MachineErr>)
        ensures
            (final(self)@, r) == old(self)@.pop(),
    {
        let below = self.register[Register::Sp.index()].wrapping_sub(2);
        match self.memory.read2(below) {
            Some(v) => {
                self.register[Register::Sp.index()] = below;
                Ok(v)
            },
            None => Err(MachineErr::ReadFault),
        }
    }

    /// Pushes `v` at `Sp`.
    ///
    /// On success the word is in memory and `Sp` has moved up by two. If
    /// there is no room for a word at `Sp` the push fails with `WriteFault`
    /// and the machine is unchanged.
    pub fn push(&mut self, v: u16) -> (r: Result<(), MachineErr>)
        ensures
            (final(self)@, r) == old(self)@.push(v),
    {
        let sp = self.register[Register::Sp.index()];
        if !self.memory.write2(sp, v) {
            return Err(MachineErr::WriteFault);
        }
        self.register[Register::Sp.index()] = sp.wrapping_add(2);
        Ok(())
    }
}

impl<H: SignalHandler> Machine<H> {
    /// Runs one fetch-decode-execute cycle.
    ///
    /// Where the engine finishes the step itself, the machine is left in the
    /// state and the result is the one that [`MachineView::step`] gives.
    /// Where the step raises a signal that has a handler, that handler is
    /// called once on the machine as it stands after the fetch, and the step
    /// leaves what the handler left and returns what it returned.
    pub fn step(&mut self) -> (r: Result<(), MachineErr>)
        ensures
            match old(self)@.step() {
                Outcome::Finished(after, result) => final(self)@ == after && r == result,
                Outcome::Dispatched(before, handler) => handler.effect(before, final(self)@, r),
            },
    {
        let pc = self.register[Register::Pc.index()];
        let instruction = match self.memory.read2(pc) {
            Some(word) => word,
            None => {
                return Err(MachineErr::PcFault);
            },
        };
        self.register[Register::Pc.index()] = pc.wrapping_add(2);
        let op = match parse_instruction(instruction) {
            Ok(op) => op,
            Err(e) => {
                return Err(e);
            },
        };
        match op {
            Instruction::Nop => Ok(()),
            Instruction::Push(v) => self.push(v as u16),
            Instruction::PopRegister(r) => {
                let value = match self.pop() {
                    Ok(value) => value,
                    Err(e) => {
                        return Err(e);
                    },
                };
                self.register[r.index()] = value;
                Ok(())
            },
            Instruction::PushRegister(r) => {
                let value = self.register[r.index()];
                self.push(value)
            },
            Instruction::AddStack => {
                let a = match self.pop() {
                    Ok(a) => a,
                    Err(e) => {
                        return Err(e);
                    },
                };
                let b = match self.pop() {
                    Ok(b) => b,
                    Err(e) => {
                        return Err(e);
                    },
                };
                self.push(a.wrapping_add(b))
            },
            Instruction::AddRegister(r1, r2) => {
                let sum = self.register[r1.index()].wrapping_add(self.register[r2.index()]);
                self.register[r1.index()] = sum;
                Ok(())
            },
            Instruction::Signal(signal) => {
                let handler = match self.signal_handlers.get(&signal) {
                    Some(f) => *f,
                    None => {
                        return Err(MachineErr::UnknownSignal);
                    },
                };
                handler.handle(self)
            },
            Instruction::JmpReg(_) => Err(MachineErr::UnknownOp),
            Instruction::JmpImm => Err(MachineErr::UnknownOp),
        }
    }
}

/// Raises the halt flag and changes nothing else.
pub fn signal_halt<H>(vm: &mut Machine<H>) -> (r: Result<(), MachineErr>)
    ensures
        r == Ok::<(), MachineErr>(()),
        final(vm)@ == (MachineView { halt: true, ..old(vm)@ }),
{
    vm.halt = true;
    Ok(())
}

/// The handler that stops the machine: it raises the halt flag, changes
/// nothing else, and succeeds.
#[derive(Debug, Clone, Copy)]
pub struct Halt;

impl SignalHandler for Halt {
    open spec fn effect(
        &self,
        before: MachineView<Halt>,
        after: MachineView<Halt>,
        result: Result<(), MachineErr>,
    ) -> bool {
        result == Ok::<(), MachineErr>(()) && after == (MachineView { halt: true, ..before })
    }

    fn handle(&self, vm: &mut Machine<Halt>) -> (result: Result<(), MachineErr>) {
        signal_halt(vm)
    }
}

} // verus!
