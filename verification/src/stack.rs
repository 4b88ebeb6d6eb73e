//! The stack discipline: what runs of pushes and pops do.
//!
//! `Sp` is the address of the next free word. A push stores at `Sp` and moves
//! `Sp` up by two; a pop reads just below `Sp` and moves `Sp` down by two.
//! The stack therefore grows upwards, and because `Sp` wraps around the
//! address space, a stack of more than 32768 words would run into its own
//! beginning.

use crate::op::Instruction;
use crate::register::Register;
use crate::vm::{MachineErr, MachineView, Outcome};
use vstd::prelude::*;

verus! {

impl<H> MachineView<H> {
    /// Pushing the values of `values` one after the other, the first one
    /// first. The run stops at the first push that fails.
    pub open spec fn push_all(self, values: Seq<u16>) -> (Self, Result<(), MachineErr>)
        decreases values.len(),
    {
        if values.len() == 0 {
            (self, Ok(()))
        } else {
            let (pushed, r) = self.push(values.first());
            if r is Ok {
                pushed.push_all(values.drop_first())
            } else {
                (pushed, r)
            }
        }
    }

    /// Popping `n` times. The result lists the values in the order in which
    /// they came off the stack. The run stops at the first pop that fails.
    pub open spec fn pop_n(self, n: nat) -> (Self, Result<Seq<u16>, MachineErr>)
        decreases n,
    {
        if n == 0 {
            (self, Ok(Seq::empty()))
        } else {
            match self.pop_n((n - 1) as nat) {
                (s, Ok(popped)) => match s.pop() {
                    (t, Ok(v)) => (t, Ok(popped.push(v))),
                    (t, Err(e)) => (t, Err(e)),
                },
                (s, Err(e)) => (s, Err(e)),
            }
        }
    }

    /// A word that was just pushed is the word that the next pop returns,
    /// and that pop puts every register back as it was before the push.
    pub proof fn lemma_pop_after_push(self, v: u16)
        requires
            self.wf(),
            self.push(v).1 is Ok,
        ensures
            self.push(v).0.pop() == (
                MachineView { memory: self.push(v).0.memory, ..self },
                Ok::<u16, MachineErr>(v),
            ),
    {
        let sp = self.reg(Register::Sp);
        let pushed = self.push(v).0;
        crate::memory::lemma_word_stored(self.memory, sp, v);
        assert(pushed.registers.update(Register::Sp.id(), sp) =~= self.registers);
    }

    /// Pushes above a word leave it alone: if `Sp` stands `k` words above
    /// `addr` and the pushes of `values` all succeed without carrying the
    /// stack all the way round the address space, the word at `addr` is
    /// afterwards what it was before.
    proof fn lemma_pushes_keep_word(self, values: Seq<u16>, addr: u16, k: int)
        requires
            self.wf(),
            self.push_all(values).1 is Ok,
            crate::memory::has_word(self.memory, addr),
            1 <= k,
            k + values.len() <= 0x8000,
            self.reg(Register::Sp) == (addr + 2 * k) % 0x1_0000,
        ensures
            crate::memory::word_at(self.push_all(values).0.memory, addr) == crate::memory::word_at(
                self.memory,
                addr,
            ),
            self.push_all(values).0.registers == self.registers.update(
                Register::Sp.id(),
                ((self.reg(Register::Sp) + 2 * values.len()) % 0x1_0000) as u16,
            ),
            self.push_all(values).0.halt == self.halt,
            self.push_all(values).0.handlers == self.handlers,
        decreases values.len(),
    {
        let sp = self.reg(Register::Sp);
        if values.len() > 0 {
            let pushed = self.push(values.first()).0;
            let rest = values.drop_first();
            // Sp is an even distance of less than the whole address space
            // above addr, so the word stored at Sp does not touch the one at
            // addr.
            assert(sp != addr && sp != addr + 1 && sp + 1 != addr);
            assert(pushed.reg(Register::Sp) == (addr + 2 * (k + 1)) % 0x1_0000);
            pushed.lemma_pushes_keep_word(rest, addr, k + 1);
        }
    }

    /// The stack is last in, first out: after any run of pushes that all
    /// succeed, as many pops succeed too, return the values in the reverse
    /// of the order in which they were pushed, and leave `Sp`, like every
    /// other register, where it was before the first push.
    ///
    /// The run may hold up to 32768 values, which is as many words as the
    /// address space has room for.
    pub proof fn lemma_stack_lifo(self, values: Seq<u16>)
        requires
            self.wf(),
            values.len() <= 0x8000,
            self.push_all(values).1 is Ok,
        ensures
            self.push_all(values).0.pop_n(values.len()) == (
                MachineView { memory: self.push_all(values).0.memory, ..self },
                Ok::<Seq<u16>, MachineErr>(values.reverse()),
            ),
        decreases values.len(),
    {
        let full = self.push_all(values).0;
        if values.len() > 0 {
            let v = values.first();
            let rest = values.drop_first();
            let sp = self.reg(Register::Sp);
            let pushed = self.push(v).0;
            pushed.lemma_stack_lifo(rest);
            let popped = MachineView { memory: full.memory, ..pushed };
            // The word pushed first is still where it was put.
            crate::memory::lemma_word_stored(self.memory, sp, v);
            pushed.lemma_pushes_keep_word(rest, sp, 1);
            assert(crate::memory::word_at(full.memory, sp) == Some(v));
            assert(popped.registers.update(Register::Sp.id(), sp) =~= self.registers);
            assert(rest.reverse().push(v) =~= values.reverse());
        }
    }

    /// `AddStack` on two pushed values leaves their sum as the one value on
    /// the stack: after pushing `a` and then `b`, the instruction succeeds,
    /// leaves `Sp` two below where it stood, and the next pop returns the
    /// sum, taken modulo 65536, and brings `Sp`, like every other register,
    /// back to where it was before the two pushes.
    pub proof fn lemma_add_stack(self, a: u16, b: u16)
        requires
            self.wf(),
            self.push(a).1 is Ok,
            self.push(a).0.push(b).1 is Ok,
        ensures
            ({
                let both = self.push(a).0.push(b).0;
                &&& both.execute(Instruction::AddStack) matches Outcome::Finished(after, r)
                &&& r is Ok
                &&& after.reg(Register::Sp) == both.reg(Register::Sp).wrapping_sub(2)
                &&& after.pop().1 == Ok::<u16, MachineErr>(b.wrapping_add(a))
                &&& after.pop().0.registers == self.registers
            }),
    {
        let sp = self.reg(Register::Sp);
        let one = self.push(a).0;
        let both = one.push(b).0;
        // The two pops return b, then a, and restore the registers.
        one.lemma_pop_after_push(b);
        crate::memory::lemma_word_stored(self.memory, sp, a);
        crate::memory::lemma_word_stored(one.memory, one.reg(Register::Sp), b);
        let first = both.pop().0;
        assert(crate::memory::word_at(first.memory, sp) == Some(a));
        let second = first.pop().0;
        assert(second.registers == self.registers);
        // The sum goes where a was.
        second.lemma_pop_after_push(b.wrapping_add(a));
    }
}

} // verus!
