//! The register file: sixteen 8-bit registers `V0..VF`, the index register
//! `I`, the program counter, the call stack and the two timers.

use crate::error::StepError;
use vstd::prelude::*;

verus! {

/// Number of return addresses the call stack can hold.
pub const STACK_DEPTH: u8 = 16;

/// Index of `VF`, the register that arithmetic, shift and draw instructions
/// use to report carry, borrow, the shifted-out bit or a collision.
pub const FLAG_REGISTER: usize = 0xF;

/// What a register file holds, as plain mathematical values.
pub struct RegisterFile {
    /// `V0..VF`.
    pub v: Seq<u8>,
    /// The index register `I`.
    pub i: u16,
    /// The program counter.
    pub pc: u16,
    /// The return addresses of the calls that have not returned yet, the
    /// oldest first. The stack pointer is the length of this sequence.
    pub stack: Seq<u16>,
    /// The delay timer.
    pub delay: u8,
    /// The sound timer.
    pub sound: u8,
}

impl RegisterFile {
    /// Sixteen registers, and no more calls outstanding than the stack has
    /// slots.
    pub open spec fn wf(self) -> bool {
        &&& self.v.len() == 16
        &&& self.stack.len() <= 16
    }

    /// The state at power-on: everything zero, no call outstanding.
    pub open spec fn reset() -> RegisterFile {
        RegisterFile {
            v: Seq::new(16, |k: int| 0u8),
            i: 0,
            pc: 0,
            stack: Seq::empty(),
            delay: 0,
            sound: 0,
        }
    }

    /// The state after a call to `addr`: the current program counter goes on
    /// top of the stack and execution continues at `addr`.
    pub open spec fn push(self, addr: u16) -> RegisterFile {
        RegisterFile { pc: addr, stack: self.stack.push(self.pc), ..self }
    }

    /// The state after a return: the program counter is taken from the top of
    /// the stack.
    pub open spec fn pop(self) -> RegisterFile {
        RegisterFile { pc: self.stack.last(), stack: self.stack.drop_last(), ..self }
    }

    /// The state after both timers have counted down once, stopping at zero.
    pub open spec fn tick(self) -> RegisterFile {
        RegisterFile {
            delay: if self.delay > 0 { (self.delay - 1) as u8 } else { 0 },
            sound: if self.sound > 0 { (self.sound - 1) as u8 } else { 0 },
            ..self
        }
    }
}

/// The register file of the machine. Its view is a `RegisterFile`.
pub struct Registers {
    /// `V0..VF`.
    vx: [u8; 16],
    /// The index register.
    i: u16,
    /// The program counter.
    pc: u16,
    /// The stack pointer: how many slots of `stack` are in use, never more
    /// than sixteen.
    sp: u8,
    /// The delay timer.
    delay: u8,
    /// The sound timer.
    sound: u8,
    /// The return addresses. The slots below `sp` are in use, and slot
    /// `sp - 1` is the top of the stack.
    stack: [u16; 16],
}

impl View for Registers {
    type V = RegisterFile;

    closed spec fn view(&self) -> RegisterFile {
        RegisterFile {
            v: self.vx@,
            i: self.i,
            pc: self.pc,
            // No register file has `sp` above 16; the bound is here so that
            // the view of any value at all is well formed.
            stack: self.stack@.take(
                if self.sp <= 16 {
                    self.sp as int
                } else {
                    16
                },
            ),
            delay: self.delay,
            sound: self.sound,
        }
    }
}

impl Default for Registers {
    /// The register file at power-on.
    fn default() -> (r: Self)
        ensures
            r@ == RegisterFile::reset(),
    {
        let r = Registers {
            vx: [0u8; 16],
            i: 0,
            pc: 0,
            sp: 0,
            delay: 0,
            sound: 0,
            stack: [0u16; 16],
        };
        assert(r.vx@ =~= RegisterFile::reset().v);
        assert(r.stack@.take(0) =~= Seq::<u16>::empty());
        r
    }
}

impl Registers {
    /// The stack pointer stays within the stack.
    #[verifier::type_invariant]
    spec fn inv(self) -> bool {
        self.sp <= 16
    }

    /// The view of every register file is well formed.
    pub proof fn lemma_wf(&self)
        ensures
            self@.wf(),
    {
    }

    /// Enters a subroutine: puts the current program counter on top of the
    /// stack and sets the program counter to `n`. With sixteen calls already
    /// outstanding it reports `StackOverflow` and changes nothing.
    pub fn push(&mut self, n: u16) -> (res: Result<(), StepError>)
        ensures
            old(self)@.stack.len() < 16 ==> res is Ok && final(self)@ == old(self)@.push(n),
            old(self)@.stack.len() >= 16 ==> res == Err::<(), StepError>(StepError::StackOverflow)
                && final(self)@ == old(self)@,
    {
        proof {
            use_type_invariant(&*self);
        }
        if self.sp >= STACK_DEPTH {
            return Err(StepError::StackOverflow);
        }
        let slot: usize = self.sp as usize;
        self.stack[slot] = self.pc;
        self.sp = self.sp + 1;
        self.pc = n;
        assert(self.stack@.take(self.sp as int) =~= old(self).stack@.take(old(self).sp as int).push(
            old(self).pc,
        ));
        Ok(())
    }

    /// Leaves a subroutine: sets the program counter to the address on top
    /// of the stack and removes that address. With no call outstanding it
    /// reports `StackUnderflow` and changes nothing.
    pub fn pop(&mut self) -> (res: Result<(), StepError>)
        ensures
            old(self)@.stack.len() > 0 ==> res is Ok && final(self)@ == old(self)@.pop(),
            old(self)@.stack.len() == 0 ==> res == Err::<(), StepError>(StepError::StackUnderflow)
                && final(self)@ == old(self)@,
    {
        proof {
            use_type_invariant(&*self);
        }
        if self.sp == 0 {
            return Err(StepError::StackUnderflow);
        }
        let slot: usize = (self.sp - 1) as usize;
        self.pc = self.stack[slot];
        self.sp = self.sp - 1;
        assert(self.stack@.take(self.sp as int)
            =~= old(self).stack@.take(old(self).sp as int).drop_last());
        Ok(())
    }

    /// Counts both timers down once; a timer at zero stays at zero.
    pub fn tick(&mut self)
        ensures
            final(self)@ == old(self)@.tick(),
    {
        proof {
            use_type_invariant(&*self);
        }
        self.delay = self.delay.saturating_sub(1);
        self.sound = self.sound.saturating_sub(1);
    }

    /// The value of register `Vx`.
    pub fn v(&self, x: usize) -> (val: u8)
        requires
            x < 16,
        ensures
            val == self@.v[x as int],
    {
        self.vx[x]
    }

    /// Sets register `Vx`.
    pub fn set_v(&mut self, x: usize, val: u8)
        requires
            x < 16,
        ensures
            final(self)@ == (RegisterFile { v: old(self)@.v.update(x as int, val), ..old(self)@ }),
    {
        proof {
            use_type_invariant(&*self);
        }
        self.vx[x] = val;
    }

    /// The index register.
    pub fn i(&self) -> (val: u16)
        ensures
            val == self@.i,
    {
        self.i
    }

    /// Sets the index register.
    pub fn set_i(&mut self, val: u16)
        ensures
            final(self)@ == (RegisterFile { i: val, ..old(self)@ }),
    {
        proof {
            use_type_invariant(&*self);
        }
        self.i = val;
    }

    /// The program counter.
    pub fn pc(&self) -> (val: u16)
        ensures
            val == self@.pc,
    {
        self.pc
    }

    /// Sets the program counter.
    pub fn set_pc(&mut self, val: u16)
        ensures
            final(self)@ == (RegisterFile { pc: val, ..old(self)@ }),
    {
        proof {
            use_type_invariant(&*self);
        }
        self.pc = val;
    }

    /// The stack pointer: the number of calls that have not returned yet.
    pub fn sp(&self) -> (val: u8)
        ensures
            val == self@.stack.len(),
    {
        proof {
            use_type_invariant(self);
        }
        self.sp
    }

    /// The return address on top of the stack, if a call is outstanding.
    pub fn top(&self) -> (addr: Option<u16>)
        ensures
            self@.stack.len() > 0 ==> addr == Some(self@.stack.last()),
            self@.stack.len() == 0 ==> addr is None,
    {
        proof {
            use_type_invariant(self);
        }
        if self.sp == 0 {
            None
        } else {
            Some(self.stack[(self.sp - 1) as usize])
        }
    }

    /// The delay timer.
    pub fn delay(&self) -> (val: u8)
        ensures
            val == self@.delay,
    {
        self.delay
    }

    /// Sets the delay timer.
    pub fn set_delay(&mut self, val: u8)
        ensures
            final(self)@ == (RegisterFile { delay: val, ..old(self)@ }),
    {
        proof {
            use_type_invariant(&*self);
        }
        self.delay = val;
    }

    /// The sound timer.
    pub fn sound(&self) -> (val: u8)
        ensures
            val == self@.sound,
    {
        self.sound
    }

    /// Sets the sound timer.
    pub fn set_sound(&mut self, val: u8)
        ensures
            final(self)@ == (RegisterFile { sound: val, ..old(self)@ }),
    {
        proof {
            use_type_invariant(&*self);
        }
        self.sound = val;
    }
}

} // verus!
