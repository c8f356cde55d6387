//! The execution engine: an owned machine and its fetch-decode-execute
//! cycle.

use crate::display::{blank_screen, draw_sprite_spec, Display};
use crate::error::{LoadError, StepError};
use crate::instruction::{decode, Instruction};
use crate::keyboard::Keyboard;
use crate::machine::{
    add_with_carry, bytes_at, flag, load_registers, shift_left, shift_right, store_bcd,
    store_registers, sub_from_with_borrow, sub_with_borrow, MachineState,
};
use crate::memory::{Memory, MEMORY_SIZE, ROM_SIZE, START_ROM};
use crate::random::{random_in_range, seeded_generator};
use crate::registers::{RegisterFile, Registers, FLAG_REGISTER, STACK_DEPTH};
use vstd::prelude::*;

verus! {

/// Seed of the generator behind the `Random` instruction. It is fixed, so a
/// program sees the same bytes on every run.
pub const RNG_SEED: u64 = 9122022;

/// What a cycle amounts to: the state it left behind, or the error it
/// reported.
pub open spec fn outcome(res: Result<(), StepError>, after: MachineState) -> Result<
    MachineState,
    StepError,
> {
    match res {
        Ok(()) => Ok(after),
        Err(e) => Err(e),
    }
}

/// A machine: registers, memory, screen, keypad and a random generator. Its
/// view is the `MachineState` of the first four.
pub struct Interpreter {
    registers: Registers,
    memory: Memory,
    display: Display,
    keyboard: Keyboard,
    /// Source of the bytes for the `Random` instruction.
    rng: rand_chacha::ChaCha8Rng,
}

impl View for Interpreter {
    type V = MachineState;

    closed spec fn view(&self) -> MachineState {
        MachineState {
            regs: self.registers@,
            memory: self.memory@,
            pixels: self.display@,
            keys: self.keyboard@,
        }
    }
}

impl Interpreter {
    /// The view of every machine is well formed.
    pub proof fn lemma_wf(&self)
        ensures
            self@.wf(),
    {
        self.registers.lemma_wf();
        self.memory.lemma_len();
        self.display.lemma_len();
        self.keyboard.lemma_wf();
    }

    /// A machine with the font table and the program image `bytes` in
    /// memory, ready to run the image from its first byte. An image of more
    /// than `ROM_SIZE` bytes is refused.
    pub fn with_rom(bytes: &[u8]) -> (res: Result<Self, LoadError>)
        ensures
            bytes@.len() > ROM_SIZE ==> (res matches Err(e) && e == LoadError::RomTooLarge),
            bytes@.len() <= ROM_SIZE ==> (res matches Ok(m) && m@ == MachineState::booted(bytes@)),
    {
        let mut memory = Memory::new();
        match memory.load_rom(bytes) {
            Ok(()) => {},
            Err(e) => {
                return Err(e);
            },
        }
        let mut registers = Registers::default();
        registers.set_pc(START_ROM as u16);

        let display = Display::new();
        let keyboard = Keyboard::new();

        let rng = seeded_generator(RNG_SEED);
        Ok(Interpreter { registers, memory, display, keyboard, rng })
    }

    /// Runs one instruction cycle. The random byte that a `Random`
    /// instruction uses comes from the machine's generator, and is drawn only
    /// when the instruction at the program counter is one.
    pub fn step(&mut self) -> (res: Result<(), StepError>)
        ensures
            res is Err ==> final(self)@ == old(self)@,
            !old(self)@.draws_random() ==> outcome(res, final(self)@) == old(self)@.step(0),
            exists|random: u8| outcome(res, final(self)@) == #[trigger] old(self)@.step(random),
    {
        let random: u8 = if self.next_draws_random() {
            random_in_range(&mut self.rng, 0, 255)
        } else {
            0
        };
        self.step_with(random)
    }

    /// Runs one instruction cycle, with `random` as the byte that a `Random`
    /// instruction uses: counts the timers down, then carries out the
    /// instruction at the program counter. When the cycle reports an error,
    /// nothing has changed, the timers included.
    pub fn step_with(&mut self, random: u8) -> (res: Result<(), StepError>)
        ensures
            outcome(res, final(self)@) == old(self)@.step(random),
            res is Err ==> final(self)@ == old(self)@,
    {
        let word: u16 = match self.fetch() {
            Ok(word) => word,
            Err(e) => {
                return Err(e);
            },
        };
        let instr: Instruction = match decode(word) {
            Ok(instr) => instr,
            Err(e) => {
                return Err(StepError::Decode(e));
            },
        };
        match self.check(instr) {
            Some(e) => {
                return Err(e);
            },
            None => {},
        }
        self.registers.tick();
        self.execute(instr, random)
    }

    /// Passes over the instruction at the program counter without carrying
    /// it out: the timers count down and the program counter moves two bytes
    /// on. This is for a host that chooses to go on after an unknown opcode.
    /// Where the program counter cannot move that far, nothing changes.
    pub fn skip_instruction(&mut self) -> (res: Result<(), StepError>)
        ensures
            old(self)@.regs.pc + 2 <= 0xFFFF ==> res is Ok && final(self)@ == old(self)@.with_regs(
                old(self)@.regs.tick(),
            ).advance(2),
            old(self)@.regs.pc + 2 > 0xFFFF ==> res == Err::<(), StepError>(
                StepError::AddressOutOfRange,
            ) && final(self)@ == old(self)@,
    {
        if self.registers.pc() > 0xFFFD {
            return Err(StepError::AddressOutOfRange);
        }
        self.registers.tick();
        self.advance(2);
        Ok(())
    }

    /// The instruction word at the program counter.
    fn fetch(&self) -> (res: Result<u16, StepError>)
        ensures
            self@.fetch() matches Some(word) ==> res == Ok::<u16, StepError>(word),
            self@.fetch() is None ==> res == Err::<u16, StepError>(StepError::AddressOutOfRange),
    {
        let pc: usize = self.registers.pc() as usize;
        if pc + 1 >= MEMORY_SIZE {
            return Err(StepError::AddressOutOfRange);
        }
        let first_byte: u8 = self.memory.get(pc);
        let second_byte: u8 = self.memory.get(pc + 1);
        Ok(first_byte as u16 * 256 + second_byte as u16)
    }

    /// Whether the instruction at the program counter is a `Random` one.
    fn next_draws_random(&self) -> (b: bool)
        ensures
            b == self@.draws_random(),
    {
        match self.fetch() {
            Ok(word) => match decode(word) {
                Ok(Instruction::Random { .. }) => true,
                _ => false,
            },
            Err(_) => false,
        }
    }

    /// The condition that keeps `instr` from being carried out now, if there
    /// is one.
    fn check(&self, instr: Instruction) -> (res: Option<StepError>)
        requires
            instr.wf(),
        ensures
            res == self@.fault(instr),
    {
        let i: usize = self.registers.i() as usize;
        match instr {
            Instruction::Return => match self.registers.top() {
                None => Some(StepError::StackUnderflow),
                Some(addr) => if addr > 0xFFFD {
                    Some(StepError::AddressOutOfRange)
                } else {
                    None
                },
            },
            Instruction::Call { .. } => if self.registers.sp() >= STACK_DEPTH {
                Some(StepError::StackOverflow)
            } else {
                None
            },
            Instruction::Draw { rows, .. } => if rows > 0 && i + rows as usize > MEMORY_SIZE {
                Some(StepError::AddressOutOfRange)
            } else {
                None
            },
            Instruction::SkipIfKeyDown { x } | Instruction::SkipIfKeyUp { x } => if self.registers.v(
                x as usize,
            ) >= 16 {
                Some(StepError::InvalidKey)
            } else {
                None
            },
            Instruction::StoreBcd { .. } => if i + 2 >= MEMORY_SIZE {
                Some(StepError::AddressOutOfRange)
            } else {
                None
            },
            Instruction::StoreRegisters { x } | Instruction::LoadRegisters { x } => if i
                + x as usize >= MEMORY_SIZE {
                Some(StepError::AddressOutOfRange)
            } else {
                None
            },
            _ => None,
        }
    }

    /// Moves the program counter `by` bytes forward.
    fn advance(&mut self, by: u16)
        requires
            old(self)@.regs.pc + by <= 0xFFFF,
        ensures
            final(self)@ == old(self)@.advance(by as int),
    {
        let pc: u16 = self.registers.pc();
        self.registers.set_pc(pc + by);
    }

    /// Carries out `instr` and moves the program counter on.
    fn execute(&mut self, instr: Instruction, random: u8) -> (res: Result<(), StepError>)
        requires
            instr.wf(),
            old(self)@.fault(instr) is None,
            old(self)@.regs.pc + 4 <= 0xFFFF,
        ensures
            res is Ok,
            final(self)@ == old(self)@.execute(instr, random),
    {
        proof {
            self.lemma_wf();
        }
        match instr {
            Instruction::ClearScreen => self.handle_clear(),
            Instruction::Return => {
                match self.handle_ret() {
                    Ok(()) => {},
                    Err(e) => {
                        return Err(e);
                    },
                }
            },
            Instruction::Jump { addr } => {
                self.handle_jump(addr);
                return Ok(());
            },
            Instruction::Call { addr } => {
                return self.handle_call(addr);
            },
            Instruction::SkipIfEqual { x, byte } => self.handle_skip_if_equal_immediate(
                x as usize,
                byte,
            ),
            Instruction::SkipIfNotEqual { x, byte } => self.handle_skip_if_not_equal_immediate(
                x as usize,
                byte,
            ),
            Instruction::SkipIfRegistersEqual { x, y } => self.handle_skip_if_equal_register(
                x as usize,
                y as usize,
            ),
            Instruction::LoadByte { x, byte } => self.handle_load_register_immediate(
                x as usize,
                byte,
            ),
            Instruction::AddByte { x, byte } => self.handle_add_register_immediate(
                x as usize,
                byte,
            ),
            Instruction::Move { x, y } => self.handle_load_register_register(
                x as usize,
                y as usize,
            ),
            Instruction::Or { x, y } => self.handle_or_register_register(x as usize, y as usize),
            Instruction::And { x, y } => self.handle_and_register_register(x as usize, y as usize),
            Instruction::Xor { x, y } => self.handle_xor_register_register(x as usize, y as usize),
            Instruction::Add { x, y } => self.handle_add_register_register(x as usize, y as usize),
            Instruction::Sub { x, y } => self.handle_sub_register_register(x as usize, y as usize),
            Instruction::ShiftRight { x, y } => self.handle_shift_right_register_one(
                x as usize,
                y as usize,
            ),
            Instruction::SubFrom { x, y } => self.handle_sub_register_register_negated(
                x as usize,
                y as usize,
            ),
            Instruction::ShiftLeft { x, y } => self.handle_shift_left_register_one(
                x as usize,
                y as usize,
            ),
            Instruction::SkipIfRegistersNotEqual { x, y } => self.handle_skip_if_not_equal_register(
                x as usize,
                y as usize,
            ),
            Instruction::LoadIndex { addr } => self.handle_load_immediate_into_i(addr),
            Instruction::JumpOffset { addr } => {
                self.handle_jump_relative(addr);
                return Ok(());
            },
            Instruction::Random { x, byte } => self.handle_random(x as usize, byte, random),
            Instruction::Draw { x, y, rows } => self.handle_draw_sprite(x, y, rows),
            Instruction::SkipIfKeyDown { x } => self.handle_skip_if_key_pressed(x as usize),
            Instruction::SkipIfKeyUp { x } => self.handle_skip_if_key_not_pressed(x as usize),
            Instruction::ReadDelay { x } => self.handle_store_delay_timer_register(x as usize),
            Instruction::WaitKey { x } => {
                self.handle_wait_for_keypress(x as usize);
                return Ok(());
            },
            Instruction::SetDelay { x } => self.handle_load_delay_timer_register(x as usize),
            Instruction::SetSound { x } => self.handle_load_sound_timer_register(x as usize),
            Instruction::AddIndex { x } => self.handle_add_i_register(x as usize),
            Instruction::LoadGlyph { x } => self.handle_load_digit_sprite_location(x as usize),
            Instruction::StoreBcd { x } => self.handle_load_bcd(x as usize),
            Instruction::StoreRegisters { x } => self.handle_store_registers_in_memory(x as usize),
            Instruction::LoadRegisters { x } => self.handle_load_registers_from_memory(x as usize),
        }
        self.advance(2);
        Ok(())
    }

    /// `00E0`: turns every pixel off.
    fn handle_clear(&mut self)
        ensures
            final(self)@ == (MachineState { pixels: blank_screen(), ..old(self)@ }),
    {
        self.display.clear();
    }

    /// `00EE`: puts the program counter back on the call that is returned
    /// from; the cycle then moves it past that call.
    fn handle_ret(&mut self) -> (res: Result<(), StepError>)
        ensures
            old(self)@.regs.stack.len() > 0 ==> res is Ok && final(self)@ == old(self)@.with_regs(
                old(self)@.regs.pop(),
            ),
            old(self)@.regs.stack.len() == 0 ==> res == Err::<(), StepError>(
                StepError::StackUnderflow,
            ) && final(self)@ == old(self)@,
    {
        self.registers.pop()
    }

    /// `1nnn`: continues at `n`.
    fn handle_jump(&mut self, n: u16)
        ensures
            final(self)@ == old(self)@.with_pc(n),
    {
        self.registers.set_pc(n);
    }

    /// `2nnn`: remembers the program counter on the stack and continues at
    /// `n`.
    fn handle_call(&mut self, n: u16) -> (res: Result<(), StepError>)
        ensures
            old(self)@.regs.stack.len() < 16 ==> res is Ok && final(self)@ == old(self)@.with_regs(
                old(self)@.regs.push(n),
            ),
            old(self)@.regs.stack.len() >= 16 ==> res == Err::<(), StepError>(
                StepError::StackOverflow,
            ) && final(self)@ == old(self)@,
    {
        self.registers.push(n)
    }

    /// `3xkk`: skips the next instruction if `Vx == k`.
    fn handle_skip_if_equal_immediate(&mut self, x: usize, k: u8)
        requires
            x < 16,
            old(self)@.regs.pc + 2 <= 0xFFFF,
        ensures
            final(self)@ == old(self)@.skip_if(old(self)@.regs.v[x as int] == k),
    {
        if self.registers.v(x) == k {
            self.advance(2);
        }
    }

    /// `4xkk`: skips the next instruction if `Vx != k`.
    fn handle_skip_if_not_equal_immediate(&mut self, x: usize, k: u8)
        requires
            x < 16,
            old(self)@.regs.pc + 2 <= 0xFFFF,
        ensures
            final(self)@ == old(self)@.skip_if(old(self)@.regs.v[x as int] != k),
    {
        if self.registers.v(x) != k {
            self.advance(2);
        }
    }

    /// `5xy0`: skips the next instruction if `Vx == Vy`.
    fn handle_skip_if_equal_register(&mut self, x: usize, y: usize)
        requires
            x < 16,
            y < 16,
            old(self)@.regs.pc + 2 <= 0xFFFF,
        ensures
            final(self)@ == old(self)@.skip_if(
                old(self)@.regs.v[x as int] == old(self)@.regs.v[y as int],
            ),
    {
        if self.registers.v(x) == self.registers.v(y) {
            self.advance(2);
        }
    }

    /// `6xkk`: `Vx = k`.
    fn handle_load_register_immediate(&mut self, x: usize, k: u8)
        requires
            x < 16,
        ensures
            final(self)@ == old(self)@.with_v(old(self)@.regs.v.update(x as int, k)),
    {
        self.registers.set_v(x, k);
    }

    /// `7xkk`: `Vx = Vx + k` modulo 256.
    fn handle_add_register_immediate(&mut self, x: usize, k: u8)
        requires
            x < 16,
        ensures
            final(self)@ == old(self)@.with_v(
                old(self)@.regs.v.update(x as int, ((old(self)@.regs.v[x as int] + k) % 256) as u8),
            ),
    {
        let result: u8 = self.registers.v(x).wrapping_add(k);
        self.registers.set_v(x, result);
    }

    /// `8xy0`: `Vx = Vy`.
    fn handle_load_register_register(&mut self, x: usize, y: usize)
        requires
            x < 16,
            y < 16,
        ensures
            final(self)@ == old(self)@.with_v(
                old(self)@.regs.v.update(x as int, old(self)@.regs.v[y as int]),
            ),
    {
        let b: u8 = self.registers.v(y);
        self.registers.set_v(x, b);
    }

    /// `8xy1`: `Vx = Vx | Vy`.
    fn handle_or_register_register(&mut self, x: usize, y: usize)
        requires
            x < 16,
            y < 16,
        ensures
            final(self)@ == old(self)@.with_v(
                old(self)@.regs.v.update(
                    x as int,
                    old(self)@.regs.v[x as int] | old(self)@.regs.v[y as int],
                ),
            ),
    {
        let a: u8 = self.registers.v(x);
        let b: u8 = self.registers.v(y);
        self.registers.set_v(x, a | b);
    }

    /// `8xy2`: `Vx = Vx & Vy`.
    fn handle_and_register_register(&mut self, x: usize, y: usize)
        requires
            x < 16,
            y < 16,
        ensures
            final(self)@ == old(self)@.with_v(
                old(self)@.regs.v.update(
                    x as int,
                    old(self)@.regs.v[x as int] & old(self)@.regs.v[y as int],
                ),
            ),
    {
        let a: u8 = self.registers.v(x);
        let b: u8 = self.registers.v(y);
        self.registers.set_v(x, a & b);
    }

    /// `8xy3`: `Vx = Vx ^ Vy`.
    fn handle_xor_register_register(&mut self, x: usize, y: usize)
        requires
            x < 16,
            y < 16,
        ensures
            final(self)@ == old(self)@.with_v(
                old(self)@.regs.v.update(
                    x as int,
                    old(self)@.regs.v[x as int] ^ old(self)@.regs.v[y as int],
                ),
            ),
    {
        let a: u8 = self.registers.v(x);
        let b: u8 = self.registers.v(y);
        self.registers.set_v(x, a ^ b);
    }

    /// Writes 1 to `VF` if `on` holds and 0 otherwise.
    fn set_flag(&mut self, on: bool)
        ensures
            final(self)@ == old(self)@.with_v(old(self)@.regs.v.update(0xF, flag(on))),
    {
        if on {
            self.registers.set_v(FLAG_REGISTER, 1);
        } else {
            self.registers.set_v(FLAG_REGISTER, 0);
        }
    }

    /// `8xy4`: `Vx = Vx + Vy` modulo 256, `VF` = 1 if the sum exceeds 255
    /// and 0 otherwise.
    fn handle_add_register_register(&mut self, x: usize, y: usize)
        requires
            x < 16,
            y < 16,
        ensures
            final(self)@ == old(self)@.with_v(add_with_carry(old(self)@.regs.v, x as int, y as int)),
    {
        let a: u8 = self.registers.v(x);
        let b: u8 = self.registers.v(y);

        let sum: u16 = a as u16 + b as u16;
        let overflow: bool = sum > 255;
        let result: u8 = (sum % 256) as u8;
        self.registers.set_v(x, result);

        self.set_flag(overflow);
    }

    /// `8xy5`: `Vx = Vx - Vy` modulo 256, `VF` = 1 if `Vx > Vy` and 0
    /// otherwise.
    fn handle_sub_register_register(&mut self, x: usize, y: usize)
        requires
            x < 16,
            y < 16,
        ensures
            final(self)@ == old(self)@.with_v(
                sub_with_borrow(old(self)@.regs.v, x as int, y as int),
            ),
    {
        let a: u8 = self.registers.v(x);
        let b: u8 = self.registers.v(y);

        let result: u8 = a.wrapping_sub(b);

        self.registers.set_v(x, result);

        self.set_flag(a > b);
    }

    /// `8xy6`: `Vx = Vx >> 1`, `VF` = the bit shifted out.
    fn handle_shift_right_register_one(&mut self, x: usize, _y: usize)
        requires
            x < 16,
        ensures
            final(self)@ == old(self)@.with_v(shift_right(old(self)@.regs.v, x as int)),
    {
        let a: u8 = self.registers.v(x);

        let underflow: bool = a & 1 == 1;
        let result: u8 = a >> 1;
        assert(a >> 1 == a / 2) by (bit_vector);
        assert((a & 1 == 1) == (a % 2 == 1)) by (bit_vector);

        self.registers.set_v(x, result);

        self.set_flag(underflow);
    }

    /// `8xy7`: `Vx = Vy - Vx` modulo 256, `VF` = 1 if `Vy > Vx` and 0
    /// otherwise.
    fn handle_sub_register_register_negated(&mut self, x: usize, y: usize)
        requires
            x < 16,
            y < 16,
        ensures
            final(self)@ == old(self)@.with_v(
                sub_from_with_borrow(old(self)@.regs.v, x as int, y as int),
            ),
    {
        let a: u8 = self.registers.v(x);
        let b: u8 = self.registers.v(y);

        let result: u8 = b.wrapping_sub(a);

        self.registers.set_v(x, result);

        self.set_flag(b > a);
    }

    /// `8xyE`: `Vx = Vx << 1` modulo 256, `VF` = the bit shifted out.
    fn handle_shift_left_register_one(&mut self, x: usize, _y: usize)
        requires
            x < 16,
        ensures
            final(self)@ == old(self)@.with_v(shift_left(old(self)@.regs.v, x as int)),
    {
        let a: u8 = self.registers.v(x);

        let overflow: bool = a & 0b1000_0000 != 0;
        let result: u8 = a << 1;
        assert(a << 1 == (a * 2) % 256) by (bit_vector);
        assert((a & 0b1000_0000 != 0) == (a >= 128)) by (bit_vector);

        self.registers.set_v(x, result);

        self.set_flag(overflow);
    }

    /// `9xy0`: skips the next instruction if `Vx != Vy`.
    fn handle_skip_if_not_equal_register(&mut self, x: usize, y: usize)
        requires
            x < 16,
            y < 16,
            old(self)@.regs.pc + 2 <= 0xFFFF,
        ensures
            final(self)@ == old(self)@.skip_if(
                old(self)@.regs.v[x as int] != old(self)@.regs.v[y as int],
            ),
    {
        if self.registers.v(x) != self.registers.v(y) {
            self.advance(2);
        }
    }

    /// `Annn`: `I = n`.
    fn handle_load_immediate_into_i(&mut self, n: u16)
        ensures
            final(self)@ == old(self)@.with_i(n),
    {
        self.registers.set_i(n);
    }

    /// `Bnnn`: continues at `n + V0`.
    fn handle_jump_relative(&mut self, n: u16)
        requires
            n < 0x1000,
        ensures
            final(self)@ == old(self)@.with_pc((n + old(self)@.regs.v[0]) as u16),
    {
        let offset: u16 = self.registers.v(0) as u16;
        self.registers.set_pc(n + offset);
    }

    /// `Cxkk`: `Vx = random & k`.
    fn handle_random(&mut self, x: usize, k: u8, random: u8)
        requires
            x < 16,
        ensures
            final(self)@ == old(self)@.with_v(old(self)@.regs.v.update(x as int, random & k)),
    {
        self.registers.set_v(x, random & k);
    }

    /// `Dxyn`: XORs the `n`-byte sprite at `I` onto the screen at
    /// `(Vx, Vy)`, wrapping around the edges, and sets `VF` to 1 if that
    /// turned a lit pixel off and to 0 otherwise.
    fn handle_draw_sprite(&mut self, x: u8, y: u8, n: u8)
        requires
            x < 16,
            y < 16,
            n > 0 ==> old(self)@.regs.i + n <= 4096,
        ensures
            ({
                let s = old(self)@;
                let drawn = draw_sprite_spec(
                    s.pixels,
                    s.regs.v[x as int] as int,
                    s.regs.v[y as int] as int,
                    bytes_at(s.memory, s.regs.i as int, n as int),
                );
                final(self)@ == (MachineState {
                    pixels: drawn.0,
                    ..s.with_v(s.regs.v.update(0xF, flag(drawn.1)))
                })
            }),
    {
        proof {
            self.lemma_wf();
        }
        let col: usize = self.registers.v(x as usize) as usize;
        let row: usize = self.registers.v(y as usize) as usize;
        let start: usize = if n > 0 {
            self.registers.i() as usize
        } else {
            0
        };
        let sprite = self.memory.slice(start, n as usize);
        assert(sprite@ =~= bytes_at(self@.memory, self@.regs.i as int, n as int));

        let was_cleared: bool = self.display.draw_sprite(col, row, sprite);

        self.set_flag(was_cleared);
    }

    /// `Ex9E`: skips the next instruction if the key whose number is in `Vx`
    /// is down.
    fn handle_skip_if_key_pressed(&mut self, x: usize)
        requires
            x < 16,
            old(self)@.regs.v[x as int] < 16,
            old(self)@.regs.pc + 2 <= 0xFFFF,
        ensures
            final(self)@ == old(self)@.skip_if(
                old(self)@.keys.is_down(old(self)@.regs.v[x as int] as int),
            ),
    {
        let keycode: u8 = self.registers.v(x);

        if self.keyboard.is_pressed(keycode) {
            self.advance(2);
        }
    }

    /// `ExA1`: skips the next instruction if the key whose number is in `Vx`
    /// is up.
    fn handle_skip_if_key_not_pressed(&mut self, x: usize)
        requires
            x < 16,
            old(self)@.regs.v[x as int] < 16,
            old(self)@.regs.pc + 2 <= 0xFFFF,
        ensures
            final(self)@ == old(self)@.skip_if(
                !old(self)@.keys.is_down(old(self)@.regs.v[x as int] as int),
            ),
    {
        let keycode: u8 = self.registers.v(x);

        if !self.keyboard.is_pressed(keycode) {
            self.advance(2);
        }
    }

    /// `Fx07`: `Vx` = delay timer.
    fn handle_store_delay_timer_register(&mut self, x: usize)
        requires
            x < 16,
        ensures
            final(self)@ == old(self)@.with_v(
                old(self)@.regs.v.update(x as int, old(self)@.regs.delay),
            ),
    {
        let delay: u8 = self.registers.delay();
        self.registers.set_v(x, delay);
    }

    /// `Fx0A`: polls the keypad. Once a key has been released since the wait
    /// began, `Vx` receives it and the program counter moves on; until then
    /// nothing but the keypad's latch changes, so the instruction runs again
    /// on the next cycle.
    fn handle_wait_for_keypress(&mut self, x: usize)
        requires
            x < 16,
            old(self)@.regs.pc + 2 <= 0xFFFF,
        ensures
            ({
                let s = old(self)@;
                let polled = s.keys.poll();
                let waiting = MachineState { keys: polled.0, ..s };
                final(self)@ == match polled.1 {
                    Some(key) => waiting.with_v(s.regs.v.update(x as int, key)).advance(2),
                    None => waiting,
                }
            }),
    {
        if let Some(keycode) = self.keyboard.wait_for_keypress() {
            self.registers.set_v(x, keycode);
            self.advance(2);
        }
    }

    /// `Fx15`: delay timer = `Vx`.
    fn handle_load_delay_timer_register(&mut self, x: usize)
        requires
            x < 16,
        ensures
            final(self)@ == old(self)@.with_regs(
                RegisterFile { delay: old(self)@.regs.v[x as int], ..old(self)@.regs },
            ),
    {
        let value: u8 = self.registers.v(x);
        self.registers.set_delay(value);
    }

    /// `Fx18`: sound timer = `Vx`.
    fn handle_load_sound_timer_register(&mut self, x: usize)
        requires
            x < 16,
        ensures
            final(self)@ == old(self)@.with_regs(
                RegisterFile { sound: old(self)@.regs.v[x as int], ..old(self)@.regs },
            ),
    {
        let value: u8 = self.registers.v(x);
        self.registers.set_sound(value);
    }

    /// `Fx29`: `I` = address of the five-byte glyph for the value of `Vx`.
    fn handle_load_digit_sprite_location(&mut self, x: usize)
        requires
            x < 16,
        ensures
            final(self)@ == old(self)@.with_i((old(self)@.regs.v[x as int] * 5) as u16),
    {
        let digit: u16 = self.registers.v(x) as u16;
        self.registers.set_i(digit * 5);
    }

    /// `Fx1E`: `I = I + Vx` modulo 65536.
    fn handle_add_i_register(&mut self, x: usize)
        requires
            x < 16,
        ensures
            final(self)@ == old(self)@.with_i(
                ((old(self)@.regs.i + old(self)@.regs.v[x as int]) % 0x10000) as u16,
            ),
    {
        let result: u16 = self.registers.i().wrapping_add(self.registers.v(x) as u16);
        self.registers.set_i(result);
    }

    /// `Fx33`: stores the hundreds, tens and ones digit of `Vx` at `I`,
    /// `I + 1` and `I + 2`.
    fn handle_load_bcd(&mut self, x: usize)
        requires
            x < 16,
            old(self)@.regs.i + 2 < 4096,
        ensures
            final(self)@ == (MachineState {
                memory: store_bcd(
                    old(self)@.memory,
                    old(self)@.regs.i as int,
                    old(self)@.regs.v[x as int],
                ),
                ..old(self)@
            }),
    {
        let i: usize = self.registers.i() as usize;
        let vx: u8 = self.registers.v(x);

        self.memory.set(i, vx / 100);
        self.memory.set(i + 1, (vx % 100) / 10);
        self.memory.set(i + 2, vx % 10);
    }

    /// `Fx55`: stores `V0..=Vx` at `I` and the bytes after it.
    fn handle_store_registers_in_memory(&mut self, x: usize)
        requires
            x < 16,
            old(self)@.regs.i + x < 4096,
        ensures
            final(self)@ == (MachineState {
                memory: store_registers(
                    old(self)@.memory,
                    old(self)@.regs.i as int,
                    old(self)@.regs.v,
                    x as int,
                ),
                ..old(self)@
            }),
    {
        proof {
            self.lemma_wf();
        }
        let i: usize = self.registers.i() as usize;
        let mut offset: usize = 0;
        while offset <= x
            invariant
                x < 16,
                offset <= x + 1,
                i + x < 4096,
                i == self@.regs.i,
                self@.regs == old(self)@.regs,
                self@.pixels == old(self)@.pixels,
                self@.keys == old(self)@.keys,
                self@.memory.len() == 4096,
                forall|a: int|
                    0 <= a < 4096 ==> self@.memory[a] == (if i <= a < i + offset {
                        old(self)@.regs.v[a - i]
                    } else {
                        old(self)@.memory[a]
                    }),
            decreases x + 1 - offset,
        {
            let value: u8 = self.registers.v(offset);
            self.memory.set(i + offset, value);
            offset = offset + 1;
        }
        proof {
            old(self).lemma_wf();
            assert(self@.memory =~= store_registers(
                old(self)@.memory,
                old(self)@.regs.i as int,
                old(self)@.regs.v,
                x as int,
            ));
        }
    }

    /// `Fx65`: loads `V0..=Vx` from `I` and the bytes after it.
    fn handle_load_registers_from_memory(&mut self, x: usize)
        requires
            x < 16,
            old(self)@.regs.i + x < 4096,
        ensures
            final(self)@ == old(self)@.with_v(
                load_registers(
                    old(self)@.regs.v,
                    old(self)@.memory,
                    old(self)@.regs.i as int,
                    x as int,
                ),
            ),
    {
        proof {
            self.lemma_wf();
        }
        let i: usize = self.registers.i() as usize;
        let mut offset: usize = 0;
        while offset <= x
            invariant
                x < 16,
                offset <= x + 1,
                i + x < 4096,
                i == old(self)@.regs.i,
                self@.memory == old(self)@.memory,
                self@.pixels == old(self)@.pixels,
                self@.keys == old(self)@.keys,
                self@.regs == (RegisterFile { v: self@.regs.v, ..old(self)@.regs }),
                self@.regs.v.len() == 16,
                forall|k: int|
                    0 <= k < 16 ==> self@.regs.v[k] == (if k < offset {
                        old(self)@.memory[i + k]
                    } else {
                        old(self)@.regs.v[k]
                    }),
            decreases x + 1 - offset,
        {
            let value: u8 = self.memory.get(i + offset);
            self.registers.set_v(offset, value);
            offset = offset + 1;
        }
        proof {
            old(self).lemma_wf();
            assert(self@.regs.v =~= load_registers(
                old(self)@.regs.v,
                old(self)@.memory,
                old(self)@.regs.i as int,
                x as int,
            ));
        }
    }

    /// The screen, for rendering.
    pub fn display(&self) -> (d: &Display)
        ensures
            d@ == self@.pixels,
    {
        &self.display
    }

    /// The keypad.
    pub fn keyboard(&self) -> (k: &Keyboard)
        ensures
            k@ == self@.keys,
    {
        &self.keyboard
    }

    /// The keypad, for feeding key presses and releases into the machine.
    /// Whatever is done to it is done to the machine's keypad and to nothing
    /// else.
    pub fn keyboard_mut(&mut self) -> (k: &mut Keyboard)
        ensures
            k@ == old(self)@.keys,
            final(self)@ == (MachineState { keys: final(k)@, ..old(self)@ }),
    {
        &mut self.keyboard
    }

    /// Whether the sound timer is running, which is when the tone is to be
    /// heard.
    pub fn sound_timer_active(&self) -> (active: bool)
        ensures
            active == (self@.regs.sound > 0),
    {
        self.registers.sound() > 0
    }

    /// The register file.
    pub fn registers(&self) -> (r: &Registers)
        ensures
            r@ == self@.regs,
    {
        &self.registers
    }

    /// The register file, for setting a machine up.
    pub fn registers_mut(&mut self) -> (r: &mut Registers)
        ensures
            r@ == old(self)@.regs,
            final(self)@ == (MachineState { regs: final(r)@, ..old(self)@ }),
    {
        &mut self.registers
    }

    /// The memory.
    pub fn memory(&self) -> (m: &Memory)
        ensures
            m@ == self@.memory,
    {
        &self.memory
    }

    /// The memory, for setting a machine up.
    pub fn memory_mut(&mut self) -> (m: &mut Memory)
        ensures
            m@ == old(self)@.memory,
            final(self)@ == (MachineState { memory: final(m)@, ..old(self)@ }),
    {
        &mut self.memory
    }
}

} // verus!
