//! The machine as a mathematical object: its state as plain values, and one
//! instruction cycle as a function from state to state.

use crate::display::{blank_screen, draw_sprite_spec, lemma_draw_sprite_len};
use crate::error::{DecodeError, StepError};
use crate::instruction::{decode_spec, lemma_decode_exact, Instruction};
use crate::keyboard::{Keypad, WaitingState};
use crate::memory::{blank_memory, with_image};
use crate::registers::RegisterFile;
use vstd::prelude::*;

verus! {

/// The whole state of the machine that programs can observe.
pub struct MachineState {
    /// The register file.
    pub regs: RegisterFile,
    /// The 4096 bytes of memory.
    pub memory: Seq<u8>,
    /// The 2048 pixels of the frame buffer, row by row.
    pub pixels: Seq<bool>,
    /// The keypad.
    pub keys: Keypad,
}

/// 1 for `true`, 0 for `false`: how a condition is written to `VF`.
pub open spec fn flag(b: bool) -> u8 {
    if b {
        1
    } else {
        0
    }
}

/// The registers after `Vx` received `val` and then `VF` received the flag
/// `f`. The flag is written last, so it wins when `x` is `0xF`.
pub open spec fn with_flag(v: Seq<u8>, x: int, val: u8, f: bool) -> Seq<u8> {
    v.update(x, val).update(0xF, flag(f))
}

/// `Vx = Vx + Vy`, `VF` = 1 exactly when the sum exceeds 255.
pub open spec fn add_with_carry(v: Seq<u8>, x: int, y: int) -> Seq<u8> {
    with_flag(v, x, ((v[x] + v[y]) % 256) as u8, v[x] + v[y] > 255)
}

/// `Vx = Vx - Vy`, `VF` = 1 exactly when `Vx > Vy`.
pub open spec fn sub_with_borrow(v: Seq<u8>, x: int, y: int) -> Seq<u8> {
    with_flag(v, x, ((v[x] - v[y]) % 256) as u8, v[x] > v[y])
}

/// `Vx = Vy - Vx`, `VF` = 1 exactly when `Vy > Vx`.
pub open spec fn sub_from_with_borrow(v: Seq<u8>, x: int, y: int) -> Seq<u8> {
    with_flag(v, x, ((v[y] - v[x]) % 256) as u8, v[y] > v[x])
}

/// `Vx = Vx / 2`, `VF` = the least significant bit of `Vx`.
pub open spec fn shift_right(v: Seq<u8>, x: int) -> Seq<u8> {
    with_flag(v, x, v[x] / 2, v[x] % 2 == 1)
}

/// `Vx = 2 * Vx` modulo 256, `VF` = the most significant bit of `Vx`.
pub open spec fn shift_left(v: Seq<u8>, x: int) -> Seq<u8> {
    with_flag(v, x, ((v[x] * 2) % 256) as u8, v[x] >= 128)
}

/// The `len` bytes of `memory` from address `start` on.
pub open spec fn bytes_at(memory: Seq<u8>, start: int, len: int) -> Seq<u8> {
    Seq::new(len as nat, |k: int| memory[start + k])
}

/// Memory after the hundreds, tens and ones digit of `value` were stored at
/// `addr`, `addr + 1` and `addr + 2`.
pub open spec fn store_bcd(memory: Seq<u8>, addr: int, value: u8) -> Seq<u8> {
    memory.update(addr, value / 100).update(addr + 1, value % 100 / 10).update(
        addr + 2,
        value % 10,
    )
}

/// Memory after `V0..=Vx` were stored at `addr` and the bytes after it.
pub open spec fn store_registers(memory: Seq<u8>, addr: int, v: Seq<u8>, x: int) -> Seq<u8> {
    Seq::new(
        memory.len(),
        |a: int|
            if addr <= a <= addr + x {
                v[a - addr]
            } else {
                memory[a]
            },
    )
}

/// The registers after `V0..=Vx` were loaded from `addr` and the bytes after
/// it.
pub open spec fn load_registers(v: Seq<u8>, memory: Seq<u8>, addr: int, x: int) -> Seq<u8> {
    Seq::new(
        v.len(),
        |k: int|
            if k <= x {
                memory[addr + k]
            } else {
                v[k]
            },
    )
}

impl MachineState {
    /// Every part has its fixed size.
    pub open spec fn wf(self) -> bool {
        &&& self.regs.wf()
        &&& self.memory.len() == 4096
        &&& self.pixels.len() == 2048
        &&& self.keys.wf()
    }

    /// The state right after the program image `rom` was loaded: font and
    /// image in memory, the program counter at the load address, everything
    /// else cleared.
    pub open spec fn booted(rom: Seq<u8>) -> MachineState {
        MachineState {
            regs: RegisterFile { pc: 0x200, ..RegisterFile::reset() },
            memory: with_image(blank_memory(), rom),
            pixels: blank_screen(),
            keys: Keypad::released(),
        }
    }

    /// This state with other registers.
    pub open spec fn with_regs(self, regs: RegisterFile) -> MachineState {
        MachineState { regs, ..self }
    }

    /// This state with other values in `V0..VF`.
    pub open spec fn with_v(self, v: Seq<u8>) -> MachineState {
        MachineState { regs: RegisterFile { v, ..self.regs }, ..self }
    }

    /// This state with another program counter.
    pub open spec fn with_pc(self, pc: u16) -> MachineState {
        MachineState { regs: RegisterFile { pc, ..self.regs }, ..self }
    }

    /// This state with another index register.
    pub open spec fn with_i(self, i: u16) -> MachineState {
        MachineState { regs: RegisterFile { i, ..self.regs }, ..self }
    }

    /// This state with the program counter moved `by` bytes forward.
    pub open spec fn advance(self, by: int) -> MachineState {
        self.with_pc((self.regs.pc + by) as u16)
    }

    /// This state with the next instruction skipped if `cond` holds.
    pub open spec fn skip_if(self, cond: bool) -> MachineState {
        if cond {
            self.advance(2)
        } else {
            self
        }
    }

    /// The instruction word at the program counter, high byte first, or
    /// `None` when one of its two bytes lies outside memory.
    pub open spec fn fetch(self) -> Option<u16> {
        let pc = self.regs.pc as int;
        if pc + 1 < 4096 {
            Some((self.memory[pc] * 256 + self.memory[pc + 1]) as u16)
        } else {
            None
        }
    }

    /// The condition that keeps `instr` from being carried out in this
    /// state, if there is one.
    pub open spec fn fault(self, instr: Instruction) -> Option<StepError> {
        let r = self.regs;
        match instr {
            Instruction::Return => if r.stack.len() == 0 {
                Some(StepError::StackUnderflow)
            } else if r.stack.last() + 2 > 0xFFFF {
                Some(StepError::AddressOutOfRange)
            } else {
                None
            },
            Instruction::Call { .. } => if r.stack.len() >= 16 {
                Some(StepError::StackOverflow)
            } else {
                None
            },
            Instruction::Draw { rows, .. } => if rows > 0 && r.i + rows > 4096 {
                Some(StepError::AddressOutOfRange)
            } else {
                None
            },
            Instruction::SkipIfKeyDown { x } | Instruction::SkipIfKeyUp { x } => if r.v[x as int]
                >= 16 {
                Some(StepError::InvalidKey)
            } else {
                None
            },
            Instruction::StoreBcd { .. } => if r.i + 2 >= 4096 {
                Some(StepError::AddressOutOfRange)
            } else {
                None
            },
            Instruction::StoreRegisters { x } | Instruction::LoadRegisters { x } => if r.i + x
                >= 4096 {
                Some(StepError::AddressOutOfRange)
            } else {
                None
            },
            _ => None,
        }
    }

    /// What `instr` does to this state apart from moving the program counter
    /// past itself. `random` is the byte that `Random` uses.
    ///
    /// Skip instructions move the program counter past the next instruction
    /// when their condition holds; `Return` puts it back on the call it
    /// returns from; `WaitKey` moves it past itself once a key has arrived.
    pub open spec fn effect(self, instr: Instruction, random: u8) -> MachineState {
        let r = self.regs;
        let v = r.v;
        match instr {
            Instruction::ClearScreen => MachineState { pixels: blank_screen(), ..self },
            Instruction::Return => self.with_regs(r.pop()),
            Instruction::Jump { addr } => self.with_pc(addr),
            Instruction::Call { addr } => self.with_regs(r.push(addr)),
            Instruction::SkipIfEqual { x, byte } => self.skip_if(v[x as int] == byte),
            Instruction::SkipIfNotEqual { x, byte } => self.skip_if(v[x as int] != byte),
            Instruction::SkipIfRegistersEqual { x, y } => self.skip_if(v[x as int] == v[y as int]),
            Instruction::LoadByte { x, byte } => self.with_v(v.update(x as int, byte)),
            Instruction::AddByte { x, byte } => self.with_v(
                v.update(x as int, ((v[x as int] + byte) % 256) as u8),
            ),
            Instruction::Move { x, y } => self.with_v(v.update(x as int, v[y as int])),
            Instruction::Or { x, y } => self.with_v(v.update(x as int, v[x as int] | v[y as int])),
            Instruction::And { x, y } => self.with_v(
                v.update(x as int, v[x as int] & v[y as int]),
            ),
            Instruction::Xor { x, y } => self.with_v(
                v.update(x as int, v[x as int] ^ v[y as int]),
            ),
            Instruction::Add { x, y } => self.with_v(add_with_carry(v, x as int, y as int)),
            Instruction::Sub { x, y } => self.with_v(sub_with_borrow(v, x as int, y as int)),
            Instruction::ShiftRight { x, .. } => self.with_v(shift_right(v, x as int)),
            Instruction::SubFrom { x, y } => self.with_v(
                sub_from_with_borrow(v, x as int, y as int),
            ),
            Instruction::ShiftLeft { x, .. } => self.with_v(shift_left(v, x as int)),
            Instruction::SkipIfRegistersNotEqual { x, y } => self.skip_if(
                v[x as int] != v[y as int],
            ),
            Instruction::LoadIndex { addr } => self.with_i(addr),
            Instruction::JumpOffset { addr } => self.with_pc((addr + v[0]) as u16),
            Instruction::Random { x, byte } => self.with_v(v.update(x as int, random & byte)),
            Instruction::Draw { x, y, rows } => {
                let sprite = bytes_at(self.memory, r.i as int, rows as int);
                let drawn = draw_sprite_spec(self.pixels, v[x as int] as int, v[y as int] as int, sprite);
                MachineState { pixels: drawn.0, ..self.with_v(v.update(0xF, flag(drawn.1))) }
            },
            Instruction::SkipIfKeyDown { x } => self.skip_if(self.keys.is_down(v[x as int] as int)),
            Instruction::SkipIfKeyUp { x } => self.skip_if(!self.keys.is_down(v[x as int] as int)),
            Instruction::ReadDelay { x } => self.with_v(v.update(x as int, r.delay)),
            Instruction::WaitKey { x } => {
                let polled = self.keys.poll();
                let waiting = MachineState { keys: polled.0, ..self };
                match polled.1 {
                    Some(key) => waiting.with_v(v.update(x as int, key)).advance(2),
                    None => waiting,
                }
            },
            Instruction::SetDelay { x } => self.with_regs(RegisterFile { delay: v[x as int], ..r }),
            Instruction::SetSound { x } => self.with_regs(RegisterFile { sound: v[x as int], ..r }),
            Instruction::AddIndex { x } => self.with_i(((r.i + v[x as int]) % 0x10000) as u16),
            Instruction::LoadGlyph { x } => self.with_i((v[x as int] * 5) as u16),
            Instruction::StoreBcd { x } => MachineState {
                memory: store_bcd(self.memory, r.i as int, v[x as int]),
                ..self
            },
            Instruction::StoreRegisters { x } => MachineState {
                memory: store_registers(self.memory, r.i as int, v, x as int),
                ..self
            },
            Instruction::LoadRegisters { x } => self.with_v(
                load_registers(v, self.memory, r.i as int, x as int),
            ),
        }
    }

    /// The state after `instr` was carried out, program counter included:
    /// the effect of the instruction, then two bytes forward, except after a
    /// jump, a call, or a wait for a key, which place the program counter
    /// themselves.
    pub open spec fn execute(self, instr: Instruction, random: u8) -> MachineState {
        let after = self.effect(instr, random);
        if instr.sets_pc() {
            after
        } else {
            after.advance(2)
        }
    }

    /// One instruction cycle: fetch and decode the word at the program
    /// counter, count the timers down, carry the instruction out. Any error
    /// is found before anything changes.
    pub open spec fn step(self, random: u8) -> Result<MachineState, StepError> {
        match self.fetch() {
            None => Err(StepError::AddressOutOfRange),
            Some(word) => match decode_spec(word) {
                None => Err(StepError::Decode(DecodeError { word })),
                Some(instr) => match self.fault(instr) {
                    Some(e) => Err(e),
                    None => Ok(self.with_regs(self.regs.tick()).execute(instr, random)),
                },
            },
        }
    }

    /// Whether the next cycle consumes a random byte: whether the word at the
    /// program counter is a `Random` instruction.
    pub open spec fn draws_random(self) -> bool {
        self.fetch() matches Some(word) && decode_spec(word) matches Some(
            Instruction::Random { .. },
        )
    }
}

impl Instruction {
    /// Whether the instruction places the program counter itself, so that
    /// the cycle does not move it two bytes forward afterwards.
    pub open spec fn sets_pc(self) -> bool {
        self is Jump || self is Call || self is JumpOffset || self is WaitKey
    }
}

/// One cycle keeps a well-formed state well formed: sixteen registers, at
/// most sixteen calls outstanding, 4096 bytes, 2048 pixels and sixteen keys,
/// whatever the program does.
pub proof fn lemma_step_preserves_wf(s: MachineState, random: u8)
    requires
        s.wf(),
    ensures
        s.step(random) matches Ok(after) ==> after.wf(),
{
    if let Some(word) = s.fetch() {
        lemma_decode_exact(word);
        if let Some(instr) = decode_spec(word) {
            let ticked = s.with_regs(s.regs.tick());
            if let Instruction::Draw { x, y, rows } = instr {
                lemma_draw_sprite_len(
                    ticked.pixels,
                    ticked.regs.v[x as int] as int,
                    ticked.regs.v[y as int] as int,
                    bytes_at(ticked.memory, ticked.regs.i as int, rows as int),
                );
            }
        }
    }
}

/// Whether a cycle succeeds, and with which error it fails, does not depend
/// on the random byte; and unless the instruction at the program counter is
/// a `Random` one, neither does the state it leaves.
pub proof fn lemma_step_ignores_random(s: MachineState, r1: u8, r2: u8)
    ensures
        s.step(r1) is Err ==> s.step(r2) == s.step(r1),
        s.step(r1) is Ok ==> s.step(r2) is Ok,
        !s.draws_random() ==> s.step(r2) == s.step(r1),
{
}

/// The cycle counts both timers down by one, stopping at zero, unless the
/// instruction it carries out sets that timer.
pub proof fn lemma_step_ticks_timers(s: MachineState, random: u8)
    ensures
        s.step(random) matches Ok(after) ==> {
            let instr = decode_spec(s.fetch().unwrap()).unwrap();
            &&& !(instr is SetDelay) ==> after.regs.delay == s.regs.tick().delay
            &&& !(instr is SetSound) ==> after.regs.sound == s.regs.tick().sound
        },
{
}

/// What a cycle leaves alone. Memory changes only under the two store
/// instructions, and the frame buffer only under clear and draw. No cycle
/// changes which keys are held down, and only the wait for a key touches the
/// keypad's latch.
pub proof fn lemma_step_frame(s: MachineState, random: u8)
    ensures
        s.step(random) matches Ok(after) ==> {
            let instr = decode_spec(s.fetch().unwrap()).unwrap();
            &&& !(instr is StoreBcd || instr is StoreRegisters) ==> after.memory == s.memory
            &&& !(instr is ClearScreen || instr is Draw) ==> after.pixels == s.pixels
            &&& after.keys.pressed == s.keys.pressed
            &&& !(instr is WaitKey) ==> after.keys == s.keys
        },
{
}

/// Addition with carry loses nothing: the new `Vx` and the carry in `VF`
/// together are the sum of the old `Vx` and `Vy`.
pub proof fn lemma_add_with_carry(v: Seq<u8>, x: int, y: int)
    requires
        v.len() == 16,
        0 <= x < 0xF,
        0 <= y < 16,
    ensures
        add_with_carry(v, x, y)[x] + 256 * add_with_carry(v, x, y)[0xF] == v[x] + v[y],
        add_with_carry(v, x, y)[0xF] <= 1,
{
}

/// Subtraction wraps exactly when the subtrahend is larger: the new `Vx` is
/// the difference, 256 higher if it would be negative. `VF` is 1 when `Vx`
/// was strictly greater than `Vy`, so it is 0 both after a borrow and after
/// a difference of zero.
pub proof fn lemma_sub_with_borrow(v: Seq<u8>, x: int, y: int)
    requires
        v.len() == 16,
        0 <= x < 0xF,
        0 <= y < 16,
    ensures
        sub_with_borrow(v, x, y)[x] == v[x] - v[y] + (if v[x] < v[y] {
            256int
        } else {
            0int
        }),
        sub_with_borrow(v, x, y)[0xF] == 1 <==> v[x] > v[y],
        sub_from_with_borrow(v, x, y)[x] == v[y] - v[x] + (if v[y] < v[x] {
            256int
        } else {
            0int
        }),
        sub_from_with_borrow(v, x, y)[0xF] == 1 <==> v[y] > v[x],
{
}

/// Shifts lose nothing: after a right shift, twice the new `Vx` plus `VF` is
/// the old `Vx`; after a left shift, the new `Vx` plus 256 times `VF` is
/// twice the old `Vx`.
pub proof fn lemma_shifts(v: Seq<u8>, x: int)
    requires
        v.len() == 16,
        0 <= x < 0xF,
    ensures
        2 * shift_right(v, x)[x] + shift_right(v, x)[0xF] == v[x],
        shift_left(v, x)[x] + 256 * shift_left(v, x)[0xF] == 2 * v[x],
{
}

/// The three bytes that `store_bcd` writes are decimal digits, and read as
/// hundreds, tens and ones they are the value.
pub proof fn lemma_store_bcd_digits(memory: Seq<u8>, addr: int, value: u8)
    requires
        0 <= addr,
        addr + 2 < memory.len(),
    ensures
        ({
            let stored = store_bcd(memory, addr, value);
            &&& stored[addr] <= 9 && stored[addr + 1] <= 9 && stored[addr + 2] <= 9
            &&& 100 * stored[addr] + 10 * stored[addr + 1] + stored[addr + 2] == value
            &&& forall|a: int|
                0 <= a < memory.len() && !(addr <= a <= addr + 2) ==> stored[a] == memory[a]
        }),
{
}

/// The blocking wait. A `WaitKey` instruction that finds the latch idle
/// starts the wait and leaves the program counter on itself. While keys are
/// only pressed, further cycles change neither the program counter nor a
/// register. Once a key has been released, the next cycle stores that key in
/// `Vx`, moves the program counter past the instruction and leaves the latch
/// idle again.
pub proof fn lemma_wait_key_blocks_until_release(s: MachineState, x: u8, key: u8, random: u8)
    requires
        s.wf(),
        s.fetch() matches Some(word) && decode_spec(word) == Some(Instruction::WaitKey { x }),
        s.keys.waiting == WaitingState::Idle,
    ensures
        match s.step(random) {
            Ok(waiting) => {
                let pressed = MachineState { keys: waiting.keys.press(key), ..waiting };
                let released = MachineState { keys: pressed.keys.release(key), ..waiting };
                &&& waiting.regs.pc == s.regs.pc
                &&& waiting.regs.v == s.regs.v
                &&& waiting.keys.waiting == WaitingState::Waiting
                &&& match pressed.step(random) {
                    Ok(still) => {
                        &&& still.regs.pc == s.regs.pc
                        &&& still.regs.v == s.regs.v
                        &&& still.keys.waiting == WaitingState::Waiting
                    },
                    Err(_) => false,
                }
                &&& match released.step(random) {
                    Ok(done) => {
                        &&& done.regs.pc == s.regs.pc + 2
                        &&& done.regs.v == s.regs.v.update(x as int, key)
                        &&& done.keys.waiting == WaitingState::Idle
                    },
                    Err(_) => false,
                }
            },
            Err(_) => false,
        },
{
    let word = s.fetch().unwrap();
    lemma_decode_exact(word);
    let waiting = s.step(random).unwrap();
    let pressed = MachineState { keys: waiting.keys.press(key), ..waiting };
    let released = MachineState { keys: pressed.keys.release(key), ..waiting };
    assert(waiting.memory == s.memory);
    assert(pressed.fetch() == s.fetch());
    assert(released.fetch() == s.fetch());
}

} // verus!
