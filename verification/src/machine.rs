//! The abstract machine: what the state of a CHIP-8 is and what each
//! instruction does to it, as mathematics. The executable interpreter is
//! proved to follow these definitions.

use vstd::prelude::*;
use crate::error::Chip8Error;
use crate::keyboard::{released_keys, KEY_COUNT};
use crate::ram::{blank_memory, load_spec, store_block, RAM_SIZE};
use crate::random::{next_seed, random_byte};
use crate::registers::{
    lemma_next_pc_keeps_alignment, next_pc, tick_spec, ENTRY_POINT, FLAG_REGISTER, LAST_ADDRESS,
    REGISTER_COUNT,
};
use crate::screen::{blank_pixels, collides, draw_spec, PIXEL_COUNT};
use crate::stack::{pop_spec, push_spec, STACK_DEPTH};

verus! {

/// Bytes per glyph of the built-in hexadecimal font.
pub const GLYPH_BYTES: u16 = 5;

/// How a step that did not fail ended.
#[derive(Clone, Copy, Debug, PartialEq, Eq, Structural)]
pub enum Status {
    /// The instruction ran to its end.
    Completed,
    /// The instruction is a key wait and no key has gone down yet; the
    /// program counter still points at it.
    AwaitingKey,
}

/// Progress of a key-wait instruction.
#[derive(Clone, Copy, Debug, PartialEq, Eq, Structural)]
pub enum KeyWait {
    /// No key wait is in progress.
    Idle,
    /// A key wait has begun and no key has gone down since.
    Armed,
    /// The given key went down while the wait was armed.
    Caught(u8),
}

/// The fields of an instruction word.
#[derive(Clone, Copy, Debug, PartialEq, Eq, Structural)]
pub struct Opcode {
    /// Highest nibble: the instruction class.
    pub class: u8,
    /// Second nibble: a register index.
    pub x: u8,
    /// Third nibble: a register index.
    pub y: u8,
    /// Lowest nibble.
    pub n: u8,
    /// Low byte.
    pub kk: u8,
    /// Low twelve bits: an address.
    pub nnn: u16,
}

/// The fields of `word`.
pub open spec fn decode_spec(word: u16) -> Opcode {
    Opcode {
        class: (word / 0x1000) as u8,
        x: (word / 0x100 % 0x10) as u8,
        y: (word / 0x10 % 0x10) as u8,
        n: (word % 0x10) as u8,
        kk: (word % 0x100) as u8,
        nnn: (word % 0x1000) as u16,
    }
}

/// The whole state of the machine.
#[verifier::ext_equal]
pub ghost struct MachineState {
    /// RAM, one byte per address.
    pub memory: Seq<u8>,
    /// General-purpose registers V0 to VF.
    pub v: Seq<u8>,
    /// Index register I.
    pub index: u16,
    /// Program counter.
    pub pc: u16,
    /// Return addresses, oldest first. Its length is the stack pointer.
    pub stack: Seq<u16>,
    /// Delay timer.
    pub delay: u8,
    /// Sound timer.
    pub sound: u8,
    /// Which keys are held down.
    pub keys: Seq<bool>,
    /// The display, row by row.
    pub pixels: Seq<bool>,
    /// Seed of the random number generator.
    pub seed: u16,
    /// Progress of a key-wait instruction.
    pub key_wait: KeyWait,
}

impl Opcode {
    /// Every field is within the width it was cut from the word with.
    pub open spec fn wf(self) -> bool {
        &&& self.class <= 0xF
        &&& self.x <= 0xF
        &&& self.y <= 0xF
        &&& self.n <= 0xF
        &&& self.nnn <= 0xFFF
    }
}

impl MachineState {
    /// Every part has its fixed size and the stack is within its depth.
    pub open spec fn wf(self) -> bool {
        &&& self.memory.len() == RAM_SIZE
        &&& self.v.len() == REGISTER_COUNT
        &&& self.stack.len() <= STACK_DEPTH
        &&& self.keys.len() == KEY_COUNT
        &&& self.pixels.len() == PIXEL_COUNT
        &&& (self.key_wait matches KeyWait::Caught(k) ==> k < KEY_COUNT)
    }
}

/// A state together with what the step that led to it reported.
pub ghost struct Outcome {
    /// The state after the step.
    pub state: MachineState,
    /// What the step returned.
    pub result: Result<Status, Chip8Error>,
}

/// The machine as built from a program image that fits: the image at the
/// entry point, everything else zero, blank, released or empty.
pub open spec fn initial_state(program: Seq<u8>) -> MachineState {
    MachineState {
        memory: load_spec(blank_memory(), program),
        v: Seq::new(REGISTER_COUNT as nat, |i: int| 0u8),
        index: 0,
        pc: ENTRY_POINT,
        stack: Seq::empty(),
        delay: 0,
        sound: 0,
        keys: released_keys(),
        pixels: blank_pixels(),
        seed: 0,
        key_wait: KeyWait::Idle,
    }
}

/// The instruction word at the program counter: the byte there is its high
/// byte, the byte after it its low byte.
pub open spec fn fetch_spec(s: MachineState) -> Result<u16, Chip8Error> {
    if s.pc + 1 < RAM_SIZE {
        Ok((s.memory[s.pc as int] * 0x100 + s.memory[s.pc + 1]) as u16)
    } else {
        Err(Chip8Error::InvalidAddress)
    }
}

/// The instruction ran to its end in state `s`.
pub open spec fn done(s: MachineState) -> Outcome {
    Outcome { state: s, result: Ok(Status::Completed) }
}

/// The instruction failed with `e` in state `s`.
pub open spec fn fault(s: MachineState, e: Chip8Error) -> Outcome {
    Outcome { state: s, result: Err(e) }
}

/// `s` with the program counter on the next instruction.
pub open spec fn advance(s: MachineState) -> MachineState {
    MachineState { pc: next_pc(s.pc), ..s }
}

/// `s` with the program counter past the next instruction if `skip` holds,
/// on it otherwise.
pub open spec fn skip_when(s: MachineState, skip: bool) -> MachineState {
    if skip {
        advance(advance(s))
    } else {
        advance(s)
    }
}

/// `s` with `value` in register `x`.
pub open spec fn set_v(s: MachineState, x: int, value: u8) -> MachineState {
    MachineState { v: s.v.update(x, value), ..s }
}

/// A flag as the flag register holds it.
pub open spec fn flag_byte(flag: bool) -> u8 {
    if flag {
        1
    } else {
        0
    }
}

/// `s` with `value` in register `x` and then `flag` in VF. Where `x` is VF
/// itself the flag is what stays.
pub open spec fn set_v_and_flag(s: MachineState, x: int, value: u8, flag: bool) -> MachineState {
    MachineState { v: s.v.update(x, value).update(FLAG_REGISTER as int, flag_byte(flag)), ..s }
}

/// Class 0: clear the display (`00E0`) or return from a subroutine (`00EE`).
pub open spec fn system_spec(s: MachineState, op: Opcode) -> Outcome {
    if op.nnn == 0x0E0 {
        done(advance(MachineState { pixels: blank_pixels(), ..s }))
    } else if op.nnn == 0x0EE {
        match pop_spec(s.stack) {
            Ok((addr, rest)) => done(MachineState { pc: addr, stack: rest, ..s }),
            Err(e) => fault(s, e),
        }
    } else {
        fault(s, Chip8Error::UndefinedOpcode)
    }
}

/// Class 2: call the subroutine at `nnn`. The address of the instruction
/// after the call goes onto the stack.
pub open spec fn call_spec(s: MachineState, op: Opcode) -> Outcome {
    match push_spec(s.stack, next_pc(s.pc)) {
        Ok(stack) => done(MachineState { pc: op.nnn, stack, ..s }),
        Err(e) => fault(s, e),
    }
}

/// What a register-to-register operation computes from Vx and Vy: the new
/// value of Vx and, for the arithmetic and shift operations, the flag that
/// goes to VF. The flag is the carry of an addition, the absence of a borrow
/// in a subtraction, and the bit shifted out by a shift. `None` where the
/// low nibble `n` selects no operation.
pub open spec fn alu_result(n: u8, vx: u8, vy: u8) -> Option<(u8, Option<bool>)> {
    match n {
        0x0 => Some((vy, None)),
        0x1 => Some((vx | vy, None)),
        0x2 => Some((vx & vy, None)),
        0x3 => Some((vx ^ vy, None)),
        0x4 => Some((((vx + vy) % 0x100) as u8, Some(vx + vy > 0xFF))),
        0x5 => Some((((vx - vy) % 0x100) as u8, Some(vx >= vy))),
        0x6 => Some((vx / 2, Some(vx % 2 == 1))),
        0x7 => Some((((vy - vx) % 0x100) as u8, Some(vy >= vx))),
        0xE => Some((((vx * 2) % 0x100) as u8, Some(vx >= 0x80))),
        _ => None,
    }
}

/// Class 8: register-to-register operations, selected by the low nibble.
pub open spec fn alu_spec(s: MachineState, op: Opcode) -> Outcome {
    match alu_result(op.n, s.v[op.x as int], s.v[op.y as int]) {
        Some((value, Some(flag))) => done(advance(set_v_and_flag(s, op.x as int, value, flag))),
        Some((value, None)) => done(advance(set_v(s, op.x as int, value))),
        None => fault(s, Chip8Error::UndefinedOpcode),
    }
}

/// Class B: jump to `nnn` plus V0. A target past the end of memory is refused.
pub open spec fn jump_offset_spec(s: MachineState, op: Opcode) -> Outcome {
    let target = op.nnn + s.v[0];
    if target <= LAST_ADDRESS {
        done(MachineState { pc: target as u16, ..s })
    } else {
        fault(s, Chip8Error::InvalidAddress)
    }
}

/// Class C: the next random byte, masked with `kk`, goes to Vx.
pub open spec fn random_spec(s: MachineState, op: Opcode) -> Outcome {
    let seed = next_seed(s.seed);
    done(advance(set_v(MachineState { seed, ..s }, op.x as int, random_byte(seed) & op.kk)))
}

/// The `n` bytes that start at address `start`: the rows of a sprite.
pub open spec fn sprite_rows(memory: Seq<u8>, start: int, n: int) -> Seq<u8> {
    Seq::new(n as nat, |k: int| memory[start + k])
}

/// Class D: draw the `n` bytes at I as a sprite at (Vx, Vy); VF says whether
/// a lit pixel went dark. If one of the bytes lies outside memory the
/// instruction fails before anything is drawn.
pub open spec fn draw_op_spec(s: MachineState, op: Opcode) -> Outcome {
    if op.n > 0 && s.index + op.n > RAM_SIZE {
        fault(s, Chip8Error::InvalidAddress)
    } else {
        let sprite = sprite_rows(s.memory, s.index as int, op.n as int);
        let x = s.v[op.x as int];
        let y = s.v[op.y as int];
        done(
            advance(
                MachineState {
                    pixels: draw_spec(s.pixels, x, y, sprite),
                    v: s.v.update(
                        FLAG_REGISTER as int,
                        flag_byte(collides(s.pixels, x, y, sprite)),
                    ),
                    ..s
                },
            ),
        )
    }
}

/// Class E: skip the next instruction if the key named by Vx is down
/// (`Ex9E`) or up (`ExA1`).
pub open spec fn keypad_spec(s: MachineState, op: Opcode) -> Outcome {
    let key = s.v[op.x as int];
    if op.kk != 0x9E && op.kk != 0xA1 {
        fault(s, Chip8Error::UndefinedOpcode)
    } else if key >= KEY_COUNT {
        fault(s, Chip8Error::InvalidKey)
    } else {
        done(skip_when(s, s.keys[key as int] == (op.kk == 0x9E)))
    }
}

/// `Fx0A`: wait for a key. The first execution arms the wait; the
/// instruction then repeats until a key has gone down, and ends by putting
/// that key into Vx.
pub open spec fn key_wait_spec(s: MachineState, op: Opcode) -> Outcome {
    match s.key_wait {
        KeyWait::Idle => Outcome {
            state: MachineState { key_wait: KeyWait::Armed, ..s },
            result: Ok(Status::AwaitingKey),
        },
        KeyWait::Armed => Outcome { state: s, result: Ok(Status::AwaitingKey) },
        KeyWait::Caught(key) => done(
            advance(set_v(MachineState { key_wait: KeyWait::Idle, ..s }, op.x as int, key)),
        ),
    }
}

/// Writes `block` to memory from I on, one byte after the other. The write
/// that would fall outside memory fails; those before it have happened.
pub open spec fn store_spec(s: MachineState, block: Seq<u8>) -> Outcome {
    let stored = MachineState { memory: store_block(s.memory, s.index as int, block), ..s };
    if s.index + block.len() <= RAM_SIZE {
        done(advance(stored))
    } else {
        fault(stored, Chip8Error::InvalidAddress)
    }
}

/// The three decimal digits of `value`, hundreds first.
pub open spec fn bcd_digits(value: u8) -> Seq<u8> {
    seq![(value / 100) as u8, (value / 10 % 10) as u8, (value % 10) as u8]
}

/// `Fx65`: reads V0 to Vx from memory at I on, one register after the
/// other. The read that would fall outside memory fails; those before it
/// have happened.
pub open spec fn load_registers_spec(s: MachineState, op: Opcode) -> Outcome {
    let loaded = MachineState {
        v: Seq::new(
            REGISTER_COUNT as nat,
            |r: int|
                if r <= op.x && s.index + r < RAM_SIZE {
                    s.memory[s.index + r]
                } else {
                    s.v[r]
                },
        ),
        ..s
    };
    if s.index + op.x < RAM_SIZE {
        done(advance(loaded))
    } else {
        fault(loaded, Chip8Error::InvalidAddress)
    }
}

/// Class F: timers, key wait, index arithmetic and block transfers,
/// selected by the low byte.
pub open spec fn misc_spec(s: MachineState, op: Opcode) -> Outcome {
    let x = op.x as int;
    let vx = s.v[op.x as int];
    match op.kk {
        0x07 => done(advance(set_v(s, x, s.delay))),
        0x0A => key_wait_spec(s, op),
        0x15 => done(advance(MachineState { delay: vx, ..s })),
        0x18 => done(advance(MachineState { sound: vx, ..s })),
        0x1E => done(advance(MachineState { index: ((s.index + vx) % 0x1_0000) as u16, ..s })),
        0x29 => done(advance(MachineState { index: (GLYPH_BYTES * (vx % 0x10)) as u16, ..s })),
        0x33 => store_spec(s, bcd_digits(vx)),
        0x55 => store_spec(s, s.v.take(x + 1)),
        0x65 => load_registers_spec(s, op),
        _ => fault(s, Chip8Error::UndefinedOpcode),
    }
}

/// What executing the instruction with fields `op` does to state `s`, and
/// what the step reports: the instruction table, one line per class.
pub open spec fn dispatch_spec(s: MachineState, op: Opcode) -> Outcome {
    let x = op.x as int;
    let vx = s.v[op.x as int];
    let vy = s.v[op.y as int];
    match op.class {
        0x0 => system_spec(s, op),
        0x1 => done(MachineState { pc: op.nnn, ..s }),
        0x2 => call_spec(s, op),
        0x3 => done(skip_when(s, vx == op.kk)),
        0x4 => done(skip_when(s, vx != op.kk)),
        0x5 => if op.n == 0 {
            done(skip_when(s, vx == vy))
        } else {
            fault(s, Chip8Error::UndefinedOpcode)
        },
        0x6 => done(advance(set_v(s, x, op.kk))),
        0x7 => done(advance(set_v(s, x, ((vx + op.kk) % 0x100) as u8))),
        0x8 => alu_spec(s, op),
        0x9 => if op.n == 0 {
            done(skip_when(s, vx != vy))
        } else {
            fault(s, Chip8Error::UndefinedOpcode)
        },
        0xA => done(advance(MachineState { index: op.nnn, ..s })),
        0xB => jump_offset_spec(s, op),
        0xC => random_spec(s, op),
        0xD => draw_op_spec(s, op),
        0xE => keypad_spec(s, op),
        _ => misc_spec(s, op),
    }
}

/// What executing the instruction `word` does to state `s`, and what the
/// step reports.
pub open spec fn execute_spec(s: MachineState, word: u16) -> Outcome {
    dispatch_spec(s, decode_spec(word))
}

/// One step of the machine: fetch the word at the program counter and
/// execute it. A failed fetch changes nothing.
pub open spec fn step_spec(s: MachineState) -> Outcome {
    match fetch_spec(s) {
        Ok(word) => execute_spec(s, word),
        Err(e) => fault(s, e),
    }
}

/// What the host's report of a key going down or up does to the state. A
/// key that goes down while a key wait is armed is caught by it.
pub open spec fn set_key_spec(s: MachineState, key: int, pressed: bool) -> (
    MachineState,
    Result<(), Chip8Error>,
) {
    if 0 <= key < KEY_COUNT {
        let caught = s.key_wait == KeyWait::Armed && pressed && !s.keys[key];
        (
            MachineState {
                keys: s.keys.update(key, pressed),
                key_wait: if caught {
                    KeyWait::Caught(key as u8)
                } else {
                    s.key_wait
                },
                ..s
            },
            Ok(()),
        )
    } else {
        (s, Err(Chip8Error::InvalidKey))
    }
}

/// The state after one tick of the timer clock.
pub open spec fn tick_timers_spec(s: MachineState) -> MachineState {
    MachineState { delay: tick_spec(s.delay), sound: tick_spec(s.sound), ..s }
}

/// A freshly built machine is well-formed and its program counter lies on
/// an instruction boundary.
pub proof fn lemma_initial_state(program: Seq<u8>)
    ensures
        initial_state(program).wf(),
        aligned(initial_state(program)),
{
}

/// Wherever the program counter is even and inside memory, the fetch
/// succeeds and its word has the byte at the counter as high byte and the
/// byte after it as low byte.
pub proof fn lemma_fetch_aligned(s: MachineState)
    requires
        s.wf(),
        s.pc % 2 == 0,
        s.pc < RAM_SIZE,
    ensures
        fetch_spec(s) is Ok,
        fetch_spec(s)->Ok_0 / 0x100 == s.memory[s.pc as int],
        fetch_spec(s)->Ok_0 % 0x100 == s.memory[s.pc + 1],
{
}

/// Whether the program counter and every return address on the stack lie
/// on an instruction boundary.
pub open spec fn aligned(s: MachineState) -> bool {
    &&& s.pc % 2 == 0
    &&& forall|i: int| 0 <= i < s.stack.len() ==> #[trigger] s.stack[i] % 2 == 0
}

/// Whether `word` is a jump or call whose target is an odd address.
pub open spec fn targets_odd_address(s: MachineState, word: u16) -> bool {
    let op = decode_spec(word);
    ||| (op.class == 0x1 || op.class == 0x2) && op.nnn % 2 == 1
    ||| op.class == 0xB && (op.nnn + s.v[0]) % 2 == 1
}

/// A program counter on an instruction boundary stays on one for as long as
/// the program does not itself jump to an odd address.
pub proof fn lemma_execute_keeps_alignment(s: MachineState, word: u16)
    requires
        s.wf(),
        aligned(s),
        !targets_odd_address(s, word),
    ensures
        aligned(execute_spec(s, word).state),
{
    let op = decode_spec(word);
    let t = execute_spec(s, word).state;
    lemma_next_pc_keeps_alignment(s.pc);
    lemma_next_pc_keeps_alignment(next_pc(s.pc));
    if op.class == 0x0 && op.nnn == 0x0EE {
        if s.stack.len() > 0 {
            assert(s.stack[s.stack.len() - 1] % 2 == 0);
            assert forall|i: int| 0 <= i < t.stack.len() implies #[trigger] t.stack[i] % 2
                == 0 by {
                assert(t.stack[i] == s.stack[i]);
            }
        }
    } else if op.class == 0x2 {
        if s.stack.len() < STACK_DEPTH {
            assert forall|i: int| 0 <= i < t.stack.len() implies #[trigger] t.stack[i] % 2
                == 0 by {
                if i < s.stack.len() {
                    assert(t.stack[i] == s.stack[i]);
                }
            }
        }
    } else if op.class == 0x1 || op.class == 0xB {
    } else {
        lemma_sequential_flow(s, word);
    }
}

/// Apart from jumps, calls and returns, an instruction leaves the stack
/// alone and leaves the program counter where it is, on the next
/// instruction, or on the one after that.
pub proof fn lemma_sequential_flow(s: MachineState, word: u16)
    requires
        s.wf(),
        decode_spec(word).class != 0x1,
        decode_spec(word).class != 0x2,
        decode_spec(word).class != 0xB,
        !(decode_spec(word).class == 0x0 && decode_spec(word).nnn == 0x0EE),
    ensures
        execute_spec(s, word).state.stack == s.stack,
        execute_spec(s, word).state.pc == s.pc || execute_spec(s, word).state.pc == next_pc(s.pc)
            || execute_spec(s, word).state.pc == next_pc(next_pc(s.pc)),
{
}

/// A key wait ends with the key that goes down after it began: once the
/// wait is armed and the host reports a key going down, the next execution
/// of the wait puts that key into Vx and moves on.
pub proof fn lemma_key_wait_catches_press(s: MachineState, word: u16, key: int)
    requires
        s.wf(),
        s.key_wait == KeyWait::Armed,
        0 <= key < KEY_COUNT,
        !s.keys[key],
        decode_spec(word).class == 0xF,
        decode_spec(word).kk == 0x0A,
    ensures
        ({
            let pressed = set_key_spec(s, key, true).0;
            let after = execute_spec(pressed, word);
            &&& after.result == Ok::<Status, Chip8Error>(Status::Completed)
            &&& after.state == advance(
                set_v(
                    MachineState { key_wait: KeyWait::Idle, ..pressed },
                    decode_spec(word).x as int,
                    key as u8,
                ),
            )
        }),
{
}

/// A well-formed state stays well-formed whatever instruction is executed.
pub proof fn lemma_execute_keeps_wf(s: MachineState, word: u16)
    requires
        s.wf(),
    ensures
        execute_spec(s, word).state.wf(),
{
}

/// A step that fails leaves the program counter on the failed instruction,
/// and touches nothing but memory and the general-purpose registers.
pub proof fn lemma_failed_execute(s: MachineState, word: u16)
    requires
        s.wf(),
        execute_spec(s, word).result is Err,
    ensures
        execute_spec(s, word).state == (MachineState {
            memory: execute_spec(s, word).state.memory,
            v: execute_spec(s, word).state.v,
            ..s
        }),
{
}

/// An undefined instruction changes nothing at all.
pub proof fn lemma_undefined_opcode_changes_nothing(s: MachineState, word: u16)
    requires
        execute_spec(s, word).result == Err::<Status, Chip8Error>(Chip8Error::UndefinedOpcode),
    ensures
        execute_spec(s, word).state == s,
{
}

} // verus!
