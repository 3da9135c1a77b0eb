//! The interpreter: owner of all machine state, with fetch, decode and the
//! execution of every instruction.

use vstd::prelude::*;
use crate::error::Chip8Error;
use crate::keyboard::{Keyboard, KEY_COUNT};
use crate::machine::{
    advance, alu_result, alu_spec, bcd_digits, call_spec, decode_spec, dispatch_spec, done,
    draw_op_spec, execute_spec, fetch_spec, initial_state, jump_offset_spec, key_wait_spec,
    keypad_spec, load_registers_spec, misc_spec, random_spec, set_key_spec, set_v,
    set_v_and_flag, skip_when, sprite_rows, step_spec, store_spec, system_spec,
    tick_timers_spec, KeyWait, MachineState, Opcode, Outcome, Status, GLYPH_BYTES,
};
use crate::ram::{store_block, Ram, MAX_PROGRAM_LEN, RAM_SIZE};
use crate::random::Randomizer;
use crate::registers::{Registers, FLAG_REGISTER, REGISTER_COUNT};
use crate::screen::{Screen, PIXEL_COUNT};
use crate::stack::{Stack, STACK_DEPTH};

verus! {

/// The interpreter and the machine state it owns.
pub struct Cpu {
    ram: Ram,
    regs: Registers,
    stack: Stack,
    screen: Screen,
    keyboard: Keyboard,
    random: Randomizer,
    key_wait: KeyWait,
}

impl View for Cpu {
    type V = MachineState;

    closed spec fn view(&self) -> MachineState {
        MachineState {
            memory: self.ram@,
            v: self.regs.v_regs@,
            index: self.regs.i_reg,
            pc: self.regs.pc@,
            stack: self.stack.entries(self.regs.sp),
            delay: self.regs.counter,
            sound: self.regs.sound,
            keys: self.keyboard@,
            pixels: self.screen@,
            seed: self.random@,
            key_wait: self.key_wait,
        }
    }
}

impl Cpu {
    /// The stack pointer is within the stack's depth and a caught key is a
    /// key of the keypad.
    pub closed spec fn wf(&self) -> bool {
        &&& self.regs.sp <= STACK_DEPTH
        &&& (self.key_wait matches KeyWait::Caught(k) ==> k < KEY_COUNT)
    }

    /// The state of a well-formed interpreter is a well-formed machine state.
    pub proof fn lemma_view_wf(&self)
        requires
            self.wf(),
        ensures
            self@.wf(),
    {
        self.ram.lemma_len();
        self.keyboard.lemma_len();
        self.screen.lemma_len();
        self.stack.lemma_entries_len(self.regs.sp);
    }

    /// An interpreter with `rom_bytes` loaded at the entry point and all
    /// other state at its initial value. Fails if the image does not fit.
    pub fn new(rom_bytes: &[u8]) -> (r: Result<Cpu, Chip8Error>)
        ensures
            match r {
                Ok(cpu) => {
                    &&& rom_bytes@.len() <= MAX_PROGRAM_LEN
                    &&& cpu.wf()
                    &&& cpu@ == initial_state(rom_bytes@)
                },
                Err(e) => rom_bytes@.len() > MAX_PROGRAM_LEN && e == Chip8Error::RomTooLarge,
            },
    {
        match Ram::new(rom_bytes) {
            Ok(ram) => Ok(
                Cpu {
                    ram,
                    regs: Registers::new(),
                    stack: Stack::new(),
                    screen: Screen::new(),
                    keyboard: Keyboard::new(),
                    random: Randomizer::new(0),
                    key_wait: KeyWait::Idle,
                },
            ),
            Err(e) => Err(e),
        }
    }

    /// Reads the instruction word at the program counter.
    pub fn fetch(&self) -> (r: Result<u16, Chip8Error>)
        ensures
            r == fetch_spec(self@),
    {
        let pc: usize = self.regs.pc.get() as usize;
        let high: u8 = self.ram.read(pc)?;
        let low: u8 = self.ram.read(pc + 1)?;
        Ok(high as u16 * 0x100 + low as u16)
    }

    /// Splits an instruction word into its fields.
    pub fn decode(word: u16) -> (op: Opcode)
        ensures
            op == decode_spec(word),
            op.wf(),
    {
        Opcode {
            class: (word / 0x1000) as u8,
            x: (word / 0x100 % 0x10) as u8,
            y: (word / 0x10 % 0x10) as u8,
            n: (word % 0x10) as u8,
            kk: (word % 0x100) as u8,
            nnn: word % 0x1000,
        }
    }

    /// Whether this interpreter and the result `r` are what `outcome` says.
    spec fn follows(&self, r: Result<Status, Chip8Error>, outcome: Outcome) -> bool {
        &&& self.wf()
        &&& self@ == outcome.state
        &&& r == outcome.result
    }

    /// Moves the program counter to the next instruction, or past it if
    /// `skip` holds.
    fn skip(&mut self, skip: bool) -> (r: Result<Status, Chip8Error>)
        requires
            old(self).wf(),
        ensures
            final(self).follows(r, done(skip_when(old(self)@, skip))),
    {
        self.regs.pc.increment();
        if skip {
            self.regs.pc.increment();
        }
        Ok(Status::Completed)
    }

    /// Stores `value` in Vx and moves on.
    fn put(&mut self, x: u8, value: u8) -> (r: Result<Status, Chip8Error>)
        requires
            old(self).wf(),
            x <= 0xF,
        ensures
            final(self).follows(r, done(advance(set_v(old(self)@, x as int, value)))),
    {
        self.regs.v_regs[x as usize] = value;
        self.regs.pc.increment();
        Ok(Status::Completed)
    }

    /// Stores `value` in Vx, then `flag` in VF, and moves on.
    fn put_with_flag(&mut self, x: u8, value: u8, flag: bool) -> (r: Result<Status, Chip8Error>)
        requires
            old(self).wf(),
            x <= 0xF,
        ensures
            final(self).follows(
                r,
                done(advance(set_v_and_flag(old(self)@, x as int, value, flag))),
            ),
    {
        self.regs.v_regs[x as usize] = value;
        self.regs.v_regs[FLAG_REGISTER] = if flag {
            1
        } else {
            0
        };
        self.regs.pc.increment();
        Ok(Status::Completed)
    }

    /// Stores `value` in I and moves on.
    fn put_index(&mut self, value: u16) -> (r: Result<Status, Chip8Error>)
        requires
            old(self).wf(),
        ensures
            final(self).follows(r, done(advance(MachineState { index: value, ..old(self)@ }))),
    {
        self.regs.i_reg = value;
        self.regs.pc.increment();
        Ok(Status::Completed)
    }

    /// Class 1: jump to `nnn`.
    fn exec_jump(&mut self, op: Opcode) -> (r: Result<Status, Chip8Error>)
        requires
            old(self).wf(),
            op.wf(),
        ensures
            final(self).follows(r, done(MachineState { pc: op.nnn, ..old(self)@ })),
    {
        match self.regs.pc.set_pc(op.nnn) {
            Ok(()) => Ok(Status::Completed),
            Err(e) => Err(e),
        }
    }

    /// Class 0: clear the display or return from a subroutine.
    fn exec_system(&mut self, op: Opcode) -> (r: Result<Status, Chip8Error>)
        requires
            old(self).wf(),
            op.wf(),
        ensures
            final(self).follows(r, system_spec(old(self)@, op)),
    {
        if op.nnn == 0x0E0 {
            self.screen.clear_screen();
            self.regs.pc.increment();
            Ok(Status::Completed)
        } else if op.nnn == 0x0EE {
            match self.stack.pop(&mut self.regs.sp) {
                Ok(addr) => {
                    self.regs.pc.restore(addr);
                    Ok(Status::Completed)
                },
                Err(e) => Err(e),
            }
        } else {
            Err(Chip8Error::UndefinedOpcode)
        }
    }

    /// Class 2: call the subroutine at `nnn`.
    fn exec_call(&mut self, op: Opcode) -> (r: Result<Status, Chip8Error>)
        requires
            old(self).wf(),
            op.wf(),
        ensures
            final(self).follows(r, call_spec(old(self)@, op)),
    {
        proof {
            self.stack.lemma_entries_len(self.regs.sp);
        }
        match self.stack.push(self.regs.pc.following(), &mut self.regs.sp) {
            Ok(()) => {
                self.regs.pc.restore(op.nnn);
                Ok(Status::Completed)
            },
            Err(e) => Err(e),
        }
    }

    /// The arithmetic of a register-to-register operation.
    fn alu(n: u8, vx: u8, vy: u8) -> (r: Option<(u8, Option<bool>)>)
        ensures
            r == alu_result(n, vx, vy),
    {
        match n {
            0x0 => Some((vy, None)),
            0x1 => Some((vx | vy, None)),
            0x2 => Some((vx & vy, None)),
            0x3 => Some((vx ^ vy, None)),
            0x4 => Some((vx.wrapping_add(vy), Some(vx as u16 + vy as u16 > 0xFF))),
            0x5 => Some((vx.wrapping_sub(vy), Some(vx >= vy))),
            0x6 => {
                assert(vx >> 1 == vx / 2 && (vx & 1 == 1) == (vx % 2 == 1)) by (bit_vector);
                Some((vx >> 1, Some(vx & 1 == 1)))
            },
            0x7 => Some((vy.wrapping_sub(vx), Some(vy >= vx))),
            0xE => {
                assert(vx << 1 == (vx * 2) % 0x100 && (vx & 0x80 != 0) == (vx >= 0x80))
                    by (bit_vector);
                Some((vx << 1, Some(vx & 0x80 != 0)))
            },
            _ => None,
        }
    }

    /// Class 8: a register-to-register operation.
    fn exec_alu(&mut self, op: Opcode) -> (r: Result<Status, Chip8Error>)
        requires
            old(self).wf(),
            op.wf(),
        ensures
            final(self).follows(r, alu_spec(old(self)@, op)),
    {
        let vx: u8 = self.regs.v_regs[op.x as usize];
        let vy: u8 = self.regs.v_regs[op.y as usize];
        match Cpu::alu(op.n, vx, vy) {
            Some((value, Some(flag))) => self.put_with_flag(op.x, value, flag),
            Some((value, None)) => self.put(op.x, value),
            None => Err(Chip8Error::UndefinedOpcode),
        }
    }

    /// Class B: jump to `nnn` plus V0.
    fn exec_jump_offset(&mut self, op: Opcode) -> (r: Result<Status, Chip8Error>)
        requires
            old(self).wf(),
            op.wf(),
        ensures
            final(self).follows(r, jump_offset_spec(old(self)@, op)),
    {
        let target: u16 = op.nnn + self.regs.v_regs[0] as u16;
        match self.regs.pc.set_pc(target) {
            Ok(()) => Ok(Status::Completed),
            Err(e) => Err(e),
        }
    }

    /// Class C: a random byte, masked with `kk`, into Vx.
    fn exec_random(&mut self, op: Opcode) -> (r: Result<Status, Chip8Error>)
        requires
            old(self).wf(),
            op.wf(),
        ensures
            final(self).follows(r, random_spec(old(self)@, op)),
    {
        let byte: u8 = self.random.next_byte();
        self.put(op.x, byte & op.kk)
    }

    /// Class D: draw the sprite at I.
    fn exec_draw(&mut self, op: Opcode) -> (r: Result<Status, Chip8Error>)
        requires
            old(self).wf(),
            op.wf(),
        ensures
            final(self).follows(r, draw_op_spec(old(self)@, op)),
    {
        let start: usize = self.regs.i_reg as usize;
        let n: usize = op.n as usize;
        let mut rows: Vec<u8> = Vec::new();
        let mut k: usize = 0;
        while k < n
            invariant
                k <= n == op.n,
                self.wf(),
                self@ == old(self)@,
                start == self.regs.i_reg,
                k > 0 ==> start + k <= RAM_SIZE,
                rows@ == sprite_rows(self.ram@, start as int, k as int),
            decreases n - k,
        {
            match self.ram.read(start + k) {
                Ok(byte) => {
                    rows.push(byte);
                },
                Err(e) => {
                    return Err(e);
                },
            }
            k = k + 1;
        }
        let x: u8 = self.regs.v_regs[op.x as usize];
        let y: u8 = self.regs.v_regs[op.y as usize];
        let hit: bool = self.screen.draw(x, y, rows.as_slice());
        self.regs.v_regs[FLAG_REGISTER] = if hit {
            1
        } else {
            0
        };
        self.regs.pc.increment();
        Ok(Status::Completed)
    }

    /// Class E: skip on the state of the key named by Vx.
    fn exec_keypad(&mut self, op: Opcode) -> (r: Result<Status, Chip8Error>)
        requires
            old(self).wf(),
            op.wf(),
        ensures
            final(self).follows(r, keypad_spec(old(self)@, op)),
    {
        if op.kk != 0x9E && op.kk != 0xA1 {
            return Err(Chip8Error::UndefinedOpcode);
        }
        let key: usize = self.regs.v_regs[op.x as usize] as usize;
        match self.keyboard.is_pressed(key) {
            Ok(down) => self.skip(down == (op.kk == 0x9E)),
            Err(e) => Err(e),
        }
    }

    /// `Fx0A`: wait for a key to go down.
    fn exec_key_wait(&mut self, op: Opcode) -> (r: Result<Status, Chip8Error>)
        requires
            old(self).wf(),
            op.wf(),
        ensures
            final(self).follows(r, key_wait_spec(old(self)@, op)),
    {
        match self.key_wait {
            KeyWait::Idle => {
                self.key_wait = KeyWait::Armed;
                Ok(Status::AwaitingKey)
            },
            KeyWait::Armed => Ok(Status::AwaitingKey),
            KeyWait::Caught(key) => {
                self.key_wait = KeyWait::Idle;
                self.put(op.x, key)
            },
        }
    }

    /// Writes the first `len` bytes of `block` to memory from I on and
    /// moves on, or stops at the first address outside memory.
    fn store(&mut self, block: &[u8; REGISTER_COUNT], len: usize) -> (r: Result<Status, Chip8Error>)
        requires
            old(self).wf(),
            1 <= len <= REGISTER_COUNT,
        ensures
            final(self).follows(r, store_spec(old(self)@, block@.take(len as int))),
    {
        let start: usize = self.regs.i_reg as usize;
        let mut k: usize = 0;
        proof {
            self.ram.lemma_len();
        }
        while k < len
            invariant
                k <= len <= REGISTER_COUNT,
                self.wf(),
                start == old(self).regs.i_reg,
                k > 0 ==> start + k <= RAM_SIZE,
                self@ == (MachineState {
                    memory: store_block(old(self)@.memory, start as int, block@.take(k as int)),
                    ..old(self)@
                }),
            decreases len - k,
        {
            match self.ram.write(start + k, block[k]) {
                Ok(()) => {
                    assert(self.ram@ =~= store_block(
                        old(self)@.memory,
                        start as int,
                        block@.take(k + 1),
                    ));
                },
                Err(e) => {
                    assert(self.ram@ =~= store_block(
                        old(self)@.memory,
                        start as int,
                        block@.take(len as int),
                    ));
                    return Err(e);
                },
            }
            k = k + 1;
        }
        self.regs.pc.increment();
        Ok(Status::Completed)
    }

    /// `Fx65`: read V0 to Vx from memory at I on.
    fn exec_load_registers(&mut self, op: Opcode) -> (r: Result<Status, Chip8Error>)
        requires
            old(self).wf(),
            op.wf(),
        ensures
            final(self).follows(r, load_registers_spec(old(self)@, op)),
    {
        let start: usize = self.regs.i_reg as usize;
        let last: usize = op.x as usize;
        let mut k: usize = 0;
        while k <= last
            invariant
                k <= last + 1 <= REGISTER_COUNT,
                last == op.x,
                self.wf(),
                start == old(self).regs.i_reg,
                k > 0 ==> start + k <= RAM_SIZE,
                self@ == (MachineState {
                    v: Seq::new(
                        REGISTER_COUNT as nat,
                        |r: int|
                            if r < k {
                                old(self)@.memory[start + r]
                            } else {
                                old(self)@.v[r]
                            },
                    ),
                    ..old(self)@
                }),
            decreases last + 1 - k,
        {
            match self.ram.read(start + k) {
                Ok(byte) => {
                    self.regs.v_regs[k] = byte;
                },
                Err(e) => {
                    assert(self@.v =~= load_registers_spec(old(self)@, op).state.v);
                    return Err(e);
                },
            }
            k = k + 1;
        }
        assert(self@.v =~= load_registers_spec(old(self)@, op).state.v);
        self.regs.pc.increment();
        Ok(Status::Completed)
    }

    /// Class F: timers, key wait, index arithmetic and block transfers.
    fn exec_misc(&mut self, op: Opcode) -> (r: Result<Status, Chip8Error>)
        requires
            old(self).wf(),
            op.wf(),
        ensures
            final(self).follows(r, misc_spec(old(self)@, op)),
    {
        let vx: u8 = self.regs.v_regs[op.x as usize];
        match op.kk {
            0x07 => self.put(op.x, self.regs.counter),
            0x0A => self.exec_key_wait(op),
            0x15 => {
                self.regs.counter = vx;
                self.regs.pc.increment();
                Ok(Status::Completed)
            },
            0x18 => {
                self.regs.sound = vx;
                self.regs.pc.increment();
                Ok(Status::Completed)
            },
            0x1E => self.put_index(self.regs.i_reg.wrapping_add(vx as u16)),
            0x29 => self.put_index(GLYPH_BYTES * (vx % 0x10) as u16),
            0x33 => {
                let mut digits: [u8; REGISTER_COUNT] = [0u8; REGISTER_COUNT];
                digits[0] = vx / 100;
                digits[1] = vx / 10 % 10;
                digits[2] = vx % 10;
                assert(digits@.take(3) =~= bcd_digits(vx));
                self.store(&digits, 3)
            },
            0x55 => {
                let block: [u8; REGISTER_COUNT] = self.regs.v_regs;
                self.store(&block, op.x as usize + 1)
            },
            0x65 => self.exec_load_registers(op),
            _ => Err(Chip8Error::UndefinedOpcode),
        }
    }

    /// Hands the decoded instruction to the handler of its class.
    fn dispatch(&mut self, op: Opcode) -> (r: Result<Status, Chip8Error>)
        requires
            old(self).wf(),
            op.wf(),
        ensures
            final(self).follows(r, dispatch_spec(old(self)@, op)),
    {
        let vx: u8 = self.regs.v_regs[op.x as usize];
        let vy: u8 = self.regs.v_regs[op.y as usize];
        match op.class {
            0x0 => self.exec_system(op),
            0x1 => self.exec_jump(op),
            0x2 => self.exec_call(op),
            0x3 => self.skip(vx == op.kk),
            0x4 => self.skip(vx != op.kk),
            0x5 => if op.n == 0 {
                self.skip(vx == vy)
            } else {
                Err(Chip8Error::UndefinedOpcode)
            },
            0x6 => self.put(op.x, op.kk),
            0x7 => self.put(op.x, vx.wrapping_add(op.kk)),
            0x8 => self.exec_alu(op),
            0x9 => if op.n == 0 {
                self.skip(vx != vy)
            } else {
                Err(Chip8Error::UndefinedOpcode)
            },
            0xA => self.put_index(op.nnn),
            0xB => self.exec_jump_offset(op),
            0xC => self.exec_random(op),
            0xD => self.exec_draw(op),
            0xE => self.exec_keypad(op),
            _ => self.exec_misc(op),
        }
    }

    /// Executes the instruction `opcode`. Apart from jumps, calls, returns
    /// and a key wait that is still waiting, the program counter moves on to
    /// the next instruction, or past it for a skip. A word that is no
    /// instruction fails with `UndefinedOpcode` and changes nothing.
    pub fn execute(&mut self, opcode: u16) -> (r: Result<Status, Chip8Error>)
        requires
            old(self).wf(),
        ensures
            final(self).wf(),
            final(self)@ == execute_spec(old(self)@, opcode).state,
            r == execute_spec(old(self)@, opcode).result,
    {
        self.dispatch(Cpu::decode(opcode))
    }

    /// Runs one step: fetches the word at the program counter and executes
    /// it. If the fetch fails nothing changes.
    pub fn step(&mut self) -> (r: Result<Status, Chip8Error>)
        requires
            old(self).wf(),
        ensures
            final(self).wf(),
            final(self)@ == step_spec(old(self)@).state,
            r == step_spec(old(self)@).result,
    {
        match self.fetch() {
            Ok(word) => self.execute(word),
            Err(e) => Err(e),
        }
    }

    /// Reports that `key` went down (`pressed` true) or up. A key that goes
    /// down while a key wait is armed is the key the wait ends with.
    pub fn set_key(&mut self, key: usize, pressed: bool) -> (r: Result<(), Chip8Error>)
        requires
            old(self).wf(),
        ensures
            final(self).wf(),
            final(self)@ == set_key_spec(old(self)@, key as int, pressed).0,
            r == set_key_spec(old(self)@, key as int, pressed).1,
    {
        let was_down: bool = self.keyboard.is_pressed(key)?;
        self.keyboard.set_key(key, pressed)?;
        let armed: bool = match self.key_wait {
            KeyWait::Armed => true,
            _ => false,
        };
        if armed && pressed && !was_down {
            self.key_wait = KeyWait::Caught(key as u8);
        }
        Ok(())
    }

    /// One tick of the timer clock: the delay and sound timers each count
    /// down by one and stop at zero.
    pub fn tick_timers(&mut self)
        requires
            old(self).wf(),
        ensures
            final(self).wf(),
            final(self)@ == tick_timers_spec(old(self)@),
    {
        self.regs.tick_timers();
    }

    /// Restarts the random number generator from `seed`, so that the host
    /// can vary, or replay, the bytes the randomize instruction draws.
    pub fn reseed(&mut self, seed: u16)
        requires
            old(self).wf(),
        ensures
            final(self).wf(),
            final(self)@ == (MachineState { seed, ..old(self)@ }),
    {
        self.random = Randomizer::new(seed);
    }

    /// A copy of the display, row by row from the top, each row left to right.
    pub fn display(&self) -> (pixels: [bool; PIXEL_COUNT])
        ensures
            pixels@ == self@.pixels,
    {
        self.screen.snapshot()
    }

    /// Whether `key` is held down.
    pub fn is_pressed(&self, key: usize) -> (r: Result<bool, Chip8Error>)
        ensures
            match r {
                Ok(down) => key < KEY_COUNT && down == self@.keys[key as int],
                Err(e) => key >= KEY_COUNT && e == Chip8Error::InvalidKey,
            },
    {
        self.keyboard.is_pressed(key)
    }

    /// The byte at `addr`.
    pub fn peek(&self, addr: usize) -> (r: Result<u8, Chip8Error>)
        ensures
            match r {
                Ok(byte) => addr < RAM_SIZE && byte == self@.memory[addr as int],
                Err(e) => addr >= RAM_SIZE && e == Chip8Error::InvalidAddress,
            },
    {
        self.ram.read(addr)
    }

    /// The value of register Vx.
    pub fn register(&self, x: usize) -> (value: u8)
        requires
            x < REGISTER_COUNT,
        ensures
            value == self@.v[x as int],
    {
        self.regs.v_regs[x]
    }

    /// The index register I.
    pub fn index(&self) -> (value: u16)
        ensures
            value == self@.index,
    {
        self.regs.i_reg
    }

    /// The program counter.
    pub fn pc(&self) -> (addr: u16)
        ensures
            addr == self@.pc,
    {
        self.regs.pc.get()
    }

    /// The number of return addresses on the call stack.
    pub fn sp(&self) -> (depth: u8)
        requires
            self.wf(),
        ensures
            depth == self@.stack.len(),
    {
        proof {
            self.stack.lemma_entries_len(self.regs.sp);
        }
        self.regs.sp
    }

    /// The delay timer.
    pub fn delay_timer(&self) -> (value: u8)
        ensures
            value == self@.delay,
    {
        self.regs.counter
    }

    /// The sound timer. The host sounds its tone while this is not zero.
    pub fn sound_timer(&self) -> (value: u8)
        ensures
            value == self@.sound,
    {
        self.regs.sound
    }
}

} // verus!
