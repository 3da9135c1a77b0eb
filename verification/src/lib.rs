//! A CHIP-8 virtual machine core: memory, registers, call stack, display and
//! keypad, with a fetch-decode-execute engine that is proved to follow the
//! instruction semantics laid down in [`machine`].
//!
//! The host builds a [`Chip8`] from a program image, calls [`Chip8::step`]
//! at the instruction rate and [`Chip8::tick_timers`] at the timer rate,
//! reports key changes with [`Chip8::set_key`], and reads the display with
//! [`Chip8::display`].

pub mod cpu;
pub mod error;
pub mod keyboard;
pub mod machine;
pub mod ram;
pub mod random;
pub mod registers;
pub mod screen;
pub mod stack;

use vstd::prelude::*;
use crate::cpu::Cpu;
use crate::error::Chip8Error;
use crate::keyboard::KEY_COUNT;
use crate::machine::{
    initial_state, set_key_spec, step_spec, tick_timers_spec, MachineState, Status,
};
use crate::ram::MAX_PROGRAM_LEN;
use crate::screen::PIXEL_COUNT;

verus! {

/// The virtual machine as the host sees it.
pub struct Chip8 {
    cpu: Cpu,
}

impl View for Chip8 {
    type V = MachineState;

    closed spec fn view(&self) -> MachineState {
        self.cpu@
    }
}

impl Chip8 {
    /// The machine's parts are consistent with each other.
    pub closed spec fn wf(&self) -> bool {
        self.cpu.wf()
    }

    /// The state of a well-formed machine is a well-formed machine state.
    pub proof fn lemma_view_wf(&self)
        requires
            self.wf(),
        ensures
            self@.wf(),
    {
        self.cpu.lemma_view_wf();
    }

    /// A machine with `rom_bytes` loaded at the entry point, ready to run.
    /// Fails with `RomTooLarge` if the image is longer than
    /// `MAX_PROGRAM_LEN` bytes.
    pub fn new(rom_bytes: &[u8]) -> (r: Result<Chip8, Chip8Error>)
        ensures
            match r {
                Ok(machine) => {
                    &&& rom_bytes@.len() <= MAX_PROGRAM_LEN
                    &&& machine.wf()
                    &&& machine@ == initial_state(rom_bytes@)
                },
                Err(e) => rom_bytes@.len() > MAX_PROGRAM_LEN && e == Chip8Error::RomTooLarge,
            },
    {
        match Cpu::new(rom_bytes) {
            Ok(cpu) => Ok(Chip8 { cpu }),
            Err(e) => Err(e),
        }
    }

    /// Executes exactly one instruction: fetch, decode, execute. An error
    /// is handed to the caller as it arose; the state is then as the failed
    /// instruction left it.
    pub fn step(&mut self) -> (r: Result<Status, Chip8Error>)
        requires
            old(self).wf(),
        ensures
            final(self).wf(),
            final(self)@ == step_spec(old(self)@).state,
            r == step_spec(old(self)@).result,
    {
        self.cpu.step()
    }

    /// One tick of the timer clock, to be called at the timer rate whatever
    /// the rate of `step`: both timers count down by one and stop at zero.
    pub fn tick_timers(&mut self)
        requires
            old(self).wf(),
        ensures
            final(self).wf(),
            final(self)@ == tick_timers_spec(old(self)@),
    {
        self.cpu.tick_timers();
    }

    /// Reports that `key` went down (`pressed` true) or up.
    pub fn set_key(&mut self, key: usize, pressed: bool) -> (r: Result<(), Chip8Error>)
        requires
            old(self).wf(),
        ensures
            final(self).wf(),
            final(self)@ == set_key_spec(old(self)@, key as int, pressed).0,
            r == set_key_spec(old(self)@, key as int, pressed).1,
    {
        self.cpu.set_key(key, pressed)
    }

    /// Restarts the random number generator from `seed`.
    pub fn reseed(&mut self, seed: u16)
        requires
            old(self).wf(),
        ensures
            final(self).wf(),
            final(self)@ == (MachineState { seed, ..old(self)@ }),
    {
        self.cpu.reseed(seed);
    }

    /// A copy of the display, row by row from the top, each row left to right.
    pub fn display(&self) -> (pixels: [bool; PIXEL_COUNT])
        ensures
            pixels@ == self@.pixels,
    {
        self.cpu.display()
    }

    /// Whether `key` is held down.
    pub fn is_pressed(&self, key: usize) -> (r: Result<bool, Chip8Error>)
        ensures
            match r {
                Ok(down) => key < KEY_COUNT && down == self@.keys[key as int],
                Err(e) => key >= KEY_COUNT && e == Chip8Error::InvalidKey,
            },
    {
        self.cpu.is_pressed(key)
    }

    /// The delay timer.
    pub fn delay_timer(&self) -> (value: u8)
        ensures
            value == self@.delay,
    {
        self.cpu.delay_timer()
    }

    /// The sound timer. The host sounds its tone while this is not zero.
    pub fn sound_timer(&self) -> (value: u8)
        ensures
            value == self@.sound,
    {
        self.cpu.sound_timer()
    }

    /// The interpreter, for reading its registers and memory.
    pub fn cpu(&self) -> (cpu: &Cpu)
        ensures
            cpu@ == self@,
            cpu.wf() == self.wf(),
    {
        &self.cpu
    }
}

} // verus!
