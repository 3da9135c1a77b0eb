use vstd::prelude::*;
use crate::error::Chip8Error;

verus! {

/// Number of general-purpose registers.
pub const REGISTER_COUNT: usize = 16;

/// Index of VF, the register that receives carry, borrow and collision flags.
pub const FLAG_REGISTER: usize = 0xF;

/// Address of the first instruction of a loaded program.
pub const ENTRY_POINT: u16 = 0x200;

/// Highest address a jump may target.
pub const LAST_ADDRESS: u16 = 0xFFF;

/// The address of the instruction after the one at `pc`. The counter is
/// sixteen bits wide and wraps like any other register.
pub open spec fn next_pc(pc: u16) -> u16 {
    ((pc + 2) % 0x1_0000) as u16
}

/// A timer after one tick: one less, but never below zero.
pub open spec fn tick_spec(timer: u8) -> u8 {
    if timer == 0 {
        0
    } else {
        (timer - 1) as u8
    }
}

/// The program counter: the address of the next instruction to fetch.
pub struct ProgramCounter {
    addr: u16,
}

impl View for ProgramCounter {
    type V = u16;

    closed spec fn view(&self) -> u16 {
        self.addr
    }
}

impl ProgramCounter {
    /// A counter at the entry point.
    pub fn new() -> (pc: ProgramCounter)
        ensures
            pc@ == ENTRY_POINT,
    {
        ProgramCounter { addr: ENTRY_POINT }
    }

    /// The address the counter holds.
    pub fn get(&self) -> (addr: u16)
        ensures
            addr == self@,
    {
        self.addr
    }

    /// The address of the instruction after the one the counter is on.
    pub fn following(&self) -> (addr: u16)
        ensures
            addr == next_pc(self@),
    {
        self.addr.wrapping_add(2)
    }

    /// Moves on to the next instruction.
    pub fn increment(&mut self)
        ensures
            final(self)@ == next_pc(old(self)@),
    {
        self.addr = self.following();
    }

    /// Redirects the counter to `addr`. A target outside memory is refused
    /// and leaves the counter where it was.
    pub fn set_pc(&mut self, addr: u16) -> (r: Result<(), Chip8Error>)
        ensures
            match r {
                Ok(()) => addr <= LAST_ADDRESS && final(self)@ == addr,
                Err(e) => {
                    &&& addr > LAST_ADDRESS
                    &&& e == Chip8Error::InvalidAddress
                    &&& final(self)@ == old(self)@
                },
            },
    {
        if addr > LAST_ADDRESS {
            Err(Chip8Error::InvalidAddress)
        } else {
            self.addr = addr;
            Ok(())
        }
    }

    /// Puts back a return address taken from the call stack.
    pub fn restore(&mut self, addr: u16)
        ensures
            final(self)@ == addr,
    {
        self.addr = addr;
    }
}

/// Stepping to the next instruction keeps an even counter even.
pub proof fn lemma_next_pc_keeps_alignment(pc: u16)
    requires
        pc % 2 == 0,
    ensures
        next_pc(pc) % 2 == 0,
{
}

/// The register file.
pub struct Registers {
    /// General-purpose registers V0 to VF.
    pub v_regs: [u8; REGISTER_COUNT],
    /// Program counter.
    pub pc: ProgramCounter,
    /// Sound timer.
    pub sound: u8,
    /// Index register I.
    pub i_reg: u16,
    /// Delay timer.
    pub counter: u8,
    /// Stack pointer: the number of return addresses on the call stack.
    pub sp: u8,
}

impl Registers {
    /// All registers zero, the program counter at the entry point.
    pub fn new() -> (regs: Registers)
        ensures
            regs.v_regs@ == Seq::new(REGISTER_COUNT as nat, |i: int| 0u8),
            regs.pc@ == ENTRY_POINT,
            regs.sound == 0,
            regs.i_reg == 0,
            regs.counter == 0,
            regs.sp == 0,
    {
        let regs = Registers {
            v_regs: [0u8; REGISTER_COUNT],
            pc: ProgramCounter::new(),
            sound: 0,
            i_reg: 0,
            counter: 0,
            sp: 0,
        };
        assert(regs.v_regs@ =~= Seq::new(REGISTER_COUNT as nat, |i: int| 0u8));
        regs
    }

    /// Counts both timers down by one; a timer at zero stays there.
    pub fn tick_timers(&mut self)
        ensures
            *final(self) == (Registers {
                counter: tick_spec(old(self).counter),
                sound: tick_spec(old(self).sound),
                ..*old(self)
            }),
    {
        self.counter = self.counter.saturating_sub(1);
        self.sound = self.sound.saturating_sub(1);
    }
}

} // verus!
