use vstd::prelude::*;
use crate::error::Chip8Error;

verus! {

/// Number of addressable bytes.
pub const RAM_SIZE: usize = 4096;

/// Address at which a program image starts.
pub const PROGRAM_START: usize = 0x200;

/// Longest program image that fits above the load address.
pub const MAX_PROGRAM_LEN: usize = RAM_SIZE - PROGRAM_START;

/// Memory holding zero at every address.
pub open spec fn blank_memory() -> Seq<u8> {
    Seq::new(RAM_SIZE as nat, |a: int| 0u8)
}

/// `memory` with `block` written from address `start` on; the part of the
/// block that would lie past the last address is dropped.
pub open spec fn store_block(memory: Seq<u8>, start: int, block: Seq<u8>) -> Seq<u8> {
    Seq::new(
        RAM_SIZE as nat,
        |a: int|
            if start <= a < start + block.len() {
                block[a - start]
            } else {
                memory[a]
            },
    )
}

/// `memory` after a program image has been copied to the load address.
pub open spec fn load_spec(memory: Seq<u8>, program: Seq<u8>) -> Seq<u8> {
    store_block(memory, PROGRAM_START as int, program)
}

/// The machine's RAM: a flat store of 4096 bytes.
pub struct Ram {
    bytes: [u8; RAM_SIZE],
}

impl View for Ram {
    type V = Seq<u8>;

    closed spec fn view(&self) -> Seq<u8> {
        self.bytes@
    }
}

impl Ram {
    /// Every memory has exactly `RAM_SIZE` bytes.
    pub proof fn lemma_len(&self)
        ensures
            self@.len() == RAM_SIZE,
    {
    }

    /// Zero-filled memory with `rom_bytes` loaded at the program start.
    pub fn new(rom_bytes: &[u8]) -> (r: Result<Ram, Chip8Error>)
        ensures
            match r {
                Ok(ram) => {
                    &&& rom_bytes@.len() <= MAX_PROGRAM_LEN
                    &&& ram@ == load_spec(blank_memory(), rom_bytes@)
                },
                Err(e) => rom_bytes@.len() > MAX_PROGRAM_LEN && e == Chip8Error::RomTooLarge,
            },
    {
        let mut ram = Ram { bytes: [0u8; RAM_SIZE] };
        assert(ram@ =~= blank_memory());
        match ram.load(rom_bytes) {
            Ok(()) => Ok(ram),
            Err(e) => Err(e),
        }
    }

    /// Copies `bytes` into memory from the program start on. An image that
    /// does not fit is rejected and memory is left as it was.
    pub fn load(&mut self, bytes: &[u8]) -> (r: Result<(), Chip8Error>)
        ensures
            match r {
                Ok(()) => {
                    &&& bytes@.len() <= MAX_PROGRAM_LEN
                    &&& final(self)@ == load_spec(old(self)@, bytes@)
                },
                Err(e) => {
                    &&& bytes@.len() > MAX_PROGRAM_LEN
                    &&& e == Chip8Error::RomTooLarge
                    &&& final(self)@ == old(self)@
                },
            },
    {
        if bytes.len() > MAX_PROGRAM_LEN {
            return Err(Chip8Error::RomTooLarge);
        }
        let mut i: usize = 0;
        while i < bytes.len()
            invariant
                i <= bytes@.len() <= MAX_PROGRAM_LEN,
                self@ == load_spec(old(self)@, bytes@.take(i as int)),
            decreases bytes@.len() - i,
        {
            self.bytes[PROGRAM_START + i] = bytes[i];
            i = i + 1;
        }
        assert(bytes@.take(i as int) =~= bytes@);
        Ok(())
    }

    /// The byte at `addr`.
    pub fn read(&self, addr: usize) -> (r: Result<u8, Chip8Error>)
        ensures
            match r {
                Ok(b) => addr < RAM_SIZE && b == self@[addr as int],
                Err(e) => addr >= RAM_SIZE && e == Chip8Error::InvalidAddress,
            },
    {
        if addr >= RAM_SIZE {
            Err(Chip8Error::InvalidAddress)
        } else {
            Ok(self.bytes[addr])
        }
    }

    /// Stores `value` at `addr`; no other byte changes.
    pub fn write(&mut self, addr: usize, value: u8) -> (r: Result<(), Chip8Error>)
        ensures
            match r {
                Ok(()) => addr < RAM_SIZE && final(self)@ == old(self)@.update(addr as int, value),
                Err(e) => {
                    &&& addr >= RAM_SIZE
                    &&& e == Chip8Error::InvalidAddress
                    &&& final(self)@ == old(self)@
                },
            },
    {
        if addr >= RAM_SIZE {
            Err(Chip8Error::InvalidAddress)
        } else {
            self.bytes[addr] = value;
            Ok(())
        }
    }
}

} // verus!
