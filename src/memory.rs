use vstd::prelude::*;

use crate::error::Chip8Error;

verus! {

/// Size of the address space in bytes.
pub const MEMORY_SIZE: usize = 4096;

/// Address at which programs are loaded.
pub const PROGRAM_START: usize = 0x200;

/// Largest program that fits in memory.
pub const MAX_PROGRAM_SIZE: usize = 3584;

/// The sixteen hexadecimal glyphs, five rows each, stored at address 0.
pub const FONT_SET: [u8; 80] = [
    0xF0, 0x90, 0x90, 0x90, 0xF0, // 0
    0x20, 0x60, 0x20, 0x20, 0x70, // 1
    0xF0, 0x10, 0xF0, 0x80, 0xF0, // 2
    0xF0, 0x10, 0xF0, 0x10, 0xF0, // 3
    0x90, 0x90, 0xF0, 0x10, 0x10, // 4
    0xF0, 0x80, 0xF0, 0x10, 0xF0, // 5
    0xF0, 0x80, 0xF0, 0x90, 0xF0, // 6
    0xF0, 0x10, 0x20, 0x40, 0x40, // 7
    0xF0, 0x90, 0xF0, 0x90, 0xF0, // 8
    0xF0, 0x90, 0xF0, 0x10, 0xF0, // 9
    0xF0, 0x90, 0xF0, 0x90, 0x90, // A
    0xE0, 0x90, 0xE0, 0x90, 0xE0, // B
    0xF0, 0x80, 0x80, 0x80, 0xF0, // C
    0xE0, 0x90, 0x90, 0x90, 0xE0, // D
    0xF0, 0x80, 0xF0, 0x80, 0xF0, // E
    0xF0, 0x80, 0xF0, 0x80, 0x80, // F
];

/// The memory image right after loading `program`: the font at the bottom,
/// the program at 0x200, zeros everywhere else.
pub open spec fn initial_memory(program: Seq<u8>) -> Seq<u8> {
    Seq::new(
        4096,
        |a: int|
            if a < 80 {
                FONT_SET@[a]
            } else if 0x200 <= a < 0x200 + program.len() {
                program[a - 0x200]
            } else {
                0u8
            },
    )
}

/// The big-endian 16-bit word stored at `a` and `a + 1`.
pub open spec fn word_at(mem: Seq<u8>, a: int) -> u16 {
    (mem[a] as int * 256 + mem[a + 1] as int) as u16
}

/// The machine's 4096-byte address space.
pub struct FileDriver {
    pub rom: [u8; 4096],
    /// Length of the loaded program.
    pub size: usize,
}

impl FileDriver {
    /// Builds the memory image for `program`, which must fit between 0x200
    /// and the end of memory.
    pub fn new(program: &[u8]) -> (r: Result<FileDriver, Chip8Error>)
        ensures
            program@.len() > MAX_PROGRAM_SIZE ==> r == Err::<FileDriver, Chip8Error>(
                Chip8Error::ProgramTooLarge,
            ),
            program@.len() <= MAX_PROGRAM_SIZE ==> r is Ok && r->Ok_0.rom@ == initial_memory(
                program@,
            ) && r->Ok_0.size == program@.len(),
    {
        if program.len() > MAX_PROGRAM_SIZE {
            return Err(Chip8Error::ProgramTooLarge);
        }
        let mut rom = [0u8; 4096];
        let mut index: usize = 0;
        while index < 80
            invariant
                index <= 80,
                forall|a: int| 0 <= a < index ==> rom@[a] == FONT_SET@[a],
                forall|a: int| index <= a < 4096 ==> rom@[a] == 0,
            decreases 80 - index,
        {
            rom[index] = FONT_SET[index];
            index += 1;
        }
        let mut k: usize = 0;
        while k < program.len()
            invariant
                program@.len() <= MAX_PROGRAM_SIZE,
                k <= program@.len(),
                forall|a: int| 0 <= a < 80 ==> rom@[a] == FONT_SET@[a],
                forall|a: int| 80 <= a < 0x200 ==> rom@[a] == 0,
                forall|a: int| 0x200 <= a < 0x200 + k ==> rom@[a] == program@[a - 0x200],
                forall|a: int| 0x200 + k <= a < 4096 ==> rom@[a] == 0,
            decreases program@.len() - k,
        {
            rom[PROGRAM_START + k] = program[k];
            k += 1;
        }
        assert(rom@ =~= initial_memory(program@));
        Ok(FileDriver { rom, size: program.len() })
    }

    /// Fetches the big-endian instruction word at `location`.
    pub fn get_opcode(&self, location: u16) -> (r: Result<u16, Chip8Error>)
        ensures
            location as int + 1 >= 4096 ==> r == Err::<u16, Chip8Error>(
                Chip8Error::AddressOutOfRange,
            ),
            location as int + 1 < 4096 ==> r == Ok::<u16, Chip8Error>(
                word_at(self.rom@, location as int),
            ),
    {
        if location >= 4095 {
            return Err(Chip8Error::AddressOutOfRange);
        }
        let loc = location as usize;
        let hi = self.rom[loc] as u16;
        let lo = self.rom[loc + 1] as u16;
        Ok(hi * 256 + lo)
    }

    /// Stores `byte` at `location`.
    pub fn write_byte(&mut self, location: u16, byte: u8) -> (r: Result<(), Chip8Error>)
        ensures
            location >= 4096 ==> r == Err::<(), Chip8Error>(Chip8Error::AddressOutOfRange)
                && *final(self) == *old(self),
            location < 4096 ==> r is Ok && final(self).rom@ == old(self).rom@.update(
                location as int,
                byte,
            ) && final(self).size == old(self).size,
    {
        if location >= 4096 {
            return Err(Chip8Error::AddressOutOfRange);
        }
        self.rom[location as usize] = byte;
        Ok(())
    }

    /// Reads the byte at `location`.
    pub fn read_byte(&self, location: u16) -> (r: Result<u8, Chip8Error>)
        ensures
            location >= 4096 ==> r == Err::<u8, Chip8Error>(Chip8Error::AddressOutOfRange),
            location < 4096 ==> r == Ok::<u8, Chip8Error>(self.rom@[location as int]),
    {
        if location >= 4096 {
            return Err(Chip8Error::AddressOutOfRange);
        }
        Ok(self.rom[location as usize])
    }
}

} // verus!
