use vstd::prelude::*;

use crate::display::MMIO;
use crate::error::Chip8Error;
use crate::machine::{
    exec_alu, exec_call, exec_draw, exec_keys, exec_misc, exec_system, first_pressed_from, initial_machine,
    lemma_step_wf, step, tick, Machine, StepEvent,
};
use crate::memory::{FileDriver, MAX_PROGRAM_SIZE};

verus! {

/// Relies on rand::random: draws a byte from the thread-local generator.
/// Nothing is known of its value.
#[verifier::external_body]
fn random_byte() -> (r: u8) {
    rand::random::<u8>()
}

/// The lowest pressed key, if any.
fn first_pressed(keys: &[bool; 16]) -> (r: Option<u8>)
    ensures
        r matches Some(k) ==> first_pressed_from(keys@, 0) == Some(k as int),
        r is None ==> first_pressed_from(keys@, 0) is None,
{
    let mut k: usize = 0;
    while k < 16
        invariant
            k <= 16,
            first_pressed_from(keys@, 0) == first_pressed_from(keys@, k as int),
        decreases 16 - k,
    {
        if keys[k] {
            return Some(k as u8);
        }
        k += 1;
    }
    None
}

/// The engine: registers, call stack, timers, memory and devices.
pub struct CPU {
    /// Framebuffer and key matrix, shared with the host.
    pub mmio: MMIO,
    gp_registers: [u8; 16],
    i: u16,
    dt: u8,
    st: u8,
    pc: u16,
    sp: usize,
    d_flag: bool,
    stack: [u16; 16],
    memory: FileDriver,
}

impl View for CPU {
    type V = Machine;

    closed spec fn view(&self) -> Machine {
        Machine {
            v: self.gp_registers@,
            i: self.i,
            dt: self.dt,
            st: self.st,
            pc: self.pc,
            sp: self.sp,
            stack: self.stack@,
            mem: self.memory.rom@,
            screen: self.mmio.screen(),
            keys: self.mmio.input_memory@,
            redraw: self.d_flag,
        }
    }
}

impl CPU {
    pub open spec fn wf(&self) -> bool {
        self@.wf()
    }

    /// A machine with `program` loaded at 0x200, all registers zero, an empty
    /// stack, a dark screen and no key pressed.
    pub fn new(program: &[u8]) -> (r: Result<CPU, Chip8Error>)
        ensures
            program@.len() > MAX_PROGRAM_SIZE ==> r == Err::<CPU, Chip8Error>(
                Chip8Error::ProgramTooLarge,
            ),
            program@.len() <= MAX_PROGRAM_SIZE ==> r is Ok && r->Ok_0@ == initial_machine(
                program@,
            ) && r->Ok_0.wf(),
    {
        let memory = match FileDriver::new(program) {
            Ok(m) => m,
            Err(e) => return Err(e),
        };
        let cpu = CPU {
            mmio: MMIO::new(),
            gp_registers: [0u8; 16],
            i: 0,
            dt: 0,
            st: 0,
            pc: 0x200,
            sp: 0,
            d_flag: false,
            stack: [0u16; 16],
            memory,
        };
        assert(cpu.gp_registers@ =~= Seq::new(16, |k: int| 0u8));
        assert(cpu.stack@ =~= Seq::new(16, |k: int| 0u16));
        assert(cpu.mmio.input_memory@ =~= Seq::new(16, |k: int| false));
        Ok(cpu)
    }

    /// Whether the last cycle changed the screen.
    pub fn get_draw_flag(&self) -> (r: bool)
        ensures
            r == self@.redraw,
    {
        self.d_flag
    }

    /// Carries out one fetch-decode-execute cycle, with `random` as the byte
    /// that the random-number instruction draws.
    pub fn execute_with_random(&mut self, random: u8) -> (r: Result<StepEvent, Chip8Error>)
        requires
            old(self).wf(),
        ensures
            final(self).wf(),
            (final(self)@, r) == step(old(self)@, random),
    {
        proof {
            lemma_step_wf(self@, random);
        }
        self.d_flag = false;
        let opcode = match self.memory.get_opcode(self.pc) {
            Ok(op) => op,
            Err(e) => return Err(e),
        };
        let class = opcode / 0x1000;
        let x = (opcode / 0x100 % 0x10) as usize;
        let y = (opcode / 0x10 % 0x10) as usize;
        let nn = (opcode % 0x100) as u8;
        let nnn = opcode % 0x1000;
        if class == 0 {
            self.run_system(opcode)
        } else if class == 1 {
            self.pc = nnn;
            Ok(StepEvent::Executed)
        } else if class == 2 {
            self.run_call(opcode)
        } else if class == 3 {
            self.pc = self.pc + if self.gp_registers[x] == nn { 4 } else { 2 };
            Ok(StepEvent::Executed)
        } else if class == 4 {
            self.pc = self.pc + if self.gp_registers[x] != nn { 4 } else { 2 };
            Ok(StepEvent::Executed)
        } else if class == 5 {
            self.pc = self.pc + if self.gp_registers[x] == self.gp_registers[y] { 4 } else { 2 };
            Ok(StepEvent::Executed)
        } else if class == 6 {
            self.gp_registers[x] = nn;
            self.pc = self.pc + 2;
            Ok(StepEvent::Executed)
        } else if class == 7 {
            self.gp_registers[x] = ((self.gp_registers[x] as u16 + nn as u16) % 256) as u8;
            self.pc = self.pc + 2;
            Ok(StepEvent::Executed)
        } else if class == 8 {
            self.run_alu(opcode)
        } else if class == 9 {
            self.pc = self.pc + if self.gp_registers[x] != self.gp_registers[y] { 4 } else { 2 };
            Ok(StepEvent::Executed)
        } else if class == 0xA {
            self.i = nnn;
            self.pc = self.pc + 2;
            Ok(StepEvent::Executed)
        } else if class == 0xB {
            self.pc = self.gp_registers[0] as u16 + nnn;
            Ok(StepEvent::Executed)
        } else if class == 0xC {
            self.gp_registers[x] = random & nn;
            self.pc = self.pc + 2;
            Ok(StepEvent::Executed)
        } else if class == 0xD {
            self.run_draw(opcode)
        } else if class == 0xE {
            self.run_keys(opcode)
        } else {
            self.run_misc(opcode)
        }
    }

    /// Carries out one fetch-decode-execute cycle, drawing a fresh random byte
    /// for the random-number instruction.
    pub fn execute_next_opcode(&mut self) -> (r: Result<StepEvent, Chip8Error>)
        requires
            old(self).wf(),
        ensures
            final(self).wf(),
            exists|random: u8| (final(self)@, r) == step(old(self)@, random),
    {
        let random = random_byte();
        self.execute_with_random(random)
    }

    /// One 60 Hz tick of both timers. Returns whether the sound timer was
    /// running, that is whether the tone should sound.
    pub fn update_timers(&mut self) -> (beep: bool)
        requires
            old(self).wf(),
        ensures
            final(self).wf(),
            final(self)@ == tick(old(self)@),
            beep == (old(self)@.st > 0),
    {
        if self.dt > 0 {
            self.dt = self.dt - 1;
        }
        let beep = self.st > 0;
        if beep {
            self.st = self.st - 1;
        }
        beep
    }

    /// Replaces the key matrix with the host's latest snapshot.
    pub fn set_input(&mut self, keys: [bool; 16])
        requires
            old(self).wf(),
        ensures
            final(self).wf(),
            final(self)@ == (Machine { keys: keys@, ..old(self)@ }),
    {
        self.mmio.set_input(keys);
    }

    /// General register `V[x]`.
    pub fn register(&self, x: usize) -> (r: u8)
        requires
            x < 16,
        ensures
            r == self@.v[x as int],
    {
        self.gp_registers[x]
    }

    pub fn index_register(&self) -> (r: u16)
        ensures
            r == self@.i,
    {
        self.i
    }

    pub fn program_counter(&self) -> (r: u16)
        ensures
            r == self@.pc,
    {
        self.pc
    }

    pub fn stack_pointer(&self) -> (r: usize)
        ensures
            r == self@.sp,
    {
        self.sp
    }

    pub fn delay_timer(&self) -> (r: u8)
        ensures
            r == self@.dt,
    {
        self.dt
    }

    pub fn sound_timer(&self) -> (r: u8)
        ensures
            r == self@.st,
    {
        self.st
    }

    /// The byte at `location`, or `AddressOutOfRange` past the end of memory.
    pub fn read_memory(&self, location: u16) -> (r: Result<u8, Chip8Error>)
        ensures
            location >= 4096 ==> r == Err::<u8, Chip8Error>(Chip8Error::AddressOutOfRange),
            location < 4096 ==> r == Ok::<u8, Chip8Error>(self@.mem[location as int]),
    {
        self.memory.read_byte(location)
    }

    fn run_system(&mut self, opcode: u16) -> (r: Result<StepEvent, Chip8Error>)
        requires
            old(self).wf(),
            old(self)@.pc + 1 < 4096,
        ensures
            (final(self)@, r) == exec_system(old(self)@, opcode),
    {
        if opcode == 0x00E0 {
            self.mmio.clear();
            self.d_flag = true;
            self.pc = self.pc + 2;
            Ok(StepEvent::Executed)
        } else if opcode == 0x00EE {
            if self.sp == 0 {
                return Err(Chip8Error::StackUnderflow);
            }
            self.pc = self.stack[self.sp];
            self.sp = self.sp - 1;
            Ok(StepEvent::Executed)
        } else {
            self.pc = self.pc + 2;
            Ok(StepEvent::Executed)
        }
    }

    fn run_call(&mut self, opcode: u16) -> (r: Result<StepEvent, Chip8Error>)
        requires
            old(self).wf(),
            old(self)@.pc + 1 < 4096,
        ensures
            (final(self)@, r) == exec_call(old(self)@, opcode),
    {
        if self.sp >= 15 {
            return Err(Chip8Error::StackOverflow);
        }
        self.sp = self.sp + 1;
        self.stack[self.sp] = self.pc + 2;
        self.pc = opcode % 0x1000;
        Ok(StepEvent::Executed)
    }

    fn run_alu(&mut self, opcode: u16) -> (r: Result<StepEvent, Chip8Error>)
        requires
            old(self).wf(),
            old(self)@.pc + 1 < 4096,
        ensures
            (final(self)@, r) == exec_alu(old(self)@, opcode),
    {
        let x = (opcode / 0x100 % 0x10) as usize;
        let y = (opcode / 0x10 % 0x10) as usize;
        let n = opcode % 0x10;
        let a = self.gp_registers[x];
        let b = self.gp_registers[y];
        if n == 0 {
            self.gp_registers[x] = b;
        } else if n == 1 {
            self.gp_registers[x] = a | b;
        } else if n == 2 {
            self.gp_registers[x] = a & b;
        } else if n == 3 {
            self.gp_registers[x] = a ^ b;
        } else if n == 4 {
            let sum = a as u16 + b as u16;
            self.gp_registers[15] = if sum > 255 { 1 } else { 0 };
            self.gp_registers[x] = (sum % 256) as u8;
        } else if n == 5 {
            self.gp_registers[15] = if a > b { 1 } else { 0 };
            self.gp_registers[x] = if a >= b { a - b } else { (256 + a as u16 - b as u16) as u8 };
        } else if n == 6 {
            self.gp_registers[15] = a % 2;
            self.gp_registers[x] = a / 2;
        } else if n == 7 {
            self.gp_registers[15] = if b > a { 1 } else { 0 };
            self.gp_registers[x] = if b >= a { b - a } else { (256 + b as u16 - a as u16) as u8 };
        } else if n == 0xE {
            self.gp_registers[15] = a / 128;
            self.gp_registers[x] = ((a as u16 * 2) % 256) as u8;
        } else {
            self.pc = self.pc + 2;
            return Ok(StepEvent::UnknownOpcode(opcode));
        }
        self.pc = self.pc + 2;
        Ok(StepEvent::Executed)
    }

    fn run_draw(&mut self, opcode: u16) -> (r: Result<StepEvent, Chip8Error>)
        requires
            old(self).wf(),
            old(self)@.pc + 1 < 4096,
        ensures
            (final(self)@, r) == exec_draw(old(self)@, opcode),
    {
        let n = (opcode % 0x10) as usize;
        let base = self.i as usize;
        if n > 0 && base + n > 4096 {
            return Err(Chip8Error::AddressOutOfRange);
        }
        let x0 = self.gp_registers[(opcode / 0x100 % 0x10) as usize];
        let y0 = self.gp_registers[(opcode / 0x10 % 0x10) as usize];
        let mut rows: Vec<u8> = Vec::new();
        let mut k: usize = 0;
        while k < n
            invariant
                k <= n <= 15,
                n > 0 ==> base + n <= 4096,
                base == self.i,
                self.memory.rom@.len() == 4096,
                rows@ == Seq::new(k as nat, |j: int| self.memory.rom@[base + j]),
            decreases n - k,
        {
            rows.push(self.memory.rom[base + k]);
            k += 1;
            assert(rows@ =~= Seq::new(k as nat, |j: int| self.memory.rom@[base + j]));
        }
        let hit = self.mmio.draw_sprite(x0, y0, rows.as_slice());
        self.gp_registers[15] = if hit { 1 } else { 0 };
        self.d_flag = true;
        self.pc = self.pc + 2;
        Ok(StepEvent::Executed)
    }

    fn run_keys(&mut self, opcode: u16) -> (r: Result<StepEvent, Chip8Error>)
        requires
            old(self).wf(),
            old(self)@.pc + 1 < 4096,
        ensures
            (final(self)@, r) == exec_keys(old(self)@, opcode),
    {
        let key = self.gp_registers[(opcode / 0x100 % 0x10) as usize];
        let pressed = self.mmio.is_pressed(key);
        let sub = opcode % 0x100;
        if sub == 0x9E {
            self.pc = self.pc + if pressed { 4 } else { 2 };
            Ok(StepEvent::Executed)
        } else if sub == 0xA1 {
            self.pc = self.pc + if pressed { 2 } else { 4 };
            Ok(StepEvent::Executed)
        } else {
            self.pc = self.pc + 2;
            Ok(StepEvent::UnknownOpcode(opcode))
        }
    }

    fn run_misc(&mut self, opcode: u16) -> (r: Result<StepEvent, Chip8Error>)
        requires
            old(self).wf(),
            old(self)@.pc + 1 < 4096,
        ensures
            (final(self)@, r) == exec_misc(old(self)@, opcode),
    {
        let x = (opcode / 0x100 % 0x10) as usize;
        let vx = self.gp_registers[x];
        let sub = opcode % 0x100;
        let base = self.i as usize;
        if sub == 0x07 {
            self.gp_registers[x] = self.dt;
        } else if sub == 0x0A {
            match first_pressed(&self.mmio.input_memory) {
                Some(k) => self.gp_registers[x] = k,
                None => return Ok(StepEvent::Executed),
            }
        } else if sub == 0x15 {
            self.dt = vx;
        } else if sub == 0x18 {
            self.st = vx;
        } else if sub == 0x1E {
            self.i = ((self.i as u32 + vx as u32) % 0x10000) as u16;
        } else if sub == 0x29 {
            self.i = vx as u16 * 5;
        } else if sub == 0x33 {
            if base + 2 >= 4096 {
                return Err(Chip8Error::AddressOutOfRange);
            }
            self.memory.rom[base] = vx / 100;
            self.memory.rom[base + 1] = (vx / 10) % 10;
            self.memory.rom[base + 2] = vx % 10;
        } else if sub == 0x55 {
            if base + x >= 4096 {
                return Err(Chip8Error::AddressOutOfRange);
            }
            let ghost m = self@;
            let mut k: usize = 0;
            while k <= x
                invariant
                    x < 16,
                    base + x < 4096,
                    base == m.i,
                    m.wf(),
                    self@ == (Machine { mem: self@.mem, ..m }),
                    k <= x + 1,
                    self.memory.rom@ == Seq::new(
                        4096,
                        |a: int|
                            if base <= a < base + k {
                                m.v[a - base]
                            } else {
                                m.mem[a]
                            },
                    ),
                decreases x + 1 - k,
            {
                self.memory.rom[base + k] = self.gp_registers[k];
                k += 1;
                assert(self.memory.rom@ =~= Seq::new(
                    4096,
                    |a: int|
                        if base <= a < base + k {
                            m.v[a - base]
                        } else {
                            m.mem[a]
                        },
                ));
            }
        } else if sub == 0x65 {
            if base + x >= 4096 {
                return Err(Chip8Error::AddressOutOfRange);
            }
            let ghost m = self@;
            let mut k: usize = 0;
            while k <= x
                invariant
                    x < 16,
                    base + x < 4096,
                    base == m.i,
                    m.wf(),
                    self@ == (Machine { v: self@.v, ..m }),
                    k <= x + 1,
                    self.gp_registers@ == Seq::new(
                        16,
                        |j: int|
                            if j < k {
                                m.mem[base + j]
                            } else {
                                m.v[j]
                            },
                    ),
                decreases x + 1 - k,
            {
                self.gp_registers[k] = self.memory.rom[base + k];
                k += 1;
                assert(self.gp_registers@ =~= Seq::new(
                    16,
                    |j: int|
                        if j < k {
                            m.mem[base + j]
                        } else {
                            m.v[j]
                        },
                ));
            }
        } else {
            self.pc = self.pc + 2;
            return Ok(StepEvent::UnknownOpcode(opcode));
        }
        self.pc = self.pc + 2;
        assert(self@.mem =~= exec_misc(old(self)@, opcode).0.mem);
        assert(self@.v =~= exec_misc(old(self)@, opcode).0.v);
        Ok(StepEvent::Executed)
    }
}

} // verus!
