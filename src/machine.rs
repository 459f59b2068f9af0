use vstd::prelude::*;

use crate::display::{blank_screen, blit, collides, lemma_xor_row_wf, screen_wf};
use crate::error::Chip8Error;
use crate::memory::{initial_memory, word_at};

verus! {

/// What a successful cycle reports besides its effect on the machine.
#[derive(Clone, Copy, Debug, PartialEq, Eq, Structural)]
pub enum StepEvent {
    /// The instruction was recognised and carried out.
    Executed,
    /// The word was no known instruction; it was skipped.
    UnknownOpcode(u16),
}

/// The abstract state of the whole machine.
pub struct Machine {
    /// General registers V0..VF.
    pub v: Seq<u8>,
    /// Index register.
    pub i: u16,
    /// Delay timer.
    pub dt: u8,
    /// Sound timer.
    pub st: u8,
    /// Program counter.
    pub pc: u16,
    /// Stack pointer; 0 means empty, the top entry is `stack[sp]`.
    pub sp: usize,
    pub stack: Seq<u16>,
    /// The 4096 bytes of memory.
    pub mem: Seq<u8>,
    /// The framebuffer, 32 rows of 64 cells.
    pub screen: Seq<Seq<u8>>,
    /// Which of the sixteen keys are held down.
    pub keys: Seq<bool>,
    /// Whether the last cycle changed the screen.
    pub redraw: bool,
}

impl Machine {
    pub open spec fn wf(self) -> bool {
        &&& self.v.len() == 16
        &&& self.stack.len() == 16
        &&& self.sp < 16
        &&& self.mem.len() == 4096
        &&& screen_wf(self.screen)
        &&& self.keys.len() == 16
    }
}

/// The machine right after loading `program`.
pub open spec fn initial_machine(program: Seq<u8>) -> Machine {
    Machine {
        v: Seq::new(16, |k: int| 0u8),
        i: 0,
        dt: 0,
        st: 0,
        pc: 0x200,
        sp: 0,
        stack: Seq::new(16, |k: int| 0u16),
        mem: initial_memory(program),
        screen: blank_screen(),
        keys: Seq::new(16, |k: int| false),
        redraw: false,
    }
}

// Fields of an instruction word.
pub open spec fn op_class(op: u16) -> int {
    op as int / 0x1000
}

pub open spec fn op_x(op: u16) -> int {
    (op as int / 0x100) % 0x10
}

pub open spec fn op_y(op: u16) -> int {
    (op as int / 0x10) % 0x10
}

pub open spec fn op_n(op: u16) -> int {
    op as int % 0x10
}

pub open spec fn op_nn(op: u16) -> u8 {
    (op as int % 0x100) as u8
}

pub open spec fn op_nnn(op: u16) -> u16 {
    (op as int % 0x1000) as u16
}

/// A completed instruction.
pub open spec fn done(m: Machine) -> (Machine, Result<StepEvent, Chip8Error>) {
    (m, Ok(StepEvent::Executed))
}

/// A failed instruction: the machine stays as it was.
pub open spec fn fail(m: Machine, e: Chip8Error) -> (Machine, Result<StepEvent, Chip8Error>) {
    (m, Err(e))
}

/// An unknown instruction, skipped.
pub open spec fn unknown(m: Machine, op: u16) -> (Machine, Result<StepEvent, Chip8Error>) {
    (next(m), Ok(StepEvent::UnknownOpcode(op)))
}

/// Moves on to the following instruction.
pub open spec fn next(m: Machine) -> Machine {
    Machine { pc: (m.pc + 2) as u16, ..m }
}

/// Skips the following instruction when `cond` holds.
pub open spec fn skip_if(m: Machine, cond: bool) -> Machine {
    Machine { pc: (m.pc + if cond { 4int } else { 2int }) as u16, ..m }
}

pub open spec fn set_v(m: Machine, x: int, val: u8) -> Machine {
    Machine { v: m.v.update(x, val), ..m }
}

/// Writes the flag register, then `V[x]`.
pub open spec fn set_flag_then_v(m: Machine, flag: u8, x: int, val: u8) -> Machine {
    set_v(set_v(m, 15, flag), x, val)
}

pub open spec fn key_pressed(keys: Seq<bool>, key: int) -> bool {
    0 <= key < 16 && keys[key]
}

/// The lowest pressed key at or above `k`.
pub open spec fn first_pressed_from(keys: Seq<bool>, k: int) -> Option<int>
    decreases 16 - k,
{
    if k >= 16 || k < 0 {
        None
    } else if keys[k] {
        Some(k)
    } else {
        first_pressed_from(keys, k + 1)
    }
}

/// Class 0: clear the screen, return from a subroutine, or ignore.
pub open spec fn exec_system(m: Machine, op: u16) -> (Machine, Result<StepEvent, Chip8Error>) {
    if op == 0x00E0 {
        done(next(Machine { screen: blank_screen(), redraw: true, ..m }))
    } else if op == 0x00EE {
        if m.sp == 0 {
            fail(m, Chip8Error::StackUnderflow)
        } else {
            done(Machine { pc: m.stack[m.sp as int], sp: (m.sp - 1) as usize, ..m })
        }
    } else {
        done(next(m))
    }
}

/// Class 2: call the subroutine at `nnn`.
pub open spec fn exec_call(m: Machine, op: u16) -> (Machine, Result<StepEvent, Chip8Error>) {
    if m.sp >= 15 {
        fail(m, Chip8Error::StackOverflow)
    } else {
        done(
            Machine {
                sp: (m.sp + 1) as usize,
                stack: m.stack.update(m.sp + 1, (m.pc + 2) as u16),
                pc: op_nnn(op),
                ..m
            },
        )
    }
}

/// Class 8: register-to-register arithmetic and logic.
pub open spec fn exec_alu(m: Machine, op: u16) -> (Machine, Result<StepEvent, Chip8Error>) {
    let x = op_x(op);
    let a = m.v[x];
    let b = m.v[op_y(op)];
    let n = op_n(op);
    if n == 0 {
        done(next(set_v(m, x, b)))
    } else if n == 1 {
        done(next(set_v(m, x, a | b)))
    } else if n == 2 {
        done(next(set_v(m, x, a & b)))
    } else if n == 3 {
        done(next(set_v(m, x, a ^ b)))
    } else if n == 4 {
        let flag: u8 = if a + b > 255 { 1 } else { 0 };
        done(next(set_flag_then_v(m, flag, x, ((a + b) % 256) as u8)))
    } else if n == 5 {
        let flag: u8 = if a > b { 1 } else { 0 };
        done(next(set_flag_then_v(m, flag, x, ((a - b) % 256) as u8)))
    } else if n == 6 {
        done(next(set_flag_then_v(m, a % 2, x, a / 2)))
    } else if n == 7 {
        let flag: u8 = if b > a { 1 } else { 0 };
        done(next(set_flag_then_v(m, flag, x, ((b - a) % 256) as u8)))
    } else if n == 0xE {
        done(next(set_flag_then_v(m, a / 128, x, ((a * 2) % 256) as u8)))
    } else {
        unknown(m, op)
    }
}

/// Class D: draw `n` sprite rows read from memory at `I` at `(V[x], V[y])`.
pub open spec fn exec_draw(m: Machine, op: u16) -> (Machine, Result<StepEvent, Chip8Error>) {
    let n = op_n(op);
    let x0 = m.v[op_x(op)] as int;
    let y0 = m.v[op_y(op)] as int;
    if n > 0 && m.i + n > 4096 {
        fail(m, Chip8Error::AddressOutOfRange)
    } else {
        let rows = Seq::new(n as nat, |k: int| m.mem[m.i + k]);
        let flag: u8 = if collides(m.screen, x0, y0, rows) { 1 } else { 0 };
        done(
            next(
                Machine {
                    screen: blit(m.screen, x0, y0, rows),
                    v: m.v.update(15, flag),
                    redraw: true,
                    ..m
                },
            ),
        )
    }
}

/// Class E: skip on the state of the key named by `V[x]`.
pub open spec fn exec_keys(m: Machine, op: u16) -> (Machine, Result<StepEvent, Chip8Error>) {
    let pressed = key_pressed(m.keys, m.v[op_x(op)] as int);
    if op_nn(op) == 0x9E {
        done(skip_if(m, pressed))
    } else if op_nn(op) == 0xA1 {
        done(skip_if(m, !pressed))
    } else {
        unknown(m, op)
    }
}

/// Class F: timers, keys, the index register and memory transfers.
pub open spec fn exec_misc(m: Machine, op: u16) -> (Machine, Result<StepEvent, Chip8Error>) {
    let x = op_x(op);
    let vx = m.v[x];
    let sub = op_nn(op);
    if sub == 0x07 {
        done(next(set_v(m, x, m.dt)))
    } else if sub == 0x0A {
        match first_pressed_from(m.keys, 0) {
            Some(k) => done(next(set_v(m, x, k as u8))),
            None => done(m),
        }
    } else if sub == 0x15 {
        done(next(Machine { dt: vx, ..m }))
    } else if sub == 0x18 {
        done(next(Machine { st: vx, ..m }))
    } else if sub == 0x1E {
        done(next(Machine { i: ((m.i + vx) % 0x10000) as u16, ..m }))
    } else if sub == 0x29 {
        done(next(Machine { i: (vx * 5) as u16, ..m }))
    } else if sub == 0x33 {
        if m.i + 2 >= 4096 {
            fail(m, Chip8Error::AddressOutOfRange)
        } else {
            let mem = m.mem.update(m.i as int, vx / 100).update(m.i + 1, (vx / 10) % 10).update(
                m.i + 2,
                vx % 10,
            );
            done(next(Machine { mem, ..m }))
        }
    } else if sub == 0x55 {
        if m.i + x >= 4096 {
            fail(m, Chip8Error::AddressOutOfRange)
        } else {
            let mem = Seq::new(
                4096,
                |a: int|
                    if m.i <= a <= m.i + x {
                        m.v[a - m.i]
                    } else {
                        m.mem[a]
                    },
            );
            done(next(Machine { mem, ..m }))
        }
    } else if sub == 0x65 {
        if m.i + x >= 4096 {
            fail(m, Chip8Error::AddressOutOfRange)
        } else {
            let v = Seq::new(16, |k: int| if k <= x { m.mem[m.i + k] } else { m.v[k] });
            done(next(Machine { v, ..m }))
        }
    } else {
        unknown(m, op)
    }
}

/// Carries out the instruction word `op`; `rnd` is the byte that a random
/// draw yields.
pub open spec fn execute(m: Machine, op: u16, rnd: u8) -> (Machine, Result<StepEvent, Chip8Error>) {
    let class = op_class(op);
    let x = op_x(op);
    let nn = op_nn(op);
    let nnn = op_nnn(op);
    if class == 0 {
        exec_system(m, op)
    } else if class == 1 {
        done(Machine { pc: nnn, ..m })
    } else if class == 2 {
        exec_call(m, op)
    } else if class == 3 {
        done(skip_if(m, m.v[x] == nn))
    } else if class == 4 {
        done(skip_if(m, m.v[x] != nn))
    } else if class == 5 {
        done(skip_if(m, m.v[x] == m.v[op_y(op)]))
    } else if class == 6 {
        done(next(set_v(m, x, nn)))
    } else if class == 7 {
        done(next(set_v(m, x, ((m.v[x] + nn) % 256) as u8)))
    } else if class == 8 {
        exec_alu(m, op)
    } else if class == 9 {
        done(skip_if(m, m.v[x] != m.v[op_y(op)]))
    } else if class == 0xA {
        done(next(Machine { i: nnn, ..m }))
    } else if class == 0xB {
        done(Machine { pc: (m.v[0] + nnn) as u16, ..m })
    } else if class == 0xC {
        done(next(set_v(m, x, rnd & nn)))
    } else if class == 0xD {
        exec_draw(m, op)
    } else if class == 0xE {
        exec_keys(m, op)
    } else {
        exec_misc(m, op)
    }
}

/// One fetch-decode-execute cycle. The redraw flag is cleared first; on a
/// failure nothing else changes.
pub open spec fn step(m: Machine, rnd: u8) -> (Machine, Result<StepEvent, Chip8Error>) {
    let cleared = Machine { redraw: false, ..m };
    if m.pc + 1 >= 4096 {
        fail(cleared, Chip8Error::AddressOutOfRange)
    } else {
        execute(cleared, word_at(m.mem, m.pc as int), rnd)
    }
}

/// One 60 Hz timer tick: each nonzero timer goes down by one.
pub open spec fn tick(m: Machine) -> Machine {
    Machine {
        dt: if m.dt > 0 { (m.dt - 1) as u8 } else { 0 },
        st: if m.st > 0 { (m.st - 1) as u8 } else { 0 },
        ..m
    }
}

/// Blitting a sprite keeps every cell 0 or 1.
pub proof fn lemma_blit_wf(screen: Seq<Seq<u8>>, x0: int, y0: int, rows: Seq<u8>)
    requires
        screen_wf(screen),
    ensures
        screen_wf(blit(screen, x0, y0, rows)),
{
    let s2 = blit(screen, x0, y0, rows);
    assert forall|y: int| 0 <= y < 32 implies #[trigger] s2[y].len() == 64 by {
        let r = (y - y0) % 32;
        if r < rows.len() {
            assert(screen[y].len() == 64);
        }
    }
    assert forall|y: int, x: int| 0 <= y < 32 && 0 <= x < 64 implies #[trigger] s2[y][x] <= 1 by {
        assert(screen[y].len() == 64);
        assert(forall|xx: int| 0 <= xx < 64 ==> #[trigger] screen[y][xx] <= 1);
        let r = (y - y0) % 32;
        if r < rows.len() {
            lemma_xor_row_wf(screen[y], x0, rows[r]);
        }
    }
}

/// A cycle keeps the machine well formed.
pub proof fn lemma_step_wf(m: Machine, rnd: u8)
    requires
        m.wf(),
    ensures
        step(m, rnd).0.wf(),
{
    if m.pc + 1 < 4096 {
        let c = Machine { redraw: false, ..m };
        let op = word_at(m.mem, m.pc as int);
        if op_class(op) == 0xD {
            let n = op_n(op);
            let rows = Seq::new(n as nat, |k: int| c.mem[c.i + k]);
            lemma_blit_wf(c.screen, c.v[op_x(op)] as int, c.v[op_y(op)] as int, rows);
        }
    }
}

} // verus!
