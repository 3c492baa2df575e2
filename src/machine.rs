//! The mathematical model of the interpreter's state, the decoding of an
//! instruction word, and the meaning of every instruction.
use vstd::prelude::*;
use crate::display::{draw_spec, collision_spec, FB_SIZE};

verus! {

pub const MEM_SIZE: usize = 4096;
pub const PROGRAM_START: usize = 0x200;
pub const NUM_REGS: usize = 16;
pub const STACK_DEPTH: usize = 16;
pub const NUM_KEYS: usize = 16;

/// Why execution stopped.
#[derive(PartialEq, Eq, Structural, Debug, Clone, Copy)]
pub enum FaultKind {
    /// The instruction word matches no instruction.
    InvalidOpcode,
    /// A call with all sixteen stack entries in use.
    StackOverflow,
    /// A return with an empty stack.
    StackUnderflow,
}

/// A fatal fault, with the program counter and the instruction word at which it came.
#[derive(PartialEq, Eq, Structural, Debug, Clone, Copy)]
pub struct Fault {
    pub kind: FaultKind,
    pub pc: u16,
    pub instr: u16,
}

/// The whole observable state of the interpreter.
pub struct Machine {
    pub ram: Seq<u8>,
    pub v: Seq<u8>,
    pub i: u16,
    pub pc: u16,
    pub sp: u8,
    pub stack: Seq<u16>,
    pub delay: u8,
    pub sound: u8,
    pub display: Seq<bool>,
    pub input: Seq<bool>,
}

pub open spec fn well_formed(m: Machine) -> bool {
    &&& m.ram.len() == MEM_SIZE
    &&& m.v.len() == NUM_REGS
    &&& m.stack.len() == STACK_DEPTH
    &&& m.sp <= STACK_DEPTH
    &&& m.display.len() == FB_SIZE
    &&& m.input.len() == NUM_KEYS
}

// Fields of an instruction word.
pub open spec fn op_class(w: u16) -> int { w as int / 4096 }
pub open spec fn op_x(w: u16) -> int { (w as int / 256) % 16 }
pub open spec fn op_y(w: u16) -> int { (w as int / 16) % 16 }
pub open spec fn op_n(w: u16) -> int { w as int % 16 }
pub open spec fn op_kk(w: u16) -> u8 { (w as int % 256) as u8 }
pub open spec fn op_nnn(w: u16) -> u16 { (w as int % 4096) as u16 }

/// The memory address that an address value refers to.
pub open spec fn addr(a: int) -> int { a % (MEM_SIZE as int) }

/// The instruction word at the program counter, most significant byte first.
pub open spec fn fetch(m: Machine) -> u16 {
    (m.ram[addr(m.pc as int)] as int * 256 + m.ram[addr(m.pc + 1)] as int) as u16
}

/// The program counter moved on by `k` instructions, modulo 2^16.
pub open spec fn pc_plus(pc: u16, k: int) -> u16 {
    ((pc + 2 * k) % 65536) as u16
}

pub open spec fn advance(m: Machine) -> Machine {
    Machine { pc: pc_plus(m.pc, 1), ..m }
}

/// Moves on by one instruction, or by two where `cond` holds.
pub open spec fn skip_if(m: Machine, cond: bool) -> Machine {
    Machine { pc: pc_plus(m.pc, if cond { 2 } else { 1 }), ..m }
}

pub open spec fn set_v(m: Machine, x: int, val: u8) -> Machine {
    Machine { v: m.v.update(x, val), ..m }
}

/// The register-register operation `op` on `a` (Vx) and `b` (Vy): the new Vx,
/// and the new VF where the operation sets one; `None` for an unknown `op`.
pub open spec fn alu_spec(op: int, a: u8, b: u8) -> Option<(u8, Option<u8>)> {
    if op == 0 { Some((b, None)) }
    else if op == 1 { Some((a | b, None)) }
    else if op == 2 { Some((a & b, None)) }
    else if op == 3 { Some((a ^ b, None)) }
    else if op == 4 { Some((((a + b) % 256) as u8, Some(if a + b >= 256 { 1u8 } else { 0u8 }))) }
    else if op == 5 { Some((((a - b) % 256) as u8, Some(if a >= b { 1u8 } else { 0u8 }))) }
    else if op == 6 { Some(((a / 2) as u8, Some((a % 2) as u8))) }
    else if op == 7 { Some((((b - a) % 256) as u8, Some(if b >= a { 1u8 } else { 0u8 }))) }
    else if op == 0xe { Some((((a * 2) % 256) as u8, Some((a / 128) as u8))) }
    else { None }
}

/// The lowest index of a pressed input line at or after `k`.
pub open spec fn first_pressed_from(input: Seq<bool>, k: int) -> Option<int>
    decreases NUM_KEYS - k,
{
    if k < 0 || k >= NUM_KEYS { None }
    else if input[k] { Some(k) }
    else { first_pressed_from(input, k + 1) }
}

pub open spec fn first_pressed(input: Seq<bool>) -> Option<int> {
    first_pressed_from(input, 0)
}

/// Memory after `V0..=Vx` are stored from address `i` on.
pub open spec fn store_regs(ram: Seq<u8>, v: Seq<u8>, i: u16, x: int) -> Seq<u8> {
    Seq::new(ram.len(), |a: int| if addr(a - i) <= x { v[addr(a - i)] } else { ram[a] })
}

/// Registers after `V0..=Vx` are loaded from address `i` on.
pub open spec fn load_regs(ram: Seq<u8>, v: Seq<u8>, i: u16, x: int) -> Seq<u8> {
    Seq::new(v.len(), |k: int| if k <= x { ram[addr(i + k)] } else { v[k] })
}

/// Memory after the decimal digits of `val` are stored at `i`, `i+1`, `i+2`.
pub open spec fn store_bcd(ram: Seq<u8>, i: u16, val: u8) -> Seq<u8> {
    ram.update(addr(i as int), (val / 100) as u8)
       .update(addr(i + 1), ((val / 10) % 10) as u8)
       .update(addr(i + 2), (val % 10) as u8)
}

/// Class `0xF`: timers, the address register, memory transfers and key wait.
pub open spec fn exec_misc(m: Machine, x: int, kk: u8) -> Result<Machine, FaultKind> {
    let vx = m.v[x];
    if kk == 0x07 { Ok(advance(set_v(m, x, m.delay))) }
    else if kk == 0x0a {
        // With no line pressed, `Vx` is left alone and the same instruction runs
        // again on the next tick.
        match first_pressed(m.input) {
            Some(k) => Ok(advance(set_v(m, x, k as u8))),
            None => Ok(m),
        }
    }
    else if kk == 0x15 { Ok(advance(Machine { delay: vx, ..m })) }
    else if kk == 0x18 { Ok(advance(Machine { sound: vx, ..m })) }
    else if kk == 0x1e { Ok(advance(Machine { i: ((m.i + vx) % 65536) as u16, ..m })) }
    else if kk == 0x29 { Ok(advance(Machine { i: (5 * vx) as u16, ..m })) }
    else if kk == 0x33 { Ok(advance(Machine { ram: store_bcd(m.ram, m.i, vx), ..m })) }
    else if kk == 0x55 { Ok(advance(Machine { ram: store_regs(m.ram, m.v, m.i, x), ..m })) }
    else if kk == 0x65 { Ok(advance(Machine { v: load_regs(m.ram, m.v, m.i, x), ..m })) }
    else { Err(FaultKind::InvalidOpcode) }
}

/// What the instruction word `w` does to `m`, where `random` is the byte drawn
/// for the random-number instruction.
///
/// Where an instruction sets both `Vx` and the flag register, the flag is
/// written last. The key instructions read input line `Vx` modulo 16. Jumps,
/// calls and returns set the program counter to their target; every other
/// instruction moves it on by one instruction, or two where it skips.
pub open spec fn exec_spec(m: Machine, w: u16, random: u8) -> Result<Machine, FaultKind> {
    let c = op_class(w);
    let x = op_x(w);
    let y = op_y(w);
    let n = op_n(w);
    let kk = op_kk(w);
    let nnn = op_nnn(w);
    let vx = m.v[x];
    let vy = m.v[y];
    if c == 0 {
        if w == 0x00e0 {
            Ok(advance(Machine { display: Seq::new(FB_SIZE as nat, |p: int| false), ..m }))
        } else if w == 0x00ee {
            if m.sp == 0 {
                Err(FaultKind::StackUnderflow)
            } else {
                Ok(Machine { sp: (m.sp - 1) as u8, pc: pc_plus(m.stack[m.sp - 1], 1), ..m })
            }
        } else {
            Err(FaultKind::InvalidOpcode)
        }
    } else if c == 1 {
        Ok(Machine { pc: nnn, ..m })
    } else if c == 2 {
        if m.sp >= STACK_DEPTH {
            Err(FaultKind::StackOverflow)
        } else {
            Ok(Machine { stack: m.stack.update(m.sp as int, m.pc), sp: (m.sp + 1) as u8, pc: nnn, ..m })
        }
    } else if c == 3 {
        Ok(skip_if(m, vx == kk))
    } else if c == 4 {
        Ok(skip_if(m, vx != kk))
    } else if c == 5 || c == 9 {
        if n != 0 {
            Err(FaultKind::InvalidOpcode)
        } else {
            Ok(skip_if(m, (vx == vy) == (c == 5)))
        }
    } else if c == 6 {
        Ok(advance(set_v(m, x, kk)))
    } else if c == 7 {
        Ok(advance(set_v(m, x, ((vx + kk) % 256) as u8)))
    } else if c == 8 {
        match alu_spec(n, vx, vy) {
            Some((val, Some(flag))) => Ok(advance(set_v(set_v(m, x, val), 0xf, flag))),
            Some((val, None)) => Ok(advance(set_v(m, x, val))),
            None => Err(FaultKind::InvalidOpcode),
        }
    } else if c == 0xa {
        Ok(advance(Machine { i: nnn, ..m }))
    } else if c == 0xb {
        Ok(Machine { pc: (m.v[0] + nnn) as u16, ..m })
    } else if c == 0xc {
        Ok(advance(set_v(m, x, random & kk)))
    } else if c == 0xd {
        let drawn = Machine { display: draw_spec(m.display, m.ram, m.i, vx, vy, n), ..m };
        let flag: u8 = if collision_spec(m.display, m.ram, m.i, vx, vy, n) { 1 } else { 0 };
        Ok(advance(set_v(drawn, 0xf, flag)))
    } else if c == 0xe {
        let pressed = m.input[vx as int % 16];
        if kk == 0x9e {
            Ok(skip_if(m, pressed))
        } else if kk == 0xa1 {
            Ok(skip_if(m, !pressed))
        } else {
            Err(FaultKind::InvalidOpcode)
        }
    } else {
        exec_misc(m, x, kk)
    }
}

/// One instruction: the word at the program counter, executed.
pub open spec fn step_spec(m: Machine, random: u8) -> Result<Machine, FaultKind> {
    exec_spec(m, fetch(m), random)
}

/// Both timers moved one step towards zero.
pub open spec fn decay_timers(m: Machine) -> Machine {
    Machine {
        delay: if m.delay > 0 { (m.delay - 1) as u8 } else { 0 },
        sound: if m.sound > 0 { (m.sound - 1) as u8 } else { 0 },
        ..m
    }
}

/// One tick: the input latch replaced, one instruction run, then the timers decayed.
pub open spec fn tick_spec(m: Machine, input: Seq<bool>, random: u8) -> Result<Machine, FaultKind> {
    match step_spec(Machine { input: input, ..m }, random) {
        Ok(m2) => Ok(decay_timers(m2)),
        Err(k) => Err(k),
    }
}

/// The built-in glyphs of the hexadecimal digits, five rows of four pixels each.
pub open spec fn glyphs() -> Seq<u8> {
    seq![
        0xF0, 0x90, 0x90, 0x90, 0xF0, 0x20, 0x60, 0x20, 0x20, 0x70,
        0xF0, 0x10, 0xF0, 0x80, 0xF0, 0xF0, 0x10, 0xF0, 0x10, 0xF0,
        0x90, 0x90, 0xF0, 0x10, 0x10, 0xF0, 0x80, 0xF0, 0x10, 0xF0,
        0xF0, 0x80, 0xF0, 0x90, 0xF0, 0xF0, 0x10, 0x20, 0x40, 0x40,
        0xF0, 0x90, 0xF0, 0x90, 0xF0, 0xF0, 0x90, 0xF0, 0x10, 0xF0,
        0xF0, 0x90, 0xF0, 0x90, 0x90, 0xE0, 0x90, 0xE0, 0x90, 0xE0,
        0xF0, 0x80, 0x80, 0x80, 0xF0, 0xE0, 0x90, 0x90, 0x90, 0xE0,
        0xF0, 0x80, 0xF0, 0x80, 0xF0, 0xF0, 0x80, 0xF0, 0x80, 0x80u8,
    ]
}

/// Memory at load time: the glyphs from address 0, the program image from
/// `PROGRAM_START`, zero elsewhere.
pub open spec fn initial_ram(image: Seq<u8>) -> Seq<u8> {
    Seq::new(MEM_SIZE as nat, |a: int|
        if a < glyphs().len() {
            glyphs()[a]
        } else if PROGRAM_START <= a < PROGRAM_START + image.len() {
            image[a - PROGRAM_START]
        } else {
            0u8
        })
}

/// The state of a session that has just loaded `image`.
pub open spec fn initial_machine(image: Seq<u8>) -> Machine {
    Machine {
        ram: initial_ram(image),
        v: Seq::new(NUM_REGS as nat, |k: int| 0u8),
        i: 0,
        pc: PROGRAM_START as u16,
        sp: 0,
        stack: Seq::new(STACK_DEPTH as nat, |k: int| 0u16),
        delay: 0,
        sound: 0,
        display: Seq::new(FB_SIZE as nat, |p: int| false),
        input: Seq::new(NUM_KEYS as nat, |k: int| false),
    }
}

/// Whether a program image fits in the memory above `PROGRAM_START`.
pub open spec fn image_fits(image: Seq<u8>) -> bool {
    image.len() <= MEM_SIZE - PROGRAM_START
}

} // verus!
