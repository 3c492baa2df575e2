//! The interpreter: state, program loading, the dispatcher and the tick driver.
use vstd::prelude::*;
use crate::machine::{glyphs, initial_ram, initial_machine, image_fits, NUM_KEYS, Machine, Fault, FaultKind, well_formed, fetch, set_v, skip_if, alu_spec, first_pressed, first_pressed_from, exec_spec, exec_misc, step_spec, tick_spec, store_regs, load_regs, MEM_SIZE, NUM_REGS, STACK_DEPTH, PROGRAM_START};
use crate::display::{draw, FB_SIZE, FB_WIDTH, FB_HEIGHT};
use crate::entropy::{thread_rng, random_byte};

verus! {

/// Why a program image was not loaded.
#[derive(PartialEq, Eq, Structural, Debug, Clone, Copy)]
pub enum LoadError {
    /// The image is longer than the memory above the program start.
    ImageTooLarge,
}

/// A CHIP-8 interpreter session.
pub struct Chip8 {
    ram: Vec<u8>,
    v: Vec<u8>,
    i: u16,
    delay_timer: u8,
    sound_timer: u8,
    pc: u16,
    sp: u8,
    stack: Vec<u16>,
    display: Vec<bool>,
    rng: rand::rngs::ThreadRng,
    input: [bool; 16],
}

impl View for Chip8 {
    type V = Machine;

    closed spec fn view(&self) -> Machine {
        Machine {
            ram: self.ram@,
            v: self.v@,
            i: self.i,
            pc: self.pc,
            sp: self.sp,
            stack: self.stack@,
            delay: self.delay_timer,
            sound: self.sound_timer,
            display: self.display@,
            input: self.input@,
        }
    }
}

/// The register-register operation `op` of class `0x8`.
fn alu(op: u16, a: u8, b: u8) -> (r: Option<(u8, Option<u8>)>)
    ensures
        r == alu_spec(op as int, a, b),
{
    if op == 0 {
        Some((b, None))
    } else if op == 1 {
        Some((a | b, None))
    } else if op == 2 {
        Some((a & b, None))
    } else if op == 3 {
        Some((a ^ b, None))
    } else if op == 4 {
        let sum: u16 = a as u16 + b as u16;
        Some(((sum % 256) as u8, Some(if sum >= 256 { 1 } else { 0 })))
    } else if op == 5 {
        Some((a.wrapping_sub(b), Some(if a >= b { 1 } else { 0 })))
    } else if op == 6 {
        Some((a / 2, Some(a % 2)))
    } else if op == 7 {
        Some((b.wrapping_sub(a), Some(if b >= a { 1 } else { 0 })))
    } else if op == 0xe {
        Some((((a as u16 * 2) % 256) as u8, Some(a / 128)))
    } else {
        None
    }
}

/// The lowest index of a pressed input line.
fn first_pressed_key(input: &[bool; 16]) -> (r: Option<u8>)
    ensures
        match first_pressed(input@) {
            Some(k) => r == Some(k as u8),
            None => r is None,
        },
{
    let mut k: usize = 0;
    while k < 16
        invariant
            k <= 16,
            input@.len() == 16,
            first_pressed(input@) == first_pressed_from(input@, k as int),
        decreases 16 - k,
    {
        if input[k] {
            return Some(k as u8);
        }
        k = k + 1;
    }
    None
}

/// What a tick from `m` with input `input` and random byte `random` leaves:
/// the next state `m2` and the result `r` handed to the caller.
pub open spec fn tick_result(m: Machine, input: Seq<bool>, random: u8, m2: Machine, r: Result<Vec<bool>, Fault>) -> bool {
    match tick_spec(m, input, random) {
        Ok(next) => m2 == next && r is Ok && r->Ok_0@ == next.display,
        Err(k) => m2 == (Machine { input: input, ..m })
            && r == Err::<Vec<bool>, Fault>(Fault { kind: k, pc: m.pc, instr: fetch(m) }),
    }
}

/// The built-in glyph table.
fn glyph_table() -> (g: Vec<u8>)
    ensures
        g@ == glyphs(),
{
    let g: Vec<u8> = vec![
        0xF0, 0x90, 0x90, 0x90, 0xF0, // 0
        0x20, 0x60, 0x20, 0x20, 0x70, // 1
        0xF0, 0x10, 0xF0, 0x80, 0xF0, // 2
        0xF0, 0x10, 0xF0, 0x10, 0xF0, // 3
        0x90, 0x90, 0xF0, 0x10, 0x10, // 4
        0xF0, 0x80, 0xF0, 0x10, 0xF0, // 5
        0xF0, 0x80, 0xF0, 0x90, 0xF0, // 6
        0xF0, 0x10, 0x20, 0x40, 0x40, // 7
        0xF0, 0x90, 0xF0, 0x90, 0xF0, // 8
        0xF0, 0x90, 0xF0, 0x10, 0xF0, // 9
        0xF0, 0x90, 0xF0, 0x90, 0x90, // A
        0xE0, 0x90, 0xE0, 0x90, 0xE0, // B
        0xF0, 0x80, 0x80, 0x80, 0xF0, // C
        0xE0, 0x90, 0x90, 0x90, 0xE0, // D
        0xF0, 0x80, 0xF0, 0x80, 0xF0, // E
        0xF0, 0x80, 0xF0, 0x80, 0x80, // F
    ];
    assert(g@ =~= glyphs());
    g
}

/// A vector of `len` copies of `val`.
fn filled<T: Copy>(val: T, len: usize) -> (r: Vec<T>)
    ensures
        r@ == Seq::new(len as nat, |k: int| val),
{
    let mut r: Vec<T> = Vec::new();
    while r.len() < len
        invariant
            r@.len() <= len,
            forall|k: int| 0 <= k < r@.len() ==> r@[k] == val,
        decreases len - r@.len(),
    {
        r.push(val);
    }
    assert(r@ =~= Seq::new(len as nat, |k: int| val));
    r
}

/// A framebuffer with every pixel off.
fn blank_display() -> (d: Vec<bool>)
    ensures
        d@ == Seq::new(FB_SIZE as nat, |p: int| false),
{
    let mut d: Vec<bool> = Vec::new();
    while d.len() < FB_SIZE
        invariant
            d@.len() <= FB_SIZE,
            forall|p: int| 0 <= p < d@.len() ==> !d@[p],
        decreases FB_SIZE - d@.len(),
    {
        d.push(false);
    }
    assert(d@ =~= Seq::new(FB_SIZE as nat, |p: int| false));
    d
}

impl Chip8 {
    pub open spec fn wf(&self) -> bool {
        well_formed(self@)
    }

    /// The instruction word at the program counter.
    fn fetch_word(&self) -> (w: u16)
        requires
            self.wf(),
        ensures
            w == fetch(self@),
    {
        let hi = self.ram[(self.pc as usize) % MEM_SIZE];
        let lo = self.ram[(self.pc as usize + 1) % MEM_SIZE];
        hi as u16 * 256 + lo as u16
    }

    fn set_reg(&mut self, x: usize, val: u8)
        requires
            old(self).wf(),
            x < NUM_REGS,
        ensures
            final(self).wf(),
            final(self)@ == set_v(old(self)@, x as int, val),
    {
        self.v.set(x, val);
    }

    fn next(&mut self, cond: bool)
        requires
            old(self).wf(),
        ensures
            final(self).wf(),
            final(self)@ == skip_if(old(self)@, cond),
    {
        self.pc = if cond { self.pc.wrapping_add(4) } else { self.pc.wrapping_add(2) };
    }

    fn push(&mut self, val: u16) -> (r: Result<(), FaultKind>)
        requires
            old(self).wf(),
        ensures
            final(self).wf(),
            old(self)@.sp >= STACK_DEPTH ==> r == Err::<(), FaultKind>(FaultKind::StackOverflow)
                && final(self)@ == old(self)@,
            old(self)@.sp < STACK_DEPTH ==> r is Ok && final(self)@ == (Machine {
                stack: old(self)@.stack.update(old(self)@.sp as int, val),
                sp: (old(self)@.sp + 1) as u8,
                ..old(self)@
            }),
    {
        if self.sp as usize >= STACK_DEPTH {
            return Err(FaultKind::StackOverflow);
        }
        self.stack.set(self.sp as usize, val);
        self.sp = self.sp + 1;
        Ok(())
    }

    fn pop(&mut self) -> (r: Result<u16, FaultKind>)
        requires
            old(self).wf(),
        ensures
            final(self).wf(),
            old(self)@.sp == 0 ==> r == Err::<u16, FaultKind>(FaultKind::StackUnderflow)
                && final(self)@ == old(self)@,
            old(self)@.sp > 0 ==> r == Ok::<u16, FaultKind>(old(self)@.stack[old(self)@.sp - 1])
                && final(self)@ == (Machine { sp: (old(self)@.sp - 1) as u8, ..old(self)@ }),
    {
        if self.sp == 0 {
            return Err(FaultKind::StackUnderflow);
        }
        self.sp = self.sp - 1;
        Ok(self.stack[self.sp as usize])
    }

    /// Stores `V0..=Vx` into memory from `I` on.
    fn store_registers(&mut self, x: usize)
        requires
            old(self).wf(),
            x < NUM_REGS,
        ensures
            final(self).wf(),
            final(self)@ == (Machine { ram: store_regs(old(self)@.ram, old(self)@.v, old(self)@.i, x as int), ..old(self)@ }),
    {
        let ghost m = self@;
        assert(store_regs(m.ram, m.v, m.i, -1) =~= m.ram);
        let mut k: usize = 0;
        while k <= x
            invariant
                k <= x + 1,
                x < NUM_REGS,
                self.wf(),
                self@ == (Machine { ram: store_regs(m.ram, m.v, m.i, k - 1), ..m }),
            decreases x + 1 - k,
        {
            let a = (self.i as usize + k) % MEM_SIZE;
            let val = self.v[k];
            self.ram.set(a, val);
            assert(self.ram@ =~= store_regs(m.ram, m.v, m.i, k as int));
            k = k + 1;
        }
        assert(self.ram@ =~= store_regs(m.ram, m.v, m.i, x as int));
    }

    /// Loads `V0..=Vx` from memory from `I` on.
    fn load_registers(&mut self, x: usize)
        requires
            old(self).wf(),
            x < NUM_REGS,
        ensures
            final(self).wf(),
            final(self)@ == (Machine { v: load_regs(old(self)@.ram, old(self)@.v, old(self)@.i, x as int), ..old(self)@ }),
    {
        let ghost m = self@;
        assert(load_regs(m.ram, m.v, m.i, -1) =~= m.v);
        let mut k: usize = 0;
        while k <= x
            invariant
                k <= x + 1,
                x < NUM_REGS,
                self.wf(),
                self@ == (Machine { v: load_regs(m.ram, m.v, m.i, k - 1), ..m }),
            decreases x + 1 - k,
        {
            let val = self.ram[(self.i as usize + k) % MEM_SIZE];
            self.v.set(k, val);
            assert(self.v@ =~= load_regs(m.ram, m.v, m.i, k as int));
            k = k + 1;
        }
        assert(self.v@ =~= load_regs(m.ram, m.v, m.i, x as int));
    }

    /// Class `0xF`, with register `x` and low byte `kk`.
    #[verifier::rlimit(20)]
    fn run_misc(&mut self, x: usize, kk: u8) -> (r: Result<(), FaultKind>)
        requires
            old(self).wf(),
            x < NUM_REGS,
        ensures
            final(self).wf(),
            match exec_misc(old(self)@, x as int, kk) {
                Ok(m) => r is Ok && final(self)@ == m,
                Err(k) => r == Err::<(), FaultKind>(k) && final(self)@ == old(self)@,
            },
    {
        let vx = self.v[x];
        if kk == 0x07 {
            let d = self.delay_timer;
            self.set_reg(x, d);
        } else if kk == 0x0a {
            match first_pressed_key(&self.input) {
                Some(k) => self.set_reg(x, k),
                None => return Ok(()),
            }
        } else if kk == 0x15 {
            self.delay_timer = vx;
        } else if kk == 0x18 {
            self.sound_timer = vx;
        } else if kk == 0x1e {
            self.i = self.i.wrapping_add(vx as u16);
        } else if kk == 0x29 {
            self.i = 5 * (vx as u16);
        } else if kk == 0x33 {
            let a = self.i as usize;
            self.ram.set(a % MEM_SIZE, vx / 100);
            self.ram.set((a + 1) % MEM_SIZE, (vx / 10) % 10);
            self.ram.set((a + 2) % MEM_SIZE, vx % 10);
        } else if kk == 0x55 {
            self.store_registers(x);
        } else if kk == 0x65 {
            self.load_registers(x);
        } else {
            return Err(FaultKind::InvalidOpcode);
        }
        self.next(false);
        Ok(())
    }

    /// Executes the instruction word `w` of classes `0x0` to `0x7`: flow of
    /// control, comparisons and byte loads.
    #[verifier::rlimit(20)]
    fn execute_low(&mut self, w: u16) -> (r: Result<(), FaultKind>)
        requires
            old(self).wf(),
            w / 4096 < 8,
        ensures
            final(self).wf(),
            match exec_spec(old(self)@, w, 0) {
                Ok(m) => r is Ok && final(self)@ == m,
                Err(k) => r == Err::<(), FaultKind>(k) && final(self)@ == old(self)@,
            },
    {
        let c = w / 4096;
        let x = ((w / 256) % 16) as usize;
        let y = ((w / 16) % 16) as usize;
        let n = w % 16;
        let kk = (w % 256) as u8;
        let nnn = w % 4096;
        let vx = self.v[x];
        let vy = self.v[y];
        if c == 0 {
            if w == 0x00e0 {
                self.display = blank_display();
                self.next(false);
            } else if w == 0x00ee {
                let ret = self.pop()?;
                self.pc = ret.wrapping_add(2);
            } else {
                return Err(FaultKind::InvalidOpcode);
            }
        } else if c == 1 {
            self.pc = nnn;
        } else if c == 2 {
            let here = self.pc;
            self.push(here)?;
            self.pc = nnn;
        } else if c == 3 {
            self.next(vx == kk);
        } else if c == 4 {
            self.next(vx != kk);
        } else if c == 5 {
            if n != 0 {
                return Err(FaultKind::InvalidOpcode);
            }
            self.next(vx == vy);
        } else if c == 6 {
            self.set_reg(x, kk);
            self.next(false);
        } else {
            self.set_reg(x, vx.wrapping_add(kk));
            self.next(false);
        }
        Ok(())
    }

    /// Executes the instruction word `w` of classes `0x8` to `0xF`: arithmetic,
    /// the address register, random bytes, drawing, keys and class `0xF`.
    #[verifier::rlimit(20)]
    fn execute_high(&mut self, w: u16, random: u8) -> (r: Result<(), FaultKind>)
        requires
            old(self).wf(),
            w / 4096 >= 8,
        ensures
            final(self).wf(),
            match exec_spec(old(self)@, w, random) {
                Ok(m) => r is Ok && final(self)@ == m,
                Err(k) => r == Err::<(), FaultKind>(k) && final(self)@ == old(self)@,
            },
    {
        let c = w / 4096;
        let x = ((w / 256) % 16) as usize;
        let y = ((w / 16) % 16) as usize;
        let n = w % 16;
        let kk = (w % 256) as u8;
        let nnn = w % 4096;
        let vx = self.v[x];
        let vy = self.v[y];
        if c == 8 {
            match alu(n, vx, vy) {
                Some((val, flag)) => {
                    self.set_reg(x, val);
                    if let Some(f) = flag {
                        self.set_reg(0xf, f);
                    }
                    self.next(false);
                }
                None => return Err(FaultKind::InvalidOpcode),
            }
        } else if c == 9 {
            if n != 0 {
                return Err(FaultKind::InvalidOpcode);
            }
            self.next(vx != vy);
        } else if c == 0xa {
            self.i = nnn;
            self.next(false);
        } else if c == 0xb {
            self.pc = self.v[0] as u16 + nnn;
        } else if c == 0xc {
            self.set_reg(x, random & kk);
            self.next(false);
        } else if c == 0xd {
            let hit = draw(&mut self.display, &self.ram, self.i, vx, vy, n as u8);
            self.set_reg(0xf, if hit { 1 } else { 0 });
            self.next(false);
        } else if c == 0xe {
            let pressed = self.input[(vx % 16) as usize];
            if kk == 0x9e {
                self.next(pressed);
            } else if kk == 0xa1 {
                self.next(!pressed);
            } else {
                return Err(FaultKind::InvalidOpcode);
            }
        } else {
            return self.run_misc(x, kk);
        }
        Ok(())
    }

    /// Executes the instruction word `w`.
    fn execute(&mut self, w: u16, random: u8) -> (r: Result<(), FaultKind>)
        requires
            old(self).wf(),
        ensures
            final(self).wf(),
            match exec_spec(old(self)@, w, random) {
                Ok(m) => r is Ok && final(self)@ == m,
                Err(k) => r == Err::<(), FaultKind>(k) && final(self)@ == old(self)@,
            },
    {
        if w / 4096 < 8 {
            self.execute_low(w)
        } else {
            self.execute_high(w, random)
        }
    }

    /// Executes the instruction at the program counter, where `random` is the
    /// byte that the random-number instruction masks. On a fault the state is
    /// left as it was and the fault names the program counter and the word.
    pub fn run_inst(&mut self, random: u8) -> (r: Result<(), Fault>)
        requires
            old(self).wf(),
        ensures
            final(self).wf(),
            match step_spec(old(self)@, random) {
                Ok(m) => r is Ok && final(self)@ == m,
                Err(k) => r == Err::<(), Fault>(Fault { kind: k, pc: old(self)@.pc, instr: fetch(old(self)@) })
                    && final(self)@ == old(self)@,
            },
    {
        let w = self.fetch_word();
        match self.execute(w, random) {
            Ok(()) => Ok(()),
            Err(kind) => Err(Fault { kind, pc: self.pc, instr: w }),
        }
    }

    /// Starts a session: the glyphs at address 0, `image` from `PROGRAM_START`,
    /// registers, stack and timers zeroed, the program counter at `PROGRAM_START`.
    pub fn new(image: &Vec<u8>) -> (r: Result<Chip8, LoadError>)
        ensures
            !image_fits(image@) ==> r == Err::<Chip8, LoadError>(LoadError::ImageTooLarge),
            image_fits(image@) ==> r is Ok && r->Ok_0.wf() && r->Ok_0@ == initial_machine(image@),
    {
        if image.len() > MEM_SIZE - PROGRAM_START {
            return Err(LoadError::ImageTooLarge);
        }
        let glyph = glyph_table();
        let mut ram: Vec<u8> = Vec::new();
        while ram.len() < MEM_SIZE
            invariant
                ram@.len() <= MEM_SIZE,
                image_fits(image@),
                glyph@ == glyphs(),
                forall|a: int| 0 <= a < ram@.len() ==> ram@[a] == initial_ram(image@)[a],
            decreases MEM_SIZE - ram@.len(),
        {
            let a = ram.len();
            let byte = if a < glyph.len() {
                glyph[a]
            } else if PROGRAM_START <= a && a < PROGRAM_START + image.len() {
                image[a - PROGRAM_START]
            } else {
                0
            };
            ram.push(byte);
        }
        assert(ram@ =~= initial_ram(image@));
        let c = Chip8 {
            ram,
            v: filled(0u8, NUM_REGS),
            i: 0,
            delay_timer: 0,
            sound_timer: 0,
            pc: PROGRAM_START as u16,
            sp: 0,
            stack: filled(0u16, STACK_DEPTH),
            display: blank_display(),
            rng: thread_rng(),
            input: [false; 16],
        };
        assert(c@.input =~= Seq::new(NUM_KEYS as nat, |k: int| false));
        Ok(c)
    }

    /// One tick: replaces the input latch with `input`, runs one instruction
    /// with `random` as the byte of the random-number instruction, decays both
    /// timers, and hands back a copy of the framebuffer. One instruction per
    /// tick paces programs by the caller's refresh, at which the timers decay
    /// too. On a fault only the input latch has changed.
    pub fn tick(&mut self, input: [bool; 16], random: u8) -> (r: Result<Vec<bool>, Fault>)
        requires
            old(self).wf(),
        ensures
            final(self).wf(),
            tick_result(old(self)@, input@, random, final(self)@, r),
    {
        self.input = input;
        self.run_inst(random)?;
        if self.delay_timer > 0 {
            self.delay_timer = self.delay_timer - 1;
        }
        if self.sound_timer > 0 {
            self.sound_timer = self.sound_timer - 1;
        }
        Ok(self.framebuffer())
    }

    /// One tick as `tick` runs it, with the random byte drawn from this
    /// session's generator.
    pub fn run_frame(&mut self, input: [bool; 16]) -> (r: Result<Vec<bool>, Fault>)
        requires
            old(self).wf(),
        ensures
            final(self).wf(),
            exists|random: u8| tick_result(old(self)@, input@, random, final(self)@, r),
    {
        let random = random_byte(&mut self.rng);
        self.tick(input, random)
    }

    /// A copy of the framebuffer, row after row, 64 pixels a row.
    pub fn framebuffer(&self) -> (d: Vec<bool>)
        requires
            self.wf(),
        ensures
            d@ == self@.display,
    {
        let mut d: Vec<bool> = Vec::new();
        let mut p: usize = 0;
        while p < FB_SIZE
            invariant
                p <= FB_SIZE,
                self.wf(),
                d@ == self@.display.take(p as int),
            decreases FB_SIZE - p,
        {
            d.push(self.display[p]);
            p = p + 1;
            assert(d@ =~= self@.display.take(p as int));
        }
        assert(self@.display.take(FB_SIZE as int) =~= self@.display);
        d
    }

    /// The program counter.
    pub fn pc(&self) -> (r: u16)
        ensures
            r == self@.pc,
    {
        self.pc
    }

    /// The address register `I`.
    pub fn index(&self) -> (r: u16)
        ensures
            r == self@.i,
    {
        self.i
    }

    /// The stack pointer: the number of return addresses on the stack.
    pub fn sp(&self) -> (r: u8)
        ensures
            r == self@.sp,
    {
        self.sp
    }

    /// Register `Vx`.
    pub fn reg(&self, x: usize) -> (r: u8)
        requires
            self.wf(),
            x < NUM_REGS,
        ensures
            r == self@.v[x as int],
    {
        self.v[x]
    }

    pub fn delay_timer(&self) -> (r: u8)
        ensures
            r == self@.delay,
    {
        self.delay_timer
    }

    pub fn sound_timer(&self) -> (r: u8)
        ensures
            r == self@.sound,
    {
        self.sound_timer
    }

    /// The byte at memory address `a`.
    pub fn mem(&self, a: usize) -> (r: u8)
        requires
            self.wf(),
            a < MEM_SIZE,
        ensures
            r == self@.ram[a as int],
    {
        self.ram[a]
    }

    /// The pixel in column `x`, row `y`.
    pub fn pixel(&self, x: usize, y: usize) -> (r: bool)
        requires
            self.wf(),
            x < FB_WIDTH,
            y < FB_HEIGHT,
        ensures
            r == self@.display[y * FB_WIDTH + x],
    {
        self.display[y * FB_WIDTH + x]
    }
}

} // verus!
