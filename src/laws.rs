//! Laws of the instruction set, proved over the model.
use vstd::prelude::*;
use crate::machine::{Machine, FaultKind, exec_spec, well_formed, fetch, step_spec, tick_spec, decay_timers, first_pressed,
    first_pressed_from, pc_plus, alu_spec, op_class, op_kk, op_nnn, op_x, op_y, op_n};
use crate::display::{draw_spec, collision_spec, toggled};

verus! {

/// Adding a byte to a register (`7xkk`) wraps modulo 256 and leaves the flag
/// register alone, unless the target is the flag register itself.
pub proof fn lemma_add_byte_wraps(m: Machine, x: u8, kk: u8, random: u8)
    requires
        well_formed(m),
        x < 16,
        fetch(m) == 0x7000 + x * 256 + kk,
    ensures
        step_spec(m, random) is Ok,
        step_spec(m, random)->Ok_0.v[x as int] == (m.v[x as int] + kk) % 256,
        x != 15 ==> step_spec(m, random)->Ok_0.v[15] == m.v[15],
{
    lemma_fields(fetch(m), 7, x as int, kk as int / 16, kk as int % 16);
}

/// The fields of an instruction word assembled from its four nibbles.
proof fn lemma_fields(w: u16, c: int, x: int, y: int, n: int)
    requires
        0 <= c < 16 && 0 <= x < 16 && 0 <= y < 16 && 0 <= n < 16,
        w == c * 4096 + x * 256 + y * 16 + n,
    ensures
        op_class(w) == c,
        op_x(w) == x,
        op_y(w) == y,
        op_n(w) == n,
        op_kk(w) == y * 16 + n,
        op_nnn(w) == x * 256 + y * 16 + n,
{
    let wi = w as int;
    assert(wi / 4096 == c) by (nonlinear_arith)
        requires 0 <= c < 16 && 0 <= x < 16 && 0 <= y < 16 && 0 <= n < 16, wi == c * 4096 + x * 256 + y * 16 + n;
    assert(wi / 256 == c * 16 + x) by (nonlinear_arith)
        requires 0 <= c < 16 && 0 <= x < 16 && 0 <= y < 16 && 0 <= n < 16, wi == c * 4096 + x * 256 + y * 16 + n;
    assert(wi / 16 == c * 256 + x * 16 + y) by (nonlinear_arith)
        requires 0 <= c < 16 && 0 <= x < 16 && 0 <= y < 16 && 0 <= n < 16, wi == c * 4096 + x * 256 + y * 16 + n;
    assert(wi % 16 == n) by (nonlinear_arith)
        requires 0 <= c < 16 && 0 <= x < 16 && 0 <= y < 16 && 0 <= n < 16, wi == c * 4096 + x * 256 + y * 16 + n;
    assert(wi % 256 == y * 16 + n) by (nonlinear_arith)
        requires 0 <= c < 16 && 0 <= x < 16 && 0 <= y < 16 && 0 <= n < 16, wi == c * 4096 + x * 256 + y * 16 + n;
    assert(wi % 4096 == x * 256 + y * 16 + n) by (nonlinear_arith)
        requires 0 <= c < 16 && 0 <= x < 16 && 0 <= y < 16 && 0 <= n < 16, wi == c * 4096 + x * 256 + y * 16 + n;
}

/// What the register-register instruction `8xy<op>` leaves, for the operations that set the flag.
proof fn lemma_alu_step(m: Machine, x: u8, y: u8, op: u8, random: u8)
    requires
        well_formed(m),
        x < 16,
        y < 16,
        op == 4 || op == 5 || op == 7,
        fetch(m) == 0x8000 + x * 256 + y * 16 + op,
    ensures
        step_spec(m, random) == Ok::<Machine, FaultKind>(Machine {
            pc: pc_plus(m.pc, 1),
            v: m.v.update(x as int, alu_spec(op as int, m.v[x as int], m.v[y as int])->Some_0.0)
                .update(15, alu_spec(op as int, m.v[x as int], m.v[y as int])->Some_0.1->Some_0),
            ..m
        }),
{
    lemma_fields(fetch(m), 8, x as int, y as int, op as int);
}

/// Addition (`8xy4`) sets the flag exactly on a carry.
pub proof fn lemma_add_carry(m: Machine, x: u8, y: u8, random: u8)
    requires
        well_formed(m),
        x < 16,
        y < 16,
        fetch(m) == 0x8004 + x * 256 + y * 16,
    ensures
        step_spec(m, random) is Ok,
        (step_spec(m, random)->Ok_0.v[15] == 1) == (m.v[x as int] + m.v[y as int] >= 256),
{
    lemma_alu_step(m, x, y, 4, random);
}

/// Subtraction (`8xy5`) sets the flag exactly when `Vx >= Vy`, that is without a borrow.
pub proof fn lemma_sub_no_borrow(m: Machine, x: u8, y: u8, random: u8)
    requires
        well_formed(m),
        x < 16,
        y < 16,
        fetch(m) == 0x8005 + x * 256 + y * 16,
    ensures
        step_spec(m, random) is Ok,
        (step_spec(m, random)->Ok_0.v[15] == 1) == (m.v[x as int] >= m.v[y as int]),
{
    lemma_alu_step(m, x, y, 5, random);
}

/// Reverse subtraction (`8xy7`) sets the flag exactly when `Vy >= Vx`.
pub proof fn lemma_subn_no_borrow(m: Machine, x: u8, y: u8, random: u8)
    requires
        well_formed(m),
        x < 16,
        y < 16,
        fetch(m) == 0x8007 + x * 256 + y * 16,
    ensures
        step_spec(m, random) is Ok,
        (step_spec(m, random)->Ok_0.v[15] == 1) == (m.v[y as int] >= m.v[x as int]),
{
    lemma_alu_step(m, x, y, 7, random);
}

/// Drawing a sprite twice at one place restores the framebuffer, and the
/// second drawing reports a collision exactly when the first one set a pixel.
pub proof fn lemma_draw_twice(d: Seq<bool>, ram: Seq<u8>, i: u16, vx: u8, vy: u8, n: int)
    ensures
        draw_spec(draw_spec(d, ram, i, vx, vy, n), ram, i, vx, vy, n) == d,
        collision_spec(draw_spec(d, ram, i, vx, vy, n), ram, i, vx, vy, n)
            == exists|p: int| 0 <= p < d.len() && #[trigger] toggled(ram, i, vx, vy, n, p) && !d[p],
{
    assert(draw_spec(draw_spec(d, ram, i, vx, vy, n), ram, i, vx, vy, n) =~= d);
    let d1 = draw_spec(d, ram, i, vx, vy, n);
    if collision_spec(d1, ram, i, vx, vy, n) {
        let p = choose|p: int| 0 <= p < d1.len() && #[trigger] toggled(ram, i, vx, vy, n, p) && d1[p];
        assert(!d[p]);
    }
    if exists|p: int| 0 <= p < d.len() && #[trigger] toggled(ram, i, vx, vy, n, p) && !d[p] {
        let p = choose|p: int| 0 <= p < d.len() && #[trigger] toggled(ram, i, vx, vy, n, p) && !d[p];
        assert(d1[p]);
    }
}

/// The draw instruction (`Dxyn`) executed twice in a row, with neither
/// coordinate in the flag register, leaves the framebuffer as it was, and the
/// second execution sets the flag exactly when the first one set a pixel.
pub proof fn lemma_draw_instruction_twice(m: Machine, m1: Machine, w: u16, r1: u8, r2: u8)
    requires
        well_formed(m),
        w / 4096 == 0xd,
        (w / 256) % 16 != 15,
        (w / 16) % 16 != 15,
        exec_spec(m, w, r1) == Ok::<Machine, FaultKind>(m1),
    ensures
        exec_spec(m1, w, r2) is Ok,
        exec_spec(m1, w, r2)->Ok_0.display == m.display,
        (exec_spec(m1, w, r2)->Ok_0.v[15] == 1) == exists|p: int| 0 <= p < m.display.len()
            && #[trigger] toggled(m.ram, m.i, m.v[op_x(w)], m.v[op_y(w)], op_n(w), p) && !m.display[p],
{
    lemma_draw_twice(m.display, m.ram, m.i, m.v[op_x(w)], m.v[op_y(w)], op_n(w));
}

/// A call (`2nnn`) followed by the return (`00EE`) at its target comes back to
/// the instruction after the call, with the stack pointer as before.
pub proof fn lemma_call_return(m: Machine, r1: u8, r2: u8)
    requires
        well_formed(m),
        fetch(m) / 4096 == 2,
        m.sp < 16,
        fetch(step_spec(m, r1)->Ok_0) == 0x00ee,
    ensures
        step_spec(m, r1) is Ok,
        step_spec(step_spec(m, r1)->Ok_0, r2) is Ok,
        step_spec(step_spec(m, r1)->Ok_0, r2)->Ok_0.pc == pc_plus(m.pc, 1),
        step_spec(step_spec(m, r1)->Ok_0, r2)->Ok_0.sp == m.sp,
{
}

/// Both timers after `k` decays.
pub open spec fn decay_times(m: Machine, k: nat) -> Machine
    decreases k,
{
    if k == 0 { m } else { decay_timers(decay_times(m, (k - 1) as nat)) }
}

/// Timers count down by one per decay and stop at zero.
pub proof fn lemma_timers_stop_at_zero(m: Machine, k: nat)
    ensures
        decay_times(m, k).delay == if m.delay >= k { m.delay - k } else { 0 },
        decay_times(m, k).sound == if m.sound >= k { m.sound - k } else { 0 },
    decreases k,
{
    if k > 0 {
        lemma_timers_stop_at_zero(m, (k - 1) as nat);
    }
}

/// With no input line pressed, a tick at the key-wait instruction (`Fx0A`)
/// changes nothing but the input latch and the timers: the program counter stays
/// on the instruction, so the next tick waits again.
pub proof fn lemma_key_wait_blocks(m: Machine, input: Seq<bool>, random: u8)
    requires
        well_formed(m),
        input.len() == 16,
        forall|k: int| 0 <= k < 16 ==> !input[k],
        fetch(m) / 4096 == 0xf,
        fetch(m) % 256 == 0x0a,
    ensures
        tick_spec(m, input, random) == Ok::<Machine, FaultKind>(decay_timers(Machine { input: input, ..m })),
        tick_spec(m, input, random)->Ok_0.pc == m.pc,
        fetch(tick_spec(m, input, random)->Ok_0) == fetch(m),
{
    assert(first_pressed_from(input, 16) is None);
    assert(first_pressed_from(input, 15) is None);
    assert(first_pressed_from(input, 14) is None);
    assert(first_pressed_from(input, 13) is None);
    assert(first_pressed_from(input, 12) is None);
    assert(first_pressed_from(input, 11) is None);
    assert(first_pressed_from(input, 10) is None);
    assert(first_pressed_from(input, 9) is None);
    assert(first_pressed_from(input, 8) is None);
    assert(first_pressed_from(input, 7) is None);
    assert(first_pressed_from(input, 6) is None);
    assert(first_pressed_from(input, 5) is None);
    assert(first_pressed_from(input, 4) is None);
    assert(first_pressed_from(input, 3) is None);
    assert(first_pressed_from(input, 2) is None);
    assert(first_pressed_from(input, 1) is None);
    assert(first_pressed(input) is None);
}

/// `n` ticks in a row with the same input and random byte.
pub open spec fn ticks(m: Machine, input: Seq<bool>, random: u8, n: nat) -> Result<Machine, FaultKind>
    decreases n,
{
    if n == 0 {
        Ok(m)
    } else {
        match ticks(m, input, random, (n - 1) as nat) {
            Ok(m1) => tick_spec(m1, input, random),
            Err(k) => Err(k),
        }
    }
}

/// Across any number of ticks with no input line pressed, the program counter
/// stays on the key-wait instruction (`Fx0A`) and memory is unchanged.
pub proof fn lemma_key_wait_blocks_for(m: Machine, input: Seq<bool>, random: u8, n: nat)
    requires
        well_formed(m),
        input.len() == 16,
        forall|k: int| 0 <= k < 16 ==> !input[k],
        fetch(m) / 4096 == 0xf,
        fetch(m) % 256 == 0x0a,
    ensures
        ticks(m, input, random, n) is Ok,
        well_formed(ticks(m, input, random, n)->Ok_0),
        ticks(m, input, random, n)->Ok_0.pc == m.pc,
        ticks(m, input, random, n)->Ok_0.ram == m.ram,
    decreases n,
{
    if n > 0 {
        lemma_key_wait_blocks_for(m, input, random, (n - 1) as nat);
        let m1 = ticks(m, input, random, (n - 1) as nat)->Ok_0;
        lemma_key_wait_blocks(m1, input, random);
    }
}

/// Once a line is pressed, the key-wait instruction (`Fx0A`) stores the lowest
/// pressed index in `Vx` and the program counter moves on.
pub proof fn lemma_key_wait_resumes(m: Machine, input: Seq<bool>, random: u8, k: int)
    requires
        well_formed(m),
        input.len() == 16,
        0 <= k < 16,
        input[k],
        forall|j: int| 0 <= j < k ==> !input[j],
        fetch(m) / 4096 == 0xf,
        fetch(m) % 256 == 0x0a,
    ensures
        tick_spec(m, input, random) is Ok,
        tick_spec(m, input, random)->Ok_0.v[op_x(fetch(m))] == k,
        tick_spec(m, input, random)->Ok_0.pc == pc_plus(m.pc, 1),
{
    lemma_first_pressed_is(input, k, 0);
}

proof fn lemma_first_pressed_is(input: Seq<bool>, k: int, j: int)
    requires
        input.len() == 16,
        0 <= j <= k < 16,
        input[k],
        forall|i: int| 0 <= i < k ==> !input[i],
    ensures
        first_pressed_from(input, j) == Some(k),
    decreases k - j,
{
    if j < k {
        lemma_first_pressed_is(input, k, j + 1);
    }
}

} // verus!
