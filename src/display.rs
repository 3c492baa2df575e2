//! The framebuffer and the sprite-drawing instruction.
use vstd::prelude::*;

verus! {

pub const FB_WIDTH: usize = 64;
pub const FB_HEIGHT: usize = 32;
/// The framebuffer holds one entry per pixel, row after row.
pub const FB_SIZE: usize = 2048;

/// Bit `c` of a sprite row, counted from the most significant bit.
pub open spec fn sprite_bit(b: u8, c: int) -> bool {
    (b >> ((7 - c) as u8)) & 1u8 == 1u8
}

/// The sprite row that pixel `p` falls in, for a sprite drawn at row `vy`.
pub open spec fn sprite_row(p: int, vy: u8) -> int {
    (p / (FB_WIDTH as int) - vy) % (FB_HEIGHT as int)
}

/// The sprite column that pixel `p` falls in, for a sprite drawn at column `vx`.
pub open spec fn sprite_col(p: int, vx: u8) -> int {
    (p % (FB_WIDTH as int) - vx) % (FB_WIDTH as int)
}

/// Whether an `8 x n` sprite read from `ram` at `i`, drawn at `(vx, vy)` with
/// wrap-around, flips pixel `p`.
pub open spec fn toggled(ram: Seq<u8>, i: u16, vx: u8, vy: u8, n: int, p: int) -> bool {
    let r = sprite_row(p, vy);
    let c = sprite_col(p, vx);
    r < n && c < 8 && sprite_bit(ram[(i + r) % 4096], c)
}

/// The framebuffer after the sprite is XOR-ed onto it.
pub open spec fn draw_spec(d: Seq<bool>, ram: Seq<u8>, i: u16, vx: u8, vy: u8, n: int) -> Seq<bool> {
    Seq::new(d.len(), |p: int| d[p] != toggled(ram, i, vx, vy, n, p))
}

/// Whether drawing the sprite turns a set pixel off.
pub open spec fn collision_spec(d: Seq<bool>, ram: Seq<u8>, i: u16, vx: u8, vy: u8, n: int) -> bool {
    exists|p: int| 0 <= p < d.len() && #[trigger] toggled(ram, i, vx, vy, n, p) && d[p]
}


/// Whether pixel `p` lies in the part of the sprite already drawn when the
/// drawing stands at row `r0`, column `c0`.
pub open spec fn drawn_before(p: int, vx: u8, vy: u8, r0: int, c0: int) -> bool {
    sprite_row(p, vy) < r0 || (sprite_row(p, vy) == r0 && sprite_col(p, vx) < c0)
}

/// The pixel that sprite row `row`, column `col` lands on is the only one whose
/// sprite coordinates are `(row, col)`.
proof fn lemma_pixel_of(vx: u8, vy: u8, row: int, col: int)
    requires
        0 <= row < FB_HEIGHT,
        0 <= col < FB_WIDTH,
    ensures
        ({
            let p = ((vy + row) % 32) * 64 + (vx + col) % 64;
            &&& 0 <= p < FB_SIZE
            &&& sprite_row(p, vy) == row
            &&& sprite_col(p, vx) == col
            &&& forall|q: int| 0 <= q < FB_SIZE && sprite_row(q, vy) == row
                && sprite_col(q, vx) == col ==> q == p
        }),
{
    let dy = (vy + row) % 32;
    let dx = (vx + col) % 64;
    let p = dy * 64 + dx;
    assert(p / 64 == dy && p % 64 == dx) by (nonlinear_arith)
        requires 0 <= dy < 32, 0 <= dx < 64, p == dy * 64 + dx;
    assert forall|q: int| 0 <= q < FB_SIZE && sprite_row(q, vy) == row
        && sprite_col(q, vx) == col implies q == p by {
        let a = q / 64;
        let b = q % 64;
        assert(q == a * 64 + b && 0 <= a < 32 && 0 <= b < 64) by (nonlinear_arith)
            requires 0 <= q < 2048, a == q / 64, b == q % 64;
        assert(a == dy);
        assert(b == dx);
    }
}

/// XORs an `8 x n` sprite, read from `ram` at `i`, onto the framebuffer at
/// `(vx, vy)`, wrapping at the edges; returns whether a set pixel was turned off.
#[verifier::rlimit(20)]
pub fn draw(display: &mut Vec<bool>, ram: &Vec<u8>, i: u16, vx: u8, vy: u8, n: u8) -> (hit: bool)
    requires
        old(display)@.len() == FB_SIZE,
        ram@.len() == 4096,
        n < 16,
    ensures
        final(display)@ == draw_spec(old(display)@, ram@, i, vx, vy, n as int),
        hit == collision_spec(old(display)@, ram@, i, vx, vy, n as int),
{
    let ghost orig = display@;
    let mut hit = false;
    let mut row: u8 = 0;
    while row < n
        invariant
            row <= n < 16,
            ram@.len() == 4096,
            orig.len() == FB_SIZE,
            display@.len() == FB_SIZE,
            forall|p: int| 0 <= p < FB_SIZE ==> display@[p] == (orig[p] != (
                toggled(ram@, i, vx, vy, n as int, p) && drawn_before(p, vx, vy, row as int, 0))),
            hit == exists|p: int| 0 <= p < FB_SIZE && #[trigger] toggled(ram@, i, vx, vy, n as int, p)
                && drawn_before(p, vx, vy, row as int, 0) && orig[p],
        decreases n - row,
    {
        let byte = ram[((i as usize) + (row as usize)) % 4096];
        let mut col: u8 = 0;
        while col < 8
            invariant
                row < n < 16,
                col <= 8,
                ram@.len() == 4096,
                orig.len() == FB_SIZE,
                byte == ram@[(i + row) % 4096],
                display@.len() == FB_SIZE,
                forall|p: int| 0 <= p < FB_SIZE ==> display@[p] == (orig[p] != (
                    toggled(ram@, i, vx, vy, n as int, p) && drawn_before(p, vx, vy, row as int, col as int))),
                hit == exists|p: int| 0 <= p < FB_SIZE && #[trigger] toggled(ram@, i, vx, vy, n as int, p)
                    && drawn_before(p, vx, vy, row as int, col as int) && orig[p],
            decreases 8 - col,
        {
            let dy = ((vy as usize) + (row as usize)) % FB_HEIGHT;
            let dx = ((vx as usize) + (col as usize)) % FB_WIDTH;
            let p = dy * FB_WIDTH + dx;
            proof {
                lemma_pixel_of(vx, vy, row as int, col as int);
            }
            let ghost before = display@;
            let ghost hit0 = hit;
            if (byte >> (7 - col)) & 1 == 1 {
                assert(toggled(ram@, i, vx, vy, n as int, p as int));
                if display[p] {
                    hit = true;
                }
                let flipped = !display[p];
                display.set(p, flipped);
            } else {
                assert(!toggled(ram@, i, vx, vy, n as int, p as int));
            }
            proof {
                assert forall|q: int| 0 <= q < FB_SIZE implies drawn_before(q, vx, vy, row as int, col + 1)
                    == (drawn_before(q, vx, vy, row as int, col as int) || q == p) by {}
                if hit0 {
                    let q = choose|q: int| 0 <= q < FB_SIZE && #[trigger] toggled(ram@, i, vx, vy, n as int, q)
                        && drawn_before(q, vx, vy, row as int, col as int) && orig[q];
                    assert(drawn_before(q, vx, vy, row as int, col + 1));
                }
                if hit {
                    if !hit0 {
                        assert(drawn_before(p as int, vx, vy, row as int, col + 1));
                        assert(orig[p as int] == before[p as int]);
                    }
                } else {
                    assert forall|q: int| 0 <= q < FB_SIZE && #[trigger] toggled(ram@, i, vx, vy, n as int, q)
                        && drawn_before(q, vx, vy, row as int, col + 1) implies !orig[q] by {
                        if q == p {
                            assert(orig[p as int] == before[p as int]);
                        }
                    }
                }
            }
            col = col + 1;
        }
        proof {
            assert forall|q: int| 0 <= q < FB_SIZE && toggled(ram@, i, vx, vy, n as int, q)
                implies drawn_before(q, vx, vy, row as int, 8) == drawn_before(q, vx, vy, row + 1, 0) by {}
        }
        row = row + 1;
    }
    proof {
        assert forall|q: int| 0 <= q < FB_SIZE && toggled(ram@, i, vx, vy, n as int, q)
            implies drawn_before(q, vx, vy, n as int, 0) by {}
        assert(display@ =~= draw_spec(orig, ram@, i, vx, vy, n as int));
        if hit {
            let q = choose|q: int| 0 <= q < FB_SIZE && #[trigger] toggled(ram@, i, vx, vy, n as int, q)
                && drawn_before(q, vx, vy, n as int, 0) && orig[q];
            assert(collision_spec(orig, ram@, i, vx, vy, n as int));
        }
    }
    hit
}

} // verus!
