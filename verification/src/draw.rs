//! The XOR sprite renderer: each set sprite bit toggles one screen pixel at
//! coordinates wrapped modulo the screen size, and a collision is reported
//! when a lit pixel is toggled off.

use vstd::prelude::*;

verus! {

use crate::state::RAM_SIZE;
use crate::state::SCREEN_HEIGHT;
use crate::state::SCREEN_WIDTH;
use vstd::arithmetic::div_mod::lemma_fundamental_div_mod;
use vstd::arithmetic::div_mod::lemma_mod_division_less_than_divisor;

/// The flat screen index that sprite row `row`, column `col` lands on when
/// an 8-pixel-wide sprite is drawn at (x0, y0): both coordinates wrap.
pub open spec fn target(x0: int, y0: int, row: int, col: int) -> int {
    (x0 + col) % 64 + 64 * ((y0 + row) % 32)
}

/// Whether the sprite byte for `row` has the bit for `col` set; bit 7 is
/// the leftmost pixel.
pub open spec fn sprite_bit(ram: Seq<u8>, base: int, row: int, col: int) -> bool {
    ram[base + row] & (0x80u8 >> (col as u8)) != 0
}

/// Row-major order on sprite pixels: whether (row, col) comes before (r, c).
pub open spec fn before(row: int, col: int, r: int, c: int) -> bool {
    row < r || (row == r && col < c)
}

/// Whether a set sprite pixel among the pairs before (r, c) lands on screen
/// index p.
pub open spec fn covers_upto(
    ram: Seq<u8>,
    base: int,
    x0: int,
    y0: int,
    r: int,
    c: int,
    p: int,
) -> bool {
    exists|row: int, col: int|
        0 <= row && 0 <= col < 8 && before(row, col, r, c) && sprite_bit(ram, base, row, col)
            && target(x0, y0, row, col) == p
}

/// Whether some set pixel of the n-row sprite at `base` lands on index p.
pub open spec fn covers(ram: Seq<u8>, base: int, x0: int, y0: int, n: int, p: int) -> bool {
    covers_upto(ram, base, x0, y0, n, 0, p)
}

/// The display after the XOR-plot of the n-row sprite at (x0, y0).
pub open spec fn draw_screen(
    screen: Seq<bool>,
    ram: Seq<u8>,
    base: int,
    x0: int,
    y0: int,
    n: int,
) -> Seq<bool> {
    Seq::new(screen.len(), |p: int| screen[p] != covers(ram, base, x0, y0, n, p))
}

/// Whether the draw toggles some previously lit pixel off.
pub open spec fn draw_collision(
    screen: Seq<bool>,
    ram: Seq<u8>,
    base: int,
    x0: int,
    y0: int,
    n: int,
) -> bool {
    exists|p: int| 0 <= p < screen.len() && screen[p] && covers(ram, base, x0, y0, n, p)
}

/// Two offsets under a common base that share a remainder are equal.
proof fn lemma_mod_off_inj(base: int, d1: int, d2: int, m: int)
    requires
        m > 0,
        0 <= d1 < m,
        0 <= d2 < m,
        (base + d1) % m == (base + d2) % m,
    ensures
        d1 == d2,
{
    lemma_fundamental_div_mod(base + d1, m);
    lemma_fundamental_div_mod(base + d2, m);
    let q1 = (base + d1) / m;
    let q2 = (base + d2) / m;
    assert(d1 - d2 == m * (q1 - q2)) by (nonlinear_arith)
        requires
            base + d1 == m * q1 + (base + d1) % m,
            base + d2 == m * q2 + (base + d2) % m,
            (base + d1) % m == (base + d2) % m,
    ;
    assert(q1 == q2) by (nonlinear_arith)
        requires
            d1 - d2 == m * (q1 - q2),
            -m < d1 - d2 < m,
            m > 0,
    ;
    assert(d1 == d2) by (nonlinear_arith)
        requires
            d1 - d2 == m * (q1 - q2),
            q1 == q2,
    ;
}

/// Every target index lies on the 2048-pixel screen.
proof fn lemma_target_bounds(x0: int, y0: int, row: int, col: int)
    requires
        x0 >= 0,
        y0 >= 0,
        row >= 0,
        col >= 0,
    ensures
        0 <= target(x0, y0, row, col) < 2048,
{
    lemma_mod_division_less_than_divisor(x0 + col, 64);
    lemma_mod_division_less_than_divisor(y0 + row, 32);
}

/// Distinct pixels of one sprite land on distinct screen indices: rows stay
/// distinct modulo 32 and columns modulo 64.
proof fn lemma_target_inj(x0: int, y0: int, r1: int, c1: int, r2: int, c2: int)
    requires
        x0 >= 0,
        y0 >= 0,
        0 <= r1 < 32,
        0 <= c1 < 8,
        0 <= r2 < 32,
        0 <= c2 < 8,
        target(x0, y0, r1, c1) == target(x0, y0, r2, c2),
    ensures
        r1 == r2,
        c1 == c2,
{
    lemma_mod_division_less_than_divisor(x0 + c1, 64);
    lemma_mod_division_less_than_divisor(x0 + c2, 64);
    lemma_mod_division_less_than_divisor(y0 + r1, 32);
    lemma_mod_division_less_than_divisor(y0 + r2, 32);
    assert((x0 + c1) % 64 == (x0 + c2) % 64 && (y0 + r1) % 32 == (y0 + r2) % 32);
    lemma_mod_off_inj(x0, c1, c2, 64);
    lemma_mod_off_inj(y0, r1, r2, 32);
}

/// No sprite pixel before (r, c) lands where (r, c) itself lands.
proof fn lemma_fresh_target(ram: Seq<u8>, base: int, x0: int, y0: int, r: int, c: int)
    requires
        x0 >= 0,
        y0 >= 0,
        0 <= r < 32,
        0 <= c < 8,
    ensures
        !covers_upto(ram, base, x0, y0, r, c, target(x0, y0, r, c)),
{
    let t = target(x0, y0, r, c);
    if covers_upto(ram, base, x0, y0, r, c, t) {
        let (row, col) = choose|row: int, col: int|
            0 <= row && 0 <= col < 8 && before(row, col, r, c) && sprite_bit(
                ram,
                base,
                row,
                col,
            ) && target(x0, y0, row, col) == t;
        lemma_target_inj(x0, y0, row, col, r, c);
        assert(false);
    }
}

/// Advancing the column frontier by one admits exactly the pixel (r, c).
proof fn lemma_covers_step(ram: Seq<u8>, base: int, x0: int, y0: int, r: int, c: int, p: int)
    requires
        0 <= r,
        0 <= c < 8,
    ensures
        covers_upto(ram, base, x0, y0, r, c + 1, p) == (covers_upto(ram, base, x0, y0, r, c, p)
            || (sprite_bit(ram, base, r, c) && target(x0, y0, r, c) == p)),
{
    if covers_upto(ram, base, x0, y0, r, c + 1, p) {
        let (row, col) = choose|row: int, col: int|
            0 <= row && 0 <= col < 8 && before(row, col, r, c + 1) && sprite_bit(
                ram,
                base,
                row,
                col,
            ) && target(x0, y0, row, col) == p;
        if !(row == r && col == c) {
            assert(before(row, col, r, c));
            assert(covers_upto(ram, base, x0, y0, r, c, p));
        }
    }
    if covers_upto(ram, base, x0, y0, r, c, p) {
        let (row, col) = choose|row: int, col: int|
            0 <= row && 0 <= col < 8 && before(row, col, r, c) && sprite_bit(
                ram,
                base,
                row,
                col,
            ) && target(x0, y0, row, col) == p;
        assert(before(row, col, r, c + 1));
        assert(covers_upto(ram, base, x0, y0, r, c + 1, p));
    }
    if sprite_bit(ram, base, r, c) && target(x0, y0, r, c) == p {
        assert(before(r, c, r, c + 1));
        assert(covers_upto(ram, base, x0, y0, r, c + 1, p));
    }
}

/// A full row's frontier equals the next row's empty frontier.
proof fn lemma_covers_row(ram: Seq<u8>, base: int, x0: int, y0: int, r: int, p: int)
    requires
        0 <= r,
    ensures
        covers_upto(ram, base, x0, y0, r + 1, 0, p) == covers_upto(ram, base, x0, y0, r, 8, p),
{
    if covers_upto(ram, base, x0, y0, r + 1, 0, p) {
        let (row, col) = choose|row: int, col: int|
            0 <= row && 0 <= col < 8 && before(row, col, r + 1, 0) && sprite_bit(
                ram,
                base,
                row,
                col,
            ) && target(x0, y0, row, col) == p;
        assert(before(row, col, r, 8));
        assert(covers_upto(ram, base, x0, y0, r, 8, p));
    }
    if covers_upto(ram, base, x0, y0, r, 8, p) {
        let (row, col) = choose|row: int, col: int|
            0 <= row && 0 <= col < 8 && before(row, col, r, 8) && sprite_bit(
                ram,
                base,
                row,
                col,
            ) && target(x0, y0, row, col) == p;
        assert(before(row, col, r + 1, 0));
        assert(covers_upto(ram, base, x0, y0, r + 1, 0, p));
    }
}

/// Reads `n` sprite rows from RAM at `base` and XOR-plots them at (x0, y0),
/// wrapping both coordinates; returns whether a lit pixel was toggled off.
pub(crate) fn draw_sprite(
    screen: &mut Vec<bool>,
    ram: &Vec<u8>,
    base: u16,
    x0: u8,
    y0: u8,
    n: u8,
) -> (flipped: bool)
    requires
        old(screen)@.len() == SCREEN_WIDTH * SCREEN_HEIGHT,
        ram@.len() == RAM_SIZE,
        n <= 15,
        n == 0 || base + n <= RAM_SIZE,
    ensures
        final(screen)@ == draw_screen(
            old(screen)@,
            ram@,
            base as int,
            x0 as int,
            y0 as int,
            n as int,
        ),
        flipped == draw_collision(old(screen)@, ram@, base as int, x0 as int, y0 as int, n as int),
{
    let ghost bs = base as int;
    let ghost xi = x0 as int;
    let ghost yi = y0 as int;
    let mut flipped: bool = false;
    let mut row: u8 = 0;
    while row < n
        invariant
            old(screen)@.len() == 2048,
            screen@.len() == 2048,
            ram@.len() == RAM_SIZE,
            n <= 15,
            n == 0 || base + n <= RAM_SIZE,
            row <= n,
            bs == base as int,
            xi == x0 as int,
            yi == y0 as int,
            forall|p: int|
                0 <= p < 2048 ==> screen@[p] == (old(screen)@[p] != covers_upto(
                    ram@,
                    bs,
                    xi,
                    yi,
                    row as int,
                    0,
                    p,
                )),
            flipped == exists|p: int|
                0 <= p < 2048 && old(screen)@[p] && covers_upto(ram@, bs, xi, yi, row as int, 0, p),
        decreases n - row,
    {
        let sprite_row: u8 = ram[(base as usize) + (row as usize)];
        let mut col: u8 = 0;
        while col < 8
            invariant
                old(screen)@.len() == 2048,
                screen@.len() == 2048,
                ram@.len() == RAM_SIZE,
                n <= 15,
                base + n <= RAM_SIZE,
                row < n,
                col <= 8,
                bs == base as int,
                xi == x0 as int,
                yi == y0 as int,
                sprite_row == ram@[bs + row as int],
                forall|p: int|
                    0 <= p < 2048 ==> screen@[p] == (old(screen)@[p] != covers_upto(
                        ram@,
                        bs,
                        xi,
                        yi,
                        row as int,
                        col as int,
                        p,
                    )),
                flipped == exists|p: int|
                    0 <= p < 2048 && old(screen)@[p] && covers_upto(
                        ram@,
                        bs,
                        xi,
                        yi,
                        row as int,
                        col as int,
                        p,
                    ),
            decreases 8 - col,
        {
            let ghost ri = row as int;
            let ghost ci = col as int;
            if sprite_row & (0x80u8 >> col) != 0 {
                let x = ((x0 as usize) + (col as usize)) % SCREEN_WIDTH;
                let y = ((y0 as usize) + (row as usize)) % SCREEN_HEIGHT;
                let idx = x + SCREEN_WIDTH * y;
                proof {
                    lemma_target_bounds(xi, yi, ri, ci);
                    assert(idx == target(xi, yi, ri, ci));
                    assert(sprite_bit(ram@, bs, ri, ci));
                    lemma_fresh_target(ram@, bs, xi, yi, ri, ci);
                    assert forall|p: int| 0 <= p < 2048 implies covers_upto(
                        ram@,
                        bs,
                        xi,
                        yi,
                        ri,
                        ci + 1,
                        p,
                    ) == (covers_upto(ram@, bs, xi, yi, ri, ci, p) || p == idx) by {
                        lemma_covers_step(ram@, bs, xi, yi, ri, ci, p);
                    }
                }
                let prev = screen[idx];
                screen[idx] = !prev;
                proof {
                    assert(prev == old(screen)@[idx as int]);
                    assert forall|p: int| 0 <= p < 2048 implies screen@[p] == (old(screen)@[p]
                        != covers_upto(ram@, bs, xi, yi, ri, ci + 1, p)) by {
                        if p != idx {
                            assert(screen@[p] == (old(screen)@[p] != covers_upto(
                                ram@,
                                bs,
                                xi,
                                yi,
                                ri,
                                ci,
                                p,
                            )));
                        }
                    }
                }
                let ghost f0 = flipped;
                flipped = flipped || prev;
                proof {
                    let ghost ex1 = exists|p: int|
                        0 <= p < 2048 && old(screen)@[p] && covers_upto(
                            ram@,
                            bs,
                            xi,
                            yi,
                            ri,
                            ci + 1,
                            p,
                        );
                    if flipped {
                        if f0 {
                            let p0 = choose|p: int|
                                0 <= p < 2048 && old(screen)@[p] && covers_upto(
                                    ram@,
                                    bs,
                                    xi,
                                    yi,
                                    ri,
                                    ci,
                                    p,
                                );
                            assert(covers_upto(ram@, bs, xi, yi, ri, ci + 1, p0));
                            assert(ex1);
                        } else {
                            assert(old(screen)@[idx as int]);
                            assert(covers_upto(ram@, bs, xi, yi, ri, ci + 1, idx as int));
                            assert(ex1);
                        }
                    }
                    if ex1 {
                        let p0 = choose|p: int|
                            0 <= p < 2048 && old(screen)@[p] && covers_upto(
                                ram@,
                                bs,
                                xi,
                                yi,
                                ri,
                                ci + 1,
                                p,
                            );
                        if covers_upto(ram@, bs, xi, yi, ri, ci, p0) {
                            assert(f0);
                        } else {
                            assert(p0 == idx);
                            assert(prev);
                        }
                        assert(flipped);
                    }
                }
            } else {
                proof {
                    assert(!sprite_bit(ram@, bs, ri, ci));
                    assert forall|p: int| 0 <= p < 2048 implies covers_upto(
                        ram@,
                        bs,
                        xi,
                        yi,
                        ri,
                        ci + 1,
                        p,
                    ) == covers_upto(ram@, bs, xi, yi, ri, ci, p) by {
                        lemma_covers_step(ram@, bs, xi, yi, ri, ci, p);
                    }
                }
            }
            col = col + 1;
        }
        proof {
            assert forall|p: int| 0 <= p < 2048 implies covers_upto(
                ram@,
                bs,
                xi,
                yi,
                row as int + 1,
                0,
                p,
            ) == covers_upto(ram@, bs, xi, yi, row as int, 8, p) by {
                lemma_covers_row(ram@, bs, xi, yi, row as int, p);
            }
        }
        row = row + 1;
    }
    proof {
        assert(screen@ =~= draw_screen(old(screen)@, ram@, bs, xi, yi, n as int));
        assert(flipped == draw_collision(old(screen)@, ram@, bs, xi, yi, n as int));
    }
    flipped
}

} // verus!
