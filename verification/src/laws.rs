//! Laws of the instruction semantics: wrapping arithmetic with its flag
//! conventions, the XOR draw's self-inverse, call/return pairing, and the
//! key-wait stall, each proved of the spec-level transitions.

use vstd::prelude::*;

verus! {

use crate::arith::lemma_mod_window;
use crate::decode::Instruction;
use crate::decode::spec_decode;
use crate::draw::covers;
use crate::draw::draw_collision;
use crate::exec::spec_execute;
use crate::exec::spec_fetch;
use crate::exec::spec_first_pressed;
use crate::exec::spec_tick;
use crate::state::Machine;
use crate::state::RAM_SIZE;
use crate::state::STACK_SIZE;
use crate::state::machine_wf;
use vstd::arithmetic::div_mod::lemma_mod_add_multiples_vanish;

/// Adding an immediate leaves the register holding the sum modulo 256,
/// exactly, for every pair of 8-bit values.
pub proof fn lemma_add_imm_wraps(m: Machine, x: u8, kk: u8)
    requires
        machine_wf(m),
        x < 16,
    ensures
        (spec_execute(m, Instruction::AddImm(x, kk), 0) matches Ok(m1) && m1.registers[x as int]
            == (m.registers[x as int] + kk) % 256),
{
    lemma_mod_window(m.registers[x as int] + kk, 256);
}

/// The register add sets the flag exactly when the true sum exceeds 255 and
/// clears it otherwise, and leaves the destination holding the sum modulo
/// 256. The destination must not be the flag register itself: there the
/// flag write overrules the sum.
pub proof fn lemma_add_reg_carry(m: Machine, x: u8, y: u8)
    requires
        machine_wf(m),
        x < 15,
        y < 16,
    ensures
        (spec_execute(m, Instruction::AddReg(x, y), 0) matches Ok(m1) && {
            let a = m.registers[x as int];
            let b = m.registers[y as int];
            &&& (m1.registers[15] == 1 <==> a + b > 255)
            &&& (m1.registers[15] == 0 <==> a + b <= 255)
            &&& m1.registers[x as int] == (a + b) % 256
        }),
{
    lemma_mod_window(m.registers[x as int] + m.registers[y as int], 256);
}

/// The register subtract clears the flag exactly when a borrow occurred,
/// that is when the subtrahend exceeds the minuend, and sets it otherwise;
/// the destination holds the difference modulo 256. The destination must
/// not be the flag register itself: there the flag write overrules the
/// difference.
pub proof fn lemma_sub_reg_borrow(m: Machine, x: u8, y: u8)
    requires
        machine_wf(m),
        x < 15,
        y < 16,
    ensures
        (spec_execute(m, Instruction::SubReg(x, y), 0) matches Ok(m1) && {
            let a = m.registers[x as int];
            let b = m.registers[y as int];
            &&& (m1.registers[15] == 0 <==> a < b)
            &&& (m1.registers[15] == 1 <==> a >= b)
            &&& m1.registers[x as int] == (a - b) % 256
        }),
{
    let a = m.registers[x as int];
    let b = m.registers[y as int];
    lemma_mod_add_multiples_vanish(a - b, 256);
    lemma_mod_window(a - b + 256, 256);
}

/// Drawing the same sprite twice at the same coordinates with no other
/// mutation restores the display, and the second draw reports a collision
/// exactly when the first draw turned some pixel on. The operand registers
/// must not be the flag register, which the first draw's report overwrites.
pub proof fn lemma_draw_twice(m: Machine, x: u8, y: u8, n: u8)
    requires
        machine_wf(m),
        x < 15,
        y < 15,
        n < 16,
        n == 0 || m.i_register + n <= RAM_SIZE,
    ensures
        (spec_execute(m, Instruction::Draw(x, y, n), 0) matches Ok(m1) && (spec_execute(
            m1,
            Instruction::Draw(x, y, n),
            0,
        ) matches Ok(m2) && {
            let x0 = m.registers[x as int] as int;
            let y0 = m.registers[y as int] as int;
            &&& m2.screen == m.screen
            &&& (m2.registers[15] == 1 <==> exists|p: int|
                0 <= p < m.screen.len() && !m.screen[p] && covers(
                    m.ram,
                    m.i_register as int,
                    x0,
                    y0,
                    n as int,
                    p,
                ))
        })),
{
    let base = m.i_register as int;
    let x0 = m.registers[x as int] as int;
    let y0 = m.registers[y as int] as int;
    let r1 = spec_execute(m, Instruction::Draw(x, y, n), 0);
    let m1 = r1->Ok_0;
    let r2 = spec_execute(m1, Instruction::Draw(x, y, n), 0);
    let m2 = r2->Ok_0;
    assert(m2.screen =~= m.screen);
    if draw_collision(m1.screen, m.ram, base, x0, y0, n as int) {
        let p = choose|p: int|
            0 <= p < m1.screen.len() && m1.screen[p] && covers(m.ram, base, x0, y0, n as int, p);
        assert(!m.screen[p] && covers(m.ram, base, x0, y0, n as int, p));
        assert(exists|p: int|
            0 <= p < m.screen.len() && !m.screen[p] && covers(m.ram, base, x0, y0, n as int, p));
    }
    if exists|p: int|
        0 <= p < m.screen.len() && !m.screen[p] && covers(m.ram, base, x0, y0, n as int, p) {
        let p = choose|p: int|
            0 <= p < m.screen.len() && !m.screen[p] && covers(m.ram, base, x0, y0, n as int, p);
        assert(m1.screen[p] && covers(m.ram, base, x0, y0, n as int, p));
        assert(draw_collision(m1.screen, m.ram, base, x0, y0, n as int));
    }
}

/// A call followed by a return leaves the program counter at the address
/// immediately following the call instruction: exactly the address the
/// call pushed, which at execution time the counter already named.
pub proof fn lemma_call_then_return(m: Machine, nnn: u16)
    requires
        machine_wf(m),
        nnn < 4096,
        m.stack_pointer < STACK_SIZE,
    ensures
        (spec_execute(m, Instruction::Call(nnn), 0) matches Ok(m1) && (spec_execute(
            m1,
            Instruction::ReturnSub,
            0,
        ) matches Ok(m2) && m2.program_counter == m.program_counter)),
{
}

/// Below `k`, no key is pressed at or above `j` means the scan finds none.
proof fn lemma_no_key_none(keys: Seq<bool>, k: int)
    requires
        0 <= k <= 16,
        forall|j: int| k <= j < 16 ==> !keys[j],
    ensures
        spec_first_pressed(keys, k) is None,
    decreases 16 - k,
{
    if k < 16 {
        lemma_no_key_none(keys, k + 1);
    }
}

/// The scan from `j` finds `k` when `k` is pressed and nothing below it is.
proof fn lemma_first_pressed_from(keys: Seq<bool>, j: int, k: u8)
    requires
        0 <= j <= k < 16,
        keys[k as int],
        forall|i: int| j <= i < k ==> !keys[i],
    ensures
        spec_first_pressed(keys, j) == Some(k),
    decreases k - j,
{
    if j < k {
        lemma_first_pressed_from(keys, j + 1, k);
    }
}

/// With no key pressed, one cycle of the key wait rewinds the program
/// counter over the instruction: the counter and the registers come out
/// unchanged, so the same instruction is fetched again next cycle.
pub proof fn lemma_wait_key_stalls(m: Machine, rnd: u8, x: u8)
    requires
        machine_wf(m),
        m.program_counter + 1 < RAM_SIZE,
        (spec_fetch(m) matches Ok(f) && spec_decode(f.0) == Some(Instruction::WaitKey(x))),
        forall|k: int| 0 <= k < 16 ==> !m.pressed_keys[k],
    ensures
        (spec_tick(m, rnd) matches Ok(m2) && m2.program_counter == m.program_counter
            && m2.registers == m.registers),
{
    lemma_no_key_none(m.pressed_keys, 0);
    lemma_mod_window(m.program_counter + 65536, 65536);
}

/// With some key pressed, the key wait stores the lowest pressed key's
/// index in Vx and the program counter advances past the instruction.
pub proof fn lemma_wait_key_advances(m: Machine, rnd: u8, x: u8, k: u8)
    requires
        machine_wf(m),
        m.program_counter + 1 < RAM_SIZE,
        (spec_fetch(m) matches Ok(f) && spec_decode(f.0) == Some(Instruction::WaitKey(x))),
        k < 16,
        m.pressed_keys[k as int],
        forall|j: int| 0 <= j < k ==> !m.pressed_keys[j],
    ensures
        (spec_tick(m, rnd) matches Ok(m2) && m2.program_counter == m.program_counter + 2
            && m2.registers == m.registers.update(x as int, k)),
{
    lemma_first_pressed_from(m.pressed_keys, 0, k);
}

} // verus!
