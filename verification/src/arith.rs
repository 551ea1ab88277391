//! Wrapping 8-bit and 16-bit arithmetic, stated over `%` so that contracts
//! can speak of results modulo 256 and 65536 directly.

use vstd::prelude::*;

verus! {

use vstd::arithmetic::div_mod::lemma_fundamental_div_mod_converse_mod;

/// The value of an 8-bit register after a wrapping addition.
pub open spec fn add8(a: u8, b: u8) -> u8 {
    ((a + b) % 256) as u8
}

/// The value of an 8-bit register after a wrapping subtraction.
pub open spec fn sub8(a: u8, b: u8) -> u8 {
    ((a - b + 256) % 256) as u8
}

/// The value of a 16-bit address after a wrapping addition.
pub open spec fn add16(a: u16, b: u16) -> u16 {
    ((a + b) % 65536) as u16
}

/// The value of a 16-bit address after a wrapping subtraction.
pub open spec fn sub16(a: u16, b: u16) -> u16 {
    ((a - b + 65536) % 65536) as u16
}

/// A value already shifted into [0, 2m) has a remainder that is itself,
/// or itself less m.
pub proof fn lemma_mod_window(v: int, m: int)
    requires
        m > 0,
        0 <= v < 2 * m,
    ensures
        v % m == if v < m { v } else { v - m },
{
    if v < m {
        lemma_fundamental_div_mod_converse_mod(v, m, 0, v);
    } else {
        lemma_fundamental_div_mod_converse_mod(v, m, 1, v - m);
    }
}

pub fn wrap_add8(a: u8, b: u8) -> (r: u8)
    ensures
        r == add8(a, b),
{
    proof {
        lemma_mod_window(a + b, 256);
    }
    if b <= 255 - a {
        a + b
    } else {
        ((a as u16 + b as u16) - 256) as u8
    }
}

pub fn wrap_sub8(a: u8, b: u8) -> (r: u8)
    ensures
        r == sub8(a, b),
{
    proof {
        lemma_mod_window(a - b + 256, 256);
    }
    if a >= b {
        a - b
    } else {
        ((a as u16 + 256) - b as u16) as u8
    }
}

pub fn wrap_add16(a: u16, b: u16) -> (r: u16)
    ensures
        r == add16(a, b),
{
    proof {
        lemma_mod_window(a + b, 65536);
    }
    if b <= 65535 - a {
        a + b
    } else {
        ((a as u32 + b as u32) - 65536) as u16
    }
}

pub fn wrap_sub16(a: u16, b: u16) -> (r: u16)
    ensures
        r == sub16(a, b),
{
    proof {
        lemma_mod_window(a - b + 65536, 65536);
    }
    if a >= b {
        a - b
    } else {
        ((a as u32 + 65536) - b as u32) as u16
    }
}

} // verus!
