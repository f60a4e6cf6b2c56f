//! Verified core of the Matrix GUI demo: the CST816D touch controller
//! protocol, the calculator and clock page logic, the animated switch
//! geometry and the input plumbing shared by the demo front ends.
use vstd::prelude::*;

pub mod anim_switch;
pub mod calculator;
pub mod clock;
pub mod cst816d;
pub mod evaluation;
pub mod fixed_text;
pub mod pages;
pub mod web;

verus! {

/// Horizontal resolution of the ST7789 panel in pixels.
pub const HOR_RES: u16 = 280;

/// Vertical resolution of the ST7789 panel in pixels.
pub const VER_RES: u16 = 240;

/// Integer division rounding toward zero, as Rust's `/` on signed integers
/// does.
pub open spec fn trunc_div(a: int, b: int) -> int {
    if a >= 0 {
        a / b
    } else {
        -((-a) / b)
    }
}

/// A 32-bit unsigned value read as a 32-bit signed one (what `as i32`
/// gives): values above `i32::MAX` wrap around to negative ones.
pub open spec fn wrap_i32(v: u32) -> int {
    if v <= i32::MAX {
        v as int
    } else {
        v - 0x1_0000_0000
    }
}

pub proof fn lemma_cast_i32(v: u32)
    ensures
        (v as i32) as int == wrap_i32(v),
{
    assert(v > 0x7fff_ffff ==> (v as i32) as int == v - 0x1_0000_0000) by (bit_vector);
    assert(v <= 0x7fff_ffff ==> (v as i32) as int == v as int) by (bit_vector);
}

} // verus!
