//! Colours and the linear interpolation used for the ball's emissive
//! colour as it speeds up.

use vstd::prelude::*;

use crate::num::lemma_div_bounds;

verus! {

/// An RGB colour with 8-bit channels.
#[derive(Clone, Copy, PartialEq, Eq, Structural, Debug)]
pub struct ColorRgb {
    pub r: u8,
    pub g: u8,
    pub b: u8,
}

/// Linear interpolation of one channel: `base` at `num == 0`, `target`
/// at `num == den`, rounding down.
pub open spec fn mix_channel_spec(base: int, target: int, num: int, den: int) -> int {
    (base * (den - num) + target * num) / den
}

fn mix_channel(base: u8, target: u8, num: u32, den: u32) -> (c: u8)
    requires
        0 < den <= 1000,
        num <= den,
    ensures
        c == mix_channel_spec(base as int, target as int, num as int, den as int),
{
    proof {
        assert(0 <= base * (den - num) <= 255000 && 0 <= target * num <= 255000 && base * (den
            - num) + target * num <= 255 * den && 255 * den <= 255000) by (nonlinear_arith)
            requires
                base <= 255,
                target <= 255,
                num <= den <= 1000,
        ;
        lemma_div_bounds(base * (den - num) + target * num, den as int);
        assert((base * (den - num) + target * num) as int / den as int <= 255) by (nonlinear_arith)
            requires
                0 < den,
                den * ((base * (den - num) + target * num) as int / den as int) <= base * (den
                    - num) + target * num,
                base * (den - num) + target * num <= 255 * den,
                0 <= (base * (den - num) + target * num) as int / den as int,
        ;
    }
    let v: u32 = ((base as u32) * (den - num) + (target as u32) * num) / den;
    v as u8
}

/// Interpolate each channel of `base` towards `target` by the ratio
/// `num / den`.
pub fn mix_color(base: ColorRgb, target: ColorRgb, num: u32, den: u32) -> (c: ColorRgb)
    requires
        0 < den <= 1000,
        num <= den,
    ensures
        c.r == mix_channel_spec(base.r as int, target.r as int, num as int, den as int),
        c.g == mix_channel_spec(base.g as int, target.g as int, num as int, den as int),
        c.b == mix_channel_spec(base.b as int, target.b as int, num as int, den as int),
{
    ColorRgb {
        r: mix_channel(base.r, target.r, num, den),
        g: mix_channel(base.g, target.g, num, den),
        b: mix_channel(base.b, target.b, num, den),
    }
}

} // verus!
