//! Deterministic index-to-color mapping for chart series.

use vstd::prelude::*;

verus! {

/// A color of the fixed chart palette, as plain RGB channels.
#[derive(Clone, Copy, PartialEq, Eq, Structural, Debug)]
pub struct Rgb {
    pub r: u8,
    pub g: u8,
    pub b: u8,
}

/// Number of distinct colors in the palette.
pub const PALETTE_SIZE: usize = 8;

/// The palette entry for index `i`, cycling modulo the palette size.
pub open spec fn palette_color(i: int) -> Rgb {
    let k = i % (PALETTE_SIZE as int);
    if k == 0 {
        Rgb { r: 255, g: 99, b: 132 }
    } else if k == 1 {
        Rgb { r: 54, g: 162, b: 235 }
    } else if k == 2 {
        Rgb { r: 255, g: 206, b: 86 }
    } else if k == 3 {
        Rgb { r: 75, g: 192, b: 192 }
    } else if k == 4 {
        Rgb { r: 153, g: 102, b: 255 }
    } else if k == 5 {
        Rgb { r: 255, g: 159, b: 64 }
    } else if k == 6 {
        Rgb { r: 231, g: 233, b: 237 }
    } else {
        Rgb { r: 102, g: 255, b: 102 }
    }
}

/// Deterministic color for a combatant position: a total function that
/// cycles through the fixed palette.
pub fn get_character_color(index: usize) -> (c: Rgb)
    ensures
        c == palette_color(index as int),
{
    let k = index % PALETTE_SIZE;
    if k == 0 {
        Rgb { r: 255, g: 99, b: 132 }
    } else if k == 1 {
        Rgb { r: 54, g: 162, b: 235 }
    } else if k == 2 {
        Rgb { r: 255, g: 206, b: 86 }
    } else if k == 3 {
        Rgb { r: 75, g: 192, b: 192 }
    } else if k == 4 {
        Rgb { r: 153, g: 102, b: 255 }
    } else if k == 5 {
        Rgb { r: 255, g: 159, b: 64 }
    } else if k == 6 {
        Rgb { r: 231, g: 233, b: 237 }
    } else {
        Rgb { r: 102, g: 255, b: 102 }
    }
}

/// Law: the palette mapping is periodic — shifting an index by the
/// palette size yields the same color.
pub proof fn lemma_palette_cycle(i: int)
    requires
        0 <= i,
    ensures
        palette_color(i + PALETTE_SIZE as int) == palette_color(i),
{
    vstd::arithmetic::div_mod::lemma_mod_add_multiples_vanish(i, PALETTE_SIZE as int);
}

} // verus!
