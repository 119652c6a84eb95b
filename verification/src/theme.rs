//! The integer parts of the visual style: corner rounding at its three
//! sizes, and how the appearance settings name a rounding.

use vstd::prelude::*;

verus! {

/// Chips, badges and other small fills: six tenths of the rounding, to the
/// nearest point.
pub open spec fn small_radius_of(radius: u8) -> int {
    (6 * radius + 5) / 10
}

/// Dialogs and sheets: sixteen tenths of the rounding, to the nearest
/// point, and 24 at most.
pub open spec fn large_radius_of(radius: u8) -> int {
    let r = (16 * radius + 5) / 10;
    if r < 24 {
        r
    } else {
        24
    }
}

pub fn small_radius(radius: u8) -> (r: u8)
    ensures
        r == small_radius_of(radius),
{
    ((6 * radius as u32 + 5) / 10) as u8
}

pub fn large_radius(radius: u8) -> (r: u8)
    ensures
        r == large_radius_of(radius),
{
    let r = (16 * radius as u32 + 5) / 10;
    if r < 24 {
        r as u8
    } else {
        24
    }
}

/// How the appearance settings name a corner rounding.
pub open spec fn rounding_name_of(radius: u8) -> Seq<char> {
    if radius <= 2 {
        "Square"@
    } else if radius <= 8 {
        "Soft"@
    } else if radius <= 13 {
        "Rounded"@
    } else {
        "Pill"@
    }
}

pub fn rounding_name(radius: u8) -> (s: &'static str)
    ensures
        s@ == rounding_name_of(radius),
{
    if radius <= 2 {
        "Square"
    } else if radius <= 8 {
        "Soft"
    } else if radius <= 13 {
        "Rounded"
    } else {
        "Pill"
    }
}

} // verus!
