//! Levels of a GPIO output line, which may be wired active-low.
use vstd::prelude::*;

verus! {

/// The raw line value written to drive the output high or low.
pub fn line_value(high: bool) -> (r: u8)
    ensures
        r == (if high { 1u8 } else { 0u8 }),
{
    if high {
        1
    } else {
        0
    }
}

/// Whether a line reads as high: a nonzero raw value, inverted on an
/// active-low line.
pub fn level_is_high(value: u8, active_low: bool) -> (r: bool)
    ensures
        r == if active_low { value == 0 } else { value != 0 },
{
    if !active_low {
        value != 0
    } else {
        value == 0
    }
}

/// Whether a line reads as low: the negation of `level_is_high`.
pub fn level_is_low(value: u8, active_low: bool) -> (r: bool)
    ensures
        r == !(if active_low { value == 0 } else { value != 0 }),
{
    !level_is_high(value, active_low)
}

} // verus!
