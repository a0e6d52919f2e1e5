//! One character position of the display grid: a character code and a color
//! attribute, held in a volatile wrapper so that every store reaches the
//! hardware buffer unelided.

use vstd::prelude::*;

verus! {

/// One hardware-visible display cell: a single-byte character code and a
/// single-byte foreground color attribute.
#[derive(Clone, Copy, Debug, PartialEq, Eq, Structural)]
pub struct ScreenChar {
    pub ascii_character: u8,
    pub color_code: u8,
}

/// `volatile::Volatile` wraps a value and performs only volatile loads and
/// stores on it, so the declaration lets grid cells hold one.
#[verifier::external_type_specification]
#[verifier::external_body]
#[verifier::reject_recursive_types(T)]
pub struct ExVolatile<T: Copy>(volatile::Volatile<T>);

/// The display cell a volatile wrapper holds.
pub uninterp spec fn cell_value(cell: volatile::Volatile<ScreenChar>) -> ScreenChar;

/// Relies on `volatile::Volatile::new`: the new wrapper holds exactly the
/// given value.
#[verifier::external_body]
pub(crate) fn vol_new(value: ScreenChar) -> (cell: volatile::Volatile<ScreenChar>)
    ensures
        cell_value(cell) == value,
{
    volatile::Volatile::new(value)
}

/// Relies on `volatile::Volatile::read`: a volatile load returns the value
/// the wrapper holds.
#[verifier::external_body]
pub(crate) fn vol_read(cell: &volatile::Volatile<ScreenChar>) -> (value: ScreenChar)
    ensures
        value == cell_value(*cell),
{
    cell.read()
}

/// Relies on `volatile::Volatile::write`: a volatile store leaves the wrapper
/// holding exactly the given value.
#[verifier::external_body]
pub(crate) fn vol_write(cell: &mut volatile::Volatile<ScreenChar>, value: ScreenChar)
    ensures
        cell_value(*final(cell)) == value,
{
    cell.write(value);
}

} // verus!
