//! A rectangle in device or screen units.
use vstd::prelude::*;

verus! {

/// A rectangle: origin and extent, in device or screen units.
#[derive(PartialEq, Eq, Structural, Clone, Copy, Debug)]
pub struct Area {
    pub x: u16,
    pub y: u16,
    pub width: u16,
    pub height: u16,
}

} // verus!
