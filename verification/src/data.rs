//! The fixed 11-byte hardware report and its decoder.
//!
//! A report carries a report id, a button/flag bitmask, and three
//! little-endian 16-bit words: pointer x, pointer y, and pressure.
use vstd::prelude::*;

verus! {

/// Bitmask flag of the first pen button.
pub const BUTTON_1: u8 = 0x01;

/// Bitmask flag of the second pen button.
pub const BUTTON_2: u8 = 0x02;

/// Bitmask flag of the third pen button.
pub const BUTTON_3: u8 = 0x04;

/// Bitmask flag set while the pen is detected by the tablet.
pub const PEN_DETECTED: u8 = 0x80;

/// Bitmask flag set while the pen is in contact.
pub const PEN_INIT: u8 = 0x40;

/// Bitmask flag set while the pen hovers over the surface.
pub const PEN_HOVERING: u8 = 0x20;

/// Number of bytes in a hardware report.
pub const REPORT_LEN: usize = 11;

/// A decoded hardware report.
#[derive(PartialEq, Eq, Structural, Clone, Copy, Debug)]
pub struct Data {
    pub report_number: u8,
    pub state: u8,
    pub pointer_x: u16,
    pub pointer_y: u16,
    pub pressure: u16,
}

/// Whether every bit of `flag` is set in `raw`.
pub open spec fn spec_read_state(raw: u8, flag: u8) -> bool {
    raw & flag == flag
}

/// Whether every bit of `flag` is set in `raw`.
pub fn read_state(raw: u8, flag: u8) -> (r: bool)
    ensures
        r == spec_read_state(raw, flag),
{
    raw & flag == flag
}

/// The 16-bit value stored as a little-endian byte pair.
pub open spec fn le16(lo: u8, hi: u8) -> u16 {
    (lo + hi * 256) as u16
}

/// The report encoded in the first bytes of a buffer.
pub open spec fn spec_data(b: Seq<u8>) -> Data
    recommends
        b.len() >= 8,
{
    Data {
        report_number: b[0],
        state: b[1],
        pointer_x: le16(b[2], b[3]),
        pointer_y: le16(b[4], b[5]),
        pressure: le16(b[6], b[7]),
    }
}

impl Data {
    /// Decode a fixed-size report buffer; bytes beyond the three words are
    /// reserved and ignored.
    pub fn from_bytes(b: &[u8]) -> (r: Data)
        requires
            b@.len() == REPORT_LEN,
        ensures
            r == spec_data(b@),
    {
        Data {
            report_number: b[0],
            state: b[1],
            pointer_x: b[2] as u16 + (b[3] as u16) * 256,
            pointer_y: b[4] as u16 + (b[5] as u16) * 256,
            pressure: b[6] as u16 + (b[7] as u16) * 256,
        }
    }
}

} // verus!
