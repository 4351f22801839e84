//! The analog stick: from the raw reading of an axis to its deflection.

use vstd::prelude::*;

verus! {

/// The raw reading of an axis at rest.
pub const MID: i16 = 128;

/// How far from rest a reading must be to count: the stick does not come
/// back to the exact middle.
pub const DEADZONE: i16 = 16;

/// The deflection that a raw reading stands for: its distance from rest,
/// with its sign, or nothing where that is within the dead zone.
pub open spec fn deflection(raw: u8) -> int {
    if raw - 128 > 16 || raw - 128 < -16 {
        raw - 128
    } else {
        0
    }
}

/// The deflection of an axis, from -128 to 127.
pub fn axis_deflection(raw: u8) -> (offset: i16)
    ensures
        offset == deflection(raw),
        -128 <= offset <= 127,
{
    let offset: i16 = raw as i16 - MID;
    if offset > DEADZONE || offset < -DEADZONE {
        offset
    } else {
        0
    }
}

} // verus!
