//! The firmware's answers to the host's firmware-version and feature
//! queries.

use vstd::prelude::*;

verus! {

pub const GET_FIRMWARE_VERSION: u16 = 0x0001;
pub const GET_FEATURE: u16 = 0x0002;

/// `"PIO "` read as a little-endian word.
pub const FOURCC_PIO: u32 = 0x204f_4950;

/// The version words of a build without the PIO feature.
pub const VERSION_NON_PIO: [u32; 5] = [0x5250_3100, 0, 0, 0, 0];

/// The operation numbers that a feature occupies.
#[derive(Clone, Copy, Debug, PartialEq, Eq, Structural)]
pub struct FeatureRange {
    pub op_base: u16,
    pub op_count: u16,
}

/// The version words this firmware reports.
pub fn firmware_version() -> (r: [u32; 5])
    ensures
        r@ == seq![0x5250_3100u32, 0u32, 0u32, 0u32, 0u32],
{
    let r = VERSION_NON_PIO;
    assert(r@ =~= seq![0x5250_3100u32, 0u32, 0u32, 0u32, 0u32]);
    r
}

/// The operations that feature `fourcc` occupies. This firmware offers no
/// feature, PIO included, so every query is answered with `None`.
pub fn get_feature(fourcc: u32) -> (r: Option<FeatureRange>)
    ensures
        r is None,
{
    if fourcc == FOURCC_PIO {
        None
    } else {
        None
    }
}

} // verus!
