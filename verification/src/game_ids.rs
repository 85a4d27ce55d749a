//! GameBanana game ids of commonly supported titles.

use vstd::prelude::*;

verus! {

pub const GENSHIN_IMPACT: u32 = 8552;

pub const HONKAI_STAR_RAIL: u32 = 8570;

pub const ZENLESS_ZONE_ZERO: u32 = 9520;

pub const WUTHERING_WAVES: u32 = 9548;

} // verus!
