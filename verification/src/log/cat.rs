//! Log categories, one bit each.
use vstd::prelude::*;

verus! {

pub const VDP_CMD: u32 = 1;

pub const VDP_PAL: u32 = 2;

pub const VDP_SPRITE: u32 = 4;

pub const VDP_REG: u32 = 8;

pub const PSG: u32 = 16;

pub const SCC: u32 = 32;

pub const SLOT: u32 = 64;

pub const BUS: u32 = 128;

pub const FM: u32 = 256;

/// Every category.
pub const ALL: u32 = 0xFFFF_FFFF;

} // verus!
