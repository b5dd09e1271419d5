//! Function flags: generator, async and invalid.
use vstd::prelude::*;

verus! {

pub const NORMAL: u32 = 0;
pub const GENERATOR: u32 = 1;
pub const ASYNC: u32 = 2;
pub const INVALID: u32 = 4;
/// `ASYNC | GENERATOR`.
pub const ASYNC_GENERATOR: u32 = 3;

} // verus!
