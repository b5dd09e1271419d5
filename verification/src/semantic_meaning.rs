//! Semantic meanings: what a declaration declares (a value, a type, a namespace).
use vstd::prelude::*;

verus! {

pub const NONE: i32 = 0;
pub const VALUE: i32 = 1;
pub const TYPE: i32 = 2;
pub const NAMESPACE: i32 = 4;
/// `VALUE | TYPE | NAMESPACE`.
pub const ALL: i32 = 7;

} // verus!
