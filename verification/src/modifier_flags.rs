//! Modifier flags: what a declaration's modifier keywords and decorators stand for.
use vstd::prelude::*;

verus! {

pub const NONE: u32 = 0;
pub const PUBLIC: u32 = 1;
pub const PRIVATE: u32 = 2;
pub const PROTECTED: u32 = 4;
pub const READONLY: u32 = 8;
pub const OVERRIDE: u32 = 16;
pub const EXPORT: u32 = 32;
pub const ABSTRACT: u32 = 64;
pub const AMBIENT: u32 = 128;
pub const STATIC: u32 = 256;
pub const ACCESSOR: u32 = 512;
pub const ASYNC: u32 = 1024;
pub const DEFAULT: u32 = 2048;
pub const CONST: u32 = 4096;
pub const IN: u32 = 8192;
pub const OUT: u32 = 16384;
pub const DECORATOR: u32 = 32768;
/// `PUBLIC | PRIVATE | PROTECTED | READONLY | OVERRIDE`.
pub const PARAMETER_PROPERTY_MODIFIER: u32 = 31;

} // verus!
