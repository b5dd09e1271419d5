//! Node flags: facts the parser records on a node.
use vstd::prelude::*;

verus! {

pub const NONE: u32 = 0;
pub const LET: u32 = 1;
pub const CONST: u32 = 2;
pub const USING: u32 = 4;
pub const REPARSED: u32 = 8;
pub const SYNTHESIZED: u32 = 16;
pub const OPTIONAL_CHAIN: u32 = 32;
pub const EXPORT_CONTEXT: u32 = 64;
pub const CONTAINS_THIS: u32 = 128;
pub const GLOBAL_AUGMENTATION: u32 = 256;
pub const JAVA_SCRIPT_FILE: u32 = 0x1_0000;
pub const JS_DOC: u32 = 0x40_0000;
pub const AMBIENT: u32 = 0x80_0000;
pub const POSSIBLY_CONTAINS_DEPRECATED_TAG: u32 = 0x100_0000;
/// `LET | CONST | USING`.
pub const BLOCK_SCOPED: u32 = 7;

} // verus!
