//! The module format a file is emitted in, from its name, the program's
//! module kind and the facts its package offers.
use vstd::prelude::*;

verus! {

pub const NONE: i32 = 0;
pub const COMMON_JS: i32 = 1;
pub const AMD: i32 = 2;
pub const UMD: i32 = 3;
pub const SYSTEM: i32 = 4;
pub const ES2015: i32 = 5;
pub const ES2020: i32 = 6;
pub const ES2022: i32 = 7;
pub const ESNEXT: i32 = 99;
pub const NODE16: i32 = 100;
pub const NODE18: i32 = 101;
pub const NODE20: i32 = 102;
pub const NODE_NEXT: i32 = 199;
pub const PRESERVE: i32 = 200;

/// The program-supplied facts of a file: its package's `type` and
/// directory, and the format its resolution implied.
#[derive(Debug)]
pub struct SourceFileMetaData {
    pub package_json_type: Vec<u8>,
    pub package_json_directory: Vec<u8>,
    pub implied_node_format: i32,
}

pub open spec fn ends_with(name: Seq<u8>, suffix: Seq<u8>) -> bool {
    name.len() >= suffix.len() && name.subrange(name.len() - suffix.len(), name.len() as int) == suffix
}

pub open spec fn commonjs_text() -> Seq<u8> {
    seq![99u8, 111u8, 109u8, 109u8, 111u8, 110u8, 106u8, 115u8]
}

pub open spec fn module_text() -> Seq<u8> {
    seq![109u8, 111u8, 100u8, 117u8, 108u8, 101u8]
}

pub open spec fn ext(c: u8, d: u8) -> Seq<u8> {
    seq![46u8, c, d, 115u8]
}

fn has_suffix(name: &[u8], suffix: &[u8]) -> (r: bool)
    ensures
        r == ends_with(name@, suffix@),
{
    if name.len() < suffix.len() {
        return false;
    }
    let off = name.len() - suffix.len();
    let mut i: usize = 0;
    while i < suffix.len()
        invariant
            i <= suffix@.len(),
            off + suffix@.len() == name@.len(),
            name@.len() <= usize::MAX,
            forall|j: int| 0 <= j < i ==> name@[off + j] == suffix@[j],
        decreases suffix@.len() - i,
    {
        if name[off + i] != suffix[i] {
            proof {
                assert(name@.subrange(off as int, name@.len() as int)[i as int] != suffix@[i as int]);
            }
            return false;
        }
        i = i + 1;
    }
    proof { assert(name@.subrange(off as int, name@.len() as int) =~= suffix@); }
    true
}

/// The format a file is emitted in when its own facts decide: under a Node
/// module kind the implied format; otherwise CommonJS or ESNext when the
/// implied format agrees with the package type or the extension, else none.
pub open spec fn spec_implied_node_format_for_emit(name: Seq<u8>, emit: i32, meta: SourceFileMetaData) -> i32 {
    if NODE16 <= emit <= NODE_NEXT {
        meta.implied_node_format
    } else if meta.implied_node_format == COMMON_JS && (meta.package_json_type@ == commonjs_text() || ends_with(
        name,
        ext(99u8, 106u8),
    ) || ends_with(name, ext(99u8, 116u8))) {
        COMMON_JS
    } else if meta.implied_node_format == ESNEXT && (meta.package_json_type@ == module_text() || ends_with(
        name,
        ext(109u8, 106u8),
    ) || ends_with(name, ext(109u8, 116u8))) {
        ESNEXT
    } else {
        NONE
    }
}

pub fn implied_node_format_for_emit(name: &[u8], emit: i32, meta: &SourceFileMetaData) -> (r: i32)
    ensures
        r == spec_implied_node_format_for_emit(name@, emit, *meta),
{
    if NODE16 <= emit && emit <= NODE_NEXT {
        return meta.implied_node_format;
    }
    if meta.implied_node_format == COMMON_JS && (crate::node_utils::bytes_equal(
        meta.package_json_type.as_slice(),
        &[99u8, 111u8, 109u8, 109u8, 111u8, 110u8, 106u8, 115u8],
    ) || has_suffix(name, &[46u8, 99u8, 106u8, 115u8]) || has_suffix(name, &[46u8, 99u8, 116u8, 115u8])) {
        return COMMON_JS;
    }
    if meta.implied_node_format == ESNEXT && (crate::node_utils::bytes_equal(
        meta.package_json_type.as_slice(),
        &[109u8, 111u8, 100u8, 117u8, 108u8, 101u8],
    ) || has_suffix(name, &[46u8, 109u8, 106u8, 115u8]) || has_suffix(name, &[46u8, 109u8, 116u8, 115u8])) {
        return ESNEXT;
    }
    NONE
}

/// The format a file is emitted in: its own when it decides one, else the
/// program's module kind `emit`.
pub fn emit_module_format_of_file(name: &[u8], emit: i32, meta: &SourceFileMetaData) -> (r: i32)
    ensures
        r == if spec_implied_node_format_for_emit(name@, emit, *meta) == NONE {
            emit
        } else {
            spec_implied_node_format_for_emit(name@, emit, *meta)
        },
{
    let implied = implied_node_format_for_emit(name, emit, meta);
    if implied == NONE { emit } else { implied }
}

} // verus!
