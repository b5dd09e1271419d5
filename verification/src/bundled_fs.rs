//! The bundled file system's answers: a path under `bundled:///` is served
//! from the library table (the directory `libs` and one file per library),
//! any other path is left to the file system underneath (`None` here).
use vstd::prelude::*;
use crate::bundled::{bundled_prefix, is_bundled, library, names_view, spec_library_index};
use crate::node_utils::bytes_equal;
use crate::targets::{append_bytes, copy_bytes};

verus! {

/// `libs`, the one directory of the bundled tree.
pub open spec fn libs_word() -> Seq<u8> {
    seq![108u8, 105u8, 98u8, 115u8]
}

/// `libs/`, the prefix of a library's path under the scheme.
pub open spec fn libs_slash() -> Seq<u8> {
    libs_word().push(47u8)
}

/// What a path holds after `bundled:///`, if it starts with it.
pub open spec fn spec_bundled_rest(path: Seq<u8>) -> Option<Seq<u8>> {
    if path.len() >= 11 && path.subrange(0, 11) == bundled_prefix() {
        Some(path.subrange(11, path.len() as int))
    } else {
        None
    }
}

/// A node of the bundled tree: the scheme root, the `libs` directory, or
/// the library at an index of the table.
#[derive(Clone, Copy, Debug, PartialEq, Eq, Structural)]
pub enum BundledNode {
    Root,
    Libs,
    Library(usize),
}

/// The node that the part after the scheme names, if any: the empty part
/// is the root, `libs` the directory, `libs/NAME` the library named NAME.
pub open spec fn spec_bundled_node(names: Seq<Seq<u8>>, rest: Seq<u8>) -> Option<BundledNode> {
    if rest.len() == 0 {
        Some(BundledNode::Root)
    } else if rest == libs_word() {
        Some(BundledNode::Libs)
    } else if rest.len() >= 5 && rest.subrange(0, 5) == libs_slash() {
        match spec_library_index(names, rest.subrange(5, rest.len() as int)) {
            Some(i) => Some(BundledNode::Library(i)),
            None => None,
        }
    } else {
        None
    }
}

/// The bytes of `s` from `k` on.
fn tail_from(s: &[u8], k: usize) -> (r: Vec<u8>)
    requires
        k <= s@.len(),
    ensures
        r@ == s@.subrange(k as int, s@.len() as int),
{
    let mut out: Vec<u8> = Vec::new();
    let mut i: usize = k;
    while i < s.len()
        invariant
            k <= i <= s@.len(),
            out@ == s@.subrange(k as int, i as int),
        decreases s@.len() - i,
    {
        out.push(s[i]);
        proof { assert(s@.subrange(k as int, i + 1) == s@.subrange(k as int, i as int).push(s@[i as int])); }
        i = i + 1;
    }
    out
}

/// The part of a path after `bundled:///`; `None` for a path outside the
/// bundled tree.
pub fn bundled_rest(path: &[u8]) -> (r: Option<Vec<u8>>)
    ensures
        match r {
            Some(v) => spec_bundled_rest(path@) == Some(v@),
            None => spec_bundled_rest(path@) is None,
        },
{
    if is_bundled(path) {
        Some(tail_from(path, 11))
    } else {
        None
    }
}

fn is_libs(rest: &Vec<u8>) -> (r: bool)
    ensures
        r == (rest@ == libs_word()),
{
    let libs: [u8; 4] = [108u8, 105u8, 98u8, 115u8];
    proof { assert(libs@ =~= libs_word()); }
    bytes_equal(rest.as_slice(), &libs)
}

fn starts_with_libs_slash(rest: &Vec<u8>) -> (r: bool)
    ensures
        r == (rest@.len() >= 5 && rest@.subrange(0, 5) == libs_slash()),
{
    if rest.len() < 5 {
        return false;
    }
    let head = [rest[0], rest[1], rest[2], rest[3], rest[4]];
    let slash: [u8; 5] = [108u8, 105u8, 98u8, 115u8, 47u8];
    proof {
        assert(head@ =~= rest@.subrange(0, 5));
        assert(slash@ =~= libs_slash());
    }
    bytes_equal(&head, &slash)
}

/// The node of the bundled tree that a path names: `None` outside the
/// bundled tree, `Some(None)` for a bundled path that names nothing.
pub fn bundled_node(names: &Vec<Vec<u8>>, path: &[u8]) -> (r: Option<Option<BundledNode>>)
    ensures
        r == match spec_bundled_rest(path@) {
            None => None,
            Some(rest) => Some(spec_bundled_node(names_view(names@), rest)),
        },
{
    let rest = match bundled_rest(path) {
        None => return None,
        Some(rest) => rest,
    };
    if rest.len() == 0 {
        return Some(Some(BundledNode::Root));
    }
    if is_libs(&rest) {
        return Some(Some(BundledNode::Libs));
    }
    if !starts_with_libs_slash(&rest) {
        return Some(None);
    }
    let name = tail_from(rest.as_slice(), 5);
    match library(names, name.as_slice()) {
        Some(i) => Some(Some(BundledNode::Library(i))),
        None => Some(None),
    }
}

/// What the bundled tree reports of a node: its name (empty for the root),
/// whether it is a directory, and its size in bytes.
#[derive(Debug)]
pub struct BundledInfo {
    pub name: Vec<u8>,
    pub directory: bool,
    pub size: u64,
}

impl View for BundledInfo {
    type V = (Seq<u8>, bool, u64);

    open spec fn view(&self) -> (Seq<u8>, bool, u64) {
        (self.name@, self.directory, self.size)
    }
}

/// The report of the node that `rest` names; `sizes[i]` is the size of the
/// library at index `i`.
pub open spec fn spec_stat(names: Seq<Seq<u8>>, sizes: Seq<u64>, rest: Seq<u8>) -> Option<(Seq<u8>, bool, u64)> {
    match spec_bundled_node(names, rest) {
        None => None,
        Some(BundledNode::Root) => Some((Seq::empty(), true, 0u64)),
        Some(BundledNode::Libs) => Some((libs_word(), true, 0u64)),
        Some(BundledNode::Library(i)) => Some((names[i as int], false, sizes[i as int])),
    }
}

/// What a path of the bundled tree is: `None` outside the bundled tree,
/// `Some(None)` for a bundled path that names nothing.
pub fn stat(names: &Vec<Vec<u8>>, sizes: &Vec<u64>, path: &[u8]) -> (r: Option<Option<BundledInfo>>)
    requires
        sizes@.len() == names@.len(),
    ensures
        match spec_bundled_rest(path@) {
            None => r is None,
            Some(rest) => r matches Some(o) && match (o, spec_stat(names_view(names@), sizes@, rest)) {
                (None, None) => true,
                (Some(info), Some(v)) => info@ == v,
                _ => false,
            },
        },
{
    let node = match bundled_node(names, path) {
        None => return None,
        Some(node) => node,
    };
    match node {
        None => Some(None),
        Some(BundledNode::Root) => Some(Some(BundledInfo { name: Vec::new(), directory: true, size: 0 })),
        Some(BundledNode::Libs) => {
            let name = vec![108u8, 105u8, 98u8, 115u8];
            proof { assert(name@ =~= libs_word()); }
            Some(Some(BundledInfo { name, directory: true, size: 0 }))
        },
        Some(BundledNode::Library(i)) => {
            let count = names.len();
            proof {
                assert(names_view(names@).len() == count);
                crate::bundled::lemma_library_index_in(names_view(names@), spec_bundled_rest(path@).unwrap().subrange(
                    5,
                    spec_bundled_rest(path@).unwrap().len() as int,
                ));
            }
            Some(Some(BundledInfo { name: copy_bytes(&names[i]), directory: false, size: sizes[i] }))
        },
    }
}

/// The library whose bytes a read of `path` gives: `None` outside the
/// bundled tree, `Some(None)` where a bundled path names no library.
pub fn read_file(names: &Vec<Vec<u8>>, path: &[u8]) -> (r: Option<Option<usize>>)
    ensures
        r == match spec_bundled_rest(path@) {
            None => None,
            Some(rest) => Some(
                match spec_bundled_node(names_view(names@), rest) {
                    Some(BundledNode::Library(i)) => Some(i),
                    _ => None,
                },
            ),
        },
{
    match bundled_node(names, path) {
        None => None,
        Some(Some(BundledNode::Library(i))) => Some(Some(i)),
        Some(_) => Some(None),
    }
}

/// Whether a bundled path is a directory: only `libs` is; `None` outside
/// the bundled tree.
pub fn directory_exists(path: &[u8]) -> (r: Option<bool>)
    ensures
        r == match spec_bundled_rest(path@) {
            None => None,
            Some(rest) => Some(rest == libs_word()),
        },
{
    match bundled_rest(path) {
        None => None,
        Some(rest) => Some(is_libs(&rest)),
    }
}

/// The entries of a bundled directory: subdirectories and files, each list
/// absent where there is none to give.
#[derive(Debug)]
pub struct BundledEntries {
    pub directories: Option<Vec<Vec<u8>>>,
    pub files: Option<Vec<Vec<u8>>>,
}

pub open spec fn opt_names(o: Option<Vec<Vec<u8>>>) -> Option<Seq<Seq<u8>>> {
    match o {
        None => None,
        Some(v) => Some(names_view(v@)),
    }
}

/// The entries under `rest`: the root holds the directory `libs`, `libs`
/// holds every library of the table in its order, anything else nothing.
pub open spec fn spec_entries(names: Seq<Seq<u8>>, rest: Seq<u8>) -> (Option<Seq<Seq<u8>>>, Option<Seq<Seq<u8>>>) {
    if rest.len() == 0 {
        (Some(seq![libs_word()]), None)
    } else if rest == libs_word() {
        (None, Some(names))
    } else {
        (None, None)
    }
}

fn copy_names(names: &Vec<Vec<u8>>) -> (r: Vec<Vec<u8>>)
    ensures
        names_view(r@) == names_view(names@),
{
    let mut out: Vec<Vec<u8>> = Vec::new();
    let mut i: usize = 0;
    while i < names.len()
        invariant
            i <= names@.len(),
            names_view(out@) == names_view(names@).subrange(0, i as int),
        decreases names@.len() - i,
    {
        let ghost before = out@;
        out.push(copy_bytes(&names[i]));
        proof {
            assert(names_view(out@) =~= names_view(before).push(names@[i as int]@));
            assert(names_view(names@).subrange(0, i + 1) =~= names_view(names@).subrange(0, i as int).push(
                names@[i as int]@,
            ));
        }
        i = i + 1;
    }
    proof { assert(names_view(names@).subrange(0, i as int) =~= names_view(names@)); }
    out
}

/// The entries of a bundled path; `None` outside the bundled tree.
pub fn entries(names: &Vec<Vec<u8>>, path: &[u8]) -> (r: Option<BundledEntries>)
    ensures
        match spec_bundled_rest(path@) {
            None => r is None,
            Some(rest) => r matches Some(e) && (opt_names(e.directories), opt_names(e.files)) == spec_entries(
                names_view(names@),
                rest,
            ),
        },
{
    let rest = match bundled_rest(path) {
        None => return None,
        Some(rest) => rest,
    };
    if rest.len() == 0 {
        let mut directories: Vec<Vec<u8>> = Vec::new();
        let libs = vec![108u8, 105u8, 98u8, 115u8];
        proof { assert(libs@ =~= libs_word()); }
        directories.push(libs);
        proof { assert(names_view(directories@) =~= seq![libs_word()]); }
        return Some(BundledEntries { directories: Some(directories), files: None });
    }
    if is_libs(&rest) {
        return Some(BundledEntries { directories: None, files: Some(copy_names(names)) });
    }
    Some(BundledEntries { directories: None, files: None })
}

/// What a walk's callback answers after a visit.
#[derive(Clone, Copy, Debug, PartialEq, Eq, Structural)]
pub enum WalkControl {
    Continue,
    SkipDir,
    SkipAll,
}

/// One visit of a walk: the path handed to the callback, and the entry's
/// name, kind and size.
#[derive(Debug)]
pub struct BundledVisit {
    pub path: Vec<u8>,
    pub name: Vec<u8>,
    pub directory: bool,
    pub size: u64,
}

pub open spec fn visits_view(v: Seq<BundledVisit>) -> Seq<(Seq<u8>, Seq<u8>, bool, u64)> {
    Seq::new(v.len(), |i: int| (v[i].path@, v[i].name@, v[i].directory, v[i].size))
}

/// `bundled:///libs/`, the path of the library directory with its slash.
pub open spec fn libs_path_prefix() -> Seq<u8> {
    bundled_prefix() + libs_slash()
}

/// `bundled:////libs`: the path a walk from the root hands over for the
/// directory `libs` (the scheme, then `/libs`).
pub open spec fn root_walk_path() -> Seq<u8> {
    bundled_prefix() + seq![47u8] + libs_word()
}

/// A visit of each library in table order.
pub open spec fn spec_file_visits(names: Seq<Seq<u8>>, sizes: Seq<u64>) -> Seq<(Seq<u8>, Seq<u8>, bool, u64)> {
    Seq::new(names.len(), |i: int| (libs_path_prefix() + names[i], names[i], false, sizes[i]))
}

/// The visits of a walk from `rest` when the callback always continues:
/// from the root, the directory `libs` and then each library; from `libs`,
/// each library; from anywhere else, none.
pub open spec fn spec_walk_visits(names: Seq<Seq<u8>>, sizes: Seq<u64>, rest: Seq<u8>) -> Seq<
    (Seq<u8>, Seq<u8>, bool, u64),
> {
    if rest.len() == 0 {
        seq![(root_walk_path(), libs_word(), true, 0u64)] + spec_file_visits(names, sizes)
    } else if rest == libs_word() {
        spec_file_visits(names, sizes)
    } else {
        Seq::empty()
    }
}

fn file_visits(names: &Vec<Vec<u8>>, sizes: &Vec<u64>, out: &mut Vec<BundledVisit>)
    requires
        sizes@.len() == names@.len(),
    ensures
        visits_view(final(out)@) == visits_view(old(out)@) + spec_file_visits(names_view(names@), sizes@),
{
    let ghost start = visits_view(out@);
    let mut i: usize = 0;
    while i < names.len()
        invariant
            sizes@.len() == names@.len(),
            i <= names@.len(),
            visits_view(out@) == start + spec_file_visits(names_view(names@), sizes@).subrange(0, i as int),
        decreases names@.len() - i,
    {
        let mut path = vec![98u8, 117u8, 110u8, 100u8, 108u8, 101u8, 100u8, 58u8, 47u8, 47u8, 47u8, 108u8, 105u8, 98u8, 115u8, 47u8];
        proof { assert(path@ =~= libs_path_prefix()); }
        append_bytes(&mut path, &names[i]);
        let ghost before = out@;
        out.push(BundledVisit { path, name: copy_bytes(&names[i]), directory: false, size: sizes[i] });
        proof {
            let f = spec_file_visits(names_view(names@), sizes@);
            assert(f.subrange(0, i + 1) =~= f.subrange(0, i as int).push(f[i as int]));
            assert(visits_view(out@) =~= visits_view(before).push(f[i as int]));
        }
        i = i + 1;
    }
    proof {
        let f = spec_file_visits(names_view(names@), sizes@);
        assert(f.subrange(0, i as int) =~= f);
    }
}

/// The visits of a walk of the bundled tree from `root`, in order, when the
/// callback always continues; `None` outside the bundled tree.
pub fn walk_visits(names: &Vec<Vec<u8>>, sizes: &Vec<u64>, root: &[u8]) -> (r: Option<Vec<BundledVisit>>)
    requires
        sizes@.len() == names@.len(),
    ensures
        match spec_bundled_rest(root@) {
            None => r is None,
            Some(rest) => r matches Some(v) && visits_view(v@) == spec_walk_visits(names_view(names@), sizes@, rest),
        },
{
    let rest = match bundled_rest(root) {
        None => return None,
        Some(rest) => rest,
    };
    let mut out: Vec<BundledVisit> = Vec::new();
    proof { assert(visits_view(out@) =~= Seq::<(Seq<u8>, Seq<u8>, bool, u64)>::empty()); }
    if rest.len() == 0 {
        let path = vec![98u8, 117u8, 110u8, 100u8, 108u8, 101u8, 100u8, 58u8, 47u8, 47u8, 47u8, 47u8, 108u8, 105u8, 98u8, 115u8];
        let name = vec![108u8, 105u8, 98u8, 115u8];
        proof {
            assert(path@ =~= root_walk_path());
            assert(name@ =~= libs_word());
        }
        out.push(BundledVisit { path, name, directory: true, size: 0 });
        proof { assert(visits_view(out@) =~= seq![(root_walk_path(), libs_word(), true, 0u64)]); }
        file_visits(names, sizes, &mut out);
    } else if is_libs(&rest) {
        file_visits(names, sizes, &mut out);
        proof { assert(Seq::<(Seq<u8>, Seq<u8>, bool, u64)>::empty() + spec_file_visits(names_view(names@), sizes@) =~= spec_file_visits(names_view(names@), sizes@)); }
    }
    Some(out)
}

/// The visit after visit `at`, given the callback's answer to it: an answer
/// to skip everything ends the walk, as does skipping the directory `libs`
/// (whose files come next); a file's answer to skip its directory goes on.
pub fn walk_next(visits: &Vec<BundledVisit>, at: usize, control: WalkControl) -> (r: Option<usize>)
    requires
        at < visits@.len(),
    ensures
        r == if control == WalkControl::SkipAll || (control == WalkControl::SkipDir && visits@[at as int].directory) {
            None
        } else if at + 1 < visits@.len() {
            Some((at + 1) as usize)
        } else {
            None
        },
{
    if control == WalkControl::SkipAll || (control == WalkControl::SkipDir && visits[at].directory) {
        None
    } else if at < visits.len() - 1 {
        Some(at + 1)
    } else {
        None
    }
}

/// Every library that the listing of `libs` names, in a table of distinct
/// names, is found at the path a walk hands over for it: that path names
/// the library, and `stat` reports it as a file with its name and size.
pub proof fn lemma_listed_library_is_found(names: Seq<Seq<u8>>, sizes: Seq<u64>, i: int)
    requires
        0 <= i < names.len() <= usize::MAX,
        sizes.len() == names.len(),
        forall|a: int, b: int| 0 <= a < b < names.len() ==> names[a] != names[b],
    ensures
        spec_file_visits(names, sizes)[i].0 == libs_path_prefix() + names[i],
        spec_bundled_rest(libs_path_prefix() + names[i]) == Some(libs_slash() + names[i]),
        spec_bundled_node(names, libs_slash() + names[i]) == Some(BundledNode::Library(i as usize)),
        spec_stat(names, sizes, libs_slash() + names[i]) == Some((names[i], false, sizes[i])),
{
    let path = libs_path_prefix() + names[i];
    let rest = libs_slash() + names[i];
    assert(path.subrange(0, 11) =~= bundled_prefix());
    assert(path.subrange(11, path.len() as int) =~= rest);
    assert(rest.subrange(0, 5) =~= libs_slash());
    assert(rest.subrange(5, rest.len() as int) =~= names[i]);
    assert(rest != libs_word()) by {
        assert(rest.len() != libs_word().len());
    }
    crate::bundled::lemma_library_index_of_distinct(names, i);
}

} // verus!
