//! The bundled standard library files: which paths are bundled, and which
//! entry of the library table a name picks.
use vstd::prelude::*;

verus! {

/// `bundled:///`, the scheme of every bundled path.
pub open spec fn bundled_prefix() -> Seq<u8> {
    seq![98u8, 117u8, 110u8, 100u8, 108u8, 101u8, 100u8, 58u8, 47u8, 47u8, 47u8]
}

/// Whether a path is a bundled one: it starts with `bundled:///`.
pub fn is_bundled(path: &[u8]) -> (r: bool)
    ensures
        r == (path@.len() >= 11 && path@.subrange(0, 11) == bundled_prefix()),
{
    let prefix: [u8; 11] = [98u8, 117u8, 110u8, 100u8, 108u8, 101u8, 100u8, 58u8, 47u8, 47u8, 47u8];
    if path.len() < 11 {
        return false;
    }
    let mut i: usize = 0;
    while i < 11
        invariant
            i <= 11,
            path@.len() >= 11,
            prefix@ == bundled_prefix(),
            forall|j: int| 0 <= j < i ==> path@[j] == bundled_prefix()[j],
        decreases 11 - i,
    {
        if path[i] != prefix[i] {
            proof {
                assert(path@.subrange(0, 11)[i as int] != bundled_prefix()[i as int]);
            }
            return false;
        }
        i = i + 1;
    }
    proof { assert(path@.subrange(0, 11) =~= bundled_prefix()); }
    true
}

pub open spec fn names_view(names: Seq<Vec<u8>>) -> Seq<Seq<u8>> {
    Seq::new(names.len(), |i: int| names[i]@)
}

/// The entry of the library table named `name`: the first one, and with
/// names kept unique (as the table is) the only one.
pub open spec fn spec_library_index(names: Seq<Seq<u8>>, name: Seq<u8>) -> Option<usize>
    decreases names.len(),
{
    if names.len() == 0 {
        None
    } else if names.last() == name && spec_library_index(names.drop_last(), name) is None {
        Some((names.len() - 1) as usize)
    } else {
        spec_library_index(names.drop_last(), name)
    }
}

/// The index in the library table of the library named `name`.
pub fn library(names: &Vec<Vec<u8>>, name: &[u8]) -> (r: Option<usize>)
    ensures
        r == spec_library_index(names_view(names@), name@),
        r matches Some(i) ==> i < names@.len() && names@[i as int]@ == name@,
{
    let mut i: usize = 0;
    proof { assert(names_view(names@).subrange(0, 0) =~= Seq::<Seq<u8>>::empty()); }
    while i < names.len()
        invariant
            i <= names@.len(),
            spec_library_index(names_view(names@).subrange(0, i as int), name@) is None,
            forall|j: int| 0 <= j < i ==> names@[j]@ != name@,
        decreases names@.len() - i,
    {
        let ghost pre = names_view(names@).subrange(0, i + 1);
        proof {
            assert(pre.drop_last() == names_view(names@).subrange(0, i as int));
            assert(pre.last() == names@[i as int]@);
        }
        if crate::node_utils::bytes_equal(names[i].as_slice(), name) {
            proof { lemma_index_extends(names_view(names@), name@, i + 1); }
            return Some(i);
        }
        i = i + 1;
    }
    proof { assert(names_view(names@).subrange(0, i as int) == names_view(names@)); }
    None
}

/// A name found among the first `n` names is found at the same place in all of them.
proof fn lemma_index_extends(names: Seq<Seq<u8>>, name: Seq<u8>, n: int)
    requires
        0 < n <= names.len(),
        spec_library_index(names.subrange(0, n), name) is Some,
    ensures
        spec_library_index(names, name) == spec_library_index(names.subrange(0, n), name),
    decreases names.len() - n,
{
    if n < names.len() {
        let s = names.subrange(0, n + 1);
        assert(s.drop_last() == names.subrange(0, n));
        assert(spec_library_index(s, name) == spec_library_index(names.subrange(0, n), name));
        lemma_index_extends(names, name, n + 1);
    } else {
        assert(names.subrange(0, n) == names);
    }
}

/// The entry that the search names holds the name searched for.
pub proof fn lemma_library_index_in(names: Seq<Seq<u8>>, name: Seq<u8>)
    requires
        names.len() <= usize::MAX,
    ensures
        spec_library_index(names, name) matches Some(i) ==> i < names.len() && names[i as int] == name,
    decreases names.len(),
{
    if names.len() > 0 {
        lemma_library_index_in(names.drop_last(), name);
        if let Some(i) = spec_library_index(names.drop_last(), name) {
            assert(names.drop_last()[i as int] == names[i as int]);
        }
    }
}

/// A name absent from the table has no entry.
proof fn lemma_library_index_absent(names: Seq<Seq<u8>>, name: Seq<u8>)
    requires
        forall|j: int| 0 <= j < names.len() ==> names[j] != name,
    ensures
        spec_library_index(names, name) is None,
    decreases names.len(),
{
    if names.len() > 0 {
        lemma_library_index_absent(names.drop_last(), name);
    }
}

/// In a table of distinct names, the entry of the `i`-th name is `i`.
pub proof fn lemma_library_index_of_distinct(names: Seq<Seq<u8>>, i: int)
    requires
        0 <= i < names.len() <= usize::MAX,
        forall|a: int, b: int| 0 <= a < b < names.len() ==> names[a] != names[b],
    ensures
        spec_library_index(names, names[i]) == Some(i as usize),
    decreases names.len(),
{
    let n = names.len() as int;
    if i == n - 1 {
        assert forall|j: int| 0 <= j < names.drop_last().len() implies names.drop_last()[j] != names[i] by {
            assert(names.drop_last()[j] == names[j]);
        }
        lemma_library_index_absent(names.drop_last(), names[i]);
    } else {
        let d = names.drop_last();
        assert forall|a: int, b: int| 0 <= a < b < d.len() implies d[a] != d[b] by {
            assert(d[a] == names[a] && d[b] == names[b]);
        }
        assert(d[i] == names[i]);
        lemma_library_index_of_distinct(d, i);
        assert(names.last() != names[i]);
    }
}

} // verus!
