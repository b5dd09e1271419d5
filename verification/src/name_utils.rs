//! Small name and path helpers of the node builder: unquoting names,
//! late-bound names, relative paths and path components.
use vstd::prelude::*;

verus! {

/// The symbol meaning of values.
pub const VALUE: u32 = 111551;
/// The symbol meaning of namespaces.
pub const NAMESPACE: u32 = 1920;

/// The meaning the left side of a qualified name is looked up in: a value
/// for a value, else a namespace.
pub fn left_meaning(meaning: u32) -> (r: u32)
    ensures
        r == if meaning == VALUE { VALUE } else { NAMESPACE },
{
    if meaning == VALUE { VALUE } else { NAMESPACE }
}

pub open spec fn is_quote(b: u8) -> bool {
    b == 39u8 || b == 34u8 || b == 96u8
}

/// A name without its surrounding quotes, when it has a matching pair.
pub open spec fn spec_strip_quotes(name: Seq<u8>) -> Seq<u8> {
    if name.len() >= 2 && name[0] == name[name.len() - 1] && is_quote(name[0]) {
        name.subrange(1, name.len() - 1)
    } else {
        name
    }
}

/// `s` with each backslash that precedes a character other than a line feed dropped.
pub open spec fn spec_unescape(s: Seq<u8>) -> Seq<u8>
    decreases s.len(),
{
    if s.len() == 0 {
        s
    } else if s[0] == 92u8 && s.len() >= 2 && s[1] != 10u8 {
        seq![s[1]] + spec_unescape(s.subrange(2, s.len() as int))
    } else {
        seq![s[0]] + spec_unescape(s.subrange(1, s.len() as int))
    }
}

/// A quoted name as the text it stands for.
pub fn unquote_name(name: &[u8]) -> (r: Vec<u8>)
    ensures
        r@ == spec_unescape(spec_strip_quotes(name@)),
{
    let n = name.len();
    let (lo, hi) = if n >= 2 && name[0] == name[n - 1] && (name[0] == 39u8 || name[0] == 34u8 || name[0] == 96u8) {
        (1usize, n - 1)
    } else {
        (0usize, n)
    };
    let ghost s = name@.subrange(lo as int, hi as int);
    proof { assert(s == spec_strip_quotes(name@)); }
    let mut out: Vec<u8> = Vec::new();
    let mut i: usize = lo;
    proof { assert(name@.subrange(lo as int, hi as int) == s); }
    while i < hi
        invariant
            lo <= i <= hi,
            hi <= name@.len(),
            s == name@.subrange(lo as int, hi as int),
            out@ + spec_unescape(name@.subrange(i as int, hi as int)) == spec_unescape(s),
        decreases hi - i,
    {
        let ghost rest = name@.subrange(i as int, hi as int);
        if name[i] == 92u8 && i + 1 < hi && name[i + 1] != 10u8 {
            proof {
                assert(rest[0] == 92u8 && rest[1] == name@[i + 1]);
                assert(rest.subrange(2, rest.len() as int) == name@.subrange(i + 2, hi as int));
                assert(out@.push(name@[i + 1]) + spec_unescape(name@.subrange(i + 2, hi as int)) == out@ + (seq![
                    name@[i + 1],
                ] + spec_unescape(name@.subrange(i + 2, hi as int))));
            }
            out.push(name[i + 1]);
            i = i + 2;
        } else {
            proof {
                assert(rest[0] == name@[i as int]);
                assert(rest.subrange(1, rest.len() as int) == name@.subrange(i + 1, hi as int));
                assert(out@.push(name@[i as int]) + spec_unescape(name@.subrange(i + 1, hi as int)) == out@ + (seq![
                    name@[i as int],
                ] + spec_unescape(name@.subrange(i + 1, hi as int))));
            }
            out.push(name[i]);
            i = i + 1;
        }
    }
    proof {
        assert(name@.subrange(i as int, hi as int).len() == 0);
        assert(out@ + spec_unescape(name@.subrange(i as int, hi as int)) == out@);
    }
    out
}

/// A late-bound name: the marker byte 0xFE, then `@`.
pub fn is_late_bound_name(name: &[u8]) -> (r: bool)
    ensures
        r == (name@.len() >= 2 && name@[0] == 0xFEu8 && name@[1] == 64u8),
{
    name.len() >= 2 && name[0] == 0xFEu8 && name[1] == 64u8
}

pub open spec fn is_separator(b: u8) -> bool {
    b == 47u8 || b == 92u8
}

/// `.`, `..`, or a path starting with `./`, `.\`, `../` or `..\`.
pub open spec fn spec_path_is_relative(p: Seq<u8>) -> bool {
    p == seq![46u8] || p == seq![46u8, 46u8] || (p.len() >= 2 && p[0] == 46u8 && is_separator(p[1])) || (p.len()
        >= 3 && p[0] == 46u8 && p[1] == 46u8 && is_separator(p[2]))
}

pub fn path_is_relative(path: &[u8]) -> (r: bool)
    ensures
        r == spec_path_is_relative(path@),
{
    let n = path.len();
    let r = (n == 1 && path[0] == 46u8) || (n == 2 && path[0] == 46u8 && path[1] == 46u8) || (n >= 2 && path[0]
        == 46u8 && (path[1] == 47u8 || path[1] == 92u8)) || (n >= 3 && path[0] == 46u8 && path[1] == 46u8 && (path[2]
        == 47u8 || path[2] == 92u8));
    proof {
        if n == 1 && path@[0] == 46u8 {
            assert(path@ =~= seq![46u8]);
        }
        if n == 2 && path@[0] == 46u8 && path@[1] == 46u8 {
            assert(path@ =~= seq![46u8, 46u8]);
        }
        if path@ == seq![46u8] {
            assert(path@[0] == 46u8);
        }
        if path@ == seq![46u8, 46u8] {
            assert(path@[1] == 46u8);
        }
    }
    r
}

/// How many slashes `s` holds.
pub open spec fn spec_count_slashes(s: Seq<u8>) -> nat
    decreases s.len(),
{
    if s.len() == 0 {
        0
    } else {
        spec_count_slashes(s.drop_last()) + if s.last() == 47u8 { 1nat } else { 0nat }
    }
}

/// The components of a path: its slashes, after a leading `./`.
pub open spec fn spec_count_path_components(p: Seq<u8>) -> nat {
    if p.len() >= 2 && p[0] == 46u8 && p[1] == 47u8 {
        spec_count_slashes(p.subrange(2, p.len() as int))
    } else {
        spec_count_slashes(p)
    }
}

pub fn count_path_components(path: &[u8]) -> (r: usize)
    ensures
        r == spec_count_path_components(path@),
{
    let n = path.len();
    let start: usize = if n >= 2 && path[0] == 46u8 && path[1] == 47u8 { 2 } else { 0 };
    let mut count: usize = 0;
    let mut i: usize = start;
    proof { assert(path@.subrange(start as int, start as int).len() == 0); }
    while i < n
        invariant
            start <= i <= n,
            n == path@.len(),
            count == spec_count_slashes(path@.subrange(start as int, i as int)),
            count <= i - start,
        decreases n - i,
    {
        proof {
            assert(path@.subrange(start as int, i + 1).drop_last() == path@.subrange(start as int, i as int));
        }
        if path[i] == 47u8 {
            count = count + 1;
        }
        i = i + 1;
    }
    proof {
        assert(path@.subrange(start as int, n as int) == (if start == 2 {
            path@.subrange(2, path@.len() as int)
        } else {
            path@
        }));
    }
    count
}


/// Text without backslashes has nothing to unescape.
proof fn lemma_unescape_plain(s: Seq<u8>)
    requires
        !s.contains(92u8),
    ensures
        spec_unescape(s) == s,
    decreases s.len(),
{
    if s.len() > 0 {
        let t = s.subrange(1, s.len() as int);
        assert forall|k: int| 0 <= k < t.len() implies t[k] != 92u8 by {
            assert(t[k] == s[k + 1]);
        }
        assert(s[0] != 92u8);
        lemma_unescape_plain(t);
        assert(seq![s[0]] + t == s);
    }
}

/// A name that is not quoted and holds no backslash unquotes to itself.
pub proof fn lemma_unquote_plain_name(name: Seq<u8>)
    requires
        !name.contains(92u8),
        name.len() == 0 || !is_quote(name[0]),
    ensures
        spec_unescape(spec_strip_quotes(name)) == name,
{
    lemma_unescape_plain(name);
}

} // verus!
