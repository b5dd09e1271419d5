//! Forward source mapping for diagnostic display: a virtual span (in text a
//! content mapper produced) is mapped back to the original text through the
//! segments that relate the two.
//!
//! Positions are compared as integers.
use vstd::prelude::*;

verus! {

broadcast use vstd::seq_lib::to_multiset_insert;

/// A text range `pos..end`.
#[derive(Clone, Copy, Debug, PartialEq, Eq, Structural)]
pub struct TextRange {
    pub pos: i64,
    pub end: i64,
}

impl TextRange {
    pub fn new(pos: i64, end: i64) -> (r: TextRange)
        ensures
            r.pos == pos && r.end == end,
    {
        TextRange { pos, end }
    }

    pub fn pos(&self) -> (r: i64)
        ensures
            r == self.pos,
    {
        self.pos
    }

    pub fn end(&self) -> (r: i64)
        ensures
            r == self.end,
    {
        self.end
    }
}

/// One segment: the virtual span `virtual_start..virtual_end` stands for the
/// original span `original_start..original_end`. A segment whose `kind` is
/// zero is verbatim text (mapped position by position); any other is an atom
/// (mapped whole).
#[derive(Clone, Copy, Debug, PartialEq, Eq, Structural)]
pub struct SpanSegment {
    pub virtual_start: i32,
    pub virtual_end: i32,
    pub original_start: i32,
    pub original_end: i32,
    pub kind: i32,
    pub features: i32,
}

/// How faithfully a span was mapped. `Unmapped`: the span lies in text with
/// no original, and an empty span at the nearest insertion point stands for it.
#[derive(Clone, Copy, Debug, PartialEq, Eq, Structural)]
pub enum Fidelity {
    Exact,
    Atom,
    Approximate,
    Unmapped,
}

/// Sorted by virtual start.
pub open spec fn spec_sorted(s: Seq<SpanSegment>) -> bool {
    forall|i: int, j: int| 0 <= i < j < s.len() ==> s[i].virtual_start <= s[j].virtual_start
}

/// The segments, sorted by virtual start: a reordering of `segments`.
pub fn new(segments: &[SpanSegment]) -> (r: Vec<SpanSegment>)
    ensures
        spec_sorted(r@),
        r@.to_multiset() == segments@.to_multiset(),
{
    let mut out: Vec<SpanSegment> = Vec::new();
    let mut i: usize = 0;
    proof { assert(segments@.subrange(0, 0) =~= Seq::<SpanSegment>::empty()); }
    while i < segments.len()
        invariant
            i <= segments@.len(),
            spec_sorted(out@),
            out@.to_multiset() == segments@.subrange(0, i as int).to_multiset(),
        decreases segments@.len() - i,
    {
        let x = segments[i];
        let mut p: usize = out.len();
        while p > 0 && out[p - 1].virtual_start > x.virtual_start
            invariant
                p <= out@.len(),
                spec_sorted(out@),
                forall|t: int| p <= t < out@.len() ==> out@[t].virtual_start > x.virtual_start,
            decreases p,
        {
            p = p - 1;
        }
        let ghost before = out@;
        out.insert(p, x);
        proof {
            assert(out@ == before.insert(p as int, x));
            assert forall|a: int, b: int| 0 <= a < b < out@.len() implies out@[a].virtual_start
                <= out@[b].virtual_start by {
                if b < p {
                } else if b == p {
                    if p > 0 {
                        assert(before[p - 1].virtual_start <= x.virtual_start);
                        assert(before[a].virtual_start <= before[p - 1].virtual_start || a == p - 1);
                    }
                } else if a < p {
                    assert(out@[b] == before[b - 1]);
                    if p > 0 {
                        assert(before[a].virtual_start <= before[p - 1].virtual_start || a == p - 1);
                    }
                } else if a == p {
                    assert(out@[b] == before[b - 1]);
                } else {
                    assert(out@[a] == before[a - 1]);
                    assert(out@[b] == before[b - 1]);
                }
            }
            assert(segments@.subrange(0, i + 1) == segments@.subrange(0, i as int).push(x));
            vstd::seq_lib::to_multiset_build(segments@.subrange(0, i as int), x);
        }
        i = i + 1;
    }
    proof { assert(segments@.subrange(0, i as int) == segments@); }
    out
}

/// The number of leading segments that start before `pos`: where `pos`
/// would go among sorted starts.
pub open spec fn spec_partition_point(s: Seq<SpanSegment>, pos: i32) -> int
    decreases s.len(),
{
    if s.len() == 0 {
        0
    } else if s[0].virtual_start < pos {
        1 + spec_partition_point(s.drop_first(), pos)
    } else {
        0
    }
}

proof fn lemma_partition_point_bound(s: Seq<SpanSegment>, pos: i32)
    ensures
        0 <= spec_partition_point(s, pos) <= s.len(),
    decreases s.len(),
{
    if s.len() > 0 {
        lemma_partition_point_bound(s.drop_first(), pos);
    }
}

/// The segment containing `pos` and whether it does: a segment contains its
/// start (a zero-length one too); a segment's end belongs to what follows,
/// except the last segment's. When none contains `pos`, the segment before
/// it (if any) is reported, not containing.
pub open spec fn spec_segment_at(s: Seq<SpanSegment>, pos: i32) -> (Option<usize>, bool) {
    let idx = spec_partition_point(s, pos);
    if idx < s.len() && s[idx].virtual_start == pos {
        (Some(idx as usize), true)
    } else if idx == 0 {
        (None, false)
    } else {
        let i = idx - 1;
        (Some(i as usize), pos < s[i].virtual_end || (i == s.len() - 1 && pos == s[i].virtual_end))
    }
}

pub fn segment_at(segments: &[SpanSegment], pos: i32) -> (r: (Option<usize>, bool))
    ensures
        r == spec_segment_at(segments@, pos),
        r.0 matches Some(i) ==> i < segments@.len(),
        r.1 ==> r.0 is Some,
{
    let mut idx: usize = 0;
    proof {
        lemma_partition_point_bound(segments@, pos);
        assert(segments@.subrange(0, segments@.len() as int) == segments@);
    }
    while idx < segments.len() && segments[idx].virtual_start < pos
        invariant
            idx <= segments@.len(),
            spec_partition_point(segments@, pos) == idx + spec_partition_point(
                segments@.subrange(idx as int, segments@.len() as int),
                pos,
            ),
        decreases segments@.len() - idx,
    {
        proof {
            let rest = segments@.subrange(idx as int, segments@.len() as int);
            assert(rest.drop_first() == segments@.subrange(idx + 1, segments@.len() as int));
        }
        idx = idx + 1;
    }
    proof {
        let rest = segments@.subrange(idx as int, segments@.len() as int);
        if idx < segments@.len() {
            assert(rest[0] == segments@[idx as int]);
        }
        assert(spec_partition_point(segments@, pos) == idx);
    }
    if idx < segments.len() && segments[idx].virtual_start == pos {
        return (Some(idx), true);
    }
    if idx == 0 {
        return (None, false);
    }
    let i = idx - 1;
    let inside = pos < segments[i].virtual_end || (i == segments.len() - 1 && pos == segments[i].virtual_end);
    (Some(i), inside)
}

pub open spec fn spec_clamp(value: i32, low: i32, high: i32) -> i32 {
    let v = if value < high { value } else { high };
    if v > low { v } else { low }
}

fn clamp(value: i32, low: i32, high: i32) -> (r: i32)
    ensures
        r == spec_clamp(value, low, high),
{
    let v = if value < high { value } else { high };
    if v > low { v } else { low }
}

/// Where text with no original maps: the original end of the segment
/// before it, or the start of the text.
pub open spec fn spec_insertion_point(s: Seq<SpanSegment>, index: Option<usize>) -> i32 {
    match index {
        None => 0,
        Some(i) => s[i as int].original_end,
    }
}

/// An endpoint mapped through the segment containing it: by offset in a
/// verbatim segment (kept inside it), to an atom's start or end (`high`).
pub open spec fn spec_map_boundary(s: Seq<SpanSegment>, pos: i32, index: Option<usize>, inside: bool, high: bool) -> i32 {
    if !inside {
        spec_insertion_point(s, index)
    } else {
        let seg = s[index.unwrap() as int];
        if seg.kind == 0 {
            spec_clamp(
                seg.original_start.wrapping_add(pos.wrapping_sub(seg.virtual_start)),
                seg.original_start,
                seg.original_end,
            )
        } else if high {
            seg.original_end
        } else {
            seg.original_start
        }
    }
}

fn insertion_point(segments: &[SpanSegment], index: Option<usize>) -> (r: i32)
    requires
        index matches Some(i) ==> i < segments@.len(),
    ensures
        r == spec_insertion_point(segments@, index),
{
    match index {
        None => 0,
        Some(i) => segments[i].original_end,
    }
}

fn map_boundary(segments: &[SpanSegment], pos: i32, index: Option<usize>, inside: bool, high: bool) -> (r: i32)
    requires
        index matches Some(i) ==> i < segments@.len(),
        inside ==> index is Some,
    ensures
        r == spec_map_boundary(segments@, pos, index, inside, high),
{
    if !inside {
        return insertion_point(segments, index);
    }
    let seg = segments[index.unwrap()];
    if seg.kind == 0 {
        clamp(
            seg.original_start.wrapping_add(pos.wrapping_sub(seg.virtual_start)),
            seg.original_start,
            seg.original_end,
        )
    } else if high {
        seg.original_end
    } else {
        seg.original_start
    }
}

pub open spec fn max_i32(a: i32, b: i32) -> i32 {
    if a >= b { a } else { b }
}

pub open spec fn spec_range(a: i32, b: i32) -> TextRange {
    TextRange { pos: a as i64, end: b as i64 }
}

/// The original span of a virtual span, with its fidelity, through sorted
/// segments. No segments is the identity map; an empty list maps every
/// position to synthesized text.
pub open spec fn spec_virtual_to_original_span(segments: Option<Seq<SpanSegment>>, range: TextRange) -> (TextRange, Fidelity) {
    match segments {
        None => (range, Fidelity::Exact),
        Some(s) => {
            let start = range.pos as i32;
            let end = max_i32(range.end as i32, start);
            let (si, sin) = spec_segment_at(s, start);
            if start == end {
                let mapped = spec_map_boundary(s, start, si, sin, false);
                let fidelity = if !sin {
                    Fidelity::Unmapped
                } else if s[si.unwrap() as int].kind == 0 {
                    Fidelity::Exact
                } else {
                    Fidelity::Atom
                };
                (spec_range(mapped, mapped), fidelity)
            } else {
                let (ei, ein) = spec_segment_at(s, (end - 1) as i32);
                if si == ei && sin == ein {
                    if !sin {
                        let p = spec_insertion_point(s, si);
                        (spec_range(p, p), Fidelity::Unmapped)
                    } else {
                        let seg = s[si.unwrap() as int];
                        if seg.kind == 0 {
                            let low = spec_map_boundary(s, start, si, true, false);
                            let high = spec_clamp(
                                seg.original_start.wrapping_add(end.wrapping_sub(seg.virtual_start)),
                                low,
                                seg.original_end,
                            );
                            (spec_range(low, high), Fidelity::Exact)
                        } else {
                            (spec_range(seg.original_start, seg.original_end), Fidelity::Atom)
                        }
                    }
                } else {
                    let low = spec_map_boundary(s, start, si, sin, false);
                    let high = max_i32(spec_map_boundary(s, end, ei, ein, true), low);
                    (spec_range(low, high), Fidelity::Approximate)
                }
            }
        },
    }
}

pub fn virtual_to_original_span(segments: Option<&[SpanSegment]>, range: TextRange) -> (r: (TextRange, Fidelity))
    ensures
        r == spec_virtual_to_original_span(
            match segments {
                Some(s) => Some(s@),
                None => None,
            },
            range,
        ),
{
    let segments = match segments {
        None => return (range, Fidelity::Exact),
        Some(s) => s,
    };
    let start = range.pos as i32;
    let e0 = range.end as i32;
    let end = if e0 >= start { e0 } else { start };
    let (start_index, start_inside) = segment_at(segments, start);
    if start == end {
        let mapped = map_boundary(segments, start, start_index, start_inside, false);
        let fidelity = if !start_inside {
            Fidelity::Unmapped
        } else if segments[start_index.unwrap()].kind == 0 {
            Fidelity::Exact
        } else {
            Fidelity::Atom
        };
        return (TextRange::new(mapped as i64, mapped as i64), fidelity);
    }
    let (end_index, end_inside) = segment_at(segments, end - 1);
    if start_index == end_index && start_inside == end_inside {
        if !start_inside {
            let p = insertion_point(segments, start_index);
            return (TextRange::new(p as i64, p as i64), Fidelity::Unmapped);
        }
        let seg = segments[start_index.unwrap()];
        if seg.kind == 0 {
            let low = map_boundary(segments, start, start_index, true, false);
            let high = clamp(
                seg.original_start.wrapping_add(end.wrapping_sub(seg.virtual_start)),
                low,
                seg.original_end,
            );
            return (TextRange::new(low as i64, high as i64), Fidelity::Exact);
        }
        return (TextRange::new(seg.original_start as i64, seg.original_end as i64), Fidelity::Atom);
    }
    let low = map_boundary(segments, start, start_index, start_inside, false);
    let h = map_boundary(segments, end, end_index, end_inside, true);
    let high = if h >= low { h } else { low };
    (TextRange::new(low as i64, high as i64), Fidelity::Approximate)
}


/// Without a span map a span maps to itself, exactly.
pub proof fn lemma_absent_map_is_identity(range: TextRange)
    ensures
        spec_virtual_to_original_span(None, range) == (range, Fidelity::Exact),
{
}

/// An empty span map marks every position as synthesized: any span maps to
/// the empty span at the start of the original text.
pub proof fn lemma_empty_map_marks_every_position_synthesized(range: TextRange)
    ensures
        spec_virtual_to_original_span(Some(Seq::<SpanSegment>::empty()), range) == (
            spec_range(0, 0),
            Fidelity::Unmapped,
        ),
{
}

/// A mapped span never ends before it starts, when no segment's original
/// span does.
pub proof fn lemma_mapped_span_is_ordered(segments: Option<Seq<SpanSegment>>, range: TextRange)
    requires
        segments is None ==> range.pos <= range.end,
        segments matches Some(s) ==> forall|j: int| 0 <= j < s.len() ==> #[trigger] s[j].original_start <= s[j].original_end,
        segments matches Some(s) ==> s.len() <= usize::MAX,
    ensures
        spec_virtual_to_original_span(segments, range).0.pos <= spec_virtual_to_original_span(segments, range).0.end,
{
    if let Some(s) = segments {
        let start = range.pos as i32;
        let end = max_i32(range.end as i32, start);
        lemma_partition_point_bound(s, start);
        let (si, sin) = spec_segment_at(s, start);
        if start != end {
            lemma_partition_point_bound(s, (end - 1) as i32);
            let (ei, ein) = spec_segment_at(s, (end - 1) as i32);
            if si == ei && sin == ein && sin {
                let k = si.unwrap() as int;
                assert(0 <= k < s.len());
                assert(s[k].original_start <= s[k].original_end);
            }
        }
    }
}

/// Among sorted segments, every segment before the partition point starts
/// before `pos`, and the one at it (if any) does not.
proof fn lemma_partition_point_sorted(s: Seq<SpanSegment>, pos: i32)
    requires
        spec_sorted(s),
    ensures
        0 <= spec_partition_point(s, pos) <= s.len(),
        forall|j: int| 0 <= j < spec_partition_point(s, pos) ==> s[j].virtual_start < pos,
        spec_partition_point(s, pos) < s.len() ==> s[spec_partition_point(s, pos)].virtual_start >= pos,
    decreases s.len(),
{
    if s.len() > 0 && s[0].virtual_start < pos {
        let t = s.drop_first();
        assert forall|a: int, b: int| 0 <= a < b < t.len() implies t[a].virtual_start <= t[b].virtual_start by {
            assert(t[a] == s[a + 1] && t[b] == s[b + 1]);
        }
        lemma_partition_point_sorted(t, pos);
        assert forall|j: int| 0 <= j < spec_partition_point(s, pos) implies s[j].virtual_start < pos by {
            if j > 0 {
                assert(s[j] == t[j - 1]);
            }
        }
    }
}

/// In sorted segments, a segment's start is contained: the position of any
/// segment start lies inside a segment (the first that starts there).
pub proof fn lemma_segment_start_is_contained(s: Seq<SpanSegment>, i: int)
    requires
        spec_sorted(s),
        0 <= i < s.len(),
        s.len() <= usize::MAX,
    ensures
        spec_segment_at(s, s[i].virtual_start).1,
        (spec_segment_at(s, s[i].virtual_start).0 matches Some(k) && s[k as int].virtual_start == s[i].virtual_start),
{
    let pos = s[i].virtual_start;
    lemma_partition_point_sorted(s, pos);
    let k = spec_partition_point(s, pos);
    if k > i {
        assert(s[i].virtual_start < pos);
    }
    assert(k <= i);
    assert(s[k].virtual_start <= s[i].virtual_start);
}

/// In sorted segments whose last segment ends no earlier than it starts, the
/// final end point is contained.
pub proof fn lemma_final_end_is_contained(s: Seq<SpanSegment>)
    requires
        spec_sorted(s),
        s.len() > 0,
        s.last().virtual_start <= s.last().virtual_end,
    ensures
        spec_segment_at(s, s.last().virtual_end).1,
{
    let pos = s.last().virtual_end;
    lemma_partition_point_sorted(s, pos);
    let k = spec_partition_point(s, pos);
    if k < s.len() {
        assert(s[k].virtual_start >= pos);
        assert(s[k].virtual_start <= s[s.len() - 1].virtual_start);
        assert(s[k].virtual_start == pos);
    } else {
        assert(k == s.len());
    }
}


/// Segments laid out one after another: each is non-empty and ends no later
/// than the next starts.
pub open spec fn spec_separated(s: Seq<SpanSegment>) -> bool {
    &&& forall|i: int| 0 <= i < s.len() ==> #[trigger] s[i].virtual_start < s[i].virtual_end
    &&& forall|i: int, j: int| 0 <= i < j < s.len() ==> s[i].virtual_end <= s[j].virtual_start
}

/// Among separated segments, a position inside segment `b` is found in `b`.
pub proof fn lemma_position_in_segment_is_found(s: Seq<SpanSegment>, b: int, pos: i32)
    requires
        spec_separated(s),
        0 <= b < s.len(),
        s.len() <= usize::MAX,
        s[b].virtual_start <= pos < s[b].virtual_end,
    ensures
        spec_segment_at(s, pos) == (Some(b as usize), true),
{
    assert forall|i: int, j: int| 0 <= i < j < s.len() implies s[i].virtual_start <= s[j].virtual_start by {
        assert(s[i].virtual_start < s[i].virtual_end);
    }
    lemma_partition_point_sorted(s, pos);
    let k = spec_partition_point(s, pos);
    if k < b {
        assert(s[k].virtual_start < s[k].virtual_end);
        assert(s[k].virtual_end <= s[b].virtual_start);
    }
    assert(k >= b);
    if k > b + 1 {
        assert(s[b + 1].virtual_start < pos);
        assert(s[b].virtual_end <= s[b + 1].virtual_start);
    }
    assert(k <= b + 1);
    if pos == s[b].virtual_start {
        assert(k == b);
    } else {
        assert(s[b].virtual_start < pos);
        assert(k == b + 1);
        if k < s.len() {
            assert(s[b].virtual_end <= s[k].virtual_start);
        }
    }
}

/// A span that starts in one segment and ends in a later atom maps, at
/// approximate fidelity, to a span that covers that atom's whole original
/// text: it ends at the atom's original end (when original spans run in
/// order), and it starts at the first segment's original start when that
/// segment is an atom too.
pub proof fn lemma_crossing_span_covers_the_last_atom(s: Seq<SpanSegment>, range: TextRange, a: int, b: int)
    requires
        spec_separated(s),
        s.len() <= usize::MAX,
        0 <= a < b < s.len(),
        i32::MIN <= range.pos < range.end <= i32::MAX,
        s[a].virtual_start <= range.pos < s[a].virtual_end,
        s[b].virtual_start <= range.end - 1 < s[b].virtual_end,
        s[b].kind != 0,
        s[a].original_start <= s[a].original_end <= s[b].original_end,
    ensures
        spec_virtual_to_original_span(Some(s), range).1 == Fidelity::Approximate,
        spec_virtual_to_original_span(Some(s), range).0.end == s[b].original_end as i64,
        s[a].kind != 0 ==> spec_virtual_to_original_span(Some(s), range).0.pos == s[a].original_start as i64,
        spec_virtual_to_original_span(Some(s), range).0.pos <= spec_virtual_to_original_span(Some(s), range).0.end,
{
    let start = range.pos as i32;
    let end = range.end as i32;
    assert(max_i32(end, start) == end);
    lemma_position_in_segment_is_found(s, a, start);
    lemma_position_in_segment_is_found(s, b, (end - 1) as i32);
}

} // verus!
