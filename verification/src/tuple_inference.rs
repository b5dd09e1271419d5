//! The shape decisions of inference between tuple types: which source
//! elements infer to which target elements, decided from element flags and
//! arities alone. The checker performs the inferences the plan names.
use vstd::prelude::*;

verus! {

pub const REQUIRED: u32 = 1;
pub const OPTIONAL: u32 = 2;
pub const REST: u32 = 4;
pub const VARIADIC: u32 = 8;
/// `REQUIRED | OPTIONAL`.
pub const FIXED: u32 = 3;
/// `REST | VARIADIC`.
pub const VARIABLE: u32 = 12;

/// The element flags of a tuple target, its fixed length and the union of
/// its element flags.
#[derive(Debug)]
pub struct TupleShape {
    pub element_flags: Vec<u32>,
    pub fixed_length: u32,
    pub combined_flags: u32,
}

/// How the middle of a split inference goes.
#[derive(Clone, Copy, Debug, PartialEq, Eq, Structural)]
pub enum MiddlePlan {
    /// From the source's rest type: target element `start + k` infers from
    /// it, wrapped in an array when `rest_as_array[k]` says so (the target
    /// element is variadic).
    FromRest,
    /// Two variadic target elements: split the source by the implied arity.
    TwoVariadic,
    /// A variadic then a rest target element.
    VariadicThenRest,
    /// A rest then a variadic target element.
    RestThenVariadic,
    /// One variadic target element takes the source's middle slice; with
    /// `speculative` (the target ends optional) at speculative priority.
    SingleVariadic { speculative: bool },
    /// One rest target element takes the element type of the source's middle.
    SingleRest,
    /// Nothing to infer in the middle.
    Nothing,
}

/// The plan of a tuple inference. With `matching`, element `i` infers to
/// element `i` for each `i` and the other fields are unused. Otherwise
/// elements `0..start` pair up from the front, the last `end` from the back,
/// and the middle goes as `middle` says.
#[derive(Debug)]
pub struct TupleInferencePlan {
    pub matching: bool,
    pub start: usize,
    pub end: usize,
    pub middle: MiddlePlan,
    pub rest_as_array: Vec<bool>,
}

/// How many elements at the end of `flags` are fixed.
pub open spec fn spec_trailing_fixed(flags: Seq<u32>) -> nat
    decreases flags.len(),
{
    if flags.len() == 0 {
        0
    } else if flags.last() & FIXED != 0 {
        1 + spec_trailing_fixed(flags.drop_last())
    } else {
        0
    }
}

proof fn lemma_trailing_fixed_bound(flags: Seq<u32>)
    ensures
        spec_trailing_fixed(flags) <= flags.len(),
    decreases flags.len(),
{
    if flags.len() > 0 {
        lemma_trailing_fixed_bound(flags.drop_last());
    }
}

pub fn trailing_fixed(flags: &Vec<u32>) -> (r: usize)
    ensures
        r == spec_trailing_fixed(flags@),
{
    let mut n: usize = flags.len();
    let mut count: usize = 0;
    proof {
        assert(flags@.subrange(0, n as int) == flags@);
    }
    while n > 0 && flags[n - 1] & FIXED != 0
        invariant
            n <= flags@.len(),
            count + n == flags@.len(),
            flags@.len() <= usize::MAX,
            spec_trailing_fixed(flags@) == count + spec_trailing_fixed(flags@.subrange(0, n as int)),
        decreases n,
    {
        proof {
            let s = flags@.subrange(0, n as int);
            assert(s.drop_last() == flags@.subrange(0, n - 1));
            assert(s.last() == flags@[n - 1]);
        }
        n = n - 1;
        count = count + 1;
    }
    proof {
        let s = flags@.subrange(0, n as int);
        if n > 0 {
            assert(s.last() == flags@[n - 1]);
        }
    }
    count
}

/// Source and target have the same arity and the same variable elements.
pub open spec fn spec_structure_matching(source: Seq<u32>, source_arity: int, target: Seq<u32>, target_arity: int) -> bool {
    source_arity == target_arity && forall|i: int| 0 <= i < source.len() && i < target.len() ==> #[trigger] (source[i]
        & VARIABLE) == target[i] & VARIABLE
}

pub open spec fn min_int(a: int, b: int) -> int {
    if a <= b { a } else { b }
}

/// The number of leading elements that pair up: the shorter fixed part.
pub open spec fn spec_start(source: Option<(Seq<u32>, u32)>, target: TupleShape) -> int {
    match source {
        Some((_, fixed)) => min_int(fixed as int, target.fixed_length as int),
        None => 0,
    }
}

/// The number of trailing elements that pair up: the shorter fixed tail,
/// when the target has a variable element.
pub open spec fn spec_end(source: Option<(Seq<u32>, u32)>, target: TupleShape) -> int {
    match source {
        Some((flags, _)) => if target.combined_flags & VARIABLE != 0 {
            min_int(spec_trailing_fixed(flags) as int, spec_trailing_fixed(target.element_flags@) as int)
        } else {
            0
        },
        None => 0,
    }
}

/// Whether the plan pairs the elements up one to one.
pub open spec fn spec_matching(source: Option<(Seq<u32>, u32)>, source_arity: int, target: TupleShape, target_arity: int) -> bool {
    source matches Some((flags, _)) && spec_structure_matching(flags, source_arity, target.element_flags@, target_arity)
}

/// Whether the middle infers from the source's rest type: the source is an
/// array, or its middle is a single rest element.
pub open spec fn spec_from_rest(source: Option<(Seq<u32>, u32)>, source_arity: int, target: TupleShape) -> bool {
    let start = spec_start(source, target);
    let end = spec_end(source, target);
    source is None || (source_arity - start - end == 1 && source.unwrap().0[start] & REST != 0)
}

/// The middle of a split plan.
pub open spec fn spec_middle(source: Option<(Seq<u32>, u32)>, source_arity: int, target: TupleShape, target_arity: int) -> MiddlePlan {
    let infos = target.element_flags@;
    let start = spec_start(source, target);
    let end = spec_end(source, target);
    let target_middle = target_arity - start - end;
    if spec_from_rest(source, source_arity, target) {
        MiddlePlan::FromRest
    } else if target_middle == 2 {
        let a = infos[start];
        let b = infos[start + 1];
        if a & b & VARIADIC != 0 {
            MiddlePlan::TwoVariadic
        } else if a & VARIADIC != 0 && b & REST != 0 {
            MiddlePlan::VariadicThenRest
        } else if a & REST != 0 && b & VARIADIC != 0 {
            MiddlePlan::RestThenVariadic
        } else {
            MiddlePlan::Nothing
        }
    } else if target_middle == 1 && infos[start] & VARIADIC != 0 {
        MiddlePlan::SingleVariadic { speculative: infos[target_arity - 1] & OPTIONAL != 0 }
    } else if target_middle == 1 && infos[start] & REST != 0 {
        MiddlePlan::SingleRest
    } else {
        MiddlePlan::Nothing
    }
}

/// For a middle from the rest type: whether each target element of the
/// middle (`start` up to `target_arity - end`) is variadic.
pub open spec fn spec_rest_as_array(source: Option<(Seq<u32>, u32)>, target: TupleShape, target_arity: int) -> Seq<bool> {
    let start = spec_start(source, target);
    let end = spec_end(source, target);
    let last = if target_arity >= end { target_arity - end } else { 0 };
    let count = if last >= start { last - start } else { 0 };
    Seq::new(count as nat, |k: int| target.element_flags@[start + k] & VARIADIC != 0)
}

fn structure_matching(source: &Vec<u32>, source_arity: usize, target: &Vec<u32>, target_arity: usize) -> (r: bool)
    ensures
        r == spec_structure_matching(source@, source_arity as int, target@, target_arity as int),
{
    if source_arity != target_arity {
        return false;
    }
    let mut i: usize = 0;
    while i < source.len() && i < target.len()
        invariant
            i <= source@.len(),
            forall|j: int| 0 <= j < i && j < target@.len() ==> #[trigger] (source@[j] & VARIABLE) == target@[j]
                & VARIABLE,
        decreases source@.len() - i,
    {
        if source[i] & VARIABLE != target[i] & VARIABLE {
            return false;
        }
        i = i + 1;
    }
    true
}

/// The plan of inferring from `source` (a tuple's element flags and fixed
/// length, or `None` for an array) of `source_arity` elements to a tuple
/// `target` of `target_arity` elements.
pub fn infer_tuple_types(
    source: Option<(&Vec<u32>, u32)>,
    source_arity: usize,
    target: &TupleShape,
    target_arity: usize,
) -> (r: TupleInferencePlan)
    requires
        target.element_flags@.len() == target_arity,
        source matches Some((flags, _)) ==> flags@.len() == source_arity,
    ensures
        ({
            let src = match source {
                Some((flags, fixed)) => Some((flags@, fixed)),
                None => None,
            };
            &&& r.matching == spec_matching(src, source_arity as int, *target, target_arity as int)
            &&& !r.matching ==> {
                &&& r.start == spec_start(src, *target)
                &&& r.end == spec_end(src, *target)
                &&& r.middle == spec_middle(src, source_arity as int, *target, target_arity as int)
                &&& r.middle == MiddlePlan::FromRest ==> r.rest_as_array@ == spec_rest_as_array(
                    src,
                    *target,
                    target_arity as int,
                )
            }
        }),
{
    let ghost src = match source {
        Some((flags, fixed)) => Some((flags@, fixed)),
        None => None,
    };
    let infos = &target.element_flags;
    if let Some((flags, _)) = source {
        if structure_matching(flags, source_arity, infos, target_arity) {
            return TupleInferencePlan {
                matching: true,
                start: 0,
                end: 0,
                middle: MiddlePlan::Nothing,
                rest_as_array: Vec::new(),
            };
        }
    }
    proof {
        lemma_trailing_fixed_bound(infos@);
        if let Some((flags, _)) = source {
            lemma_trailing_fixed_bound(flags@);
        }
    }
    let start: usize = match source {
        Some((_, fixed)) => if fixed <= target.fixed_length { fixed as usize } else { target.fixed_length as usize },
        None => 0,
    };
    let end: usize = match source {
        Some((flags, _)) => if target.combined_flags & VARIABLE != 0 {
            let a = trailing_fixed(flags);
            let b = trailing_fixed(infos);
            if a <= b { a } else { b }
        } else {
            0
        },
        None => 0,
    };
    assert(start as int == spec_start(src, *target));
    assert(end as int == spec_end(src, *target));
    let source_middle_one = source_arity >= end && source_arity - end >= start && source_arity - end - start == 1;
    let target_middle_two = target_arity >= end && target_arity - end >= start && target_arity - end - start == 2;
    let target_middle_one = target_arity >= end && target_arity - end >= start && target_arity - end - start == 1;
    let from_rest = match source {
        None => true,
        Some((flags, _)) => source_middle_one && flags[start] & REST != 0,
    };
    let mut rest_as_array: Vec<bool> = Vec::new();
    let middle = if from_rest {
        let last: usize = if target_arity >= end { target_arity - end } else { 0 };
        let mut i: usize = start;
        while i < last
            invariant
                i >= start,
                last <= target_arity,
                infos@.len() == target_arity,
                i <= last || i == start,
                rest_as_array@.len() == i - start,
                forall|k: int| 0 <= k < rest_as_array@.len() ==> #[trigger] rest_as_array@[k] == (infos@[start + k] & VARIADIC
                    != 0),
            decreases last - i,
        {
            rest_as_array.push(infos[i] & VARIADIC != 0);
            i = i + 1;
        }
        proof {
            assert(rest_as_array@ =~= spec_rest_as_array(src, *target, target_arity as int));
        }
        MiddlePlan::FromRest
    } else if target_middle_two {
        let a = infos[start];
        let b = infos[start + 1];
        if a & b & VARIADIC != 0 {
            MiddlePlan::TwoVariadic
        } else if a & VARIADIC != 0 && b & REST != 0 {
            MiddlePlan::VariadicThenRest
        } else if a & REST != 0 && b & VARIADIC != 0 {
            MiddlePlan::RestThenVariadic
        } else {
            MiddlePlan::Nothing
        }
    } else if target_middle_one && infos[start] & VARIADIC != 0 {
        MiddlePlan::SingleVariadic { speculative: infos[target_arity - 1] & OPTIONAL != 0 }
    } else if target_middle_one && infos[start] & REST != 0 {
        MiddlePlan::SingleRest
    } else {
        MiddlePlan::Nothing
    };
    TupleInferencePlan { matching: false, start, end, middle, rest_as_array }
}

/// How a slice of a tuple is formed.
#[derive(Debug, PartialEq, Eq, Structural)]
pub enum SlicePlan {
    /// The start lies past the fixed part: the array of the tuple's rest
    /// element type, or the empty tuple when there is none.
    RestArray,
    /// The empty tuple.
    Empty,
    /// The tuple of elements `start..end`, with their flags.
    Range { start: usize, end: usize },
}

/// The slice of a tuple of `arity` elements and fixed length `fixed` from
/// `start`, leaving out the last `end_skip` (none when negative).
pub open spec fn spec_slice_tuple(fixed: u32, arity: usize, start: usize, end_skip: isize) -> SlicePlan {
    if start > fixed {
        SlicePlan::RestArray
    } else {
        let skip = if end_skip > 0 { end_skip as int } else { 0 };
        let end = if arity >= skip { arity - skip } else { 0 };
        if start >= end {
            SlicePlan::Empty
        } else {
            SlicePlan::Range { start, end: end as usize }
        }
    }
}

pub fn slice_tuple(fixed: u32, arity: usize, start: usize, end_skip: isize) -> (r: SlicePlan)
    ensures
        r == spec_slice_tuple(fixed, arity, start, end_skip),
{
    if start > fixed as usize {
        return SlicePlan::RestArray;
    }
    let skip: usize = if end_skip > 0 { end_skip as usize } else { 0 };
    let end = if arity >= skip { arity - skip } else { 0 };
    if start >= end {
        SlicePlan::Empty
    } else {
        SlicePlan::Range { start, end }
    }
}

/// The fixed arity a tuple constraint implies: its fixed length when it has
/// no variable element.
pub fn inferred_fixed_tuple_arity(constraint: &TupleShape) -> (r: Option<usize>)
    ensures
        r == if constraint.combined_flags & VARIABLE == 0 {
            Some(constraint.fixed_length as usize)
        } else {
            None::<usize>
        },
{
    if constraint.combined_flags & VARIABLE == 0 {
        Some(constraint.fixed_length as usize)
    } else {
        None
    }
}

/// Where the trailing source slice of a rest-then-variadic inference lies:
/// the last `arity` elements before the target's fixed tail, when they start
/// at or after `start`.
pub open spec fn spec_rest_then_variadic_bounds(source_arity: int, target: Seq<u32>, arity: int, start: int) -> Option<(usize, usize)> {
    let end_index = source_arity - spec_trailing_fixed(target);
    if end_index >= arity && end_index - arity >= start {
        Some(((end_index - arity) as usize, end_index as usize))
    } else {
        None
    }
}

pub fn rest_then_variadic_bounds(source_arity: usize, target: &Vec<u32>, arity: usize, start: usize) -> (r: Option<(usize, usize)>)
    requires
        spec_trailing_fixed(target@) <= source_arity,
    ensures
        r == spec_rest_then_variadic_bounds(source_arity as int, target@, arity as int, start as int),
{
    let end_index = source_arity - trailing_fixed(target);
    if end_index >= arity && end_index - arity >= start {
        Some((end_index - arity, end_index))
    } else {
        None
    }
}


/// The elements a split plan pairs from the front and from the back exist
/// on both sides: `start` is within both fixed parts, `end` within both
/// fixed tails, when each fixed length is at most its arity.
pub proof fn lemma_split_bounds(source: Option<(Seq<u32>, u32)>, source_arity: int, target: TupleShape, target_arity: int)
    requires
        target.element_flags@.len() == target_arity,
        target.fixed_length <= target_arity,
        source matches Some((flags, fixed)) ==> flags.len() == source_arity && fixed <= source_arity,
    ensures
        0 <= spec_start(source, target) <= target_arity,
        source is Some ==> spec_start(source, target) <= source_arity,
        0 <= spec_end(source, target) <= target_arity,
        source is Some ==> spec_end(source, target) <= source_arity,
{
    lemma_trailing_fixed_bound(target.element_flags@);
    if let Some((flags, _)) = source {
        lemma_trailing_fixed_bound(flags);
    }
}


/// The last `spec_trailing_fixed(flags)` elements are fixed, and the one
/// before them (if any) is not.
proof fn lemma_trailing_fixed_is_the_fixed_tail(flags: Seq<u32>)
    ensures
        spec_trailing_fixed(flags) <= flags.len(),
        forall|j: int| 0 <= j < spec_trailing_fixed(flags) ==> #[trigger] flags[flags.len() - 1 - j] & FIXED != 0,
        spec_trailing_fixed(flags) < flags.len() ==> flags[flags.len() - 1 - spec_trailing_fixed(flags)] & FIXED
            == 0,
    decreases flags.len(),
{
    if flags.len() > 0 {
        let p = flags.drop_last();
        lemma_trailing_fixed_is_the_fixed_tail(p);
        if flags.last() & FIXED != 0 {
            assert forall|j: int| 0 <= j < spec_trailing_fixed(flags) implies #[trigger] flags[flags.len() - 1 - j]
                & FIXED != 0 by {
                if j > 0 {
                    assert(flags[flags.len() - 1 - j] == p[p.len() - 1 - (j - 1)]);
                }
            }
            if spec_trailing_fixed(flags) < flags.len() {
                let t = spec_trailing_fixed(p);
                assert(flags[flags.len() - 1 - spec_trailing_fixed(flags)] == p[p.len() - 1 - t]);
            }
        }
    }
}

/// When the target has a rest or variadic element, the elements paired from
/// the back are as many as possible: the last `end` elements of source and
/// target are all fixed, and one more would reach past an end or take a
/// rest or variadic element of one side.
pub proof fn lemma_end_pairs_the_longest_fixed_tails(flags: Seq<u32>, fixed: u32, target: TupleShape)
    requires
        target.combined_flags & REST != 0 || target.combined_flags & VARIADIC != 0,
    ensures
        ({
            let end = spec_end(Some((flags, fixed)), target);
            let t = target.element_flags@;
            &&& 0 <= end <= flags.len() && end <= t.len()
            &&& forall|j: int| 0 <= j < end ==> #[trigger] flags[flags.len() - 1 - j] & FIXED != 0 && t[t.len() - 1
                - j] & FIXED != 0
            &&& end == flags.len() || end == t.len() || flags[flags.len() - 1 - end] & FIXED == 0 || t[t.len() - 1
                - end] & FIXED == 0
        }),
{
    let c = target.combined_flags;
    assert(c & REST != 0 || c & VARIADIC != 0 ==> c & VARIABLE != 0) by (bit_vector);
    lemma_trailing_fixed_is_the_fixed_tail(flags);
    lemma_trailing_fixed_is_the_fixed_tail(target.element_flags@);
    let end = spec_end(Some((flags, fixed)), target);
    let t = target.element_flags@;
    assert forall|j: int| 0 <= j < end implies #[trigger] flags[flags.len() - 1 - j] & FIXED != 0 && t[t.len() - 1
        - j] & FIXED != 0 by {
        assert(j < spec_trailing_fixed(flags) && j < spec_trailing_fixed(t));
    }
}

} // verus!
