use tsr_ast::tuple_inference::{
    infer_tuple_types, inferred_fixed_tuple_arity, rest_then_variadic_bounds, slice_tuple, trailing_fixed, MiddlePlan,
    SlicePlan, TupleShape, OPTIONAL, REQUIRED, REST, VARIADIC,
};

fn shape(flags: &[u32], fixed: u32) -> TupleShape {
    TupleShape {
        element_flags: flags.to_vec(),
        fixed_length: fixed,
        combined_flags: flags.iter().fold(0, |a, f| a | f),
    }
}

#[test]
fn matching_structures_pair_up_one_to_one() {
    let target = shape(&[REQUIRED, REST], 1);
    let source = vec![OPTIONAL, REST];
    let plan = infer_tuple_types(Some((&source, 1)), 2, &target, 2);
    assert!(plan.matching);
    let other = vec![OPTIONAL, VARIADIC];
    assert!(!infer_tuple_types(Some((&other, 1)), 2, &target, 2).matching);
}

#[test]
fn an_array_source_infers_every_target_element_from_its_element_type() {
    let target = shape(&[REQUIRED, VARIADIC, REQUIRED], 1);
    let plan = infer_tuple_types(None, 1, &target, 3);
    assert!(!plan.matching);
    assert_eq!((plan.start, plan.end), (0, 0));
    assert_eq!(plan.middle, MiddlePlan::FromRest);
    assert_eq!(plan.rest_as_array, vec![false, true, false]);
}

#[test]
fn a_single_variadic_middle_takes_the_source_slice() {
    // [string, ...T, number] from [string, boolean, boolean, number]
    let target = shape(&[REQUIRED, VARIADIC, REQUIRED], 1);
    let source = vec![REQUIRED, REQUIRED, REQUIRED, REQUIRED];
    let plan = infer_tuple_types(Some((&source, 4)), 4, &target, 3);
    assert!(!plan.matching);
    assert_eq!((plan.start, plan.end), (1, 1));
    assert_eq!(plan.middle, MiddlePlan::SingleVariadic { speculative: false });
    let optional_end = shape(&[REQUIRED, VARIADIC, OPTIONAL], 1);
    let plan = infer_tuple_types(Some((&source, 4)), 4, &optional_end, 3);
    assert_eq!(plan.middle, MiddlePlan::SingleVariadic { speculative: true });
}

#[test]
fn two_variadic_middles_and_mixed_rest_pairs() {
    let source = vec![REQUIRED, REQUIRED, REQUIRED];
    let two = shape(&[VARIADIC, VARIADIC], 0);
    assert_eq!(infer_tuple_types(Some((&source, 3)), 3, &two, 2).middle, MiddlePlan::TwoVariadic);
    let vr = shape(&[VARIADIC, REST], 0);
    assert_eq!(infer_tuple_types(Some((&source, 3)), 3, &vr, 2).middle, MiddlePlan::VariadicThenRest);
    let rv = shape(&[REST, VARIADIC], 0);
    assert_eq!(infer_tuple_types(Some((&source, 3)), 3, &rv, 2).middle, MiddlePlan::RestThenVariadic);
    let rest = shape(&[REQUIRED, REST], 1);
    let plan = infer_tuple_types(Some((&source, 3)), 3, &rest, 2);
    assert_eq!((plan.start, plan.end), (1, 0));
    assert_eq!(plan.middle, MiddlePlan::SingleRest);
}

#[test]
fn a_source_rest_in_the_middle_feeds_the_target_middle() {
    // [string, ...number[], string] to [string, number, ...T, string].
    let target = shape(&[REQUIRED, REQUIRED, VARIADIC, REQUIRED], 2);
    let source = vec![REQUIRED, REST, REQUIRED];
    let plan = infer_tuple_types(Some((&source, 1)), 3, &target, 4);
    assert_eq!((plan.start, plan.end), (1, 1));
    assert_eq!(plan.middle, MiddlePlan::FromRest);
    assert_eq!(plan.rest_as_array, vec![false, true]);
}

#[test]
fn slices_and_fixed_arities() {
    assert_eq!(slice_tuple(2, 4, 3, 0), SlicePlan::RestArray);
    assert_eq!(slice_tuple(2, 4, 1, 1), SlicePlan::Range { start: 1, end: 3 });
    assert_eq!(slice_tuple(2, 4, 1, -5), SlicePlan::Range { start: 1, end: 4 });
    assert_eq!(slice_tuple(2, 4, 2, 9), SlicePlan::Empty);
    assert_eq!(inferred_fixed_tuple_arity(&shape(&[REQUIRED, OPTIONAL], 2)), Some(2));
    assert_eq!(inferred_fixed_tuple_arity(&shape(&[REQUIRED, REST], 1)), None);
    assert_eq!(trailing_fixed(&vec![REST, REQUIRED, OPTIONAL]), 2);
    assert_eq!(rest_then_variadic_bounds(5, &vec![REST, VARIADIC, REQUIRED], 2, 1), Some((2, 4)));
    assert_eq!(rest_then_variadic_bounds(3, &vec![REST, VARIADIC, REQUIRED], 2, 1), None);
}
