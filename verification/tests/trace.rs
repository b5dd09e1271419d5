use tsr_ast::creation_trace::{active, begin, finish, record, symbol_birth, symbol_token, OwnerCounter, Trace, TypeOwner};

#[test]
fn a_trace_records_events_in_order_between_begin_and_finish() {
    let mut slot: Option<Trace<&str>> = None;
    assert!(!active(&slot));
    record(&mut slot, "dropped");
    assert!(slot.is_none());
    begin(&mut slot);
    assert!(active(&slot));
    record(&mut slot, "a");
    record(&mut slot, "b");
    assert_eq!(finish(&mut slot), vec!["a", "b"]);
    assert!(!active(&slot));
}

#[test]
fn a_birth_gives_a_fresh_token_that_replaces_the_old_one() {
    let mut slot: Option<Trace<u8>> = None;
    assert_eq!(symbol_birth(&mut slot, 7), None);
    begin(&mut slot);
    assert_eq!(symbol_token(&slot, 7), None);
    assert_eq!(symbol_birth(&mut slot, 7), Some(1));
    assert_eq!(symbol_birth(&mut slot, 9), Some(2));
    assert_eq!(symbol_token(&slot, 7), Some(1));
    assert_eq!(symbol_birth(&mut slot, 7), Some(3));
    assert_eq!(symbol_token(&slot, 7), Some(3));
    assert_eq!(symbol_token(&slot, 9), Some(2));
    let _ = finish(&mut slot);
    assert_eq!(symbol_token(&slot, 7), None);
}

#[test]
fn owners_are_numbered_from_one() {
    let mut counter = OwnerCounter::new();
    let a = TypeOwner::new(&mut counter);
    let b = TypeOwner::new(&mut counter);
    assert_eq!((a.token(), b.token()), (1, 2));
}

#[test]
fn a_counter_starts_at_one_and_moves_past_each_identity() {
    let mut counter = OwnerCounter::new();
    assert_eq!(counter.peek(), 1);
    let a = TypeOwner::new(&mut counter);
    assert_eq!(counter.peek(), 2);
    assert!(a.token() >= 1);
}

#[test]
fn a_new_trace_forgets_the_tokens_and_events_of_the_last() {
    let mut slot: Option<Trace<u32>> = None;
    assert!(!active(&slot));
    begin(&mut slot);
    assert!(active(&slot));
    assert_eq!(symbol_birth(&mut slot, 4), Some(1));
    record(&mut slot, 10);
    assert_eq!(symbol_birth(&mut slot, 5), Some(2));
    assert_eq!(symbol_token(&slot, 4), Some(1));
    assert_eq!(finish(&mut slot), vec![10]);
    assert!(!active(&slot));
    record(&mut slot, 11);
    assert_eq!(symbol_birth(&mut slot, 4), None);
    begin(&mut slot);
    assert_eq!(symbol_token(&slot, 4), None);
    assert_eq!(finish(&mut slot), Vec::<u32>::new());
}
