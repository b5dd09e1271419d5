//! Creation traces: an optional recording, per thread, of the events a
//! compilation produces and of the tokens given to symbols at their birth.
//!
//! The slot that holds the active trace is owned by the caller; events are
//! opaque values of the caller's type.
use vstd::prelude::*;
use std::collections::HashMap;

verus! {

broadcast use vstd::std_specs::hash::group_hash_axioms;

/// The source of type-store owner identities, starting at 1. Its count is
/// private: a counter is made by `new` and only moves forward, so no
/// identity is 0 and none is handed out twice.
#[derive(Debug)]
pub struct OwnerCounter {
    next: u64,
}

impl OwnerCounter {
    #[verifier::type_invariant]
    spec fn counts_from_one(&self) -> bool {
        self.next >= 1
    }

    /// The identity the counter gives next.
    pub closed spec fn next_identity(&self) -> u64 {
        self.next
    }

    pub fn new() -> (r: OwnerCounter)
        ensures
            r.next_identity() == 1,
    {
        OwnerCounter { next: 1 }
    }

    /// The identity the counter gives next; never 0.
    pub fn peek(&self) -> (r: u64)
        ensures
            r == self.next_identity(),
            r >= 1,
    {
        proof { use_type_invariant(self); }
        self.next
    }
}

/// A type-store identity for traces, independent of type ids; never 0.
#[derive(Debug)]
pub struct TypeOwner {
    id: u64,
}

impl TypeOwner {
    #[verifier::type_invariant]
    spec fn is_given(&self) -> bool {
        self.id >= 1
    }

    /// The identity.
    pub closed spec fn identity(&self) -> u64 {
        self.id
    }

    /// The next identity; the last value of `u64` is never handed out. The
    /// counter moves past the identity it gives, so a later call gives a
    /// greater one.
    pub fn new(counter: &mut OwnerCounter) -> (r: TypeOwner)
        requires
            old(counter).next_identity() < u64::MAX,
        ensures
            r.identity() == old(counter).next_identity(),
            r.identity() >= 1,
            final(counter).next_identity() == old(counter).next_identity() + 1,
    {
        proof { use_type_invariant(&*counter); }
        let id = counter.next;
        counter.next = counter.next + 1;
        TypeOwner { id }
    }

    pub fn token(&self) -> (r: u64)
        ensures
            r == self.identity(),
            r >= 1,
    {
        proof { use_type_invariant(self); }
        self.id
    }
}

/// An active trace: the events so far, the token of each symbol key, and
/// the last token given.
#[derive(Debug)]
pub struct Trace<E> {
    pub events: Vec<E>,
    pub symbols: HashMap<usize, u64>,
    pub next_token: u64,
}

impl<E> Trace<E> {
    /// Every token in the table is one that was given.
    pub open spec fn wf(&self) -> bool {
        forall|k: usize| #[trigger] self.symbols@.contains_key(k) ==> 1 <= self.symbols@[k] <= self.next_token
    }
}

/// What a trace slot holds, as values: nothing, or the events so far, the
/// token of each symbol key and the last token given.
pub open spec fn trace_state<E>(slot: Option<Trace<E>>) -> Option<(Seq<E>, Map<usize, u64>, u64)> {
    match slot {
        None => None,
        Some(t) => Some((t.events@, t.symbols@, t.next_token)),
    }
}

/// A call that changes a trace slot.
pub enum TraceOp<E> {
    Begin,
    Finish,
    Record(E),
    Birth(usize),
}

/// The slot after one call: `begin` starts an empty trace, `finish` ends
/// it, `record` appends an event and a birth gives a key the next token,
/// each of the last two only while a trace is active.
pub open spec fn spec_step<E>(s: Option<(Seq<E>, Map<usize, u64>, u64)>, op: TraceOp<E>) -> Option<
    (Seq<E>, Map<usize, u64>, u64),
> {
    match op {
        TraceOp::Begin => Some((Seq::empty(), Map::empty(), 0u64)),
        TraceOp::Finish => None,
        TraceOp::Record(e) => match s {
            None => None,
            Some(t) => Some((t.0.push(e), t.1, t.2)),
        },
        TraceOp::Birth(k) => match s {
            None => None,
            Some(t) => Some((t.0, t.1.insert(k, (t.2 + 1) as u64), (t.2 + 1) as u64)),
        },
    }
}

/// The slot after a sequence of calls, in order.
pub open spec fn spec_run<E>(s: Option<(Seq<E>, Map<usize, u64>, u64)>, ops: Seq<TraceOp<E>>) -> Option<
    (Seq<E>, Map<usize, u64>, u64),
>
    decreases ops.len(),
{
    if ops.len() == 0 {
        s
    } else {
        spec_step(spec_run(s, ops.drop_last()), ops.last())
    }
}

/// The token a slot holds for a key.
pub open spec fn spec_token_of<E>(s: Option<(Seq<E>, Map<usize, u64>, u64)>, key: usize) -> Option<u64> {
    match s {
        Some(t) => if t.1.contains_key(key) { Some(t.1[key]) } else { None },
        None => None,
    }
}

/// Starts a trace; the slot must be empty.
pub fn begin<E>(slot: &mut Option<Trace<E>>)
    requires
        *old(slot) is None,
    ensures
        *final(slot) matches Some(t) && t.events@.len() == 0 && t.symbols@ == Map::<usize, u64>::empty()
            && t.next_token == 0 && t.wf(),
        trace_state(*final(slot)) == spec_step(trace_state(*old(slot)), TraceOp::Begin),
{
    *slot = Some(Trace { events: Vec::new(), symbols: HashMap::new(), next_token: 0 });
}

/// Ends the trace and hands back its events, in the order they were recorded.
pub fn finish<E>(slot: &mut Option<Trace<E>>) -> (r: Vec<E>)
    requires
        *old(slot) is Some,
    ensures
        r@ == old(slot).unwrap().events@,
        *final(slot) is None,
        trace_state(*final(slot)) == spec_step(trace_state(*old(slot)), TraceOp::<E>::Finish),
{
    let t = slot.take().unwrap();
    t.events
}

/// Whether a trace is active.
pub fn active<E>(slot: &Option<Trace<E>>) -> (r: bool)
    ensures
        r == slot is Some,
        r == trace_state(*slot) is Some,
{
    slot.is_some()
}

/// Appends an event to the active trace; without one, nothing happens.
pub fn record<E>(slot: &mut Option<Trace<E>>, event: E)
    ensures
        match *old(slot) {
            None => *final(slot) is None,
            Some(t) => (*final(slot) matches Some(u) && u.events@ == t.events@.push(event) && u.symbols@
                == t.symbols@ && u.next_token == t.next_token),
        },
        trace_state(*final(slot)) == spec_step(trace_state(*old(slot)), TraceOp::Record(event)),
{
    match slot {
        Some(t) => t.events.push(event),
        None => {},
    }
}

/// The token of a symbol key in the active trace, if it was born there.
pub open spec fn spec_symbol_token<E>(slot: Option<Trace<E>>, key: usize) -> Option<u64> {
    spec_token_of(trace_state(slot), key)
}

/// Gives the symbol with runtime key `key` a fresh token (replacing any
/// earlier one of that key) and returns it; the caller records the birth
/// event with it. Without an active trace nothing happens.
pub fn symbol_birth<E>(slot: &mut Option<Trace<E>>, key: usize) -> (r: Option<u64>)
    requires
        *old(slot) matches Some(t) ==> t.next_token < u64::MAX && t.wf(),
    ensures
        match *old(slot) {
            None => r is None && *final(slot) is None,
            Some(t) => r == Some((t.next_token + 1) as u64) && (*final(slot) matches Some(u) && u.next_token
                == t.next_token + 1 && u.symbols@ == t.symbols@.insert(key, u.next_token) && u.events@
                == t.events@ && u.wf()),
        },
        spec_symbol_token(*final(slot), key) == r,
        trace_state(*final(slot)) == spec_step(trace_state(*old(slot)), TraceOp::<E>::Birth(key)),
{
    match slot {
        Some(t) => {
            t.next_token = t.next_token + 1;
            let token = t.next_token;
            t.symbols.insert(key, token);
            Some(token)
        },
        None => None,
    }
}

/// The token of a symbol key, if the symbol was born in the active trace.
/// Asks nothing of the symbol: an unknown one stays unobserved.
pub fn symbol_token<E>(slot: &Option<Trace<E>>, key: usize) -> (r: Option<u64>)
    ensures
        r == spec_symbol_token(*slot, key),
{
    match slot {
        Some(t) => match t.symbols.get(&key) {
            Some(v) => Some(*v),
            None => None,
        },
        None => None,
    }
}

/// Running `a` and then `b` is running them joined.
pub proof fn lemma_run_append<E>(s: Option<(Seq<E>, Map<usize, u64>, u64)>, a: Seq<TraceOp<E>>, b: Seq<TraceOp<E>>)
    ensures
        spec_run(s, a + b) == spec_run(spec_run(s, a), b),
    decreases b.len(),
{
    if b.len() == 0 {
        assert(a + b =~= a);
    } else {
        lemma_run_append(s, a, b.drop_last());
        assert((a + b).drop_last() =~= a + b.drop_last());
        assert((a + b).last() == b.last());
    }
}

/// A trace is active after a sequence of calls on a thread that started
/// without one exactly when some `begin` has no `finish` after it.
pub proof fn lemma_active_iff_begun_and_not_finished<E>(ops: Seq<TraceOp<E>>)
    ensures
        spec_run(None, ops) is Some <==> exists|i: int|
            0 <= i < ops.len() && ops[i] is Begin && forall|j: int| i < j < ops.len() ==> !(ops[j] is Finish),
    decreases ops.len(),
{
    if ops.len() > 0 {
        let n = ops.len() - 1;
        let p = ops.drop_last();
        lemma_active_iff_begun_and_not_finished(p);
        match ops.last() {
            TraceOp::Begin => {
                assert(ops[n] is Begin);
            },
            TraceOp::Finish => {
                assert forall|i: int| 0 <= i < ops.len() && ops[i] is Begin implies !(forall|j: int|
                    i < j < ops.len() ==> !(ops[j] is Finish)) by {
                    assert(i < n);
                    assert(ops[n] is Finish);
                }
            },
            _ => {
                if spec_run(None, p) is Some {
                    let i = choose|i: int|
                        0 <= i < p.len() && p[i] is Begin && forall|j: int| i < j < p.len() ==> !(p[j] is Finish);
                    assert(ops[i] == p[i]);
                    assert forall|j: int| i < j < ops.len() implies !(ops[j] is Finish) by {
                        if j < n {
                            assert(ops[j] == p[j]);
                        }
                    }
                } else {
                    assert forall|i: int| 0 <= i < ops.len() && ops[i] is Begin implies !(forall|j: int|
                        i < j < ops.len() ==> !(ops[j] is Finish)) by {
                        assert(i < n);
                        assert(ops[i] == p[i]);
                        if forall|j: int| i < j < ops.len() ==> !(ops[j] is Finish) {
                            assert forall|j: int| i < j < p.len() implies !(p[j] is Finish) by {
                                assert(ops[j] == p[j]);
                            }
                        }
                    }
                }
            },
        }
    }
}

/// Calls that neither start nor end a trace nor give `key` a token keep the
/// trace active and leave the token of `key` as it was.
proof fn lemma_rest_keeps_token<E>(t: Option<(Seq<E>, Map<usize, u64>, u64)>, rest: Seq<TraceOp<E>>, key: usize)
    requires
        t is Some,
        forall|j: int| 0 <= j < rest.len() ==> !(rest[j] is Begin) && !(rest[j] is Finish) && rest[j] != TraceOp::<E>::Birth(key),
    ensures
        spec_run(t, rest) is Some,
        spec_token_of(spec_run(t, rest), key) == spec_token_of(t, key),
    decreases rest.len(),
{
    if rest.len() > 0 {
        let p = rest.drop_last();
        assert forall|j: int| 0 <= j < p.len() implies !(p[j] is Begin) && !(p[j] is Finish) && p[j] != TraceOp::<E>::Birth(key) by {
            assert(p[j] == rest[j]);
        }
        lemma_rest_keeps_token(t, p, key);
        assert(rest.last() == rest[rest.len() - 1]);
    }
}

/// The token of a key is the one its latest birth in the active trace gave
/// it: after a birth of `key` (one more than the last token given before
/// it), calls that neither start nor end the trace nor give `key` another
/// token leave that token in place.
pub proof fn lemma_token_is_latest_birth<E>(
    s: Option<(Seq<E>, Map<usize, u64>, u64)>,
    ops: Seq<TraceOp<E>>,
    key: usize,
    rest: Seq<TraceOp<E>>,
)
    requires
        spec_run(s, ops) is Some,
        forall|j: int| 0 <= j < rest.len() ==> !(rest[j] is Begin) && !(rest[j] is Finish) && rest[j] != TraceOp::<E>::Birth(key),
    ensures
        spec_token_of(spec_run(s, ops.push(TraceOp::Birth(key)) + rest), key) == Some(
            (spec_run(s, ops).unwrap().2 + 1) as u64,
        ),
{
    let born = ops.push(TraceOp::Birth(key));
    assert(born.drop_last() =~= ops);
    lemma_run_append(s, born, rest);
    lemma_rest_keeps_token(spec_run(s, born), rest, key);
}

/// A key has no token in a trace until it is born there: after `begin`,
/// calls that neither start nor end the trace nor give `key` a token leave
/// it without one, and the trace holds no events from before.
pub proof fn lemma_begin_starts_afresh<E>(
    s: Option<(Seq<E>, Map<usize, u64>, u64)>,
    ops: Seq<TraceOp<E>>,
    key: usize,
    rest: Seq<TraceOp<E>>,
)
    requires
        forall|j: int| 0 <= j < rest.len() ==> !(rest[j] is Begin) && !(rest[j] is Finish) && rest[j] != TraceOp::<E>::Birth(key),
    ensures
        spec_run(s, ops.push(TraceOp::Begin)) == Some((Seq::<E>::empty(), Map::<usize, u64>::empty(), 0u64)),
        spec_token_of(spec_run(s, ops.push(TraceOp::Begin) + rest), key) is None,
{
    let begun = ops.push(TraceOp::Begin);
    assert(begun.drop_last() =~= ops);
    lemma_run_append(s, begun, rest);
    lemma_rest_keeps_token(spec_run(s, begun), rest, key);
}

} // verus!
