use tsr_ast::span_map::{new, virtual_to_original_span, Fidelity, SpanSegment, TextRange};

fn segment(v: (i32, i32), o: (i32, i32), kind: i32) -> SpanSegment {
    SpanSegment {
        virtual_start: v.0,
        virtual_end: v.1,
        original_start: o.0,
        original_end: o.1,
        kind,
        features: 0,
    }
}

#[test]
fn pinned_forward_span_and_boundary_cases() {
    let verbatim = new(&[
        segment((0, 10), (100, 110), 0),
        segment((20, 30), (200, 210), 0),
    ]);
    for (from, to, fidelity) in [
        ((3, 7), (103, 107), Fidelity::Exact),
        ((12, 15), (110, 110), Fidelity::Unmapped),
        ((30, 30), (210, 210), Fidelity::Exact),
        ((10, 10), (110, 110), Fidelity::Unmapped),
    ] {
        assert_eq!(
            virtual_to_original_span(Some(&verbatim), TextRange::new(from.0, from.1)),
            (TextRange::new(to.0, to.1), fidelity)
        );
    }
    let crossing = new(&[
        segment((10, 20), (200, 210), 0),
        segment((0, 10), (100, 110), 0),
    ]);
    assert_eq!(
        virtual_to_original_span(Some(&crossing), TextRange::new(5, 15)),
        (TextRange::new(105, 205), Fidelity::Approximate)
    );
    for kind in [1, 2] {
        let atom = new(&[segment((3, 14), (60, 71), kind)]);
        assert_eq!(
            virtual_to_original_span(Some(&atom), TextRange::new(5, 9)),
            (TextRange::new(60, 71), Fidelity::Atom)
        );
    }
    assert_eq!(
        virtual_to_original_span(Some(&[]), TextRange::new(5, 10)),
        (TextRange::new(0, 0), Fidelity::Unmapped)
    );
    assert_eq!(
        virtual_to_original_span(None, TextRange::new(3, 7)),
        (TextRange::new(3, 7), Fidelity::Exact)
    );
}

#[test]
fn new_sorts_segments_by_virtual_start() {
    let sorted = new(&[
        segment((20, 30), (1, 2), 0),
        segment((0, 10), (3, 4), 0),
        segment((10, 20), (5, 6), 1),
    ]);
    let starts: Vec<i32> = sorted.iter().map(|s| s.virtual_start).collect();
    assert_eq!(starts, vec![0, 10, 20]);
    assert_eq!(sorted[1].kind, 1);
}

#[test]
fn an_exact_span_inside_one_verbatim_segment_keeps_its_length() {
    let map = new(&[segment((0, 50), (1000, 1050), 0)]);
    assert_eq!(
        virtual_to_original_span(Some(&map), TextRange::new(10, 25)),
        (TextRange::new(1010, 1025), Fidelity::Exact)
    );
    // A reversed range is read as empty at its start.
    assert_eq!(
        virtual_to_original_span(Some(&map), TextRange::new(10, 4)),
        (TextRange::new(1010, 1010), Fidelity::Exact)
    );
}
