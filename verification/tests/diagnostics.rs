use tsr_ast::diagnostics::{Diagnostic, DiagnosticsCollection, FileTexts, RepopulateDiagnosticInfo};
use tsr_ast::span_map::{SpanSegment, TextRange};

fn diagnostic(loc: TextRange, args: &[&[u8]]) -> Diagnostic {
    Diagnostic {
        file: Some(0),
        loc,
        code: 2304,
        category: 1,
        source: Vec::new(),
        message_text: Vec::new(),
        message_key: b"Cannot_find_name_0_2304".to_vec(),
        message_args: args.iter().map(|a| a.to_vec()).collect(),
        reports_unnecessary: false,
        reports_deprecated: false,
        skipped_on_no_emit: false,
        repopulate_info: None,
    }
}

fn texts() -> FileTexts {
    // Virtual text `let __v0 = 1;` stands for the original `let $x = 1;`.
    FileTexts {
        span_map: Some(vec![
            SpanSegment { virtual_start: 0, virtual_end: 4, original_start: 0, original_end: 4, kind: 0, features: 0 },
            SpanSegment { virtual_start: 4, virtual_end: 8, original_start: 4, original_end: 6, kind: 2, features: 0 },
            SpanSegment { virtual_start: 8, virtual_end: 13, original_start: 6, original_end: 11, kind: 0, features: 0 },
        ]),
        text: b"let __v0 = 1;".to_vec(),
        original_text: b"let $x = 1;".to_vec(),
    }
}

#[test]
fn an_aliased_virtual_name_is_shown_as_its_original_spelling() {
    let t = texts();
    let d = diagnostic(TextRange::new(4, 8), &[b"__v0", b"other", b"__v0"]);
    assert_eq!(
        d.display_message_args(Some(&t)),
        vec![b"$x".to_vec(), b"other".to_vec(), b"$x".to_vec()]
    );
}

#[test]
fn arguments_stay_as_they_are_off_an_alias_or_without_a_file() {
    let t = texts();
    let off = diagnostic(TextRange::new(0, 3), &[b"__v0"]);
    assert_eq!(off.display_message_args(Some(&t)), vec![b"__v0".to_vec()]);
    let partial = diagnostic(TextRange::new(4, 6), &[b"__v0"]);
    assert_eq!(partial.display_message_args(Some(&t)), vec![b"__v0".to_vec()]);
    let exact = diagnostic(TextRange::new(4, 8), &[b"__v0"]);
    assert_eq!(exact.display_message_args(None), vec![b"__v0".to_vec()]);
    let mut tool = diagnostic(TextRange::new(4, 8), &[b"__v0"]);
    tool.source = b"lint".to_vec();
    assert_eq!(tool.display_message_args(Some(&t)), vec![b"__v0".to_vec()]);
}

#[test]
fn repopulate_info_reads_back_what_was_set() {
    let mut d = diagnostic(TextRange::new(0, 1), &[]);
    assert!(d.repopulate_info().is_none());
    d.set_repopulate_info(Some(RepopulateDiagnosticInfo {
        kind: 1,
        module_reference: b"./m".to_vec(),
        mode: 99,
        package_name: b"pkg".to_vec(),
    }));
    let info = d.repopulate_info().unwrap();
    assert_eq!((info.kind, info.mode), (1, 99));
    assert_eq!(info.module_reference, b"./m".to_vec());
    assert_eq!(info.package_name, b"pkg".to_vec());
    assert_eq!(d.message_key, b"Cannot_find_name_0_2304".to_vec());
    assert_eq!((d.code, d.category, d.file), (2304, 1, Some(0)));
    d.set_repopulate_info(None);
    assert!(d.repopulate_info().is_none());
    assert!(d.message_args.is_empty() && d.source.is_empty() && !d.reports_deprecated);
}

#[test]
fn diagnostics_are_filed_by_path_in_the_order_added() {
    let mut c = DiagnosticsCollection::new();
    c.add(diagnostic(TextRange::new(0, 1), &[b"a"]), Some(b"/a.ts".as_slice()));
    c.add(diagnostic(TextRange::new(0, 1), &[b"global"]), None);
    c.add(diagnostic(TextRange::new(0, 1), &[b"b"]), Some(b"/b.ts".as_slice()));
    c.add(diagnostic(TextRange::new(0, 1), &[b"a2"]), Some(b"/a.ts".as_slice()));
    assert_eq!(c.non_file.len(), 1);
    assert_eq!(c.files.len(), 2);
    assert_eq!(c.files[0].0, b"/a.ts".to_vec());
    let a_args: Vec<Vec<u8>> = c.files[0].1.iter().map(|d| d.message_args[0].clone()).collect();
    assert_eq!(a_args, vec![b"a".to_vec(), b"a2".to_vec()]);
    assert_eq!(c.files[1].1.len(), 1);
}
