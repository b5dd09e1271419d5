use tsr_ast::bundled::{is_bundled, library};
use tsr_ast::evaluation::Unhandled;
use tsr_ast::name_utils::{count_path_components, is_late_bound_name, left_meaning, path_is_relative, unquote_name, NAMESPACE, VALUE};
use tsr_ast::source_metadata::{
    emit_module_format_of_file, implied_node_format_for_emit, SourceFileMetaData, COMMON_JS, ESNEXT, NODE16, NODE_NEXT,
    NONE,
};

#[test]
fn quoted_names_lose_their_quotes_and_escapes() {
    assert_eq!(unquote_name(b"'a'"), b"a".to_vec());
    assert_eq!(unquote_name(b"\"a\\\"b\""), b"a\"b".to_vec());
    assert_eq!(unquote_name(b"`x`"), b"x".to_vec());
    assert_eq!(unquote_name(b"'mixed\""), b"'mixed\"".to_vec());
    assert_eq!(unquote_name(b"plain"), b"plain".to_vec());
    assert_eq!(unquote_name(b"a\\\nb"), b"a\\\nb".to_vec());
    assert_eq!(unquote_name(b"x\\"), b"x\\".to_vec());
    assert_eq!(unquote_name(b"'"), b"'".to_vec());
}

#[test]
fn late_bound_names_and_left_meanings() {
    assert!(is_late_bound_name(&[0xFE, b'@', b'x']));
    assert!(!is_late_bound_name(b"@x"));
    assert!(!is_late_bound_name(&[0xFE]));
    assert_eq!(left_meaning(VALUE), VALUE);
    assert_eq!(left_meaning(2), NAMESPACE);
}

#[test]
fn relative_paths_and_their_components() {
    for p in [b".".as_slice(), b"..", b"./a", b".\\a", b"../a", b"..\\a"] {
        assert!(path_is_relative(p));
    }
    for p in [b"a".as_slice(), b"/a", b".a", b"...", b""] {
        assert!(!path_is_relative(p));
    }
    assert_eq!(count_path_components(b"./a/b"), 1);
    assert_eq!(count_path_components(b"a/b/c"), 2);
    assert_eq!(count_path_components(b"../a/b"), 2);
    assert_eq!(count_path_components(b""), 0);
}

#[test]
fn bundled_paths_and_the_library_table() {
    assert!(is_bundled(b"bundled:///libs/lib.es5.d.ts"));
    assert!(is_bundled(b"bundled:///"));
    assert!(!is_bundled(b"bundled://"));
    assert!(!is_bundled(b"/libs/lib.d.ts"));
    let names = vec![b"lib.d.ts".to_vec(), b"lib.dom.d.ts".to_vec(), b"lib.es5.d.ts".to_vec()];
    assert_eq!(library(&names, b"lib.es5.d.ts"), Some(2));
    assert_eq!(library(&names, b"lib.d.ts"), Some(0));
    assert_eq!(library(&names, b"lib.es6.d.ts"), None);
}

fn meta(package_type: &[u8], implied: i32) -> SourceFileMetaData {
    SourceFileMetaData {
        package_json_type: package_type.to_vec(),
        package_json_directory: b"/p".to_vec(),
        implied_node_format: implied,
    }
}

#[test]
fn the_emit_format_of_a_file() {
    assert_eq!(implied_node_format_for_emit(b"a.ts", NODE16, &meta(b"", ESNEXT)), ESNEXT);
    assert_eq!(implied_node_format_for_emit(b"a.ts", NODE_NEXT, &meta(b"", COMMON_JS)), COMMON_JS);
    assert_eq!(implied_node_format_for_emit(b"a.cts", ESNEXT, &meta(b"", COMMON_JS)), COMMON_JS);
    assert_eq!(implied_node_format_for_emit(b"a.ts", ESNEXT, &meta(b"commonjs", COMMON_JS)), COMMON_JS);
    assert_eq!(implied_node_format_for_emit(b"a.mjs", COMMON_JS, &meta(b"", ESNEXT)), ESNEXT);
    assert_eq!(implied_node_format_for_emit(b"a.ts", COMMON_JS, &meta(b"module", ESNEXT)), ESNEXT);
    assert_eq!(implied_node_format_for_emit(b"a.ts", COMMON_JS, &meta(b"", ESNEXT)), NONE);
    assert_eq!(emit_module_format_of_file(b"a.ts", COMMON_JS, &meta(b"", ESNEXT)), COMMON_JS);
    assert_eq!(emit_module_format_of_file(b"a.mts", COMMON_JS, &meta(b"", ESNEXT)), ESNEXT);
}

#[test]
fn unhandled_messages() {
    assert_eq!(Unhandled::AnyToString.message(), "Unhandled case in AnyToString");
    assert_eq!(Unhandled::IsTruthy.message(), "Unhandled case in IsTruthy");
}
