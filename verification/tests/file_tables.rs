use tsr_ast::ast::{Ast, Node};
use tsr_ast::file_tables::{
    get_declaration_map, get_declaration_name, try_get_declaration_map, get_or_compute_source_file_data, has_identifier, literal_is_name,
    new_source_file_data_key, DataKeyCounter, SourceFileData,
};
use tsr_ast::syntax_kind::SyntaxKind as K;

fn mk(ast: &mut Ast, kind: K, f: impl FnOnce(&mut Node)) -> usize {
    let mut n = Node::new(kind, 0, 0);
    f(&mut n);
    ast.push(n).expect("links name existing nodes")
}

fn ident(ast: &mut Ast, t: &[u8]) -> usize {
    mk(ast, K::Identifier, |n| n.text = t.to_vec())
}

fn names(map: &tsr_ast::file_tables::DeclarationMap) -> Vec<(Vec<u8>, Vec<usize>)> {
    map.entries.iter().map(|e| (e.name.clone(), e.declarations.clone())).collect()
}

/// `function f(); function f() {} class C { p; }`, with optional symbols on
/// the two `f` declarations.
fn overloads(symbols: (Option<usize>, Option<usize>)) -> (Ast, usize, usize, usize, usize, usize) {
    let mut a = Ast::new();
    let n1 = ident(&mut a, b"f");
    let f1 = mk(&mut a, K::FunctionDeclaration, |n| {
        n.name = Some(n1);
        n.symbol = symbols.0;
        n.children = vec![n1];
    });
    let n2 = ident(&mut a, b"f");
    let body = mk(&mut a, K::Block, |_| {});
    let f2 = mk(&mut a, K::FunctionDeclaration, |n| {
        n.name = Some(n2);
        n.body = Some(body);
        n.symbol = symbols.1;
        n.children = vec![n2, body];
    });
    let pn = ident(&mut a, b"p");
    let p = mk(&mut a, K::PropertyDeclaration, |n| {
        n.name = Some(pn);
        n.children = vec![pn];
    });
    let cn = ident(&mut a, b"C");
    let c = mk(&mut a, K::ClassDeclaration, |n| {
        n.name = Some(cn);
        n.members = Some(vec![p]);
        n.children = vec![cn, p];
    });
    let file = mk(&mut a, K::SourceFile, |n| n.children = vec![f1, f2, c]);
    (a, file, f1, f2, c, p)
}

#[test]
fn an_implementation_replaces_its_overload_in_the_declaration_map() {
    let (a, file, _f1, f2, c, p) = overloads((None, None));
    let map = get_declaration_map(&a, false, file);
    assert_eq!(
        names(&map),
        vec![(b"f".to_vec(), vec![f2]), (b"C".to_vec(), vec![c]), (b"p".to_vec(), vec![p])]
    );
    assert_eq!(map.get(&b"p".to_vec()), Some(&vec![p]));
    assert_eq!(map.get(&b"q".to_vec()), None);
}

#[test]
fn declarations_of_different_symbols_are_both_filed_when_bound() {
    let (a, file, f1, f2, _c, _p) = overloads((Some(0), Some(1)));
    let map = get_declaration_map(&a, true, file);
    assert_eq!(map.get(&b"f".to_vec()), Some(&vec![f1, f2]));
    // Unbound, the symbols are not read and the overload group is kept.
    let unbound = get_declaration_map(&a, false, file);
    assert_eq!(unbound.get(&b"f".to_vec()), Some(&vec![f2]));
}

#[test]
fn a_computed_literal_name_and_a_nameless_declaration() {
    let mut a = Ast::new();
    let lit = mk(&mut a, K::StringLiteral, |n| n.text = b"x".to_vec());
    let computed = mk(&mut a, K::ComputedPropertyName, |n| {
        n.expression = Some(lit);
        n.children = vec![lit];
    });
    let m = mk(&mut a, K::MethodDeclaration, |n| {
        n.name = Some(computed);
        n.children = vec![computed];
    });
    assert_eq!(get_declaration_name(&a, m), b"x".to_vec());
    let anonymous = mk(&mut a, K::ClassExpression, |_| {});
    assert_eq!(get_declaration_name(&a, anonymous), Vec::<u8>::new());
}

#[test]
fn identifiers_and_literals_of_a_file_are_found() {
    let (a, file, ..) = overloads((None, None));
    assert!(has_identifier(&a, file, b"C"));
    assert!(has_identifier(&a, file, b"p"));
    assert!(!has_identifier(&a, file, b"zzz"));
}

#[test]
fn a_module_reference_literal_is_a_name() {
    let mut a = Ast::new();
    let lit = mk(&mut a, K::StringLiteral, |n| n.text = b"m".to_vec());
    let _emr = mk(&mut a, K::ExternalModuleReference, |n| {
        n.expression = Some(lit);
        n.children = vec![lit];
    });
    assert!(literal_is_name(&a, lit));
    let lit2 = mk(&mut a, K::StringLiteral, |n| n.text = b"m".to_vec());
    let _statement = mk(&mut a, K::ExpressionStatement, |n| {
        n.expression = Some(lit2);
        n.children = vec![lit2];
    });
    assert!(!literal_is_name(&a, lit2));
}

#[test]
fn per_file_data_is_computed_once_per_key() {
    let mut counter = DataKeyCounter::new();
    let first = new_source_file_data_key(&mut counter);
    let second = new_source_file_data_key(&mut counter);
    assert_eq!((first, second), (1, 2));
    let mut data: SourceFileData<u64> = SourceFileData::new();
    assert_eq!(get_or_compute_source_file_data(&mut data, Some(first), || 5), 5);
    assert_eq!(get_or_compute_source_file_data(&mut data, Some(first), || 7), 5);
    assert_eq!(get_or_compute_source_file_data(&mut data, Some(second), || 7), 7);
    assert_eq!(data.keys, vec![1, 2]);
}

#[test]
fn a_checked_declaration_map_refuses_a_computed_name_without_its_expression() {
    let (a, file, ..) = overloads((None, None));
    let checked = try_get_declaration_map(&a, false, file).expect("every name is readable");
    assert_eq!(names(&checked), names(&get_declaration_map(&a, false, file)));

    let mut b = Ast::new();
    let computed = mk(&mut b, K::ComputedPropertyName, |_| {});
    let method = mk(&mut b, K::MethodDeclaration, |n| {
        n.name = Some(computed);
        n.children = vec![computed];
    });
    let file = mk(&mut b, K::SourceFile, |n| n.children = vec![method]);
    assert!(try_get_declaration_map(&b, false, file).is_none());
}

#[test]
fn data_keys_count_up_from_one() {
    let mut counter = DataKeyCounter::new();
    assert_eq!(counter.last(), 0);
    assert_eq!(new_source_file_data_key(&mut counter), 1);
    assert_eq!(counter.last(), 1);
}
