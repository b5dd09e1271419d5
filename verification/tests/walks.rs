use tsr_ast::ast::{Ast, Node};
use tsr_ast::containers::return_statements;
use tsr_ast::module_utils::get_module_specifier_of_bare_or_accessed_require;
use tsr_ast::name_table::{get_name_table, is_tag_name};
use tsr_ast::syntax_kind::SyntaxKind as K;
use tsr_ast::targets::entity_name_to_string;

fn mk(ast: &mut Ast, kind: K, f: impl FnOnce(&mut Node)) -> usize {
    let mut n = Node::new(kind, 0, 0);
    f(&mut n);
    ast.push(n).expect("links name existing nodes")
}

fn at(ast: &mut Ast, kind: K, t: &[u8], pos: i32) -> usize {
    mk(ast, kind, |n| {
        n.text = t.to_vec();
        n.pos = pos;
        n.end = pos + t.len() as i32;
    })
}

#[test]
fn a_repeated_name_loses_its_position_and_tag_names_stay_out() {
    let mut a = Ast::new();
    let x1 = at(&mut a, K::Identifier, b"x", 4);
    let s1 = mk(&mut a, K::ExpressionStatement, |n| {
        n.expression = Some(x1);
        n.children = vec![x1];
    });
    let y = at(&mut a, K::Identifier, b"y", 10);
    let s2 = mk(&mut a, K::ExpressionStatement, |n| {
        n.expression = Some(y);
        n.children = vec![y];
    });
    let x2 = at(&mut a, K::Identifier, b"x", 20);
    let s3 = mk(&mut a, K::ExpressionStatement, |n| {
        n.expression = Some(x2);
        n.children = vec![x2];
    });
    let tag = at(&mut a, K::Identifier, b"deprecated", 30);
    let deprecated = mk(&mut a, K::JSDocDeprecatedTag, |n| {
        n.tag_name = Some(tag);
        n.children = vec![tag];
    });
    let private = at(&mut a, K::PrivateIdentifier, b"#p", 40);
    let s4 = mk(&mut a, K::ExpressionStatement, |n| {
        n.expression = Some(private);
        n.children = vec![private, deprecated];
    });
    let file = mk(&mut a, K::SourceFile, |n| n.children = vec![s1, s2, s3, s4]);
    assert!(is_tag_name(&a, tag));
    assert!(!is_tag_name(&a, x1));
    let table = get_name_table(&a, file);
    assert_eq!(table.get(b"x"), Some(-1));
    assert_eq!(table.get(b"y"), Some(10));
    assert_eq!(table.get(b"#p"), Some(40));
    assert_eq!(table.get(b"deprecated"), None);
    assert_eq!(table.entries.len(), 3);
}

#[test]
fn names_in_jsdoc_comments_enter_the_table() {
    let mut a = Ast::new();
    let t = at(&mut a, K::Identifier, b"T", 7);
    let reference = mk(&mut a, K::TypeReference, |n| {
        n.children = vec![t];
    });
    let doc = mk(&mut a, K::JSDoc, |n| n.children = vec![reference]);
    let f = at(&mut a, K::Identifier, b"f", 20);
    let decl = mk(&mut a, K::FunctionDeclaration, |n| {
        n.name = Some(f);
        n.children = vec![f];
        n.jsdoc = vec![doc];
    });
    let file = mk(&mut a, K::SourceFile, |n| n.children = vec![decl]);
    let table = get_name_table(&a, file);
    assert_eq!(table.get(b"f"), Some(20));
    assert_eq!(table.get(b"T"), Some(7));
}

#[test]
fn entity_names_join_their_parts() {
    let mut a = Ast::new();
    let ns = at(&mut a, K::Identifier, b"ns", 0);
    let inner = at(&mut a, K::Identifier, b"Inner", 3);
    let qualified = mk(&mut a, K::QualifiedName, |n| {
        n.left = Some(ns);
        n.right = Some(inner);
        n.children = vec![ns, inner];
    });
    let leaf = at(&mut a, K::Identifier, b"T", 9);
    let outer = mk(&mut a, K::QualifiedName, |n| {
        n.left = Some(qualified);
        n.right = Some(leaf);
        n.children = vec![qualified, leaf];
    });
    assert_eq!(entity_name_to_string(&a, outer, None), b"ns.Inner.T".to_vec());

    let this = mk(&mut a, K::ThisKeyword, |_| {});
    let member = at(&mut a, K::Identifier, b"value", 5);
    let access = mk(&mut a, K::PropertyAccessExpression, |n| {
        n.expression = Some(this);
        n.name = Some(member);
        n.children = vec![this, member];
    });
    assert_eq!(entity_name_to_string(&a, access, None), b"this.value".to_vec());

    let svg = at(&mut a, K::Identifier, b"svg", 0);
    let rect = at(&mut a, K::Identifier, b"rect", 4);
    let jsx = mk(&mut a, K::JsxNamespacedName, |n| {
        n.namespace = Some(svg);
        n.name = Some(rect);
        n.children = vec![svg, rect];
    });
    assert_eq!(entity_name_to_string(&a, jsx, None), b"svg:rect".to_vec());
}

#[test]
fn entity_name_text_is_read_from_the_source_for_parsed_names_only() {
    let mut a = Ast::new();
    let parsed = at(&mut a, K::Identifier, b"a", 0);
    let synthesized = mk(&mut a, K::Identifier, |n| {
        n.text = b"made".to_vec();
        n.pos = -1;
        n.end = -1;
    });
    let qualified = mk(&mut a, K::QualifiedName, |n| {
        n.left = Some(parsed);
        n.right = Some(synthesized);
        n.children = vec![parsed, synthesized];
    });
    let mut texts: Vec<Vec<u8>> = vec![Vec::new(); a.len()];
    texts[parsed] = b"escaped".to_vec();
    texts[synthesized] = b"ignored".to_vec();
    assert_eq!(entity_name_to_string(&a, qualified, Some(&texts)), b"escaped.made".to_vec());
}

#[test]
fn return_statements_are_found_in_nested_statements_but_not_in_nested_functions() {
    let mut a = Ast::new();
    let r1 = mk(&mut a, K::ReturnStatement, |_| {});
    let then_block = mk(&mut a, K::Block, |n| n.children = vec![r1]);
    let cond = at(&mut a, K::Identifier, b"c", 0);
    let if_statement = mk(&mut a, K::IfStatement, |n| {
        n.expression = Some(cond);
        n.children = vec![cond, then_block];
    });
    let inner_return = mk(&mut a, K::ReturnStatement, |_| {});
    let inner_body = mk(&mut a, K::Block, |n| n.children = vec![inner_return]);
    let inner = mk(&mut a, K::FunctionDeclaration, |n| {
        n.body = Some(inner_body);
        n.children = vec![inner_body];
    });
    let r2 = mk(&mut a, K::ReturnStatement, |_| {});
    let body = mk(&mut a, K::Block, |n| n.children = vec![if_statement, inner, r2]);
    assert_eq!(return_statements(&a, body), vec![r1, r2]);
    assert_eq!(return_statements(&a, r2), vec![r2]);
    assert_eq!(return_statements(&a, cond), Vec::<usize>::new());
}

fn require_call(a: &mut Ast, module: &[u8]) -> (usize, usize) {
    let callee = at(a, K::Identifier, b"require", 0);
    let lit = at(a, K::StringLiteral, module, 8);
    let call = mk(a, K::CallExpression, |n| {
        n.expression = Some(callee);
        n.arguments = Some(vec![lit]);
        n.children = vec![callee, lit];
    });
    (call, lit)
}

#[test]
fn bare_and_accessed_requires_give_their_module_specifier() {
    let mut a = Ast::new();
    let (call, lit) = require_call(&mut a, b"m");
    let x = at(&mut a, K::Identifier, b"x", 0);
    let bare = mk(&mut a, K::VariableDeclaration, |n| {
        n.name = Some(x);
        n.initializer = Some(call);
        n.children = vec![x, call];
    });
    assert_eq!(get_module_specifier_of_bare_or_accessed_require(&a, bare), Some(lit));

    let (call2, lit2) = require_call(&mut a, b"n");
    let member = at(&mut a, K::Identifier, b"y", 0);
    let access = mk(&mut a, K::PropertyAccessExpression, |n| {
        n.expression = Some(call2);
        n.name = Some(member);
        n.children = vec![call2, member];
    });
    let y = at(&mut a, K::Identifier, b"y", 0);
    let accessed = mk(&mut a, K::VariableDeclaration, |n| {
        n.name = Some(y);
        n.initializer = Some(access);
        n.children = vec![y, access];
    });
    assert_eq!(get_module_specifier_of_bare_or_accessed_require(&a, accessed), Some(lit2));

    let other = at(&mut a, K::Identifier, b"z", 0);
    let plain = at(&mut a, K::Identifier, b"w", 0);
    let not_require = mk(&mut a, K::VariableDeclaration, |n| {
        n.name = Some(other);
        n.initializer = Some(plain);
        n.children = vec![other, plain];
    });
    assert_eq!(get_module_specifier_of_bare_or_accessed_require(&a, not_require), None);
    assert_eq!(get_module_specifier_of_bare_or_accessed_require(&a, call), None);
}
