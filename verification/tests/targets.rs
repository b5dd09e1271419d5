use tsr_ast::ast::{Ast, Node};
use tsr_ast::node_flags;
use tsr_ast::syntax_kind::SyntaxKind as K;
use tsr_ast::targets::{
    get_js_doc_deprecated_tag, is_call_expression_target, is_call_or_new_expression_target, is_decorator_target,
    is_deprecated_declaration, is_deprecated_declaration_with_cached_flags, is_let, is_new_expression_target,
    is_prototype_access, is_tagged_template_tag,
};

fn mk(ast: &mut Ast, kind: K, f: impl FnOnce(&mut Node)) -> usize {
    let mut n = Node::new(kind, 0, 0);
    f(&mut n);
    ast.push(n).expect("links name existing nodes")
}

fn ident(ast: &mut Ast, t: &[u8]) -> usize {
    mk(ast, K::Identifier, |n| n.text = t.to_vec())
}

#[test]
fn a_callee_is_a_call_target_and_not_a_new_target() {
    let mut a = Ast::new();
    let f = ident(&mut a, b"f");
    let _call = mk(&mut a, K::CallExpression, |n| {
        n.expression = Some(f);
        n.children = vec![f];
    });
    assert!(is_call_expression_target(&a, f, false, false));
    assert!(!is_new_expression_target(&a, f, false, false));
    assert!(is_call_or_new_expression_target(&a, f, false, false));
    let g = ident(&mut a, b"g");
    let _new = mk(&mut a, K::NewExpression, |n| {
        n.expression = Some(g);
        n.children = vec![g];
    });
    assert!(is_new_expression_target(&a, g, false, false));
    assert!(!is_call_expression_target(&a, g, false, false));
}

#[test]
fn a_property_name_climbs_to_its_access_and_skipping_reads_the_inner_operand() {
    let mut a = Ast::new();
    let obj = ident(&mut a, b"a");
    let name = ident(&mut a, b"b");
    let access = mk(&mut a, K::PropertyAccessExpression, |n| {
        n.expression = Some(obj);
        n.name = Some(name);
        n.children = vec![obj, name];
    });
    let _call = mk(&mut a, K::CallExpression, |n| {
        n.expression = Some(access);
        n.children = vec![access];
    });
    assert!(is_call_expression_target(&a, name, false, false));
    assert!(!is_call_expression_target(&a, obj, false, false));

    let f = ident(&mut a, b"f");
    let paren = mk(&mut a, K::ParenthesizedExpression, |n| {
        n.expression = Some(f);
        n.children = vec![f];
    });
    let _call2 = mk(&mut a, K::CallExpression, |n| {
        n.expression = Some(paren);
        n.children = vec![paren];
    });
    assert!(!is_call_expression_target(&a, f, false, false));
    assert!(is_call_expression_target(&a, paren, false, false));
    // Skipping goes down to the parenthesized operand, whose parent is not the call.
    assert!(!is_call_expression_target(&a, paren, false, true));

    let obj2 = ident(&mut a, b"o");
    let key = mk(&mut a, K::StringLiteral, |n| n.text = b"k".to_vec());
    let element = mk(&mut a, K::ElementAccessExpression, |n| {
        n.expression = Some(obj2);
        n.argument = Some(key);
        n.children = vec![obj2, key];
    });
    let _call3 = mk(&mut a, K::CallExpression, |n| {
        n.expression = Some(element);
        n.children = vec![element];
    });
    assert!(is_call_expression_target(&a, key, true, false));
    assert!(!is_call_expression_target(&a, key, false, false));
}

#[test]
fn tags_and_decorators_are_callees_of_their_own_forms() {
    let mut a = Ast::new();
    let tag = ident(&mut a, b"html");
    let _tagged = mk(&mut a, K::TaggedTemplateExpression, |n| {
        n.tag_name = Some(tag);
        n.children = vec![tag];
    });
    assert!(is_tagged_template_tag(&a, tag, false, false));
    assert!(!is_call_expression_target(&a, tag, false, false));
    let d = ident(&mut a, b"sealed");
    let _decorator = mk(&mut a, K::Decorator, |n| {
        n.expression = Some(d);
        n.children = vec![d];
    });
    assert!(is_decorator_target(&a, d, false, false));
}

#[test]
fn prototype_accesses_by_name_and_by_literal() {
    let mut a = Ast::new();
    let c = ident(&mut a, b"C");
    let p = ident(&mut a, b"prototype");
    let access = mk(&mut a, K::PropertyAccessExpression, |n| {
        n.expression = Some(c);
        n.name = Some(p);
    });
    assert!(is_prototype_access(&a, access));
    let c2 = ident(&mut a, b"C");
    let lit = mk(&mut a, K::StringLiteral, |n| n.text = b"prototype".to_vec());
    let element = mk(&mut a, K::ElementAccessExpression, |n| {
        n.expression = Some(c2);
        n.argument = Some(lit);
    });
    assert!(is_prototype_access(&a, element));
    let c3 = ident(&mut a, b"C");
    let q = ident(&mut a, b"proto");
    let other = mk(&mut a, K::PropertyAccessExpression, |n| {
        n.expression = Some(c3);
        n.name = Some(q);
    });
    assert!(!is_prototype_access(&a, other));
}

#[test]
fn a_deprecated_tag_marks_its_declaration_deprecated() {
    let mut a = Ast::new();
    let tag = mk(&mut a, K::JSDocDeprecatedTag, |_| {});
    let doc = mk(&mut a, K::JSDoc, |n| n.tags = Some(vec![tag]));
    let name = ident(&mut a, b"f");
    let f = mk(&mut a, K::FunctionDeclaration, |n| {
        n.name = Some(name);
        n.jsdoc = vec![doc];
        n.flags = node_flags::POSSIBLY_CONTAINS_DEPRECATED_TAG;
        n.children = vec![name];
    });
    assert_eq!(get_js_doc_deprecated_tag(&a, f), Some(tag));
    assert!(is_deprecated_declaration(&a, f));
    assert!(!is_deprecated_declaration_with_cached_flags(&a, f, 0));
    let doc2 = mk(&mut a, K::JSDoc, |n| n.tags = Some(vec![]));
    let g = mk(&mut a, K::FunctionDeclaration, |n| {
        n.jsdoc = vec![doc2];
        n.flags = node_flags::POSSIBLY_CONTAINS_DEPRECATED_TAG;
    });
    assert_eq!(get_js_doc_deprecated_tag(&a, g), None);
    assert!(!is_deprecated_declaration(&a, g));
}

fn variable(a: &mut Ast, list_flags: u32) -> usize {
    let x = ident(a, b"x");
    let decl = mk(a, K::VariableDeclaration, |n| {
        n.name = Some(x);
        n.children = vec![x];
    });
    let list = mk(a, K::VariableDeclarationList, |n| {
        n.flags = list_flags;
        n.declarations = Some(vec![decl]);
        n.children = vec![decl];
    });
    let _statement = mk(a, K::VariableStatement, |n| {
        n.declaration_list = Some(list);
        n.children = vec![list];
    });
    decl
}

#[test]
fn let_is_read_from_the_declaration_list() {
    let mut a = Ast::new();
    let l = variable(&mut a, node_flags::LET);
    let c = variable(&mut a, node_flags::CONST);
    assert!(is_let(&a, l));
    assert!(!is_let(&a, c));
}
