use tsr_ast::ast::{Ast, Node};
use tsr_ast::modifier_update::replace_modifiers;
use tsr_ast::syntax_kind::SyntaxKind as K;

fn mk(ast: &mut Ast, kind: K, f: impl FnOnce(&mut Node)) -> usize {
    let mut n = Node::new(kind, 0, 0);
    f(&mut n);
    ast.push(n).expect("links name existing nodes")
}

#[test]
fn the_same_modifiers_keep_the_node_and_new_ones_make_a_new_node() {
    let mut a = Ast::new();
    let export = mk(&mut a, K::ExportKeyword, |_| {});
    let name = mk(&mut a, K::Identifier, |n| n.text = b"C".to_vec());
    let class = mk(&mut a, K::ClassDeclaration, |n| {
        n.modifiers = Some(vec![export]);
        n.name = Some(name);
        n.children = vec![export, name];
    });
    let count = a.len();
    assert_eq!(replace_modifiers(&mut a, class, Some(vec![export])), class);
    assert_eq!(a.len(), count);

    let declare = mk(&mut a, K::DeclareKeyword, |_| {});
    let updated = replace_modifiers(&mut a, class, Some(vec![declare]));
    assert_ne!(updated, class);
    let n = a.node(updated);
    assert_eq!(n.kind, K::ClassDeclaration);
    assert_eq!(n.name, Some(name));
    assert_eq!(n.modifiers, Some(vec![declare]));
    assert_eq!(n.children, vec![declare, name]);
    assert_eq!(a.parent(declare), Some(updated));
    assert_eq!(a.parent(name), Some(updated));
    // The old modifier is no child of the updated node and keeps its parent.
    assert_eq!(a.parent(export), Some(class));
    // Replacing again with the same list returns the updated node itself.
    assert_eq!(replace_modifiers(&mut a, updated, Some(vec![declare])), updated);
    // Removing the modifiers is a change too.
    let bare = replace_modifiers(&mut a, updated, None);
    assert_eq!(a.node(bare).modifiers, None);
    assert_eq!(a.node(bare).children, vec![name]);
}

#[test]
fn a_parameter_keeps_its_question_token_name_and_type() {
    let mut a = Ast::new();
    let x = mk(&mut a, K::Identifier, |n| n.text = b"x".to_vec());
    let q = mk(&mut a, K::QuestionToken, |_| {});
    let t = mk(&mut a, K::NumberKeyword, |_| {});
    let p = mk(&mut a, K::Parameter, |n| {
        n.name = Some(x);
        n.postfix_token = Some(q);
        n.type_node = Some(t);
        n.children = vec![x, q, t];
    });
    let public = mk(&mut a, K::PublicKeyword, |_| {});
    let r = replace_modifiers(&mut a, p, Some(vec![public]));
    let n = a.node(r);
    assert_eq!(n.kind, K::Parameter);
    assert_eq!(n.modifiers, Some(vec![public]));
    assert_eq!(n.name, Some(x));
    assert_eq!(n.postfix_token, Some(q));
    assert!(!n.has_dot_dot_dot);
    assert_eq!(n.type_node, Some(t));
    assert_eq!(n.initializer, None);
}

#[test]
fn arrows_methods_and_type_parameters_keep_their_other_tokens() {
    let mut a = Ast::new();
    let arrow_token = mk(&mut a, K::EqualsGreaterThanToken, |_| {});
    let body = mk(&mut a, K::Block, |_| {});
    let arrow = mk(&mut a, K::ArrowFunction, |n| {
        n.equals_greater_than_token = Some(arrow_token);
        n.body = Some(body);
        n.children = vec![arrow_token, body];
    });
    let signature = mk(&mut a, K::FunctionType, |_| {});
    let name = mk(&mut a, K::Identifier, |n| n.text = b"m".to_vec());
    let method = mk(&mut a, K::MethodDeclaration, |n| {
        n.name = Some(name);
        n.full_signature = Some(signature);
        n.children = vec![name];
    });
    let default = mk(&mut a, K::StringKeyword, |_| {});
    let tname = mk(&mut a, K::Identifier, |n| n.text = b"T".to_vec());
    let tp = mk(&mut a, K::TypeParameter, |n| {
        n.name = Some(tname);
        n.default_type = Some(default);
        n.children = vec![tname, default];
    });
    let async_kw = mk(&mut a, K::AsyncKeyword, |_| {});
    let r = replace_modifiers(&mut a, arrow, Some(vec![async_kw]));
    assert_eq!(a.node(r).equals_greater_than_token, Some(arrow_token));
    let r = replace_modifiers(&mut a, method, Some(vec![async_kw]));
    assert_eq!(a.node(r).full_signature, Some(signature));
    let const_kw = mk(&mut a, K::ConstKeyword, |_| {});
    let r = replace_modifiers(&mut a, tp, Some(vec![const_kw]));
    assert_eq!(a.node(r).default_type, Some(default));
}
