use tsr_ast::ast::{Ast, Node};
use tsr_ast::node_flags;
use tsr_ast::outer_expressions as o;
use tsr_ast::outer_expressions::{is_jsdoc_type_assertion, is_outer_expression, skip_outer_expressions};
use tsr_ast::syntax_kind::SyntaxKind as K;

fn add(ast: &mut Ast, node: Node) -> usize {
    ast.push(node).expect("links name existing nodes")
}

fn leaf(ast: &mut Ast, text: &[u8]) -> usize {
    let mut n = Node::new(K::Identifier, 0, 0);
    n.text = text.to_vec();
    add(ast, n)
}

fn wrap(ast: &mut Ast, kind: K, expression: usize, type_node: Option<usize>) -> usize {
    let mut n = Node::new(kind, 0, 0);
    n.expression = Some(expression);
    n.type_node = type_node;
    add(ast, n)
}

fn binary(ast: &mut Ast, left: usize, operator: usize, right: usize) -> usize {
    let mut n = Node::new(K::BinaryExpression, 0, 0);
    n.left = Some(left);
    n.operator_token = Some(operator);
    n.right = Some(right);
    add(ast, n)
}

#[test]
fn outer_masks_select_the_pinned_operand_and_stop_at_other_kinds() {
    let mut f = Ast::new();
    let leaf_node = leaf(&mut f, b"x");
    let ty = add(&mut f, Node::new(K::NumberKeyword, 0, 0));
    let paren = wrap(&mut f, K::ParenthesizedExpression, leaf_node, None);
    let as_expr = wrap(&mut f, K::AsExpression, leaf_node, Some(ty));
    let assertion = wrap(&mut f, K::TypeAssertionExpression, leaf_node, Some(ty));
    let non_null = wrap(&mut f, K::NonNullExpression, leaf_node, None);
    let partial = wrap(&mut f, K::PartiallyEmittedExpression, leaf_node, None);
    let satisfies = wrap(&mut f, K::SatisfiesExpression, leaf_node, Some(ty));
    let with_types = wrap(&mut f, K::ExpressionWithTypeArguments, leaf_node, None);
    let left = leaf(&mut f, b"left");
    let equal = add(&mut f, Node::new(K::EqualsToken, 0, 0));
    let comma = add(&mut f, Node::new(K::CommaToken, 0, 0));
    let plus = add(&mut f, Node::new(K::PlusToken, 0, 0));
    let assignment = binary(&mut f, left, equal, leaf_node);
    let sequence = binary(&mut f, left, comma, leaf_node);
    let addition = binary(&mut f, left, plus, leaf_node);
    for (node, masks) in [
        (paren, o::PARENTHESES),
        (as_expr, o::TYPE_ASSERTIONS),
        (assertion, o::TYPE_ASSERTIONS),
        (non_null, o::NON_NULL_ASSERTIONS),
        (partial, o::PARTIALLY_EMITTED_EXPRESSIONS),
        (satisfies, o::SATISFIES | o::EXPRESSIONS_WITH_TYPE_ARGUMENTS),
        (with_types, o::EXPRESSIONS_WITH_TYPE_ARGUMENTS),
        (assignment, o::ASSIGNMENTS),
        (sequence, o::COMMA),
    ] {
        for bit in 0..9 {
            let mask: u16 = 1 << bit;
            let expected = masks & mask != 0;
            assert_eq!(is_outer_expression(&f, node, mask), expected);
            assert_eq!(
                skip_outer_expressions(&f, node, mask),
                if expected { leaf_node } else { node }
            );
        }
    }
    assert_eq!(skip_outer_expressions(&f, addition, u16::MAX), addition);
    assert!(!is_jsdoc_type_assertion(&f, None));
}

#[test]
fn jsdoc_assertion_exclusion_requires_js_parentheses_as_and_reparsed_type() {
    let mut f = Ast::new();
    let leaf_node = leaf(&mut f, b"x");
    let ty = add(&mut f, Node::new(K::NumberKeyword, 0, 0));
    let cast = wrap(&mut f, K::AsExpression, leaf_node, Some(ty));
    let outer = wrap(&mut f, K::ParenthesizedExpression, cast, None);
    let mask = o::PARENTHESES | o::EXCLUDE_JSDOC_TYPE_ASSERTION;
    assert!(!is_jsdoc_type_assertion(&f, Some(outer)));
    f.nodes[ty].flags = node_flags::REPARSED;
    assert!(!is_jsdoc_type_assertion(&f, Some(outer)));
    f.nodes[outer].flags = node_flags::JAVA_SCRIPT_FILE;
    assert!(is_jsdoc_type_assertion(&f, Some(outer)));
    assert_eq!(skip_outer_expressions(&f, outer, mask), outer);
    assert_eq!(skip_outer_expressions(&f, outer, o::PARENTHESES), cast);
    assert!(!is_jsdoc_type_assertion(&f, Some(cast)));
}

#[test]
fn nested_wrappers_are_skipped_down_to_the_entity_only_under_their_masks() {
    let mut f = Ast::new();
    let entity = leaf(&mut f, b"entity");
    let assertion = wrap(&mut f, K::AsExpression, entity, None);
    let parentheses = wrap(&mut f, K::ParenthesizedExpression, assertion, None);
    let satisfies = wrap(&mut f, K::SatisfiesExpression, entity, None);
    let ignored = leaf(&mut f, b"ignored");
    let equal = add(&mut f, Node::new(K::EqualsToken, 0, 0));
    let comma = add(&mut f, Node::new(K::CommaToken, 0, 0));
    let assignment = binary(&mut f, ignored, equal, entity);
    let sequence = binary(&mut f, ignored, comma, assignment);
    assert_eq!(skip_outer_expressions(&f, parentheses, 0), parentheses);
    assert_eq!(skip_outer_expressions(&f, parentheses, o::PARENTHESES), assertion);
    assert_eq!(skip_outer_expressions(&f, parentheses, o::PARENTHESES | o::TYPE_ASSERTIONS), entity);
    assert_eq!(skip_outer_expressions(&f, satisfies, o::EXPRESSIONS_WITH_TYPE_ARGUMENTS), entity);
    assert_eq!(skip_outer_expressions(&f, sequence, o::EXPRESSION_TYPE_PASSTHROUGH), entity);
    assert_eq!(skip_outer_expressions(&f, sequence, o::COMMA), assignment);
    assert_eq!(skip_outer_expressions(&f, sequence, o::ALL), sequence);
}

#[test]
fn jsdoc_cast_parentheses_stay_even_when_every_other_wrapper_is_skipped() {
    let mut f = Ast::new();
    let entity = leaf(&mut f, b"entity");
    let ty = add(&mut f, Node::new(K::StringKeyword, 0, 0));
    f.nodes[ty].flags = node_flags::REPARSED;
    let assertion = wrap(&mut f, K::AsExpression, entity, Some(ty));
    let parentheses = wrap(&mut f, K::ParenthesizedExpression, assertion, None);
    f.nodes[parentheses].flags = node_flags::JAVA_SCRIPT_FILE;
    assert_eq!(skip_outer_expressions(&f, parentheses, o::ALL | o::EXCLUDE_JSDOC_TYPE_ASSERTION), parentheses);
    assert_eq!(skip_outer_expressions(&f, parentheses, o::ALL), entity);
}
