//! Outer expressions: the wrappers (parentheses, assertions, non-null,
//! partially emitted, `satisfies`, assignments, commas) that a reader may
//! look through, selected by a mask.
use vstd::prelude::*;
use crate::ast::Ast;
use crate::node_flags;
use crate::node_utils::lemma_links;
use crate::syntax_kind::SyntaxKind;

verus! {

pub const PARENTHESES: u16 = 1;
pub const TYPE_ASSERTIONS: u16 = 2;
pub const NON_NULL_ASSERTIONS: u16 = 4;
pub const PARTIALLY_EMITTED_EXPRESSIONS: u16 = 8;
pub const EXPRESSIONS_WITH_TYPE_ARGUMENTS: u16 = 16;
pub const SATISFIES: u16 = 32;
pub const EXCLUDE_JSDOC_TYPE_ASSERTION: u16 = 64;
pub const ASSIGNMENTS: u16 = 128;
pub const COMMA: u16 = 256;
/// `TYPE_ASSERTIONS | NON_NULL_ASSERTIONS | SATISFIES`.
pub const ASSERTIONS: u16 = 38;
/// `PARENTHESES | ASSERTIONS | PARTIALLY_EMITTED_EXPRESSIONS | EXPRESSIONS_WITH_TYPE_ARGUMENTS`.
pub const ALL: u16 = 63;
/// `ALL` without `ASSERTIONS` and `EXPRESSIONS_WITH_TYPE_ARGUMENTS`.
pub const ALL_EXCEPT_ASSERTIONS_OR_EXPRESSIONS_WITH_TYPE_ARGUMENTS: u16 = 9;
/// `PARENTHESES | ASSIGNMENTS | COMMA`.
pub const EXPRESSION_TYPE_PASSTHROUGH: u16 = 385;

/// A JavaScript parenthesized `as` expression whose type came from a JSDoc
/// cast (`/** @type {T} */ (x)`).
pub open spec fn spec_is_jsdoc_type_assertion(ast: &Ast, node: Option<usize>) -> bool {
    match node {
        None => false,
        Some(i) => {
            let n = ast.nd(i as int);
            &&& n.kind == SyntaxKind::ParenthesizedExpression
            &&& n.flags & node_flags::JAVA_SCRIPT_FILE != 0
            &&& n.expression matches Some(e)
            &&& ast.kind_of(e as int) == SyntaxKind::AsExpression
            &&& ast.nd(e as int).type_node matches Some(t)
            &&& ast.nd(t as int).flags & node_flags::REPARSED != 0
        },
    }
}

pub fn is_jsdoc_type_assertion(ast: &Ast, node: Option<usize>) -> (r: bool)
    requires
        ast.wf(),
        node matches Some(i) ==> ast.has(i as int),
    ensures
        r == spec_is_jsdoc_type_assertion(ast, node),
{
    let i = match node {
        None => return false,
        Some(i) => i,
    };
    proof { lemma_links(ast, i as int); }
    let n = ast.node(i);
    if n.kind != SyntaxKind::ParenthesizedExpression || n.flags & node_flags::JAVA_SCRIPT_FILE == 0 {
        return false;
    }
    let e = match n.expression {
        None => return false,
        Some(e) => e,
    };
    proof { lemma_links(ast, e as int); }
    if ast.kind(e) != SyntaxKind::AsExpression {
        return false;
    }
    match ast.node(e).type_node {
        None => false,
        Some(t) => ast.node(t).flags & node_flags::REPARSED != 0,
    }
}

/// Whether `i` is a wrapper that `kinds` looks through.
pub open spec fn spec_is_outer_expression(ast: &Ast, i: int, kinds: u16) -> bool {
    let n = ast.nd(i);
    let k = n.kind;
    if k == SyntaxKind::ParenthesizedExpression {
        kinds & PARENTHESES != 0 && !(kinds & EXCLUDE_JSDOC_TYPE_ASSERTION != 0 && spec_is_jsdoc_type_assertion(
            ast,
            Some(i as usize),
        ))
    } else if k == SyntaxKind::TypeAssertionExpression || k == SyntaxKind::AsExpression {
        kinds & TYPE_ASSERTIONS != 0
    } else if k == SyntaxKind::SatisfiesExpression {
        kinds & (EXPRESSIONS_WITH_TYPE_ARGUMENTS | SATISFIES) != 0
    } else if k == SyntaxKind::ExpressionWithTypeArguments {
        kinds & EXPRESSIONS_WITH_TYPE_ARGUMENTS != 0
    } else if k == SyntaxKind::NonNullExpression {
        kinds & NON_NULL_ASSERTIONS != 0
    } else if k == SyntaxKind::PartiallyEmittedExpression {
        kinds & PARTIALLY_EMITTED_EXPRESSIONS != 0
    } else if k == SyntaxKind::BinaryExpression {
        match n.operator_token {
            None => false,
            Some(op) => if ast.kind_of(op as int) == SyntaxKind::CommaToken {
                kinds & COMMA != 0
            } else if ast.kind_of(op as int) == SyntaxKind::EqualsToken {
                kinds & ASSIGNMENTS != 0
            } else {
                false
            },
        }
    } else {
        false
    }
}

pub fn is_outer_expression(ast: &Ast, node: usize, kinds: u16) -> (r: bool)
    requires
        ast.wf(),
        ast.has(node as int),
    ensures
        r == spec_is_outer_expression(ast, node as int, kinds),
{
    proof { lemma_links(ast, node as int); }
    let n = ast.node(node);
    match n.kind {
        SyntaxKind::ParenthesizedExpression => kinds & PARENTHESES != 0 && !(kinds
            & EXCLUDE_JSDOC_TYPE_ASSERTION != 0 && is_jsdoc_type_assertion(ast, Some(node))),
        SyntaxKind::TypeAssertionExpression | SyntaxKind::AsExpression => kinds & TYPE_ASSERTIONS != 0,
        SyntaxKind::SatisfiesExpression => kinds & (EXPRESSIONS_WITH_TYPE_ARGUMENTS | SATISFIES) != 0,
        SyntaxKind::ExpressionWithTypeArguments => kinds & EXPRESSIONS_WITH_TYPE_ARGUMENTS != 0,
        SyntaxKind::NonNullExpression => kinds & NON_NULL_ASSERTIONS != 0,
        SyntaxKind::PartiallyEmittedExpression => kinds & PARTIALLY_EMITTED_EXPRESSIONS != 0,
        SyntaxKind::BinaryExpression => match n.operator_token {
            None => false,
            Some(op) => {
                let ok = ast.kind(op);
                if ok == SyntaxKind::CommaToken {
                    kinds & COMMA != 0
                } else if ok == SyntaxKind::EqualsToken {
                    kinds & ASSIGNMENTS != 0
                } else {
                    false
                }
            },
        },
        _ => false,
    }
}

/// The operand a wrapper wraps: the right side of a binary expression, the
/// expression of any other.
pub open spec fn spec_outer_operand(ast: &Ast, i: int) -> Option<usize> {
    if ast.kind_of(i) == SyntaxKind::BinaryExpression {
        ast.nd(i).right
    } else {
        ast.nd(i).expression
    }
}

/// What is left once every wrapper that `kinds` looks through is removed;
/// `None` when a wrapper has no operand.
pub open spec fn spec_skip_outer_expressions(ast: &Ast, i: int, kinds: u16) -> Option<usize>
    decreases i,
{
    if !ast.has(i) {
        None
    } else if !spec_is_outer_expression(ast, i, kinds) {
        Some(i as usize)
    } else {
        match spec_outer_operand(ast, i) {
            Some(e) => if e < i { spec_skip_outer_expressions(ast, e as int, kinds) } else { None },
            None => None,
        }
    }
}

pub fn skip_outer_expressions(ast: &Ast, node: usize, kinds: u16) -> (r: usize)
    requires
        ast.wf(),
        ast.has(node as int),
        spec_skip_outer_expressions(ast, node as int, kinds) is Some,
    ensures
        Some(r) == spec_skip_outer_expressions(ast, node as int, kinds),
        ast.has(r as int),
{
    let mut cur = node;
    loop
        invariant
            ast.wf(),
            ast.has(cur as int),
            spec_skip_outer_expressions(ast, node as int, kinds) == spec_skip_outer_expressions(ast, cur as int, kinds),
            spec_skip_outer_expressions(ast, cur as int, kinds) is Some,
        decreases cur,
    {
        if !is_outer_expression(ast, cur, kinds) {
            return cur;
        }
        proof { lemma_links(ast, cur as int); }
        let n = ast.node(cur);
        cur = if n.kind == SyntaxKind::BinaryExpression {
            n.right.unwrap()
        } else {
            n.expression.unwrap()
        };
    }
}


/// Skipping outer expressions ends at a node that is not one, so skipping
/// again changes nothing.
pub proof fn lemma_skip_outer_expressions_idempotent(ast: &Ast, i: int, kinds: u16)
    requires
        ast.wf(),
        ast.has(i),
        spec_skip_outer_expressions(ast, i, kinds) is Some,
    ensures
        ({
            let r = spec_skip_outer_expressions(ast, i, kinds).unwrap() as int;
            &&& ast.has(r)
            &&& !spec_is_outer_expression(ast, r, kinds)
            &&& spec_skip_outer_expressions(ast, r, kinds) == Some(r as usize)
        }),
    decreases i,
{
    assert(ast.nodes@.len() == ast.nodes.len());
    if spec_is_outer_expression(ast, i, kinds) {
        let e = spec_outer_operand(ast, i).unwrap();
        lemma_skip_outer_expressions_idempotent(ast, e as int, kinds);
    }
}

} // verus!
