//! Property names, callee targets, JSX tags, JSDoc deprecation and iteration statements.
use vstd::prelude::*;
use crate::ast::Ast;
use crate::kind_classes::{is_string_or_numeric_literal_like_kind, spec_is_string_or_numeric_literal_like};
use crate::kind_classes::{
    is_call_or_new_expression_kind, is_jsx_opening_like_element_kind, spec_is_call_or_new_expression,
    spec_is_expression, spec_is_jsx_opening_like_element,
};
use crate::class_utils::spec_first_of_kind;
use crate::node_flags;
use crate::node_utils::{
    bytes_equal, get_combined_node_flags, is_signed_numeric_literal, lemma_links, lemma_pp,
    spec_combined_node_flags, spec_is_signed_numeric_literal, spec_root_requires,
};
use crate::outer_expressions::{self, skip_outer_expressions, spec_skip_outer_expressions};
use crate::positions::{is_expression, spec_skip_partially_emitted};
use crate::syntax_kind::SyntaxKind;

verus! {

/// A copy of a byte string.
pub fn copy_bytes(v: &Vec<u8>) -> (r: Vec<u8>)
    ensures
        r@ == v@,
{
    let mut out: Vec<u8> = Vec::new();
    let mut i: usize = 0;
    while i < v.len()
        invariant
            i <= v@.len(),
            out@ == v@.subrange(0, i as int),
        decreases v@.len() - i,
    {
        out.push(v[i]);
        proof { assert(v@.subrange(0, i + 1) == v@.subrange(0, i as int).push(v@[i as int])); }
        i = i + 1;
    }
    proof { assert(v@.subrange(0, i as int) == v@); }
    out
}

/// Appends `src` to `dst`.
pub fn append_bytes(dst: &mut Vec<u8>, src: &Vec<u8>)
    ensures
        final(dst)@ == old(dst)@ + src@,
{
    let mut i: usize = 0;
    while i < src.len()
        invariant
            i <= src@.len(),
            dst@ == old(dst)@ + src@.subrange(0, i as int),
        decreases src@.len() - i,
    {
        dst.push(src[i]);
        proof { assert(src@.subrange(0, i + 1) == src@.subrange(0, i as int).push(src@[i as int])); }
        i = i + 1;
    }
    proof { assert(src@.subrange(0, i as int) == src@); }
}

/// The internal name of a property whose computed name has no static text.
pub open spec fn missing_name() -> Seq<u8> {
    seq![95u8, 95u8, 109u8, 105u8, 115u8, 115u8, 105u8, 110u8, 103u8]
}

pub open spec fn text_of(ast: &Ast, i: int) -> Seq<u8> {
    ast.nd(i).text@
}

/// The names whose text is their property name.
pub open spec fn spec_is_plain_property_name(k: SyntaxKind) -> bool {
    k == SyntaxKind::Identifier || k == SyntaxKind::PrivateIdentifier || k == SyntaxKind::StringLiteral || k
        == SyntaxKind::NoSubstitutionTemplateLiteral || k == SyntaxKind::NumericLiteral || k
        == SyntaxKind::BigIntLiteral || k == SyntaxKind::JsxNamespacedName
}

/// The names `get_property_name_for_property_name_node` accepts.
pub open spec fn spec_property_name_node_ok(ast: &Ast, name: int) -> bool {
    spec_is_plain_property_name(ast.kind_of(name)) || (ast.kind_of(name) == SyntaxKind::ComputedPropertyName
        && ast.nd(name).expression is Some)
}

/// The property name a name node stands for: its text; for a computed name,
/// the text of a literal expression, of a signed numeric literal (with its
/// minus), or the missing-name marker.
pub open spec fn spec_property_name_for(ast: &Ast, name: int) -> Seq<u8> {
    if spec_is_plain_property_name(ast.kind_of(name)) {
        text_of(ast, name)
    } else {
        let e = ast.nd(name).expression.unwrap() as int;
        if spec_is_string_or_numeric_literal_like(ast.kind_of(e)) {
            text_of(ast, e)
        } else if spec_is_signed_numeric_literal(ast, e) {
            let operand_text = text_of(ast, ast.nd(e).operand.unwrap() as int);
            if ast.nd(e).token == SyntaxKind::MinusToken {
                seq![45u8] + operand_text
            } else {
                operand_text
            }
        } else {
            missing_name()
        }
    }
}

pub fn get_property_name_for_property_name_node(ast: &Ast, name: usize) -> (r: Vec<u8>)
    requires
        ast.wf(),
        ast.has(name as int),
        spec_property_name_node_ok(ast, name as int),
    ensures
        r@ == spec_property_name_for(ast, name as int),
{
    proof { lemma_links(ast, name as int); }
    let n = ast.node(name);
    match n.kind {
        SyntaxKind::Identifier | SyntaxKind::PrivateIdentifier | SyntaxKind::StringLiteral
        | SyntaxKind::NoSubstitutionTemplateLiteral | SyntaxKind::NumericLiteral
        | SyntaxKind::BigIntLiteral | SyntaxKind::JsxNamespacedName => copy_bytes(&n.text),
        _ => {
            let e = n.expression.unwrap();
            proof { lemma_links(ast, e as int); }
            if is_string_or_numeric_literal_like_kind(ast.kind(e)) {
                return copy_bytes(&ast.node(e).text);
            }
            if is_signed_numeric_literal(ast, e) {
                let en = ast.node(e);
                let operand = en.operand.unwrap();
                let mut t: Vec<u8> = Vec::new();
                if en.token == SyntaxKind::MinusToken {
                    t.push(45u8);
                }
                append_bytes(&mut t, &ast.node(operand).text);
                proof {
                    if en.token != SyntaxKind::MinusToken {
                        assert(t@ == Seq::<u8>::empty() + text_of(ast, operand as int));
                        assert(Seq::<u8>::empty() + text_of(ast, operand as int) =~= text_of(ast, operand as int));
                    }
                }
                return t;
            }
            let missing: Vec<u8> = vec![95u8, 95u8, 109u8, 105u8, 115u8, 115u8, 105u8, 110u8, 103u8];
            proof { assert(missing@ =~= missing_name()); }
            missing
        },
    }
}

/// The static text of a property name, if it has one.
pub open spec fn spec_try_text_of_property_name(ast: &Ast, name: int) -> Option<Seq<u8>> {
    let n = ast.nd(name);
    match n.kind {
        SyntaxKind::Identifier | SyntaxKind::PrivateIdentifier | SyntaxKind::StringLiteral
        | SyntaxKind::NumericLiteral | SyntaxKind::BigIntLiteral
        | SyntaxKind::NoSubstitutionTemplateLiteral => Some(n.text@),
        SyntaxKind::ComputedPropertyName => {
            let e = n.expression.unwrap() as int;
            if spec_is_string_or_numeric_literal_like(ast.kind_of(e)) { Some(text_of(ast, e)) } else { None }
        },
        SyntaxKind::JsxNamespacedName => Some(
            text_of(ast, n.namespace.unwrap() as int) + seq![58u8] + text_of(ast, n.name.unwrap() as int),
        ),
        _ => None,
    }
}

/// The names `try_get_text_of_property_name` accepts: a computed name needs
/// its expression, a namespaced JSX name its namespace and name.
pub open spec fn spec_text_of_property_name_ok(ast: &Ast, name: int) -> bool {
    let n = ast.nd(name);
    (n.kind == SyntaxKind::ComputedPropertyName ==> n.expression is Some) && (n.kind
        == SyntaxKind::JsxNamespacedName ==> n.namespace is Some && n.name is Some)
}

pub fn try_get_text_of_property_name(ast: &Ast, name: usize) -> (r: Option<Vec<u8>>)
    requires
        ast.wf(),
        ast.has(name as int),
        spec_text_of_property_name_ok(ast, name as int),
    ensures
        match r {
            Some(t) => spec_try_text_of_property_name(ast, name as int) == Some(t@),
            None => spec_try_text_of_property_name(ast, name as int) is None,
        },
{
    proof { lemma_links(ast, name as int); }
    let n = ast.node(name);
    match n.kind {
        SyntaxKind::Identifier | SyntaxKind::PrivateIdentifier | SyntaxKind::StringLiteral
        | SyntaxKind::NumericLiteral | SyntaxKind::BigIntLiteral
        | SyntaxKind::NoSubstitutionTemplateLiteral => Some(copy_bytes(&n.text)),
        SyntaxKind::ComputedPropertyName => {
            let e = n.expression.unwrap();
            if is_string_or_numeric_literal_like_kind(ast.kind(e)) {
                Some(copy_bytes(&ast.node(e).text))
            } else {
                None
            }
        },
        SyntaxKind::JsxNamespacedName => {
            let mut t = copy_bytes(&ast.node(n.namespace.unwrap()).text);
            t.push(58u8);
            append_bytes(&mut t, &ast.node(n.name.unwrap()).text);
            Some(t)
        },
        _ => None,
    }
}

/// The static text of a property name, empty when it has none.
pub open spec fn spec_text_of_property_name(ast: &Ast, name: int) -> Seq<u8> {
    match spec_try_text_of_property_name(ast, name) {
        Some(t) => t,
        None => Seq::empty(),
    }
}

/// The static text of a property name, empty when it has none.
pub fn get_text_of_property_name(ast: &Ast, name: usize) -> (r: Vec<u8>)
    requires
        ast.wf(),
        ast.has(name as int),
        spec_text_of_property_name_ok(ast, name as int),
    ensures
        r@ == spec_text_of_property_name(ast, name as int),
{
    match try_get_text_of_property_name(ast, name) {
        Some(t) => t,
        None => Vec::new(),
    }
}

/// The text of a property name, case by case: an identifier, private
/// identifier or literal gives its own text; a computed name gives the text
/// of its expression when that is a literal and nothing otherwise; a JSX
/// namespaced name `ns:n` gives the text of `ns`, a colon and the text of
/// `n`; any other kind gives nothing.
pub proof fn lemma_text_of_property_name_cases(ast: &Ast, name: int)
    requires
        spec_text_of_property_name_ok(ast, name),
    ensures
        ({
            let n = ast.nd(name);
            let k = n.kind;
            let t = spec_text_of_property_name(ast, name);
            &&& (k == SyntaxKind::Identifier || k == SyntaxKind::PrivateIdentifier || k == SyntaxKind::StringLiteral
                || k == SyntaxKind::NumericLiteral || k == SyntaxKind::BigIntLiteral || k
                == SyntaxKind::NoSubstitutionTemplateLiteral) ==> t == text_of(ast, name)
            &&& (k == SyntaxKind::ComputedPropertyName && spec_is_string_or_numeric_literal_like(
                ast.kind_of(n.expression.unwrap() as int),
            )) ==> t == text_of(ast, n.expression.unwrap() as int)
            &&& spec_is_computed_non_literal_name(ast, name) ==> t == Seq::<u8>::empty()
            &&& k == SyntaxKind::JsxNamespacedName ==> t == text_of(ast, n.namespace.unwrap() as int) + seq![58u8]
                + text_of(ast, n.name.unwrap() as int)
            &&& !(k == SyntaxKind::Identifier || k == SyntaxKind::PrivateIdentifier || k == SyntaxKind::StringLiteral
                || k == SyntaxKind::NumericLiteral || k == SyntaxKind::BigIntLiteral || k
                == SyntaxKind::NoSubstitutionTemplateLiteral || k == SyntaxKind::ComputedPropertyName || k
                == SyntaxKind::JsxNamespacedName) ==> t == Seq::<u8>::empty()
        }),
{
}

/// A computed name whose expression is not a literal.
pub open spec fn spec_is_computed_non_literal_name(ast: &Ast, name: int) -> bool {
    ast.kind_of(name) == SyntaxKind::ComputedPropertyName && !spec_is_string_or_numeric_literal_like(
        ast.kind_of(ast.nd(name).expression.unwrap() as int))
}

pub fn is_computed_non_literal_name(ast: &Ast, name: usize) -> (r: bool)
    requires
        ast.wf(),
        ast.has(name as int),
        ast.kind_of(name as int) == SyntaxKind::ComputedPropertyName ==> ast.nd(name as int).expression is Some,
    ensures
        r == spec_is_computed_non_literal_name(ast, name as int),
{
    proof { lemma_links(ast, name as int); }
    let n = ast.node(name);
    n.kind == SyntaxKind::ComputedPropertyName && !is_string_or_numeric_literal_like_kind(
        ast.kind(n.expression.unwrap()))
}

/// The kinds whose type annotation `get_type_annotation_node` reads.
pub open spec fn spec_has_type_annotation_slot(k: SyntaxKind) -> bool {
    match k {
        SyntaxKind::VariableDeclaration | SyntaxKind::Parameter | SyntaxKind::PropertySignature
        | SyntaxKind::PropertyDeclaration | SyntaxKind::TypePredicate | SyntaxKind::ParenthesizedType
        | SyntaxKind::TypeOperator | SyntaxKind::MappedType | SyntaxKind::TypeAssertionExpression
        | SyntaxKind::AsExpression | SyntaxKind::SatisfiesExpression | SyntaxKind::TypeAliasDeclaration
        | SyntaxKind::JSTypeAliasDeclaration | SyntaxKind::NamedTupleMember | SyntaxKind::OptionalType
        | SyntaxKind::RestType | SyntaxKind::TemplateLiteralTypeSpan | SyntaxKind::JSDocTypeExpression
        | SyntaxKind::JSDocPropertyTag | SyntaxKind::JSDocNullableType | SyntaxKind::JSDocNonNullableType
        | SyntaxKind::JSDocOptionalType | SyntaxKind::GetAccessor | SyntaxKind::SetAccessor
        | SyntaxKind::ArrowFunction | SyntaxKind::CallSignature | SyntaxKind::ConstructSignature
        | SyntaxKind::Constructor | SyntaxKind::ConstructorType | SyntaxKind::FunctionDeclaration
        | SyntaxKind::FunctionExpression | SyntaxKind::FunctionType | SyntaxKind::IndexSignature
        | SyntaxKind::JSDocSignature | SyntaxKind::MethodDeclaration | SyntaxKind::MethodSignature => true,
        _ => false,
    }
}

/// The type annotation of a node that has one.
pub fn get_type_annotation_node(ast: &Ast, node: usize) -> (r: Option<usize>)
    requires
        ast.has(node as int),
    ensures
        r == if spec_has_type_annotation_slot(ast.kind_of(node as int)) {
            ast.nd(node as int).type_node
        } else {
            None
        },
{
    let n = ast.node(node);
    match n.kind {
        SyntaxKind::VariableDeclaration | SyntaxKind::Parameter | SyntaxKind::PropertySignature
        | SyntaxKind::PropertyDeclaration | SyntaxKind::TypePredicate | SyntaxKind::ParenthesizedType
        | SyntaxKind::TypeOperator | SyntaxKind::MappedType | SyntaxKind::TypeAssertionExpression
        | SyntaxKind::AsExpression | SyntaxKind::SatisfiesExpression | SyntaxKind::TypeAliasDeclaration
        | SyntaxKind::JSTypeAliasDeclaration | SyntaxKind::NamedTupleMember | SyntaxKind::OptionalType
        | SyntaxKind::RestType | SyntaxKind::TemplateLiteralTypeSpan | SyntaxKind::JSDocTypeExpression
        | SyntaxKind::JSDocPropertyTag | SyntaxKind::JSDocNullableType | SyntaxKind::JSDocNonNullableType
        | SyntaxKind::JSDocOptionalType | SyntaxKind::GetAccessor | SyntaxKind::SetAccessor
        | SyntaxKind::ArrowFunction | SyntaxKind::CallSignature | SyntaxKind::ConstructSignature
        | SyntaxKind::Constructor | SyntaxKind::ConstructorType | SyntaxKind::FunctionDeclaration
        | SyntaxKind::FunctionExpression | SyntaxKind::FunctionType | SyntaxKind::IndexSignature
        | SyntaxKind::JSDocSignature | SyntaxKind::MethodDeclaration | SyntaxKind::MethodSignature => n.type_node,
        _ => None,
    }
}

/// The tag name of a JSX opening, closing or self-closing element.
pub open spec fn spec_is_jsx_tag_name(ast: &Ast, i: int) -> bool {
    let p = ast.up(i);
    (ast.kind_of(p) == SyntaxKind::JsxOpeningElement || ast.kind_of(p) == SyntaxKind::JsxClosingElement
        || ast.kind_of(p) == SyntaxKind::JsxSelfClosingElement) && ast.nd(p).tag_name == Some(i as usize)
}

/// Whether a node is a JSX element's tag name. A parentless node is refused.
pub fn is_jsx_tag_name(ast: &Ast, node: usize) -> (r: bool)
    requires
        ast.wf(),
        ast.has(node as int),
        ast.has_up(node as int),
    ensures
        r == spec_is_jsx_tag_name(ast, node as int),
{
    let p = ast.parent(node).unwrap();
    let k = ast.kind(p);
    (k == SyntaxKind::JsxOpeningElement || k == SyntaxKind::JsxClosingElement || k
        == SyntaxKind::JsxSelfClosingElement) && ast.node(p).tag_name == Some(node)
}

/// A loop statement; a labeled statement too when `look_in_labels`, if its
/// statement is one.
pub open spec fn spec_is_iteration_statement(ast: &Ast, i: int, look_in_labels: bool) -> bool
    decreases i,
{
    match ast.kind_of(i) {
        SyntaxKind::ForStatement | SyntaxKind::ForInStatement | SyntaxKind::ForOfStatement
        | SyntaxKind::DoStatement | SyntaxKind::WhileStatement => true,
        SyntaxKind::LabeledStatement => look_in_labels && (ast.nd(i).statement matches Some(s) && 0 <= s < i
            && spec_is_iteration_statement(ast, s as int, look_in_labels)),
        _ => false,
    }
}

pub fn is_iteration_statement(ast: &Ast, node: usize, look_in_labeled_statements: bool) -> (r: bool)
    requires
        ast.wf(),
        ast.has(node as int),
        spec_labels_have_statements(ast, node as int),
    ensures
        r == spec_is_iteration_statement(ast, node as int, look_in_labeled_statements),
    decreases node,
{
    proof { lemma_links(ast, node as int); }
    match ast.kind(node) {
        SyntaxKind::ForStatement | SyntaxKind::ForInStatement | SyntaxKind::ForOfStatement
        | SyntaxKind::DoStatement | SyntaxKind::WhileStatement => true,
        SyntaxKind::LabeledStatement => look_in_labeled_statements && is_iteration_statement(
            ast, ast.node(node).statement.unwrap(), look_in_labeled_statements),
        _ => false,
    }
}

/// Every labeled statement in a chain of labels has a statement.
pub open spec fn spec_labels_have_statements(ast: &Ast, i: int) -> bool
    decreases i,
{
    ast.kind_of(i) == SyntaxKind::LabeledStatement ==> (ast.nd(i).statement matches Some(s) && 0 <= s < i
        && spec_labels_have_statements(ast, s as int))
}


/// Which parent a callee test looks for, and which of its slots is the callee.
#[derive(Clone, Copy, Debug, PartialEq, Eq, Structural)]
pub enum CalleeForm {
    Call,
    New,
    CallOrNew,
    Decorator,
    TaggedTemplate,
    JsxOpeningLike,
}

/// Whether `parent`'s kind is the one `form` looks for.
pub open spec fn spec_callee_parent_kind(form: CalleeForm, k: SyntaxKind) -> bool {
    match form {
        CalleeForm::Call => k == SyntaxKind::CallExpression,
        CalleeForm::New => k == SyntaxKind::NewExpression,
        CalleeForm::CallOrNew => spec_is_call_or_new_expression(k),
        CalleeForm::Decorator => k == SyntaxKind::Decorator,
        CalleeForm::TaggedTemplate => k == SyntaxKind::TaggedTemplateExpression,
        CalleeForm::JsxOpeningLike => spec_is_jsx_opening_like_element(k),
    }
}

/// The callee slot of a parent of `form`: a tag for tagged templates and
/// JSX elements, the expression otherwise.
pub open spec fn spec_callee_of(ast: &Ast, form: CalleeForm, p: int) -> Option<usize> {
    match form {
        CalleeForm::TaggedTemplate | CalleeForm::JsxOpeningLike => ast.nd(p).tag_name,
        _ => ast.nd(p).expression,
    }
}

/// `i`, or its parent when `i` is the name of a property access (or, with
/// `include_element_access`, the argument of an element access).
pub open spec fn spec_climb_past_access(ast: &Ast, i: int, include_element_access: bool) -> int {
    if ast.has_up(i) {
        let p = ast.up(i);
        if (ast.kind_of(p) == SyntaxKind::PropertyAccessExpression && ast.nd(p).name == Some(i as usize))
            || (include_element_access && ast.kind_of(p) == SyntaxKind::ElementAccessExpression
            && ast.nd(p).argument == Some(i as usize)) {
            p
        } else {
            i
        }
    } else {
        i
    }
}

/// The node whose parent a callee test reads: past a property (or element)
/// access and, when asked and the target is an expression, past outer
/// expressions. `None` when a wrapper has no operand.
pub open spec fn spec_callee_target(ast: &Ast, i: int, include_element_access: bool, skip_outer: bool) -> Option<int> {
    let t = spec_climb_past_access(ast, i, include_element_access);
    if !skip_outer {
        Some(t)
    } else {
        match spec_skip_partially_emitted(ast, t) {
            None => None,
            Some(s) => if spec_is_expression(ast.kind_of(s as int)) {
                match spec_skip_outer_expressions(ast, t, outer_expressions::ALL) {
                    None => None,
                    Some(u) => Some(u as int),
                }
            } else {
                Some(t)
            },
        }
    }
}

/// Whether `i` is the callee of a parent of `form`; `None` when the target
/// cannot be found.
pub open spec fn spec_is_callee(
    ast: &Ast,
    i: int,
    form: CalleeForm,
    include_element_access: bool,
    skip_outer: bool,
) -> Option<bool> {
    match spec_callee_target(ast, i, include_element_access, skip_outer) {
        None => None,
        Some(t) => Some(ast.has_up(t) && spec_callee_parent_kind(form, ast.kind_of(ast.up(t)))
            && spec_callee_of(ast, form, ast.up(t)) == Some(t as usize)),
    }
}

/// A node is the callee of a call or `new` expression exactly when it is the
/// callee of a call or the callee of a `new` expression, with the same
/// options; all three tests fail on the same inputs.
pub proof fn lemma_call_or_new_is_call_or_new(ast: &Ast, i: int, include_element_access: bool, skip_outer: bool)
    ensures
        spec_is_callee(ast, i, CalleeForm::CallOrNew, include_element_access, skip_outer) == match (
            spec_is_callee(ast, i, CalleeForm::Call, include_element_access, skip_outer),
            spec_is_callee(ast, i, CalleeForm::New, include_element_access, skip_outer),
        ) {
            (Some(a), Some(b)) => Some(a || b),
            _ => None,
        },
{
}

fn climb_past_access(ast: &Ast, node: usize, include_element_access: bool) -> (r: usize)
    requires
        ast.wf(),
        ast.has(node as int),
    ensures
        r as int == spec_climb_past_access(ast, node as int, include_element_access),
        ast.has(r as int),
{
    match ast.parent(node) {
        None => node,
        Some(p) => {
            let pn = ast.node(p);
            if (pn.kind == SyntaxKind::PropertyAccessExpression && pn.name == Some(node)) || (
            include_element_access && pn.kind == SyntaxKind::ElementAccessExpression && pn.argument
                == Some(node)) {
                p
            } else {
                node
            }
        },
    }
}

fn is_callee_worker(
    ast: &Ast,
    node: usize,
    form: CalleeForm,
    include_element_access: bool,
    skip_past_outer_expressions: bool,
) -> (r: bool)
    requires
        ast.wf(),
        ast.has(node as int),
        spec_is_callee(ast, node as int, form, include_element_access, skip_past_outer_expressions) is Some,
    ensures
        Some(r) == spec_is_callee(ast, node as int, form, include_element_access, skip_past_outer_expressions),
{
    let mut target = climb_past_access(ast, node, include_element_access);
    if skip_past_outer_expressions && is_expression(ast, target) {
        target = skip_outer_expressions(ast, target, outer_expressions::ALL);
    }
    let p = match ast.parent(target) {
        None => return false,
        Some(p) => p,
    };
    let pn = ast.node(p);
    let kind_ok = match form {
        CalleeForm::Call => pn.kind == SyntaxKind::CallExpression,
        CalleeForm::New => pn.kind == SyntaxKind::NewExpression,
        CalleeForm::CallOrNew => is_call_or_new_expression_kind(pn.kind),
        CalleeForm::Decorator => pn.kind == SyntaxKind::Decorator,
        CalleeForm::TaggedTemplate => pn.kind == SyntaxKind::TaggedTemplateExpression,
        CalleeForm::JsxOpeningLike => is_jsx_opening_like_element_kind(pn.kind),
    };
    let callee = match form {
        CalleeForm::TaggedTemplate | CalleeForm::JsxOpeningLike => pn.tag_name,
        _ => pn.expression,
    };
    kind_ok && callee == Some(target)
}

/// Whether `node` is the callee of a call expression.
pub fn is_call_expression_target(
    ast: &Ast,
    node: usize,
    include_element_access: bool,
    skip_past_outer_expressions: bool,
) -> (r: bool)
    requires
        ast.wf(),
        ast.has(node as int),
        spec_is_callee(ast, node as int, CalleeForm::Call, include_element_access, skip_past_outer_expressions) is Some,
    ensures
        Some(r) == spec_is_callee(ast, node as int, CalleeForm::Call, include_element_access, skip_past_outer_expressions),
{
    is_callee_worker(ast, node, CalleeForm::Call, include_element_access, skip_past_outer_expressions)
}

/// Whether `node` is the callee of a `new` expression.
pub fn is_new_expression_target(
    ast: &Ast,
    node: usize,
    include_element_access: bool,
    skip_past_outer_expressions: bool,
) -> (r: bool)
    requires
        ast.wf(),
        ast.has(node as int),
        spec_is_callee(ast, node as int, CalleeForm::New, include_element_access, skip_past_outer_expressions) is Some,
    ensures
        Some(r) == spec_is_callee(ast, node as int, CalleeForm::New, include_element_access, skip_past_outer_expressions),
{
    is_callee_worker(ast, node, CalleeForm::New, include_element_access, skip_past_outer_expressions)
}

/// Whether `node` is the callee of a call or `new` expression.
pub fn is_call_or_new_expression_target(
    ast: &Ast,
    node: usize,
    include_element_access: bool,
    skip_past_outer_expressions: bool,
) -> (r: bool)
    requires
        ast.wf(),
        ast.has(node as int),
        spec_is_callee(ast, node as int, CalleeForm::CallOrNew, include_element_access, skip_past_outer_expressions) is Some,
    ensures
        Some(r) == spec_is_callee(ast, node as int, CalleeForm::CallOrNew, include_element_access, skip_past_outer_expressions),
{
    is_callee_worker(ast, node, CalleeForm::CallOrNew, include_element_access, skip_past_outer_expressions)
}

/// Whether `node` is the expression of a decorator.
pub fn is_decorator_target(
    ast: &Ast,
    node: usize,
    include_element_access: bool,
    skip_past_outer_expressions: bool,
) -> (r: bool)
    requires
        ast.wf(),
        ast.has(node as int),
        spec_is_callee(ast, node as int, CalleeForm::Decorator, include_element_access, skip_past_outer_expressions) is Some,
    ensures
        Some(r) == spec_is_callee(ast, node as int, CalleeForm::Decorator, include_element_access, skip_past_outer_expressions),
{
    is_callee_worker(ast, node, CalleeForm::Decorator, include_element_access, skip_past_outer_expressions)
}

/// Whether `node` is the tag of a tagged template.
pub fn is_tagged_template_tag(
    ast: &Ast,
    node: usize,
    include_element_access: bool,
    skip_past_outer_expressions: bool,
) -> (r: bool)
    requires
        ast.wf(),
        ast.has(node as int),
        spec_is_callee(ast, node as int, CalleeForm::TaggedTemplate, include_element_access, skip_past_outer_expressions) is Some,
    ensures
        Some(r) == spec_is_callee(ast, node as int, CalleeForm::TaggedTemplate, include_element_access, skip_past_outer_expressions),
{
    is_callee_worker(ast, node, CalleeForm::TaggedTemplate, include_element_access, skip_past_outer_expressions)
}

/// Whether `node` is the tag name of a JSX opening or self-closing element.
pub fn is_jsx_opening_like_element_tag_name(
    ast: &Ast,
    node: usize,
    include_element_access: bool,
    skip_past_outer_expressions: bool,
) -> (r: bool)
    requires
        ast.wf(),
        ast.has(node as int),
        spec_is_callee(ast, node as int, CalleeForm::JsxOpeningLike, include_element_access, skip_past_outer_expressions) is Some,
    ensures
        Some(r) == spec_is_callee(ast, node as int, CalleeForm::JsxOpeningLike, include_element_access, skip_past_outer_expressions),
{
    is_callee_worker(ast, node, CalleeForm::JsxOpeningLike, include_element_access, skip_past_outer_expressions)
}

/// The first `@deprecated` tag among the tags of JSDoc comments `docs`.
pub open spec fn spec_deprecated_tag_in(ast: &Ast, docs: Seq<usize>) -> Option<usize>
    decreases docs.len(),
{
    if docs.len() == 0 {
        None
    } else {
        match spec_first_of_kind(ast, Ast::list(ast.nd(docs[0] as int).tags), SyntaxKind::JSDocDeprecatedTag) {
            Some(t) => Some(t),
            None => spec_deprecated_tag_in(ast, docs.drop_first()),
        }
    }
}

/// The first tag of `tags` that is `@deprecated`.
fn first_deprecated_tag(ast: &Ast, tags: &Vec<usize>) -> (r: Option<usize>)
    requires
        crate::ast::seq_below(tags@, ast.nodes@.len() as int),
    ensures
        r == spec_first_of_kind(ast, tags@, SyntaxKind::JSDocDeprecatedTag),
{
    let mut j: usize = 0;
    proof { assert(tags@.subrange(0, tags@.len() as int) == tags@); }
    while j < tags.len()
        invariant
            j <= tags@.len(),
            crate::ast::seq_below(tags@, ast.nodes@.len() as int),
            spec_first_of_kind(ast, tags@, SyntaxKind::JSDocDeprecatedTag) == spec_first_of_kind(
                ast,
                tags@.subrange(j as int, tags@.len() as int),
                SyntaxKind::JSDocDeprecatedTag,
            ),
        decreases tags@.len() - j,
    {
        let t = tags[j];
        let ghost rest = tags@.subrange(j as int, tags@.len() as int);
        proof {
            assert(rest[0] == t);
            assert(rest.drop_first() == tags@.subrange(j + 1, tags@.len() as int));
        }
        if ast.kind(t) == SyntaxKind::JSDocDeprecatedTag {
            return Some(t);
        }
        j = j + 1;
    }
    None
}

/// The first `@deprecated` tag in the JSDoc comments of `node`.
pub fn get_js_doc_deprecated_tag(ast: &Ast, node: usize) -> (r: Option<usize>)
    requires
        ast.wf(),
        ast.has(node as int),
    ensures
        r == spec_deprecated_tag_in(ast, ast.nd(node as int).jsdoc@),
{
    proof { lemma_links(ast, node as int); }
    let docs = &ast.node(node).jsdoc;
    let mut i: usize = 0;
    proof { assert(docs@.subrange(0, docs@.len() as int) == docs@); }
    while i < docs.len()
        invariant
            ast.wf(),
            ast.has(node as int),
            *docs == ast.nd(node as int).jsdoc,
            crate::ast::seq_below(docs@, node as int),
            i <= docs@.len(),
            spec_deprecated_tag_in(ast, docs@) == spec_deprecated_tag_in(ast, docs@.subrange(i as int, docs@.len() as int)),
        decreases docs@.len() - i,
    {
        let d = docs[i];
        let ghost rest = docs@.subrange(i as int, docs@.len() as int);
        proof {
            assert(rest[0] == d);
            assert(rest.drop_first() == docs@.subrange(i + 1, docs@.len() as int));
            lemma_links(ast, d as int);
        }
        let found = match &ast.node(d).tags {
            None => None,
            Some(tags) => first_deprecated_tag(ast, tags),
        };
        if found.is_some() {
            return found;
        }
        i = i + 1;
    }
    None
}

/// The nearest ancestor-or-self of `i` whose own flags may hold a
/// `@deprecated` tag.
pub open spec fn spec_deprecation_holder(ast: &Ast, i: int) -> Option<usize>
    decreases ast.nodes@.len() - i,
{
    if !ast.has(i) {
        None
    } else if ast.nd(i).flags & node_flags::POSSIBLY_CONTAINS_DEPRECATED_TAG != 0 {
        Some(i as usize)
    } else {
        match ast.parent_of(i) {
            Some(p) => if i < p < ast.nodes@.len() { spec_deprecation_holder(ast, p as int) } else { None },
            None => None,
        }
    }
}

/// Whether a declaration is `@deprecated`, given its combined flags: the
/// nearest ancestor-or-self that may hold the tag does hold one.
pub open spec fn spec_is_deprecated_with_flags(ast: &Ast, i: int, combined_flags: u32) -> bool {
    if combined_flags & node_flags::POSSIBLY_CONTAINS_DEPRECATED_TAG == 0 {
        false
    } else {
        match spec_deprecation_holder(ast, i) {
            None => false,
            Some(h) => spec_deprecated_tag_in(ast, ast.nd(h as int).jsdoc@) is Some,
        }
    }
}

pub fn is_deprecated_declaration_with_cached_flags(ast: &Ast, declaration: usize, combined_flags: u32) -> (r: bool)
    requires
        ast.wf(),
        ast.has(declaration as int),
    ensures
        r == spec_is_deprecated_with_flags(ast, declaration as int, combined_flags),
{
    if combined_flags & node_flags::POSSIBLY_CONTAINS_DEPRECATED_TAG == 0 {
        return false;
    }
    let mut cur = declaration;
    loop
        invariant
            ast.wf(),
            ast.has(cur as int),
            spec_deprecation_holder(ast, declaration as int) == spec_deprecation_holder(ast, cur as int),
            combined_flags & node_flags::POSSIBLY_CONTAINS_DEPRECATED_TAG != 0,
        decreases ast.nodes@.len() - cur,
    {
        if ast.node(cur).flags & node_flags::POSSIBLY_CONTAINS_DEPRECATED_TAG != 0 {
            return get_js_doc_deprecated_tag(ast, cur).is_some();
        }
        match ast.parent(cur) {
            Some(p) => { cur = p; },
            None => return false,
        }
    }
}

/// Whether a declaration is `@deprecated`, reading its combined flags.
pub fn is_deprecated_declaration(ast: &Ast, declaration: usize) -> (r: bool)
    requires
        ast.wf(),
        ast.has(declaration as int),
        spec_root_requires(ast, declaration as int),
    ensures
        r == spec_is_deprecated_with_flags(ast, declaration as int, spec_combined_node_flags(ast, declaration as int)),
{
    let flags = get_combined_node_flags(ast, declaration);
    is_deprecated_declaration_with_cached_flags(ast, declaration, flags)
}

/// Whether a declaration is declared with `let`.
pub fn is_let(ast: &Ast, node: usize) -> (r: bool)
    requires
        ast.wf(),
        ast.has(node as int),
        spec_root_requires(ast, node as int),
    ensures
        r == (spec_combined_node_flags(ast, node as int) & node_flags::BLOCK_SCOPED == node_flags::LET),
{
    get_combined_node_flags(ast, node) & node_flags::BLOCK_SCOPED == node_flags::LET
}


/// An identifier, or a property access by identifier on such an expression.
pub open spec fn spec_is_entity_name_expression(ast: &Ast, i: int) -> bool
    decreases i,
{
    if !ast.has(i) {
        false
    } else if ast.kind_of(i) == SyntaxKind::Identifier {
        true
    } else {
        ast.kind_of(i) == SyntaxKind::PropertyAccessExpression && (ast.nd(i).name matches Some(n)
            && ast.kind_of(n as int) == SyntaxKind::Identifier) && (ast.nd(i).expression matches Some(e)
            && e < i && spec_is_entity_name_expression(ast, e as int))
    }
}

fn is_entity_name_expression(ast: &Ast, node: usize) -> (r: bool)
    requires
        ast.wf(),
        ast.has(node as int),
    ensures
        r == spec_is_entity_name_expression(ast, node as int),
    decreases node,
{
    proof { lemma_links(ast, node as int); }
    let n = ast.node(node);
    if n.kind == SyntaxKind::Identifier {
        return true;
    }
    if n.kind != SyntaxKind::PropertyAccessExpression {
        return false;
    }
    let name_ok = match n.name {
        Some(nm) => ast.kind(nm) == SyntaxKind::Identifier,
        None => false,
    };
    name_ok && match n.expression {
        Some(e) => is_entity_name_expression(ast, e),
        None => false,
    }
}

/// A property access by identifier, or an element access by a literal, on
/// `this` (unless excluded), an entity name, or another such access.
pub open spec fn spec_is_bindable_static_access(ast: &Ast, i: int, exclude_this: bool) -> bool
    decreases i,
{
    if !ast.has(i) {
        false
    } else {
        let n = ast.nd(i);
        match n.expression {
            None => false,
            Some(e) => e < i && {
                let on_this = !exclude_this && ast.kind_of(e as int) == SyntaxKind::ThisKeyword;
                let static_base = spec_is_entity_name_expression(ast, e as int) || spec_is_bindable_static_access(
                    ast,
                    e as int,
                    true,
                );
                if n.kind == SyntaxKind::PropertyAccessExpression {
                    on_this || ((n.name matches Some(nm) && ast.kind_of(nm as int) == SyntaxKind::Identifier)
                        && static_base)
                } else if n.kind == SyntaxKind::ElementAccessExpression {
                    (n.argument matches Some(a) && spec_is_string_or_numeric_literal_like(ast.kind_of(a as int)))
                        && (on_this || static_base)
                } else {
                    false
                }
            },
        }
    }
}

fn is_bindable_static_access_expression(ast: &Ast, node: usize, exclude_this: bool) -> (r: bool)
    requires
        ast.wf(),
        ast.has(node as int),
    ensures
        r == spec_is_bindable_static_access(ast, node as int, exclude_this),
    decreases node,
{
    proof { lemma_links(ast, node as int); }
    let n = ast.node(node);
    let e = match n.expression {
        None => return false,
        Some(e) => e,
    };
    if n.kind == SyntaxKind::PropertyAccessExpression {
        if !exclude_this && ast.kind(e) == SyntaxKind::ThisKeyword {
            return true;
        }
        let name_ok = match n.name {
            Some(nm) => ast.kind(nm) == SyntaxKind::Identifier,
            None => false,
        };
        name_ok && (is_entity_name_expression(ast, e) || is_bindable_static_access_expression(ast, e, true))
    } else if n.kind == SyntaxKind::ElementAccessExpression {
        let arg_ok = match n.argument {
            Some(a) => is_string_or_numeric_literal_like_kind(ast.kind(a)),
            None => false,
        };
        arg_ok && ((!exclude_this && ast.kind(e) == SyntaxKind::ThisKeyword) || is_entity_name_expression(ast, e)
            || is_bindable_static_access_expression(ast, e, true))
    } else {
        false
    }
}

/// The name a property or element access reads: the property name, or the
/// element access's literal argument.
pub open spec fn spec_access_name(ast: &Ast, i: int) -> Option<usize> {
    let n = ast.nd(i);
    if n.kind == SyntaxKind::PropertyAccessExpression {
        n.name
    } else if n.kind == SyntaxKind::ElementAccessExpression {
        match n.argument {
            Some(a) => if spec_is_string_or_numeric_literal_like(ast.kind_of(a as int)) { Some(a) } else { None },
            None => None,
        }
    } else {
        None
    }
}

pub open spec fn prototype_text() -> Seq<u8> {
    seq![112u8, 114u8, 111u8, 116u8, 111u8, 116u8, 121u8, 112u8, 101u8]
}

/// `x.prototype` or `x["prototype"]` on a static access base.
pub open spec fn spec_is_prototype_access(ast: &Ast, i: int) -> bool {
    spec_is_bindable_static_access(ast, i, false) && (spec_access_name(ast, i) matches Some(nm)
        && ast.nd(nm as int).text@ == prototype_text())
}

pub fn is_prototype_access(ast: &Ast, node: usize) -> (r: bool)
    requires
        ast.wf(),
        ast.has(node as int),
    ensures
        r == spec_is_prototype_access(ast, node as int),
{
    if !is_bindable_static_access_expression(ast, node, false) {
        return false;
    }
    proof { lemma_links(ast, node as int); }
    let n = ast.node(node);
    let name = if n.kind == SyntaxKind::PropertyAccessExpression {
        n.name
    } else if n.kind == SyntaxKind::ElementAccessExpression {
        match n.argument {
            Some(a) => if is_string_or_numeric_literal_like_kind(ast.kind(a)) { Some(a) } else { None },
            None => None,
        }
    } else {
        None
    };
    match name {
        Some(nm) => bytes_equal(
            ast.node(nm).text.as_slice(),
            &[112u8, 114u8, 111u8, 116u8, 111u8, 116u8, 121u8, 112u8, 101u8],
        ),
        None => false,
    }
}


pub open spec fn this_word() -> Seq<u8> {
    seq![116u8, 104u8, 105u8, 115u8]
}

/// A node made by a transform rather than parsed: it has no position.
pub open spec fn spec_is_synthesized(ast: &Ast, i: int) -> bool {
    ast.nd(i).pos < 0
}

/// The text of an entity name: `this`, a name's text, or the parts of a
/// qualified name, property access (joined by `.`) or JSX namespaced name
/// (joined by `:`). With `texts`, a parsed name reads its text there (by
/// node id) instead. `None` for a missing part or another kind.
pub open spec fn spec_entity_name_to_string(ast: &Ast, i: int, texts: Option<Seq<Vec<u8>>>) -> Option<Seq<u8>>
    decreases i,
{
    if !ast.has(i) {
        None
    } else {
        let n = ast.nd(i);
        let k = n.kind;
        if k == SyntaxKind::ThisKeyword {
            Some(this_word())
        } else if k == SyntaxKind::Identifier || k == SyntaxKind::PrivateIdentifier {
            match texts {
                Some(t) => if !spec_is_synthesized(ast, i) { Some(t[i]@) } else { Some(n.text@) },
                None => Some(n.text@),
            }
        } else {
            let (left, sep, right) = if k == SyntaxKind::QualifiedName {
                (n.left, 46u8, n.right)
            } else if k == SyntaxKind::PropertyAccessExpression {
                (n.expression, 46u8, n.name)
            } else {
                (n.namespace, 58u8, n.name)
            };
            if k != SyntaxKind::QualifiedName && k != SyntaxKind::PropertyAccessExpression && k
                != SyntaxKind::JsxNamespacedName {
                None
            } else {
                match (left, right) {
                    (Some(l), Some(r)) => if l < i && r < i {
                        match (spec_entity_name_to_string(ast, l as int, texts), spec_entity_name_to_string(
                            ast,
                            r as int,
                            texts,
                        )) {
                            (Some(a), Some(b)) => Some(a.push(sep) + b),
                            _ => None,
                        }
                    } else {
                        None
                    },
                    _ => None,
                }
            }
        }
    }
}

pub fn entity_name_to_string(ast: &Ast, name: usize, texts: Option<&Vec<Vec<u8>>>) -> (r: Vec<u8>)
    requires
        ast.wf(),
        ast.has(name as int),
        texts matches Some(t) ==> t@.len() == ast.nodes@.len(),
        spec_entity_name_to_string(
            ast,
            name as int,
            match texts {
                Some(t) => Some(t@),
                None => None,
            },
        ) is Some,
    ensures
        Some(r@) == spec_entity_name_to_string(
            ast,
            name as int,
            match texts {
                Some(t) => Some(t@),
                None => None,
            },
        ),
    decreases name,
{
    proof { lemma_links(ast, name as int); }
    let n = ast.node(name);
    let k = n.kind;
    if k == SyntaxKind::ThisKeyword {
        let r = vec![116u8, 104u8, 105u8, 115u8];
        proof { assert(r@ =~= this_word()); }
        return r;
    }
    if k == SyntaxKind::Identifier || k == SyntaxKind::PrivateIdentifier {
        return match texts {
            Some(t) => if n.pos >= 0 { copy_bytes(&t[name]) } else { copy_bytes(&n.text) },
            None => copy_bytes(&n.text),
        };
    }
    let (left, sep, right) = if k == SyntaxKind::QualifiedName {
        (n.left, 46u8, n.right)
    } else if k == SyntaxKind::PropertyAccessExpression {
        (n.expression, 46u8, n.name)
    } else {
        (n.namespace, 58u8, n.name)
    };
    let mut text = entity_name_to_string(ast, left.unwrap(), texts);
    text.push(sep);
    let rest = entity_name_to_string(ast, right.unwrap(), texts);
    append_bytes(&mut text, &rest);
    text
}

} // verus!
