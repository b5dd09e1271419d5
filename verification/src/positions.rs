//! Names, type and expression positions, and access kinds.
//!
//! Predicates that must read a parent which a malformed tree may lack are
//! specified as `Option<bool>`: `None` is the missing-parent read, which the
//! executable functions leave out by `requires`.
use vstd::prelude::*;
use crate::ast::{seq_below, AssignmentKind, Ast, ModuleInstanceState};
use crate::semantic_meaning;
use crate::kind_classes::{
    is_binding_pattern_kind, is_class_like_kind, is_declaration_kind, is_expression_kind,
    is_jsdoc_link_like_kind, is_left_hand_side_expression_kind, is_string_or_numeric_literal_like_kind,
    spec_is_assignment_operator, spec_is_binding_pattern, spec_is_class_like, spec_is_declaration,
    spec_is_expression, spec_is_jsdoc_link_like, spec_is_left_hand_side_expression,
    spec_is_string_or_numeric_literal_like,
};
use crate::node_flags;
use crate::node_utils::{is_this_identifier, spec_is_this_identifier, bytes_equal, list_contains, is_ambient_module, lemma_links, lemma_pp, pp, spec_is_ambient_module};
use crate::syntax_kind::{is_first_to_last_type_node, is_type_node_kind, SyntaxKind};
use crate::targets::{is_jsx_tag_name, spec_is_jsx_tag_name};

verus! {

/// Whether the binder gave a node a symbol.
pub fn has_symbol(ast: &Ast, node: usize) -> (r: bool)
    requires
        ast.has(node as int),
    ensures
        r == ast.nd(node as int).symbol is Some,
{
    ast.node(node).symbol.is_some()
}

/// A name that names its declaration (not a source file or binding pattern).
pub open spec fn spec_is_declaration_name(ast: &Ast, name: int) -> Option<bool> {
    let k = ast.kind_of(name);
    if k == SyntaxKind::SourceFile || spec_is_binding_pattern(k) {
        Some(false)
    } else {
        match pp(ast, name) {
            None => None,
            Some(p) => Some(spec_is_declaration(ast.kind_of(p)) && ast.nd(p).name == Some(name as usize)),
        }
    }
}

pub fn is_declaration_name(ast: &Ast, name: usize) -> (r: bool)
    requires
        ast.wf(),
        ast.has(name as int),
        spec_is_declaration_name(ast, name as int) is Some,
    ensures
        Some(r) == spec_is_declaration_name(ast, name as int),
{
    proof { lemma_pp(ast, name as int); }
    let k = ast.kind(name);
    if k == SyntaxKind::SourceFile || is_binding_pattern_kind(k) {
        return false;
    }
    let p = ast.parent(name).unwrap();
    is_declaration_kind(ast.kind(p)) && ast.node(p).name == Some(name)
}

pub open spec fn spec_is_type_or_js_type_alias_declaration(k: SyntaxKind) -> bool {
    k == SyntaxKind::TypeAliasDeclaration || k == SyntaxKind::JSTypeAliasDeclaration
}

pub fn is_type_or_js_type_alias_declaration(k: SyntaxKind) -> (r: bool)
    ensures
        r == spec_is_type_or_js_type_alias_declaration(k),
{
    k == SyntaxKind::TypeAliasDeclaration || k == SyntaxKind::JSTypeAliasDeclaration
}

pub open spec fn spec_is_parse_tree_node(ast: &Ast, i: int) -> bool {
    ast.nd(i).flags & node_flags::SYNTHESIZED == 0
}

/// A node the parser created (not synthesized).
pub fn is_parse_tree_node(ast: &Ast, node: usize) -> (r: bool)
    requires
        ast.has(node as int),
    ensures
        r == spec_is_parse_tree_node(ast, node as int),
{
    ast.node(node).flags & node_flags::SYNTHESIZED == 0
}

pub open spec fn defer_text() -> Seq<u8> {
    seq![100u8, 101u8, 102u8, 101u8, 114u8]
}

/// `import(...)`, or `import.defer(...)`; `None` when the call has no callee
/// or the meta property no name.
pub open spec fn spec_is_import_call(ast: &Ast, i: int) -> Option<bool> {
    if ast.kind_of(i) != SyntaxKind::CallExpression {
        Some(false)
    } else {
        match ast.nd(i).expression {
            None => None,
            Some(e) => {
                let en = ast.nd(e as int);
                if en.kind == SyntaxKind::ImportKeyword {
                    Some(true)
                } else if en.kind != SyntaxKind::MetaProperty {
                    Some(false)
                } else if en.token != SyntaxKind::ImportKeyword {
                    Some(false)
                } else {
                    match en.name {
                        None => None,
                        Some(nm) => Some(ast.nd(nm as int).text@ == defer_text()),
                    }
                }
            },
        }
    }
}

pub fn is_import_call(ast: &Ast, node: usize) -> (r: bool)
    requires
        ast.wf(),
        ast.has(node as int),
        spec_is_import_call(ast, node as int) is Some,
    ensures
        Some(r) == spec_is_import_call(ast, node as int),
{
    proof { lemma_links(ast, node as int); }
    if ast.kind(node) != SyntaxKind::CallExpression {
        return false;
    }
    let e = ast.node(node).expression.unwrap();
    proof { lemma_links(ast, e as int); }
    let en = ast.node(e);
    if en.kind == SyntaxKind::ImportKeyword {
        return true;
    }
    if en.kind != SyntaxKind::MetaProperty || en.token != SyntaxKind::ImportKeyword {
        return false;
    }
    let nm = en.name.unwrap();
    bytes_equal(ast.node(nm).text.as_slice(), &[100u8, 101u8, 102u8, 101u8, 114u8])
}

/// An expression with type arguments that sits in a type position: an
/// interface's or `implements` heritage clause, or a JSDoc implements/augments tag.
pub open spec fn spec_part_of_type_ewta(ast: &Ast, i: int) -> Option<bool> {
    match pp(ast, i) {
        None => None,
        Some(p) => {
            let pk = ast.kind_of(p);
            if pk == SyntaxKind::HeritageClause {
                match pp(ast, p) {
                    None => None,
                    Some(g) => if !spec_is_class_like(ast.kind_of(g)) || ast.nd(p).token
                        == SyntaxKind::ImplementsKeyword {
                        Some(true)
                    } else {
                        Some(false)
                    },
                }
            } else {
                Some(pk == SyntaxKind::JSDocImplementsTag || pk == SyntaxKind::JSDocAugmentsTag)
            }
        },
    }
}

pub fn is_part_of_type_expression_with_type_arguments(ast: &Ast, node: usize) -> (r: bool)
    requires
        ast.wf(),
        ast.has(node as int),
        spec_part_of_type_ewta(ast, node as int) is Some,
    ensures
        Some(r) == spec_part_of_type_ewta(ast, node as int),
{
    proof { lemma_pp(ast, node as int); }
    let p = ast.parent(node).unwrap();
    let pk = ast.kind(p);
    if pk == SyntaxKind::HeritageClause {
        proof { lemma_pp(ast, p as int); }
        let g = ast.parent(p).unwrap();
        if !is_class_like_kind(ast.kind(g)) || ast.node(p).token == SyntaxKind::ImplementsKeyword {
            return true;
        }
        return false;
    }
    pk == SyntaxKind::JSDocImplementsTag || pk == SyntaxKind::JSDocAugmentsTag
}

/// The kinds whose type annotation is a type position of its child.
pub open spec fn spec_annotates_type(k: SyntaxKind) -> bool {
    match k {
        SyntaxKind::VariableDeclaration | SyntaxKind::Parameter | SyntaxKind::PropertyDeclaration
        | SyntaxKind::PropertySignature | SyntaxKind::FunctionDeclaration | SyntaxKind::FunctionExpression
        | SyntaxKind::ArrowFunction | SyntaxKind::Constructor | SyntaxKind::MethodDeclaration
        | SyntaxKind::MethodSignature | SyntaxKind::GetAccessor | SyntaxKind::SetAccessor
        | SyntaxKind::CallSignature | SyntaxKind::ConstructSignature | SyntaxKind::IndexSignature
        | SyntaxKind::TypeAssertionExpression => true,
        _ => false,
    }
}

/// Whether `i` is in a type position of its parent.
pub open spec fn spec_part_of_type_in_parent(ast: &Ast, i: int) -> Option<bool> {
    match pp(ast, i) {
        None => None,
        Some(p) => {
            let pk = ast.kind_of(p);
            if pk == SyntaxKind::TypeQuery {
                Some(false)
            } else if pk == SyntaxKind::ImportType {
                Some(!ast.nd(p).is_type_of)
            } else if is_type_node_kind(pk) {
                Some(true)
            } else if pk == SyntaxKind::ExpressionWithTypeArguments {
                spec_part_of_type_ewta(ast, p)
            } else if pk == SyntaxKind::TypeParameter {
                Some(ast.nd(p).constraint == Some(i as usize))
            } else if spec_annotates_type(pk) {
                Some(ast.nd(p).type_node == Some(i as usize))
            } else if pk == SyntaxKind::CallExpression || pk == SyntaxKind::NewExpression || pk
                == SyntaxKind::TaggedTemplateExpression {
                Some(Ast::list(ast.nd(p).type_arguments).contains(i as usize))
            } else {
                Some(false)
            }
        },
    }
}

pub fn is_part_of_type_node_in_parent(ast: &Ast, node: usize) -> (r: bool)
    requires
        ast.wf(),
        ast.has(node as int),
        spec_part_of_type_in_parent(ast, node as int) is Some,
    ensures
        Some(r) == spec_part_of_type_in_parent(ast, node as int),
{
    proof { lemma_pp(ast, node as int); }
    let p = ast.parent(node).unwrap();
    let pk = ast.kind(p);
    if pk == SyntaxKind::TypeQuery {
        return false;
    }
    if pk == SyntaxKind::ImportType {
        return !ast.node(p).is_type_of;
    }
    if is_first_to_last_type_node(pk) {
        return true;
    }
    match pk {
        SyntaxKind::ExpressionWithTypeArguments => is_part_of_type_expression_with_type_arguments(ast, p),
        SyntaxKind::TypeParameter => ast.node(p).constraint == Some(node),
        SyntaxKind::VariableDeclaration | SyntaxKind::Parameter | SyntaxKind::PropertyDeclaration
        | SyntaxKind::PropertySignature | SyntaxKind::FunctionDeclaration | SyntaxKind::FunctionExpression
        | SyntaxKind::ArrowFunction | SyntaxKind::Constructor | SyntaxKind::MethodDeclaration
        | SyntaxKind::MethodSignature | SyntaxKind::GetAccessor | SyntaxKind::SetAccessor
        | SyntaxKind::CallSignature | SyntaxKind::ConstructSignature | SyntaxKind::IndexSignature
        | SyntaxKind::TypeAssertionExpression => ast.node(p).type_node == Some(node),
        SyntaxKind::CallExpression | SyntaxKind::NewExpression | SyntaxKind::TaggedTemplateExpression => {
            list_contains(&ast.node(p).type_arguments, node)
        },
        _ => false,
    }
}

/// The keyword types.
pub open spec fn spec_is_keyword_type(k: SyntaxKind) -> bool {
    match k {
        SyntaxKind::AnyKeyword | SyntaxKind::UnknownKeyword | SyntaxKind::NumberKeyword
        | SyntaxKind::BigIntKeyword | SyntaxKind::StringKeyword | SyntaxKind::BooleanKeyword
        | SyntaxKind::SymbolKeyword | SyntaxKind::ObjectKeyword | SyntaxKind::UndefinedKeyword
        | SyntaxKind::NullKeyword | SyntaxKind::NeverKeyword => true,
        _ => false,
    }
}

/// Whether a node is part of a type.
pub open spec fn spec_part_of_type_node(ast: &Ast, i: int) -> Option<bool> {
    let k = ast.kind_of(i);
    if is_type_node_kind(k) || spec_is_keyword_type(k) {
        Some(true)
    } else if k == SyntaxKind::VoidKeyword {
        match pp(ast, i) {
            None => None,
            Some(p) => Some(ast.kind_of(p) != SyntaxKind::VoidExpression),
        }
    } else if k == SyntaxKind::ExpressionWithTypeArguments {
        spec_part_of_type_ewta(ast, i)
    } else if k == SyntaxKind::TypeParameter {
        match pp(ast, i) {
            None => None,
            Some(p) => Some(ast.kind_of(p) == SyntaxKind::MappedType || ast.kind_of(p) == SyntaxKind::InferType),
        }
    } else if k == SyntaxKind::Identifier {
        match pp(ast, i) {
            None => None,
            Some(p) => if (ast.kind_of(p) == SyntaxKind::QualifiedName && ast.nd(p).right == Some(i as usize)) || (
            ast.kind_of(p) == SyntaxKind::PropertyAccessExpression && ast.nd(p).name == Some(i as usize)) {
                spec_part_of_type_in_parent(ast, p)
            } else {
                spec_part_of_type_in_parent(ast, i)
            },
        }
    } else if k == SyntaxKind::QualifiedName || k == SyntaxKind::PropertyAccessExpression || k
        == SyntaxKind::ThisKeyword {
        spec_part_of_type_in_parent(ast, i)
    } else {
        Some(false)
    }
}

fn is_keyword_type(k: SyntaxKind) -> (r: bool)
    ensures
        r == spec_is_keyword_type(k),
{
    matches!(k, SyntaxKind::AnyKeyword | SyntaxKind::UnknownKeyword | SyntaxKind::NumberKeyword
        | SyntaxKind::BigIntKeyword | SyntaxKind::StringKeyword | SyntaxKind::BooleanKeyword
        | SyntaxKind::SymbolKeyword | SyntaxKind::ObjectKeyword | SyntaxKind::UndefinedKeyword
        | SyntaxKind::NullKeyword | SyntaxKind::NeverKeyword)
}

pub fn is_part_of_type_node(ast: &Ast, node: usize) -> (r: bool)
    requires
        ast.wf(),
        ast.has(node as int),
        spec_part_of_type_node(ast, node as int) is Some,
    ensures
        Some(r) == spec_part_of_type_node(ast, node as int),
{
    proof { lemma_pp(ast, node as int); }
    let k = ast.kind(node);
    if is_first_to_last_type_node(k) || is_keyword_type(k) {
        return true;
    }
    match k {
        SyntaxKind::VoidKeyword => ast.kind(ast.parent(node).unwrap()) != SyntaxKind::VoidExpression,
        SyntaxKind::ExpressionWithTypeArguments => is_part_of_type_expression_with_type_arguments(ast, node),
        SyntaxKind::TypeParameter => {
            let pk = ast.kind(ast.parent(node).unwrap());
            pk == SyntaxKind::MappedType || pk == SyntaxKind::InferType
        },
        SyntaxKind::Identifier => {
            let p = ast.parent(node).unwrap();
            let pn = ast.node(p);
            if (pn.kind == SyntaxKind::QualifiedName && pn.right == Some(node)) || (pn.kind
                == SyntaxKind::PropertyAccessExpression && pn.name == Some(node)) {
                return is_part_of_type_node_in_parent(ast, p);
            }
            is_part_of_type_node_in_parent(ast, node)
        },
        SyntaxKind::QualifiedName | SyntaxKind::PropertyAccessExpression | SyntaxKind::ThisKeyword => {
            is_part_of_type_node_in_parent(ast, node)
        },
        _ => false,
    }
}

/// The outermost qualified name reached from `i` through qualified-name parents.
pub open spec fn spec_qualified_top(ast: &Ast, i: int) -> Option<int>
    decreases ast.nodes@.len() - i,
{
    match pp(ast, i) {
        None => None,
        Some(p) => if ast.kind_of(p) == SyntaxKind::QualifiedName { spec_qualified_top(ast, p) } else { Some(i) },
    }
}

/// The kinds that are always expressions.
pub open spec fn spec_is_expression_node_kind(k: SyntaxKind) -> bool {
    match k {
        SyntaxKind::SuperKeyword | SyntaxKind::NullKeyword | SyntaxKind::TrueKeyword | SyntaxKind::FalseKeyword
        | SyntaxKind::RegularExpressionLiteral | SyntaxKind::ArrayLiteralExpression
        | SyntaxKind::ObjectLiteralExpression | SyntaxKind::PropertyAccessExpression
        | SyntaxKind::ElementAccessExpression | SyntaxKind::CallExpression | SyntaxKind::NewExpression
        | SyntaxKind::TaggedTemplateExpression | SyntaxKind::AsExpression | SyntaxKind::TypeAssertionExpression
        | SyntaxKind::SatisfiesExpression | SyntaxKind::NonNullExpression | SyntaxKind::ParenthesizedExpression
        | SyntaxKind::FunctionExpression | SyntaxKind::ClassExpression | SyntaxKind::ArrowFunction
        | SyntaxKind::VoidExpression | SyntaxKind::DeleteExpression | SyntaxKind::TypeOfExpression
        | SyntaxKind::PrefixUnaryExpression | SyntaxKind::PostfixUnaryExpression | SyntaxKind::BinaryExpression
        | SyntaxKind::ConditionalExpression | SyntaxKind::SpreadElement | SyntaxKind::TemplateExpression
        | SyntaxKind::OmittedExpression | SyntaxKind::JsxElement | SyntaxKind::JsxSelfClosingElement
        | SyntaxKind::JsxFragment | SyntaxKind::YieldExpression | SyntaxKind::AwaitExpression => true,
        _ => false,
    }
}

fn is_expression_node_kind(k: SyntaxKind) -> (r: bool)
    ensures
        r == spec_is_expression_node_kind(k),
{
    matches!(k, SyntaxKind::SuperKeyword | SyntaxKind::NullKeyword | SyntaxKind::TrueKeyword | SyntaxKind::FalseKeyword
        | SyntaxKind::RegularExpressionLiteral | SyntaxKind::ArrayLiteralExpression
        | SyntaxKind::ObjectLiteralExpression | SyntaxKind::PropertyAccessExpression
        | SyntaxKind::ElementAccessExpression | SyntaxKind::CallExpression | SyntaxKind::NewExpression
        | SyntaxKind::TaggedTemplateExpression | SyntaxKind::AsExpression | SyntaxKind::TypeAssertionExpression
        | SyntaxKind::SatisfiesExpression | SyntaxKind::NonNullExpression | SyntaxKind::ParenthesizedExpression
        | SyntaxKind::FunctionExpression | SyntaxKind::ClassExpression | SyntaxKind::ArrowFunction
        | SyntaxKind::VoidExpression | SyntaxKind::DeleteExpression | SyntaxKind::TypeOfExpression
        | SyntaxKind::PrefixUnaryExpression | SyntaxKind::PostfixUnaryExpression | SyntaxKind::BinaryExpression
        | SyntaxKind::ConditionalExpression | SyntaxKind::SpreadElement | SyntaxKind::TemplateExpression
        | SyntaxKind::OmittedExpression | SyntaxKind::JsxElement | SyntaxKind::JsxSelfClosingElement
        | SyntaxKind::JsxFragment | SyntaxKind::YieldExpression | SyntaxKind::AwaitExpression)
}

/// A type query, JSDoc link or JSDoc name reference parent.
pub open spec fn spec_names_value(k: SyntaxKind) -> bool {
    k == SyntaxKind::TypeQuery || spec_is_jsdoc_link_like(k) || k == SyntaxKind::JSDocNameReference
}

/// Whether a node is an expression where it stands.
pub open spec fn spec_expression_node(ast: &Ast, i: int) -> Option<bool>
    decreases ast.nodes@.len() - i, 1int,
{
    let k = ast.kind_of(i);
    if spec_is_expression_node_kind(k) {
        Some(true)
    } else if k == SyntaxKind::MetaProperty {
        match pp(ast, i) {
            None => None,
            Some(p) => match spec_is_import_call(ast, p) {
                None => None,
                Some(call) => Some(!call || ast.nd(p).expression != Some(i as usize)),
            },
        }
    } else if k == SyntaxKind::ExpressionWithTypeArguments {
        match pp(ast, i) {
            None => None,
            Some(p) => Some(ast.kind_of(p) != SyntaxKind::HeritageClause),
        }
    } else if k == SyntaxKind::QualifiedName {
        match spec_qualified_top(ast, i) {
            None => None,
            Some(top) => match pp(ast, top) {
                None => None,
                Some(p) => Some(spec_names_value(ast.kind_of(p)) || spec_is_jsx_tag_name(ast, top)),
            },
        }
    } else if k == SyntaxKind::PrivateIdentifier {
        match pp(ast, i) {
            None => None,
            Some(p) => if ast.kind_of(p) != SyntaxKind::BinaryExpression {
                Some(false)
            } else if ast.nd(p).left != Some(i as usize) {
                Some(false)
            } else {
                match ast.nd(p).operator_token {
                    None => None,
                    Some(o) => Some(ast.kind_of(o as int) == SyntaxKind::InKeyword),
                }
            },
        }
    } else if k == SyntaxKind::Identifier {
        match pp(ast, i) {
            None => None,
            Some(p) => if spec_names_value(ast.kind_of(p)) || spec_is_jsx_tag_name(ast, i) {
                Some(true)
            } else {
                spec_in_expression_context(ast, i)
            },
        }
    } else if k == SyntaxKind::NumericLiteral || k == SyntaxKind::BigIntLiteral || k == SyntaxKind::StringLiteral
        || k == SyntaxKind::NoSubstitutionTemplateLiteral || k == SyntaxKind::ThisKeyword {
        spec_in_expression_context(ast, i)
    } else {
        Some(false)
    }
}

/// The parent kinds whose initializer is an expression position.
pub open spec fn spec_initializer_position(k: SyntaxKind) -> bool {
    match k {
        SyntaxKind::VariableDeclaration | SyntaxKind::Parameter | SyntaxKind::PropertyDeclaration
        | SyntaxKind::PropertySignature | SyntaxKind::EnumMember | SyntaxKind::PropertyAssignment
        | SyntaxKind::BindingElement => true,
        _ => false,
    }
}

/// The parent kinds whose expression is an expression position.
pub open spec fn spec_expression_position(k: SyntaxKind) -> bool {
    match k {
        SyntaxKind::ExpressionStatement | SyntaxKind::IfStatement | SyntaxKind::DoStatement
        | SyntaxKind::WhileStatement | SyntaxKind::ReturnStatement | SyntaxKind::WithStatement
        | SyntaxKind::SwitchStatement | SyntaxKind::CaseClause | SyntaxKind::DefaultClause
        | SyntaxKind::ThrowStatement | SyntaxKind::TypeAssertionExpression | SyntaxKind::AsExpression
        | SyntaxKind::TemplateSpan | SyntaxKind::ComputedPropertyName | SyntaxKind::SatisfiesExpression => true,
        _ => false,
    }
}

/// Whether a node stands where its parent expects an expression.
pub open spec fn spec_in_expression_context(ast: &Ast, i: int) -> Option<bool>
    decreases ast.nodes@.len() - i, 0int,
{
    match pp(ast, i) {
        None => None,
        Some(p) => {
            let pk = ast.kind_of(p);
            let pn = ast.nd(p);
            let me = Some(i as usize);
            if spec_initializer_position(pk) {
                Some(pn.initializer == me)
            } else if spec_expression_position(pk) {
                Some(pn.expression == me)
            } else if pk == SyntaxKind::ForStatement {
                Some((pn.initializer == me && ast.kind_of(i) != SyntaxKind::VariableDeclarationList) || pn.condition
                    == me || pn.incrementor == me)
            } else if pk == SyntaxKind::ForInStatement || pk == SyntaxKind::ForOfStatement {
                Some((pn.initializer == me && ast.kind_of(i) != SyntaxKind::VariableDeclarationList) || pn.expression == me)
            } else if pk == SyntaxKind::Decorator || pk == SyntaxKind::JsxExpression || pk
                == SyntaxKind::JsxSpreadAttribute || pk == SyntaxKind::SpreadAssignment {
                Some(true)
            } else if pk == SyntaxKind::ExpressionWithTypeArguments {
                if pn.expression == me {
                    match spec_part_of_type_node(ast, p) {
                        None => None,
                        Some(b) => Some(!b),
                    }
                } else {
                    Some(false)
                }
            } else if pk == SyntaxKind::ShorthandPropertyAssignment {
                Some(pn.object_assignment_initializer == me)
            } else {
                spec_expression_node(ast, p)
            }
        },
    }
}

/// Whether a node is an expression where it stands.
pub fn is_expression_node(ast: &Ast, node: usize) -> (r: bool)
    requires
        ast.wf(),
        ast.has(node as int),
        spec_expression_node(ast, node as int) is Some,
    ensures
        Some(r) == spec_expression_node(ast, node as int),
    decreases ast.nodes@.len() - node, 1int,
{
    proof { lemma_pp(ast, node as int); lemma_links(ast, node as int); }
    let k = ast.kind(node);
    if is_expression_node_kind(k) {
        return true;
    }
    match k {
        SyntaxKind::MetaProperty => {
            let p = ast.parent(node).unwrap();
            !is_import_call(ast, p) || ast.node(p).expression != Some(node)
        },
        SyntaxKind::ExpressionWithTypeArguments => ast.kind(ast.parent(node).unwrap()) != SyntaxKind::HeritageClause,
        SyntaxKind::QualifiedName => {
            let mut current = node;
            while ast.kind(ast.parent(current).unwrap()) == SyntaxKind::QualifiedName
                invariant
                    ast.wf(),
                    ast.has(current as int),
                    spec_qualified_top(ast, node as int) is Some,
                    spec_qualified_top(ast, node as int) == spec_qualified_top(ast, current as int),
                decreases ast.nodes@.len() - current,
            {
                proof { lemma_pp(ast, current as int); }
                current = ast.parent(current).unwrap();
            }
            proof { lemma_pp(ast, current as int); }
            let p = ast.parent(current).unwrap();
            let pk = ast.kind(p);
            pk == SyntaxKind::TypeQuery || is_jsdoc_link_like_kind(pk) || pk == SyntaxKind::JSDocNameReference
                || is_jsx_tag_name(ast, current)
        },
        SyntaxKind::PrivateIdentifier => {
            let p = ast.parent(node).unwrap();
            proof { lemma_links(ast, p as int); }
            let pn = ast.node(p);
            if pn.kind != SyntaxKind::BinaryExpression {
                return false;
            }
            pn.left == Some(node) && ast.kind(pn.operator_token.unwrap()) == SyntaxKind::InKeyword
        },
        SyntaxKind::Identifier => {
            let pk = ast.kind(ast.parent(node).unwrap());
            if pk == SyntaxKind::TypeQuery || is_jsdoc_link_like_kind(pk) || pk == SyntaxKind::JSDocNameReference
                || is_jsx_tag_name(ast, node) {
                return true;
            }
            is_in_expression_context(ast, node)
        },
        SyntaxKind::NumericLiteral | SyntaxKind::BigIntLiteral | SyntaxKind::StringLiteral
        | SyntaxKind::NoSubstitutionTemplateLiteral | SyntaxKind::ThisKeyword => is_in_expression_context(ast, node),
        _ => false,
    }
}

/// Whether a node stands where its parent expects an expression.
pub fn is_in_expression_context(ast: &Ast, node: usize) -> (r: bool)
    requires
        ast.wf(),
        ast.has(node as int),
        spec_in_expression_context(ast, node as int) is Some,
    ensures
        Some(r) == spec_in_expression_context(ast, node as int),
    decreases ast.nodes@.len() - node, 0int,
{
    proof { lemma_pp(ast, node as int); }
    let p = ast.parent(node).unwrap();
    let pn = ast.node(p);
    let me = Some(node);
    match pn.kind {
        SyntaxKind::VariableDeclaration | SyntaxKind::Parameter | SyntaxKind::PropertyDeclaration
        | SyntaxKind::PropertySignature | SyntaxKind::EnumMember | SyntaxKind::PropertyAssignment
        | SyntaxKind::BindingElement => pn.initializer == me,
        SyntaxKind::ExpressionStatement | SyntaxKind::IfStatement | SyntaxKind::DoStatement
        | SyntaxKind::WhileStatement | SyntaxKind::ReturnStatement | SyntaxKind::WithStatement
        | SyntaxKind::SwitchStatement | SyntaxKind::CaseClause | SyntaxKind::DefaultClause
        | SyntaxKind::ThrowStatement | SyntaxKind::TypeAssertionExpression | SyntaxKind::AsExpression
        | SyntaxKind::TemplateSpan | SyntaxKind::ComputedPropertyName | SyntaxKind::SatisfiesExpression => {
            pn.expression == me
        },
        SyntaxKind::ForStatement => (pn.initializer == me && ast.kind(node) != SyntaxKind::VariableDeclarationList)
            || pn.condition == me || pn.incrementor == me,
        SyntaxKind::ForInStatement | SyntaxKind::ForOfStatement => (pn.initializer == me && ast.kind(node)
            != SyntaxKind::VariableDeclarationList) || pn.expression == me,
        SyntaxKind::Decorator | SyntaxKind::JsxExpression | SyntaxKind::JsxSpreadAttribute
        | SyntaxKind::SpreadAssignment => true,
        SyntaxKind::ExpressionWithTypeArguments => pn.expression == me && !is_part_of_type_node(ast, p),
        SyntaxKind::ShorthandPropertyAssignment => pn.object_assignment_initializer == me,
        _ => is_expression_node(ast, p),
    }
}

/// A string or numeric literal that is the expression of a computed
/// property name of a declaration.
pub open spec fn spec_is_literal_computed_property_declaration_name(ast: &Ast, i: int) -> Option<bool> {
    if !spec_is_string_or_numeric_literal_like(ast.kind_of(i)) {
        Some(false)
    } else {
        match pp(ast, i) {
            None => None,
            Some(p) => if ast.kind_of(p) != SyntaxKind::ComputedPropertyName {
                Some(false)
            } else {
                match pp(ast, p) {
                    None => None,
                    Some(g) => Some(spec_is_declaration(ast.kind_of(g))),
                }
            },
        }
    }
}

pub fn is_literal_computed_property_declaration_name(ast: &Ast, node: usize) -> (r: bool)
    requires
        ast.wf(),
        ast.has(node as int),
        spec_is_literal_computed_property_declaration_name(ast, node as int) is Some,
    ensures
        Some(r) == spec_is_literal_computed_property_declaration_name(ast, node as int),
{
    proof { lemma_pp(ast, node as int); }
    if !is_string_or_numeric_literal_like_kind(ast.kind(node)) {
        return false;
    }
    let p = ast.parent(node).unwrap();
    if ast.kind(p) != SyntaxKind::ComputedPropertyName {
        return false;
    }
    proof { lemma_pp(ast, p as int); }
    is_declaration_kind(ast.kind(ast.parent(p).unwrap()))
}

/// The `skip_type_parentheses` walk: the first node that is not a
/// parenthesized type, `None` if one lacks its type.
pub open spec fn spec_skip_type_parentheses(ast: &Ast, i: int) -> Option<usize>
    decreases i,
{
    if !ast.has(i) {
        None
    } else if ast.kind_of(i) != SyntaxKind::ParenthesizedType {
        Some(i as usize)
    } else {
        match ast.nd(i).type_node {
            Some(t) => if t < i { spec_skip_type_parentheses(ast, t as int) } else { None },
            None => None,
        }
    }
}

pub fn skip_type_parentheses(ast: &Ast, node: usize) -> (r: usize)
    requires
        ast.wf(),
        ast.has(node as int),
        spec_skip_type_parentheses(ast, node as int) is Some,
    ensures
        Some(r) == spec_skip_type_parentheses(ast, node as int),
{
    let mut current = node;
    while ast.kind(current) == SyntaxKind::ParenthesizedType
        invariant
            ast.wf(),
            ast.has(current as int),
            spec_skip_type_parentheses(ast, node as int) == spec_skip_type_parentheses(ast, current as int),
            spec_skip_type_parentheses(ast, current as int) is Some,
        decreases current,
    {
        proof { lemma_links(ast, current as int); }
        current = ast.node(current).type_node.unwrap();
    }
    current
}

/// A type parameter, class, interface, type alias or enum declaration; a
/// type-only import clause; an import or export specifier of a type-only
/// declaration.
pub open spec fn spec_is_type_declaration(ast: &Ast, i: int) -> Option<bool> {
    match ast.kind_of(i) {
        SyntaxKind::TypeParameter | SyntaxKind::ClassDeclaration | SyntaxKind::InterfaceDeclaration
        | SyntaxKind::TypeAliasDeclaration | SyntaxKind::JSTypeAliasDeclaration
        | SyntaxKind::EnumDeclaration => Some(true),
        SyntaxKind::ImportClause => Some(ast.nd(i).is_type_only),
        SyntaxKind::ImportSpecifier | SyntaxKind::ExportSpecifier => match pp(ast, i) {
            None => None,
            Some(p) => match pp(ast, p) {
                None => None,
                Some(g) => Some(ast.nd(g).is_type_only),
            },
        },
        _ => Some(false),
    }
}

pub fn is_type_declaration(ast: &Ast, node: usize) -> (r: bool)
    requires
        ast.wf(),
        ast.has(node as int),
        spec_is_type_declaration(ast, node as int) is Some,
    ensures
        Some(r) == spec_is_type_declaration(ast, node as int),
{
    proof { lemma_pp(ast, node as int); }
    match ast.kind(node) {
        SyntaxKind::TypeParameter | SyntaxKind::ClassDeclaration | SyntaxKind::InterfaceDeclaration
        | SyntaxKind::TypeAliasDeclaration | SyntaxKind::JSTypeAliasDeclaration
        | SyntaxKind::EnumDeclaration => true,
        SyntaxKind::ImportClause => ast.node(node).is_type_only,
        SyntaxKind::ImportSpecifier | SyntaxKind::ExportSpecifier => {
            let p = ast.parent(node).unwrap();
            proof { lemma_pp(ast, p as int); }
            ast.node(ast.parent(p).unwrap()).is_type_only
        },
        _ => false,
    }
}

/// An identifier that names a type declaration.
pub open spec fn spec_is_type_declaration_name(ast: &Ast, name: int) -> Option<bool> {
    if ast.kind_of(name) != SyntaxKind::Identifier {
        Some(false)
    } else {
        match pp(ast, name) {
            None => None,
            Some(p) => match spec_is_type_declaration(ast, p) {
                None => None,
                Some(b) => Some(b && ast.nd(p).name == Some(name as usize)),
            },
        }
    }
}

pub fn is_type_declaration_name(ast: &Ast, name: usize) -> (r: bool)
    requires
        ast.wf(),
        ast.has(name as int),
        spec_is_type_declaration_name(ast, name as int) is Some,
    ensures
        Some(r) == spec_is_type_declaration_name(ast, name as int),
{
    proof { lemma_pp(ast, name as int); }
    if ast.kind(name) != SyntaxKind::Identifier {
        return false;
    }
    let p = ast.parent(name).unwrap();
    is_type_declaration(ast, p) && ast.node(p).name == Some(name)
}

/// A declaration name, or the name of an import or export specifier.
pub open spec fn spec_is_declaration_name_or_import_property_name(ast: &Ast, name: int) -> Option<bool> {
    match pp(ast, name) {
        None => None,
        Some(p) => if ast.kind_of(p) == SyntaxKind::ImportSpecifier || ast.kind_of(p) == SyntaxKind::ExportSpecifier {
            Some(ast.kind_of(name) == SyntaxKind::Identifier || ast.kind_of(name) == SyntaxKind::StringLiteral)
        } else {
            spec_is_declaration_name(ast, name)
        },
    }
}

pub fn is_declaration_name_or_import_property_name(ast: &Ast, name: usize) -> (r: bool)
    requires
        ast.wf(),
        ast.has(name as int),
        spec_is_declaration_name_or_import_property_name(ast, name as int) is Some,
    ensures
        Some(r) == spec_is_declaration_name_or_import_property_name(ast, name as int),
{
    proof { lemma_pp(ast, name as int); }
    let pk = ast.kind(ast.parent(name).unwrap());
    if pk == SyntaxKind::ImportSpecifier || pk == SyntaxKind::ExportSpecifier {
        let k = ast.kind(name);
        return k == SyntaxKind::Identifier || k == SyntaxKind::StringLiteral;
    }
    is_declaration_name(ast, name)
}

/// The node a chain of partially emitted expressions wraps.
pub open spec fn spec_skip_partially_emitted(ast: &Ast, i: int) -> Option<usize>
    decreases i,
{
    if !ast.has(i) {
        None
    } else if ast.kind_of(i) != SyntaxKind::PartiallyEmittedExpression {
        Some(i as usize)
    } else {
        match ast.nd(i).expression {
            Some(e) => if e < i { spec_skip_partially_emitted(ast, e as int) } else { None },
            None => None,
        }
    }
}

/// Whether a node (past partially emitted wrappers) is of an expression kind.
pub fn is_expression(ast: &Ast, node: usize) -> (r: bool)
    requires
        ast.wf(),
        ast.has(node as int),
        spec_skip_partially_emitted(ast, node as int) is Some,
    ensures
        r == spec_is_expression(ast.kind_of(spec_skip_partially_emitted(ast, node as int).unwrap() as int)),
{
    let mut current = node;
    while ast.kind(current) == SyntaxKind::PartiallyEmittedExpression
        invariant
            ast.wf(),
            ast.has(current as int),
            spec_skip_partially_emitted(ast, node as int) == spec_skip_partially_emitted(ast, current as int),
            spec_skip_partially_emitted(ast, current as int) is Some,
        decreases current,
    {
        proof { lemma_links(ast, current as int); }
        current = ast.node(current).expression.unwrap();
    }
    is_expression_kind(ast.kind(current))
}

/// A plain `=` assignment whose left side is a left-hand-side expression.
pub open spec fn spec_is_simple_assignment(ast: &Ast, i: int) -> bool {
    let n = ast.nd(i);
    n.kind == SyntaxKind::BinaryExpression && (n.operator_token matches Some(o) && ast.kind_of(o as int)
        == SyntaxKind::EqualsToken) && (n.left matches Some(l) && spec_is_left_hand_side_expression(ast.kind_of(l as int)))
}

pub fn is_simple_assignment(ast: &Ast, node: usize) -> (r: bool)
    requires
        ast.wf(),
        ast.has(node as int),
    ensures
        r == spec_is_simple_assignment(ast, node as int),
{
    proof { lemma_links(ast, node as int); }
    let n = ast.node(node);
    n.kind == SyntaxKind::BinaryExpression && match n.operator_token {
        Some(o) => ast.kind(o) == SyntaxKind::EqualsToken,
        None => false,
    } && match n.left {
        Some(l) => is_left_hand_side_expression_kind(ast.kind(l)),
        None => false,
    }
}

/// An element of an array binding or assignment pattern.
pub open spec fn spec_is_array_binding_or_assignment_element(ast: &Ast, i: int) -> bool {
    match ast.kind_of(i) {
        SyntaxKind::BindingElement | SyntaxKind::OmittedExpression | SyntaxKind::SpreadElement
        | SyntaxKind::ArrayLiteralExpression | SyntaxKind::ObjectLiteralExpression | SyntaxKind::Identifier
        | SyntaxKind::PropertyAccessExpression | SyntaxKind::ElementAccessExpression => true,
        _ => spec_is_simple_assignment(ast, i),
    }
}

pub fn is_array_binding_or_assignment_element(ast: &Ast, node: usize) -> (r: bool)
    requires
        ast.wf(),
        ast.has(node as int),
    ensures
        r == spec_is_array_binding_or_assignment_element(ast, node as int),
{
    match ast.kind(node) {
        SyntaxKind::BindingElement | SyntaxKind::OmittedExpression | SyntaxKind::SpreadElement
        | SyntaxKind::ArrayLiteralExpression | SyntaxKind::ObjectLiteralExpression | SyntaxKind::Identifier
        | SyntaxKind::PropertyAccessExpression | SyntaxKind::ElementAccessExpression => true,
        _ => is_simple_assignment(ast, node),
    }
}




/// Whether an array or object literal is the target of a destructuring
/// assignment (`[a] = x`, `for ([a] of x)`), through enclosing literals.
pub open spec fn spec_destructuring_pattern(ast: &Ast, i: int) -> Option<bool>
    decreases ast.nodes@.len() - i,
{
    let k = ast.kind_of(i);
    if !(k == SyntaxKind::ArrayLiteralExpression || k == SyntaxKind::ObjectLiteralExpression) {
        Some(false)
    } else {
        match pp(ast, i) {
            None => None,
            Some(p) => {
                let pn = ast.nd(p);
                if pn.kind == SyntaxKind::BinaryExpression && pn.left == Some(i as usize) && pn.operator_token is None {
                    None
                } else if pn.kind == SyntaxKind::BinaryExpression && pn.left == Some(i as usize) && ast.kind_of(
                    pn.operator_token.unwrap() as int) == SyntaxKind::EqualsToken {
                    Some(true)
                } else if pn.kind == SyntaxKind::ForOfStatement && pn.initializer == Some(i as usize) {
                    Some(true)
                } else if pn.kind == SyntaxKind::PropertyAssignment {
                    match pp(ast, p) {
                        None => None,
                        Some(g) => spec_destructuring_pattern(ast, g),
                    }
                } else {
                    spec_destructuring_pattern(ast, p)
                }
            },
        }
    }
}

pub fn is_array_literal_or_object_literal_destructuring_pattern(ast: &Ast, node: usize) -> (r: bool)
    requires
        ast.wf(),
        ast.has(node as int),
        spec_destructuring_pattern(ast, node as int) is Some,
    ensures
        Some(r) == spec_destructuring_pattern(ast, node as int),
{
    let mut current = node;
    loop
        invariant
            ast.wf(),
            ast.has(current as int),
            spec_destructuring_pattern(ast, node as int) == spec_destructuring_pattern(ast, current as int),
            spec_destructuring_pattern(ast, current as int) is Some,
        decreases ast.nodes@.len() - current,
    {
        let k = ast.kind(current);
        if !(k == SyntaxKind::ArrayLiteralExpression || k == SyntaxKind::ObjectLiteralExpression) {
            return false;
        }
        proof { lemma_pp(ast, current as int); }
        let p = ast.parent(current).unwrap();
        proof { lemma_links(ast, p as int); }
        let pn = ast.node(p);
        if pn.kind == SyntaxKind::BinaryExpression && pn.left == Some(current) && ast.kind(pn.operator_token.unwrap())
            == SyntaxKind::EqualsToken {
            return true;
        }
        if pn.kind == SyntaxKind::ForOfStatement && pn.initializer == Some(current) {
            return true;
        }
        if pn.kind == SyntaxKind::PropertyAssignment {
            proof { lemma_pp(ast, p as int); }
            current = ast.parent(p).unwrap();
        } else {
            current = p;
        }
    }
}

/// Whether a declaration writes its name; `None` for an unhandled kind or a
/// missing parent read.
pub open spec fn spec_declaration_is_write_access(ast: &Ast, decl: Option<usize>) -> Option<bool> {
    match decl {
        None => Some(false),
        Some(d) => {
            let d = d as int;
            let n = ast.nd(d);
            if n.flags & node_flags::AMBIENT != 0 {
                Some(true)
            } else {
                match n.kind {
                    SyntaxKind::BinaryExpression | SyntaxKind::BindingElement | SyntaxKind::ClassDeclaration
                    | SyntaxKind::ClassExpression | SyntaxKind::DefaultKeyword | SyntaxKind::EnumDeclaration
                    | SyntaxKind::EnumMember | SyntaxKind::ExportSpecifier | SyntaxKind::ImportClause
                    | SyntaxKind::ImportEqualsDeclaration | SyntaxKind::ImportSpecifier
                    | SyntaxKind::InterfaceDeclaration | SyntaxKind::JSDocCallbackTag | SyntaxKind::JSDocTypedefTag
                    | SyntaxKind::JsxAttribute | SyntaxKind::ModuleDeclaration | SyntaxKind::NamespaceExportDeclaration
                    | SyntaxKind::NamespaceImport | SyntaxKind::NamespaceExport | SyntaxKind::Parameter
                    | SyntaxKind::ShorthandPropertyAssignment | SyntaxKind::TypeAliasDeclaration
                    | SyntaxKind::JSTypeAliasDeclaration | SyntaxKind::TypeParameter => Some(true),
                    SyntaxKind::PropertyAssignment => match pp(ast, d) {
                        None => None,
                        Some(p) => match spec_destructuring_pattern(ast, p) {
                            None => None,
                            Some(b) => Some(!b),
                        },
                    },
                    SyntaxKind::FunctionDeclaration | SyntaxKind::FunctionExpression | SyntaxKind::Constructor
                    | SyntaxKind::MethodDeclaration | SyntaxKind::GetAccessor | SyntaxKind::SetAccessor => Some(n.body is Some),
                    SyntaxKind::VariableDeclaration | SyntaxKind::PropertyDeclaration => if n.initializer is Some {
                        Some(true)
                    } else {
                        match pp(ast, d) {
                            None => None,
                            Some(p) => Some(ast.kind_of(p) == SyntaxKind::CatchClause),
                        }
                    },
                    SyntaxKind::MethodSignature | SyntaxKind::PropertySignature | SyntaxKind::JSDocPropertyTag
                    | SyntaxKind::JSDocParameterTag => Some(false),
                    _ => None,
                }
            }
        },
    }
}

pub fn declaration_is_write_access(ast: &Ast, decl: Option<usize>) -> (r: bool)
    requires
        ast.wf(),
        decl matches Some(d) ==> ast.has(d as int),
        spec_declaration_is_write_access(ast, decl) is Some,
    ensures
        Some(r) == spec_declaration_is_write_access(ast, decl),
{
    let d = match decl {
        None => return false,
        Some(d) => d,
    };
    proof { lemma_pp(ast, d as int); }
    let n = ast.node(d);
    if n.flags & node_flags::AMBIENT != 0 {
        return true;
    }
    match n.kind {
        SyntaxKind::BinaryExpression | SyntaxKind::BindingElement | SyntaxKind::ClassDeclaration
        | SyntaxKind::ClassExpression | SyntaxKind::DefaultKeyword | SyntaxKind::EnumDeclaration
        | SyntaxKind::EnumMember | SyntaxKind::ExportSpecifier | SyntaxKind::ImportClause
        | SyntaxKind::ImportEqualsDeclaration | SyntaxKind::ImportSpecifier | SyntaxKind::InterfaceDeclaration
        | SyntaxKind::JSDocCallbackTag | SyntaxKind::JSDocTypedefTag | SyntaxKind::JsxAttribute
        | SyntaxKind::ModuleDeclaration | SyntaxKind::NamespaceExportDeclaration | SyntaxKind::NamespaceImport
        | SyntaxKind::NamespaceExport | SyntaxKind::Parameter | SyntaxKind::ShorthandPropertyAssignment
        | SyntaxKind::TypeAliasDeclaration | SyntaxKind::JSTypeAliasDeclaration | SyntaxKind::TypeParameter => true,
        SyntaxKind::PropertyAssignment => {
            !is_array_literal_or_object_literal_destructuring_pattern(ast, ast.parent(d).unwrap())
        },
        SyntaxKind::FunctionDeclaration | SyntaxKind::FunctionExpression | SyntaxKind::Constructor
        | SyntaxKind::MethodDeclaration | SyntaxKind::GetAccessor | SyntaxKind::SetAccessor => n.body.is_some(),
        SyntaxKind::VariableDeclaration | SyntaxKind::PropertyDeclaration => {
            n.initializer.is_some() || ast.kind(ast.parent(d).unwrap()) == SyntaxKind::CatchClause
        },
        _ => false,
    }
}

/// How an expression reads or writes what it names.
#[derive(Clone, Copy, Debug, PartialEq, Eq, Structural)]
pub enum AccessKind {
    Read,
    Write,
    ReadWrite,
}

pub open spec fn spec_reverse_access(a: AccessKind) -> AccessKind {
    match a {
        AccessKind::Read => AccessKind::Write,
        AccessKind::Write => AccessKind::Read,
        AccessKind::ReadWrite => AccessKind::ReadWrite,
    }
}

/// How a node is accessed where it stands; `None` for a missing parent read.
pub open spec fn spec_access_kind(ast: &Ast, i: int) -> Option<AccessKind>
    decreases ast.nodes@.len() - i,
{
    match pp(ast, i) {
        None => None,
        Some(p) => {
            let pn = ast.nd(p);
            let me = Some(i as usize);
            match pn.kind {
                SyntaxKind::ParenthesizedExpression | SyntaxKind::ArrayLiteralExpression => spec_access_kind(ast, p),
                SyntaxKind::PrefixUnaryExpression | SyntaxKind::PostfixUnaryExpression => Some(
                    if pn.token == SyntaxKind::PlusPlusToken || pn.token == SyntaxKind::MinusMinusToken {
                        AccessKind::ReadWrite
                    } else {
                        AccessKind::Read
                    },
                ),
                SyntaxKind::BinaryExpression => if pn.left == me {
                    match pn.operator_token {
                        None => None,
                        Some(o) => {
                            let ok = ast.kind_of(o as int);
                            Some(if ok == SyntaxKind::EqualsToken {
                                AccessKind::Write
                            } else if spec_is_assignment_operator(ok) {
                                AccessKind::ReadWrite
                            } else {
                                AccessKind::Read
                            })
                        },
                    }
                } else {
                    Some(AccessKind::Read)
                },
                SyntaxKind::PropertyAccessExpression => if pn.name != me {
                    Some(AccessKind::Read)
                } else {
                    spec_access_kind(ast, p)
                },
                SyntaxKind::PropertyAssignment => match pp(ast, p) {
                    None => None,
                    Some(g) => match spec_access_kind(ast, g) {
                        None => None,
                        Some(a) => Some(if pn.name == me { spec_reverse_access(a) } else { a }),
                    },
                },
                SyntaxKind::ShorthandPropertyAssignment => if pn.object_assignment_initializer == me {
                    Some(AccessKind::Read)
                } else {
                    match pp(ast, p) {
                        None => None,
                        Some(g) => spec_access_kind(ast, g),
                    }
                },
                SyntaxKind::ForInStatement | SyntaxKind::ForOfStatement => Some(if pn.initializer == me {
                    AccessKind::Write
                } else {
                    AccessKind::Read
                }),
                _ => Some(AccessKind::Read),
            }
        },
    }
}

pub fn get_access_kind(ast: &Ast, node: usize) -> (r: AccessKind)
    requires
        ast.wf(),
        ast.has(node as int),
        spec_access_kind(ast, node as int) is Some,
    ensures
        Some(r) == spec_access_kind(ast, node as int),
    decreases ast.nodes@.len() - node,
{
    proof { lemma_pp(ast, node as int); }
    let p = ast.parent(node).unwrap();
    proof { lemma_links(ast, p as int); }
    let pn = ast.node(p);
    let me = Some(node);
    match pn.kind {
        SyntaxKind::ParenthesizedExpression | SyntaxKind::ArrayLiteralExpression => get_access_kind(ast, p),
        SyntaxKind::PrefixUnaryExpression | SyntaxKind::PostfixUnaryExpression => {
            if pn.token == SyntaxKind::PlusPlusToken || pn.token == SyntaxKind::MinusMinusToken {
                AccessKind::ReadWrite
            } else {
                AccessKind::Read
            }
        },
        SyntaxKind::BinaryExpression => {
            if pn.left == me {
                let ok = ast.kind(pn.operator_token.unwrap());
                if ok == SyntaxKind::EqualsToken {
                    AccessKind::Write
                } else if crate::kind_classes::is_assignment_operator_kind(ok) {
                    AccessKind::ReadWrite
                } else {
                    AccessKind::Read
                }
            } else {
                AccessKind::Read
            }
        },
        SyntaxKind::PropertyAccessExpression => if pn.name != me {
            AccessKind::Read
        } else {
            get_access_kind(ast, p)
        },
        SyntaxKind::PropertyAssignment => {
            proof { lemma_pp(ast, p as int); }
            let a = get_access_kind(ast, ast.parent(p).unwrap());
            if pn.name == me {
                match a {
                    AccessKind::Read => AccessKind::Write,
                    AccessKind::Write => AccessKind::Read,
                    AccessKind::ReadWrite => AccessKind::ReadWrite,
                }
            } else {
                a
            }
        },
        SyntaxKind::ShorthandPropertyAssignment => {
            if pn.object_assignment_initializer == me {
                AccessKind::Read
            } else {
                proof { lemma_pp(ast, p as int); }
                get_access_kind(ast, ast.parent(p).unwrap())
            }
        },
        SyntaxKind::ForInStatement | SyntaxKind::ForOfStatement => if pn.initializer == me {
            AccessKind::Write
        } else {
            AccessKind::Read
        },
        _ => AccessKind::Read,
    }
}

/// Whether a node is written where it stands.
pub fn is_write_access(ast: &Ast, node: usize) -> (r: bool)
    requires
        ast.wf(),
        ast.has(node as int),
        spec_access_kind(ast, node as int) is Some,
    ensures
        r == (spec_access_kind(ast, node as int) != Some(AccessKind::Read)),
{
    get_access_kind(ast, node) != AccessKind::Read
}

/// The name a JavaScript assignment declaration declares: the accessed name
/// of its left side, for the property-like assignment kinds.
pub open spec fn spec_assignment_declaration_name(ast: &Ast, bin: int) -> Option<usize> {
    let n = ast.nd(bin);
    let ak = n.assignment_kind;
    if ak == AssignmentKind::ExportsProperty || ak == AssignmentKind::ThisProperty || ak == AssignmentKind::Property
        || ak == AssignmentKind::PrototypeProperty {
        match n.left {
            None => None,
            Some(l) => {
                let ln = ast.nd(l as int);
                if ln.kind == SyntaxKind::PropertyAccessExpression {
                    ln.name
                } else if ln.kind == SyntaxKind::ElementAccessExpression {
                    match ln.argument {
                        Some(a) => if spec_is_string_or_numeric_literal_like(ast.kind_of(a as int)) { Some(a) } else { None },
                        None => None,
                    }
                } else {
                    None
                }
            },
        }
    } else {
        None
    }
}

pub(crate) fn assignment_declaration_name(ast: &Ast, bin: usize) -> (r: Option<usize>)
    requires
        ast.wf(),
        ast.has(bin as int),
    ensures
        r == spec_assignment_declaration_name(ast, bin as int),
{
    proof { lemma_links(ast, bin as int); }
    let n = ast.node(bin);
    let ak = n.assignment_kind;
    if ak == AssignmentKind::ExportsProperty || ak == AssignmentKind::ThisProperty || ak == AssignmentKind::Property
        || ak == AssignmentKind::PrototypeProperty {
        match n.left {
            None => None,
            Some(l) => {
                proof { lemma_links(ast, l as int); }
                let ln = ast.node(l);
                if ln.kind == SyntaxKind::PropertyAccessExpression {
                    ln.name
                } else if ln.kind == SyntaxKind::ElementAccessExpression {
                    match ln.argument {
                        Some(a) => if is_string_or_numeric_literal_like_kind(ast.kind(a)) { Some(a) } else { None },
                        None => None,
                    }
                } else {
                    None
                }
            },
        }
    } else {
        None
    }
}

/// The declaration a name names; `None` inside for none, outside for a
/// missing parent read.
pub open spec fn spec_declaration_from_name(ast: &Ast, name: Option<usize>) -> Option<Option<usize>> {
    match name {
        None => Some(None),
        Some(nm) => {
            let nm = nm as int;
            match pp(ast, nm) {
                None => Some(None),
                Some(p) => {
                    let k = ast.kind_of(nm);
                    let pk = ast.kind_of(p);
                    let named_here = ast.nd(p).name == Some(nm as usize);
                    if (k == SyntaxKind::StringLiteral || k == SyntaxKind::NoSubstitutionTemplateLiteral || k
                        == SyntaxKind::NumericLiteral) && pk == SyntaxKind::ComputedPropertyName {
                        Some(ast.parent_of(p))
                    } else if k == SyntaxKind::PrivateIdentifier && spec_is_declaration(pk) && named_here {
                        Some(Some(p as usize))
                    } else if !(k == SyntaxKind::StringLiteral || k == SyntaxKind::NoSubstitutionTemplateLiteral || k
                        == SyntaxKind::NumericLiteral || k == SyntaxKind::Identifier) {
                        Some(None)
                    } else if spec_is_declaration(pk) {
                        Some(if named_here { Some(p as usize) } else { None })
                    } else if pk == SyntaxKind::QualifiedName {
                        match pp(ast, p) {
                            None => None,
                            Some(tag) => Some(if ast.kind_of(tag) == SyntaxKind::JSDocParameterTag && ast.nd(tag).name
                                == Some(p as usize) {
                                Some(tag as usize)
                            } else {
                                None
                            }),
                        }
                    } else {
                        match pp(ast, p) {
                            None => None,
                            Some(bin) => {
                                let bn = ast.nd(bin);
                                let left_has_symbol = bn.left matches Some(l) && ast.nd(l as int).symbol is Some;
                                Some(if bn.kind == SyntaxKind::BinaryExpression && bn.assignment_kind
                                    != AssignmentKind::NotDeclaration && (left_has_symbol || bn.symbol is Some)
                                    && spec_assignment_declaration_name(ast, bin) == Some(nm as usize) {
                                    Some(bin as usize)
                                } else {
                                    None
                                })
                            },
                        }
                    }
                },
            }
        },
    }
}

pub fn get_declaration_from_name(ast: &Ast, name: Option<usize>) -> (r: Option<usize>)
    requires
        ast.wf(),
        name matches Some(n) ==> ast.has(n as int),
        spec_declaration_from_name(ast, name) is Some,
    ensures
        Some(r) == spec_declaration_from_name(ast, name),
        r matches Some(d) ==> ast.has(d as int),
{
    let nm = match name {
        None => return None,
        Some(nm) => nm,
    };
    proof { lemma_pp(ast, nm as int); }
    let p = match ast.parent(nm) {
        None => return None,
        Some(p) => p,
    };
    proof { lemma_pp(ast, p as int); }
    let k = ast.kind(nm);
    let pk = ast.kind(p);
    let named_here = ast.node(p).name == Some(nm);
    if (k == SyntaxKind::StringLiteral || k == SyntaxKind::NoSubstitutionTemplateLiteral || k == SyntaxKind::NumericLiteral)
        && pk == SyntaxKind::ComputedPropertyName {
        return ast.parent(p);
    }
    if k == SyntaxKind::PrivateIdentifier && is_declaration_kind(pk) && named_here {
        return Some(p);
    }
    if !(k == SyntaxKind::StringLiteral || k == SyntaxKind::NoSubstitutionTemplateLiteral || k == SyntaxKind::NumericLiteral
        || k == SyntaxKind::Identifier) {
        return None;
    }
    if is_declaration_kind(pk) {
        return if named_here { Some(p) } else { None };
    }
    if pk == SyntaxKind::QualifiedName {
        let tag = ast.parent(p).unwrap();
        return if ast.kind(tag) == SyntaxKind::JSDocParameterTag && ast.node(tag).name == Some(p) {
            Some(tag)
        } else {
            None
        };
    }
    let bin = ast.parent(p).unwrap();
    proof { lemma_links(ast, bin as int); }
    let bn = ast.node(bin);
    let left_has_symbol = match bn.left {
        Some(l) => has_symbol(ast, l),
        None => false,
    };
    if bn.kind == SyntaxKind::BinaryExpression && bn.assignment_kind != AssignmentKind::NotDeclaration && (
    left_has_symbol || bn.symbol.is_some()) && assignment_declaration_name(ast, bin) == Some(nm) {
        return Some(bin);
    }
    None
}

/// A reference that writes: its declaration writes, it is `default`, or it is
/// written where it stands.
pub open spec fn spec_is_write_access_for_reference(ast: &Ast, i: int) -> Option<bool> {
    match spec_declaration_from_name(ast, Some(i as usize)) {
        None => None,
        Some(decl) => {
            let first = if decl is Some { spec_declaration_is_write_access(ast, decl) } else { Some(false) };
            match first {
                None => None,
                Some(true) => Some(true),
                Some(false) => if ast.kind_of(i) == SyntaxKind::DefaultKeyword {
                    Some(true)
                } else {
                    match spec_access_kind(ast, i) {
                        None => None,
                        Some(a) => Some(a != AccessKind::Read),
                    }
                },
            }
        },
    }
}

pub fn is_write_access_for_reference(ast: &Ast, node: usize) -> (r: bool)
    requires
        ast.wf(),
        ast.has(node as int),
        spec_is_write_access_for_reference(ast, node as int) is Some,
    ensures
        Some(r) == spec_is_write_access_for_reference(ast, node as int),
{
    let decl = get_declaration_from_name(ast, Some(node));
    (decl.is_some() && declaration_is_write_access(ast, decl)) || ast.kind(node) == SyntaxKind::DefaultKeyword
        || is_write_access(ast, node)
}

/// What a declaration declares: a value, a type, a namespace, or all three.
pub open spec fn spec_meaning_from_declaration(ast: &Ast, i: int) -> i32 {
    match ast.kind_of(i) {
        SyntaxKind::VariableDeclaration | SyntaxKind::Parameter | SyntaxKind::BindingElement
        | SyntaxKind::PropertyDeclaration | SyntaxKind::PropertySignature | SyntaxKind::PropertyAssignment
        | SyntaxKind::ShorthandPropertyAssignment | SyntaxKind::MethodDeclaration | SyntaxKind::MethodSignature
        | SyntaxKind::Constructor | SyntaxKind::GetAccessor | SyntaxKind::SetAccessor
        | SyntaxKind::FunctionDeclaration | SyntaxKind::FunctionExpression | SyntaxKind::ArrowFunction
        | SyntaxKind::CatchClause | SyntaxKind::JsxAttribute => semantic_meaning::VALUE,
        SyntaxKind::TypeParameter | SyntaxKind::InterfaceDeclaration | SyntaxKind::TypeAliasDeclaration
        | SyntaxKind::JSTypeAliasDeclaration | SyntaxKind::TypeLiteral => semantic_meaning::TYPE,
        SyntaxKind::EnumMember | SyntaxKind::ClassDeclaration => semantic_meaning::VALUE | semantic_meaning::TYPE,
        SyntaxKind::ModuleDeclaration => if spec_is_ambient_module(ast, i) || ast.nd(i).instance_state
            == ModuleInstanceState::Instantiated {
            semantic_meaning::NAMESPACE | semantic_meaning::VALUE
        } else {
            semantic_meaning::NAMESPACE
        },
        SyntaxKind::SourceFile => semantic_meaning::NAMESPACE | semantic_meaning::VALUE,
        _ => semantic_meaning::ALL,
    }
}

pub fn get_meaning_from_declaration(ast: &Ast, node: usize) -> (r: i32)
    requires
        ast.wf(),
        ast.has(node as int),
    ensures
        r == spec_meaning_from_declaration(ast, node as int),
{
    match ast.kind(node) {
        SyntaxKind::VariableDeclaration | SyntaxKind::Parameter | SyntaxKind::BindingElement
        | SyntaxKind::PropertyDeclaration | SyntaxKind::PropertySignature | SyntaxKind::PropertyAssignment
        | SyntaxKind::ShorthandPropertyAssignment | SyntaxKind::MethodDeclaration | SyntaxKind::MethodSignature
        | SyntaxKind::Constructor | SyntaxKind::GetAccessor | SyntaxKind::SetAccessor
        | SyntaxKind::FunctionDeclaration | SyntaxKind::FunctionExpression | SyntaxKind::ArrowFunction
        | SyntaxKind::CatchClause | SyntaxKind::JsxAttribute => semantic_meaning::VALUE,
        SyntaxKind::TypeParameter | SyntaxKind::InterfaceDeclaration | SyntaxKind::TypeAliasDeclaration
        | SyntaxKind::JSTypeAliasDeclaration | SyntaxKind::TypeLiteral => semantic_meaning::TYPE,
        SyntaxKind::EnumMember | SyntaxKind::ClassDeclaration => semantic_meaning::VALUE | semantic_meaning::TYPE,
        SyntaxKind::ModuleDeclaration => {
            if is_ambient_module(ast, node) || ast.node(node).instance_state == ModuleInstanceState::Instantiated {
                semantic_meaning::NAMESPACE | semantic_meaning::VALUE
            } else {
                semantic_meaning::NAMESPACE
            }
        },
        SyntaxKind::SourceFile => semantic_meaning::NAMESPACE | semantic_meaning::VALUE,
        _ => semantic_meaning::ALL,
    }
}

/// A `this` identifier that is the leftmost name of a type query's qualified name.
pub open spec fn spec_this_in_type_query_from(ast: &Ast, cur: int) -> Option<bool>
    decreases ast.nodes@.len() - cur,
{
    match pp(ast, cur) {
        None => None,
        Some(p) => if ast.kind_of(p) == SyntaxKind::QualifiedName && ast.nd(p).left == Some(cur as usize) {
            spec_this_in_type_query_from(ast, p)
        } else {
            Some(ast.kind_of(p) == SyntaxKind::TypeQuery)
        },
    }
}

pub open spec fn spec_is_this_in_type_query(ast: &Ast, i: int) -> Option<bool> {
    if !spec_is_this_identifier(ast, i) { Some(false) } else { spec_this_in_type_query_from(ast, i) }
}

pub fn is_this_in_type_query(ast: &Ast, node: usize) -> (r: bool)
    requires
        ast.wf(),
        ast.has(node as int),
        spec_is_this_in_type_query(ast, node as int) is Some,
    ensures
        Some(r) == spec_is_this_in_type_query(ast, node as int),
{
    if !is_this_identifier(ast, node) {
        return false;
    }
    let mut current = node;
    loop
        invariant
            ast.wf(),
            ast.has(current as int),
            spec_is_this_identifier(ast, node as int),
            spec_this_in_type_query_from(ast, node as int) == spec_this_in_type_query_from(ast, current as int),
            spec_this_in_type_query_from(ast, current as int) is Some,
        decreases ast.nodes@.len() - current,
    {
        proof { lemma_pp(ast, current as int); }
        let p = ast.parent(current).unwrap();
        if ast.kind(p) == SyntaxKind::QualifiedName && ast.node(p).left == Some(current) {
            current = p;
        } else {
            return ast.kind(p) == SyntaxKind::TypeQuery;
        }
    }
}


/// The operand of `++` or `--`, prefix or postfix, is both read and written:
/// its access kind is read-write, so it is a write access.
pub proof fn lemma_increment_operand_is_read_write(ast: &Ast, node: int)
    requires
        ast.wf(),
        ast.has(node),
        ast.parent_of(node) matches Some(p) && (ast.kind_of(p as int) == SyntaxKind::PrefixUnaryExpression
            || ast.kind_of(p as int) == SyntaxKind::PostfixUnaryExpression) && ast.nd(p as int).operand == Some(
            node as usize,
        ) && (ast.nd(p as int).token == SyntaxKind::PlusPlusToken || ast.nd(p as int).token
            == SyntaxKind::MinusMinusToken),
    ensures
        spec_access_kind(ast, node) == Some(AccessKind::ReadWrite),
        spec_access_kind(ast, node) != Some(AccessKind::Read),
{
    lemma_pp(ast, node);
}

} // verus!
