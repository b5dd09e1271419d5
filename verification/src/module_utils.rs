//! Modules, imports, type-only forms and augmentations.
//!
//! As elsewhere, a predicate that must read a slot or parent which a
//! malformed tree may lack is specified as an `Option`: `None` is that
//! missing read, and the executable function leaves it out by `requires`.
use vstd::prelude::*;
use crate::ast::{seq_below, Ast};
use crate::kind_classes::{is_any_import_or_re_export_kind, spec_is_any_import_or_re_export};
use crate::modifier_flags;
use crate::node_flags;
use crate::node_utils::{
    spec_ancestor_or_self, bytes_equal, get_source_file_of_node, has_syntactic_modifier, is_ambient_module,
    is_global_scope_augmentation, is_module_augmentation_external, lemma_links, lemma_pp, pp,
    spec_has_syntactic_modifier, spec_is_ambient_module, spec_is_global_scope_augmentation,
    spec_is_module_augmentation_external, spec_source_file_of,
};
use crate::positions::{is_expression_node, is_import_call, spec_expression_node, spec_is_import_call};
use crate::syntax_kind::SyntaxKind;

verus! {

/// Short-circuit `||` over reads that may fail: a failed left read fails,
/// a true left read wins, otherwise the right read decides.
pub open spec fn spec_or(a: Option<bool>, b: Option<bool>) -> Option<bool> {
    match a {
        None => None,
        Some(true) => Some(true),
        Some(false) => b,
    }
}

/// Short-circuit `&&` over reads that may fail.
pub open spec fn spec_and(a: Option<bool>, b: Option<bool>) -> Option<bool> {
    match a {
        None => None,
        Some(false) => Some(false),
        Some(true) => b,
    }
}

/// An `export =` or `export default` assignment.
pub fn is_any_export_assignment(ast: &Ast, node: usize) -> (r: bool)
    requires
        ast.has(node as int),
    ensures
        r == (ast.kind_of(node as int) == SyntaxKind::ExportAssignment),
{
    ast.kind(node) == SyntaxKind::ExportAssignment
}

/// An import declaration, in TypeScript or JavaScript.
pub fn is_import_declaration_or_js_import_declaration(ast: &Ast, node: usize) -> (r: bool)
    requires
        ast.has(node as int),
    ensures
        r == (ast.kind_of(node as int) == SyntaxKind::ImportDeclaration || ast.kind_of(node as int)
            == SyntaxKind::JSImportDeclaration),
{
    let k = ast.kind(node);
    k == SyntaxKind::ImportDeclaration || k == SyntaxKind::JSImportDeclaration
}

/// `import x = require("m")`; `None` when an import-equals declaration has
/// no module reference.
pub open spec fn spec_is_external_module_import_equals_declaration(ast: &Ast, i: int) -> Option<bool> {
    if ast.kind_of(i) != SyntaxKind::ImportEqualsDeclaration {
        Some(false)
    } else {
        match ast.nd(i).module_reference {
            None => None,
            Some(m) => Some(ast.kind_of(m as int) == SyntaxKind::ExternalModuleReference),
        }
    }
}

pub fn is_external_module_import_equals_declaration(ast: &Ast, node: usize) -> (r: bool)
    requires
        ast.wf(),
        ast.has(node as int),
        spec_is_external_module_import_equals_declaration(ast, node as int) is Some,
    ensures
        Some(r) == spec_is_external_module_import_equals_declaration(ast, node as int),
{
    proof { lemma_links(ast, node as int); }
    if ast.kind(node) != SyntaxKind::ImportEqualsDeclaration {
        return false;
    }
    let m = ast.node(node).module_reference.unwrap();
    ast.kind(m) == SyntaxKind::ExternalModuleReference
}

/// The `require` argument expression of an external-module import-equals
/// declaration (the declaration must be one).
pub fn get_external_module_import_equals_declaration_expression(ast: &Ast, node: usize) -> (r: Option<usize>)
    requires
        ast.wf(),
        ast.has(node as int),
        spec_is_external_module_import_equals_declaration(ast, node as int) == Some(true),
    ensures
        r == ast.nd(ast.nd(node as int).module_reference.unwrap() as int).expression,
        r matches Some(e) ==> ast.has(e as int),
{
    proof { lemma_links(ast, node as int); }
    let m = ast.node(node).module_reference.unwrap();
    proof { lemma_links(ast, m as int); }
    ast.node(m).expression
}

/// The string literal of an import type `import("m")`; `None` outside when
/// the import type has no argument or its literal type no literal.
pub open spec fn spec_import_type_node_literal(ast: &Ast, i: int) -> Option<Option<usize>> {
    if ast.kind_of(i) != SyntaxKind::ImportType {
        Some(None)
    } else {
        match ast.nd(i).argument {
            None => None,
            Some(a) => if ast.kind_of(a as int) != SyntaxKind::LiteralType {
                Some(None)
            } else {
                match ast.nd(a as int).literal {
                    None => None,
                    Some(l) => Some(if ast.kind_of(l as int) == SyntaxKind::StringLiteral { Some(l) } else { None }),
                }
            },
        }
    }
}

fn get_import_type_node_literal(ast: &Ast, node: usize) -> (r: Option<usize>)
    requires
        ast.wf(),
        ast.has(node as int),
        spec_import_type_node_literal(ast, node as int) is Some,
    ensures
        Some(r) == spec_import_type_node_literal(ast, node as int),
{
    proof { lemma_links(ast, node as int); }
    if ast.kind(node) != SyntaxKind::ImportType {
        return None;
    }
    let a = ast.node(node).argument.unwrap();
    proof { lemma_links(ast, a as int); }
    if ast.kind(a) != SyntaxKind::LiteralType {
        return None;
    }
    let l = ast.node(a).literal.unwrap();
    if ast.kind(l) == SyntaxKind::StringLiteral {
        Some(l)
    } else {
        None
    }
}

/// The kinds whose module name `get_external_module_name` reads.
pub open spec fn spec_has_external_module_name(k: SyntaxKind) -> bool {
    k == SyntaxKind::ImportDeclaration || k == SyntaxKind::JSImportDeclaration || k
        == SyntaxKind::ExportDeclaration || k == SyntaxKind::ImportEqualsDeclaration || k
        == SyntaxKind::ImportType || k == SyntaxKind::CallExpression || k == SyntaxKind::ModuleDeclaration
}

/// The module name of an import, export, import type, call or module
/// declaration; `None` outside for a missing module reference, argument,
/// literal or name.
pub open spec fn spec_external_module_name(ast: &Ast, i: int) -> Option<Option<usize>> {
    let n = ast.nd(i);
    let k = n.kind;
    if k == SyntaxKind::ImportDeclaration || k == SyntaxKind::JSImportDeclaration || k
        == SyntaxKind::ExportDeclaration {
        Some(n.module_specifier)
    } else if k == SyntaxKind::ImportEqualsDeclaration {
        match n.module_reference {
            None => None,
            Some(m) => Some(if ast.kind_of(m as int) == SyntaxKind::ExternalModuleReference {
                ast.nd(m as int).expression
            } else {
                None
            }),
        }
    } else if k == SyntaxKind::ImportType {
        spec_import_type_node_literal(ast, i)
    } else if k == SyntaxKind::CallExpression {
        let args = Ast::list(n.arguments);
        Some(if args.len() > 0 { Some(args[0]) } else { None })
    } else {
        match n.name {
            None => None,
            Some(nm) => Some(if ast.kind_of(nm as int) == SyntaxKind::StringLiteral { Some(nm) } else { None }),
        }
    }
}

pub fn get_external_module_name(ast: &Ast, node: usize) -> (r: Option<usize>)
    requires
        ast.wf(),
        ast.has(node as int),
        spec_has_external_module_name(ast.kind_of(node as int)),
        spec_external_module_name(ast, node as int) is Some,
    ensures
        Some(r) == spec_external_module_name(ast, node as int),
        r matches Some(x) ==> ast.has(x as int),
{
    proof { lemma_links(ast, node as int); }
    let n = ast.node(node);
    match n.kind {
        SyntaxKind::ImportDeclaration | SyntaxKind::JSImportDeclaration | SyntaxKind::ExportDeclaration => {
            n.module_specifier
        },
        SyntaxKind::ImportEqualsDeclaration => {
            let m = n.module_reference.unwrap();
            proof { lemma_links(ast, m as int); }
            if ast.kind(m) == SyntaxKind::ExternalModuleReference {
                ast.node(m).expression
            } else {
                None
            }
        },
        SyntaxKind::ImportType => {
            let r = get_import_type_node_literal(ast, node);
            proof {
                let a = ast.nd(node as int).argument.unwrap();
                lemma_links(ast, a as int);
            }
            r
        },
        SyntaxKind::CallExpression => match &n.arguments {
            Some(v) => if v.len() > 0 {
                proof { assert(seq_below(v@, node as int)); }
                Some(v[0])
            } else {
                None
            },
            None => None,
        },
        _ => {
            let nm = n.name.unwrap();
            if ast.kind(nm) == SyntaxKind::StringLiteral {
                Some(nm)
            } else {
                None
            }
        },
    }
}

/// The kinds that carry import attributes.
pub open spec fn spec_has_import_attributes(k: SyntaxKind) -> bool {
    k == SyntaxKind::ImportDeclaration || k == SyntaxKind::JSImportDeclaration || k
        == SyntaxKind::ExportDeclaration || k == SyntaxKind::ImportType
}

pub fn has_import_attributes(ast: &Ast, node: usize) -> (r: bool)
    requires
        ast.has(node as int),
    ensures
        r == spec_has_import_attributes(ast.kind_of(node as int)),
{
    matches!(
        ast.kind(node),
        SyntaxKind::ImportDeclaration | SyntaxKind::JSImportDeclaration | SyntaxKind::ExportDeclaration
            | SyntaxKind::ImportType
    )
}

/// The import attributes of an import, export or import type.
pub fn get_import_attributes(ast: &Ast, node: usize) -> (r: Option<usize>)
    requires
        ast.has(node as int),
        spec_has_import_attributes(ast.kind_of(node as int)),
    ensures
        r == ast.nd(node as int).attributes,
{
    ast.node(node).attributes
}

/// An ambient module that augments an external module; `None` when such a
/// module has no parent.
pub open spec fn spec_is_external_module_augmentation(ast: &Ast, i: int) -> Option<bool> {
    if !spec_is_ambient_module(ast, i) {
        Some(false)
    } else if !ast.has_up(i) {
        None
    } else {
        Some(spec_is_module_augmentation_external(ast, i))
    }
}

pub fn is_external_module_augmentation(ast: &Ast, node: usize) -> (r: bool)
    requires
        ast.wf(),
        ast.has(node as int),
        spec_is_external_module_augmentation(ast, node as int) is Some,
    ensures
        Some(r) == spec_is_external_module_augmentation(ast, node as int),
{
    is_ambient_module(ast, node) && is_module_augmentation_external(ast, node)
}

/// The first declaration of `s` that augments neither an external module
/// nor the global scope; `None` outside when a test on the way fails.
pub open spec fn spec_first_non_augmentation(ast: &Ast, s: Seq<usize>) -> Option<Option<usize>>
    decreases s.len(),
{
    if s.len() == 0 {
        Some(None)
    } else {
        match spec_is_external_module_augmentation(ast, s[0] as int) {
            None => None,
            Some(ext) => if !ext && !spec_is_global_scope_augmentation(ast, s[0] as int) {
                Some(Some(s[0]))
            } else {
                spec_first_non_augmentation(ast, s.drop_first())
            },
        }
    }
}

/// The first declaration of a symbol that is not an augmentation.
pub fn get_non_augmentation_declaration(ast: &Ast, symbol: usize) -> (r: Option<usize>)
    requires
        ast.wf(),
        symbol < ast.symbols@.len(),
        spec_first_non_augmentation(ast, ast.symbols@[symbol as int].declarations@) is Some,
    ensures
        Some(r) == spec_first_non_augmentation(ast, ast.symbols@[symbol as int].declarations@),
        r matches Some(d) ==> ast.has(d as int),
{
    let decls = &ast.symbol(symbol).declarations;
    proof { assert(crate::ast::symbol_below(ast.symbols@[symbol as int], ast.nodes@.len() as int)); }
    let mut i: usize = 0;
    proof { assert(decls@.subrange(0, decls@.len() as int) == decls@); }
    while i < decls.len()
        invariant
            ast.wf(),
            i <= decls@.len(),
            *decls == ast.symbols@[symbol as int].declarations,
            seq_below(decls@, ast.nodes@.len() as int),
            spec_first_non_augmentation(ast, decls@) == spec_first_non_augmentation(
                ast,
                decls@.subrange(i as int, decls@.len() as int),
            ),
            spec_first_non_augmentation(ast, decls@) is Some,
        decreases decls@.len() - i,
    {
        let d = decls[i];
        let ghost rest = decls@.subrange(i as int, decls@.len() as int);
        proof {
            assert(rest[0] == d);
            assert(rest.drop_first() == decls@.subrange(i + 1, decls@.len() as int));
        }
        if !is_external_module_augmentation(ast, d) && !is_global_scope_augmentation(ast, d) {
            return Some(d);
        }
        i = i + 1;
    }
    None
}

/// The declaration that stands for a module symbol: its value declaration,
/// else its first non-augmentation declaration.
pub open spec fn spec_module_declaration(ast: &Ast, s: int) -> Option<Option<usize>> {
    match ast.symbols@[s].value_declaration {
        Some(d) => Some(Some(d)),
        None => spec_first_non_augmentation(ast, ast.symbols@[s].declarations@),
    }
}

/// The source file of a module symbol's declaration.
pub fn get_source_file_of_module(ast: &Ast, module: usize) -> (r: Option<usize>)
    requires
        ast.wf(),
        module < ast.symbols@.len(),
        spec_module_declaration(ast, module as int) is Some,
    ensures
        r == match spec_module_declaration(ast, module as int).unwrap() {
            Some(d) => spec_source_file_of(ast, d as int),
            None => None,
        },
{
    proof { assert(crate::ast::symbol_below(ast.symbols@[module as int], ast.nodes@.len() as int)); }
    let declaration = match ast.symbol(module).value_declaration {
        Some(d) => Some(d),
        None => get_non_augmentation_declaration(ast, module),
    };
    get_source_file_of_node(ast, declaration)
}


pub open spec fn require_text() -> Seq<u8> {
    seq![114u8, 101u8, 113u8, 117u8, 105u8, 114u8, 101u8]
}

/// A call `require(x)` with exactly one argument; `None` when a call has no
/// callee. An absent argument list counts as empty.
pub open spec fn spec_is_require_call(ast: &Ast, i: int) -> Option<bool> {
    if ast.kind_of(i) != SyntaxKind::CallExpression {
        Some(false)
    } else {
        match ast.nd(i).expression {
            None => None,
            Some(e) => Some(ast.kind_of(e as int) == SyntaxKind::Identifier && ast.nd(e as int).text@
                == require_text() && Ast::list(ast.nd(i).arguments).len() == 1),
        }
    }
}

fn is_require_call(ast: &Ast, node: usize) -> (r: bool)
    requires
        ast.wf(),
        ast.has(node as int),
        spec_is_require_call(ast, node as int) is Some,
    ensures
        Some(r) == spec_is_require_call(ast, node as int),
{
    proof { lemma_links(ast, node as int); }
    let n = ast.node(node);
    if n.kind != SyntaxKind::CallExpression {
        return false;
    }
    let e = n.expression.unwrap();
    let count: usize = match &n.arguments {
        Some(v) => v.len(),
        None => 0,
    };
    ast.kind(e) == SyntaxKind::Identifier && bytes_equal(
        ast.node(e).text.as_slice(),
        &[114u8, 101u8, 113u8, 117u8, 105u8, 114u8, 101u8],
    ) && count == 1
}

/// The import or export that a module specifier belongs to; `None` outside
/// when a parent that is read is missing.
pub open spec fn spec_import_from_module_specifier(ast: &Ast, i: int) -> Option<Option<usize>> {
    match pp(ast, i) {
        None => None,
        Some(p) => {
            let pk = ast.kind_of(p);
            if pk == SyntaxKind::ImportDeclaration || pk == SyntaxKind::JSImportDeclaration || pk
                == SyntaxKind::ExportDeclaration {
                Some(Some(p as usize))
            } else if pk == SyntaxKind::ExternalModuleReference {
                match pp(ast, p) {
                    None => None,
                    Some(g) => Some(Some(g as usize)),
                }
            } else if pk == SyntaxKind::CallExpression {
                match spec_or(spec_is_import_call(ast, p), spec_is_require_call(ast, p)) {
                    None => None,
                    Some(b) => Some(if b { Some(p as usize) } else { None }),
                }
            } else if pk == SyntaxKind::LiteralType {
                if ast.kind_of(i) != SyntaxKind::StringLiteral {
                    Some(None)
                } else {
                    match pp(ast, p) {
                        None => None,
                        Some(g) => Some(if ast.kind_of(g) == SyntaxKind::ImportType { Some(g as usize) } else { None }),
                    }
                }
            } else {
                Some(None)
            }
        },
    }
}

pub fn try_get_import_from_module_specifier(ast: &Ast, node: usize) -> (r: Option<usize>)
    requires
        ast.wf(),
        ast.has(node as int),
        spec_import_from_module_specifier(ast, node as int) is Some,
    ensures
        Some(r) == spec_import_from_module_specifier(ast, node as int),
        r matches Some(x) ==> ast.has(x as int),
{
    proof { lemma_pp(ast, node as int); }
    let p = ast.parent(node).unwrap();
    proof { lemma_pp(ast, p as int); }
    match ast.kind(p) {
        SyntaxKind::ImportDeclaration | SyntaxKind::JSImportDeclaration | SyntaxKind::ExportDeclaration => Some(p),
        SyntaxKind::ExternalModuleReference => Some(ast.parent(p).unwrap()),
        SyntaxKind::CallExpression => {
            if is_import_call(ast, p) || is_require_call(ast, p) {
                Some(p)
            } else {
                None
            }
        },
        SyntaxKind::LiteralType => {
            if ast.kind(node) != SyntaxKind::StringLiteral {
                return None;
            }
            let g = ast.parent(p).unwrap();
            if ast.kind(g) == SyntaxKind::ImportType {
                Some(g)
            } else {
                None
            }
        },
        _ => None,
    }
}

/// The import or export of a module specifier, which must have one.
pub fn import_from_module_specifier(ast: &Ast, node: usize) -> (r: Option<usize>)
    requires
        ast.wf(),
        ast.has(node as int),
        spec_import_from_module_specifier(ast, node as int) matches Some(Some(_)),
    ensures
        Some(r) == spec_import_from_module_specifier(ast, node as int),
        r is Some,
{
    try_get_import_from_module_specifier(ast, node)
}

/// An import or export that survives emit: not type-only, or a dynamic
/// import call; `None` when a call cannot be read.
pub open spec fn spec_is_emittable_import(ast: &Ast, i: int) -> Option<bool> {
    let n = ast.nd(i);
    if n.kind == SyntaxKind::ImportDeclaration {
        Some(match n.import_clause {
            Some(c) => !ast.nd(c as int).is_type_only,
            None => false,
        })
    } else if n.kind == SyntaxKind::ExportDeclaration || n.kind == SyntaxKind::ImportEqualsDeclaration {
        Some(!n.is_type_only)
    } else if n.kind == SyntaxKind::CallExpression {
        spec_is_import_call(ast, i)
    } else {
        Some(false)
    }
}

pub fn is_emittable_import(ast: &Ast, node: usize) -> (r: bool)
    requires
        ast.wf(),
        ast.has(node as int),
        spec_is_emittable_import(ast, node as int) is Some,
    ensures
        Some(r) == spec_is_emittable_import(ast, node as int),
{
    proof { lemma_links(ast, node as int); }
    let n = ast.node(node);
    match n.kind {
        SyntaxKind::ImportDeclaration => match n.import_clause {
            Some(c) => !ast.node(c).is_type_only,
            None => false,
        },
        SyntaxKind::ExportDeclaration | SyntaxKind::ImportEqualsDeclaration => !n.is_type_only,
        SyntaxKind::CallExpression => is_import_call(ast, node),
        _ => false,
    }
}

/// A statement that makes its file an external module: an import, a
/// re-export, an export assignment or an `export` modifier.
pub open spec fn spec_is_external_module_indicator(ast: &Ast, i: int) -> bool {
    spec_is_any_import_or_re_export(ast.kind_of(i)) || ast.kind_of(i) == SyntaxKind::ExportAssignment
        || spec_has_syntactic_modifier(ast, i, modifier_flags::EXPORT)
}

pub fn is_external_module_indicator(ast: &Ast, node: usize) -> (r: bool)
    requires
        ast.wf(),
        ast.has(node as int),
    ensures
        r == spec_is_external_module_indicator(ast, node as int),
{
    is_any_import_or_re_export_kind(ast.kind(node)) || ast.kind(node) == SyntaxKind::ExportAssignment
        || has_syntactic_modifier(ast, node, modifier_flags::EXPORT)
}

/// `module "m" { }`; `None` when a module declaration has no name.
pub open spec fn spec_is_module_with_string_literal_name(ast: &Ast, i: int) -> Option<bool> {
    if ast.kind_of(i) != SyntaxKind::ModuleDeclaration {
        Some(false)
    } else {
        match ast.nd(i).name {
            None => None,
            Some(nm) => Some(ast.kind_of(nm as int) == SyntaxKind::StringLiteral),
        }
    }
}

pub fn is_module_with_string_literal_name(ast: &Ast, node: usize) -> (r: bool)
    requires
        ast.wf(),
        ast.has(node as int),
        spec_is_module_with_string_literal_name(ast, node as int) is Some,
    ensures
        Some(r) == spec_is_module_with_string_literal_name(ast, node as int),
{
    proof { lemma_links(ast, node as int); }
    if ast.kind(node) != SyntaxKind::ModuleDeclaration {
        return false;
    }
    ast.kind(ast.node(node).name.unwrap()) == SyntaxKind::StringLiteral
}

/// Whether the grandparent of `i` (an import or export specifier's clause
/// owner) is type-only; `None` when it is missing.
pub open spec fn spec_grandparent_type_only(ast: &Ast, i: int) -> Option<bool> {
    match pp(ast, i) {
        None => None,
        Some(p) => match pp(ast, p) {
            None => None,
            Some(g) => Some(ast.nd(g).is_type_only),
        },
    }
}

/// Whether the parent of `i` is type-only; `None` when it is missing.
pub open spec fn spec_parent_type_only(ast: &Ast, i: int) -> Option<bool> {
    match pp(ast, i) {
        None => None,
        Some(p) => Some(ast.nd(p).is_type_only),
    }
}

/// A type-only import: `import type`, `import { type x }`, `import type * as ns`.
pub open spec fn spec_is_type_only_import_declaration(ast: &Ast, i: int) -> Option<bool> {
    let n = ast.nd(i);
    if n.kind == SyntaxKind::ImportSpecifier {
        if n.is_type_only { Some(true) } else { spec_grandparent_type_only(ast, i) }
    } else if n.kind == SyntaxKind::NamespaceImport {
        spec_parent_type_only(ast, i)
    } else if n.kind == SyntaxKind::ImportClause || n.kind == SyntaxKind::ImportEqualsDeclaration {
        Some(n.is_type_only)
    } else {
        Some(false)
    }
}

pub fn is_type_only_import_declaration(ast: &Ast, node: usize) -> (r: bool)
    requires
        ast.wf(),
        ast.has(node as int),
        spec_is_type_only_import_declaration(ast, node as int) is Some,
    ensures
        Some(r) == spec_is_type_only_import_declaration(ast, node as int),
{
    proof { lemma_pp(ast, node as int); }
    let n = ast.node(node);
    match n.kind {
        SyntaxKind::ImportSpecifier => {
            if n.is_type_only {
                return true;
            }
            let p = ast.parent(node).unwrap();
            proof { lemma_pp(ast, p as int); }
            ast.node(ast.parent(p).unwrap()).is_type_only
        },
        SyntaxKind::NamespaceImport => ast.node(ast.parent(node).unwrap()).is_type_only,
        SyntaxKind::ImportClause | SyntaxKind::ImportEqualsDeclaration => n.is_type_only,
        _ => false,
    }
}

/// A type-only export: `export type { }` from a module, `export { type x }`,
/// `export type * as ns from`.
pub open spec fn spec_is_type_only_export_declaration(ast: &Ast, i: int) -> Option<bool> {
    let n = ast.nd(i);
    if n.kind == SyntaxKind::ExportSpecifier {
        if n.is_type_only { Some(true) } else { spec_grandparent_type_only(ast, i) }
    } else if n.kind == SyntaxKind::ExportDeclaration {
        Some(n.is_type_only && n.module_specifier is Some && n.export_clause is None)
    } else if n.kind == SyntaxKind::NamespaceExport {
        spec_parent_type_only(ast, i)
    } else {
        Some(false)
    }
}

fn is_type_only_export_declaration(ast: &Ast, node: usize) -> (r: bool)
    requires
        ast.wf(),
        ast.has(node as int),
        spec_is_type_only_export_declaration(ast, node as int) is Some,
    ensures
        Some(r) == spec_is_type_only_export_declaration(ast, node as int),
{
    proof { lemma_pp(ast, node as int); }
    let n = ast.node(node);
    match n.kind {
        SyntaxKind::ExportSpecifier => {
            if n.is_type_only {
                return true;
            }
            let p = ast.parent(node).unwrap();
            proof { lemma_pp(ast, p as int); }
            ast.node(ast.parent(p).unwrap()).is_type_only
        },
        SyntaxKind::ExportDeclaration => n.is_type_only && n.module_specifier.is_some()
            && n.export_clause.is_none(),
        SyntaxKind::NamespaceExport => ast.node(ast.parent(node).unwrap()).is_type_only,
        _ => false,
    }
}

pub open spec fn spec_is_type_only_import_or_export_declaration(ast: &Ast, i: int) -> Option<bool> {
    spec_or(spec_is_type_only_import_declaration(ast, i), spec_is_type_only_export_declaration(ast, i))
}

pub fn is_type_only_import_or_export_declaration(ast: &Ast, node: usize) -> (r: bool)
    requires
        ast.wf(),
        ast.has(node as int),
        spec_is_type_only_import_or_export_declaration(ast, node as int) is Some,
    ensures
        Some(r) == spec_is_type_only_import_or_export_declaration(ast, node as int),
{
    is_type_only_import_declaration(ast, node) || is_type_only_export_declaration(ast, node)
}

/// Whether `i` or an ancestor is a type-only import or export; `None` when
/// a test on the way fails.
pub open spec fn spec_type_only_ancestor(ast: &Ast, i: int) -> Option<bool>
    decreases ast.nodes@.len() - i,
{
    if !ast.has(i) {
        Some(false)
    } else {
        match spec_is_type_only_import_or_export_declaration(ast, i) {
            None => None,
            Some(true) => Some(true),
            Some(false) => match ast.parent_of(i) {
                Some(p) => if i < p < ast.nodes@.len() { spec_type_only_ancestor(ast, p as int) } else { Some(false) },
                None => Some(false),
            },
        }
    }
}

/// Where every test on the way can be read, `i` is part of a type-only
/// import or export exactly when `i` or one of its ancestors is one.
pub proof fn lemma_type_only_ancestor_exists(ast: &Ast, i: int)
    requires
        spec_type_only_ancestor(ast, i) is Some,
    ensures
        spec_type_only_ancestor(ast, i) == Some(true) <==> exists|a: int|
            spec_ancestor_or_self(ast, i, a) && spec_is_type_only_import_or_export_declaration(ast, a) == Some(true),
    decreases ast.nodes@.len() - i,
{
    if ast.has(i) {
        match spec_is_type_only_import_or_export_declaration(ast, i) {
            Some(true) => {
                assert(spec_ancestor_or_self(ast, i, i));
            },
            _ => {
                match ast.parent_of(i) {
                    Some(p) => {
                        if i < p < ast.nodes@.len() {
                            lemma_type_only_ancestor_exists(ast, p as int);
                            if spec_type_only_ancestor(ast, p as int) == Some(true) {
                                let a = choose|a: int|
                                    spec_ancestor_or_self(ast, p as int, a)
                                        && spec_is_type_only_import_or_export_declaration(ast, a) == Some(true);
                                assert(spec_ancestor_or_self(ast, i, a));
                            } else {
                                assert forall|a: int| spec_ancestor_or_self(ast, i, a) implies
                                    spec_is_type_only_import_or_export_declaration(ast, a) != Some(true) by {
                                    if a != i {
                                        assert(spec_ancestor_or_self(ast, p as int, a));
                                    }
                                }
                            }
                        } else {
                            assert forall|a: int| spec_ancestor_or_self(ast, i, a) implies a == i by {}
                        }
                    },
                    None => {
                        assert forall|a: int| spec_ancestor_or_self(ast, i, a) implies a == i by {}
                    },
                }
            },
        }
    }
}

pub fn is_part_of_type_only_import_or_export_declaration(ast: &Ast, node: usize) -> (r: bool)
    requires
        ast.wf(),
        ast.has(node as int),
        spec_type_only_ancestor(ast, node as int) is Some,
    ensures
        Some(r) == spec_type_only_ancestor(ast, node as int),
{
    let mut cur = node;
    loop
        invariant
            ast.wf(),
            ast.has(cur as int),
            spec_type_only_ancestor(ast, node as int) == spec_type_only_ancestor(ast, cur as int),
            spec_type_only_ancestor(ast, cur as int) is Some,
        decreases ast.nodes@.len() - cur,
    {
        if is_type_only_import_or_export_declaration(ast, cur) {
            return true;
        }
        match ast.parent(cur) {
            Some(p) => { cur = p; },
            None => return false,
        }
    }
}

/// The kinds that `climb` walks up through: names of a type query
/// (`which == 0`), the expression of a heritage element (`1`), the name of
/// a computed property (`2`).
pub open spec fn spec_climbs_through(which: u8, k: SyntaxKind) -> bool {
    if which == 0 {
        k == SyntaxKind::QualifiedName || k == SyntaxKind::Identifier
    } else if which == 1 {
        k == SyntaxKind::PropertyAccessExpression || k == SyntaxKind::ExpressionWithTypeArguments
    } else {
        k == SyntaxKind::Identifier || k == SyntaxKind::PropertyAccessExpression
    }
}

fn climbs_through(which: u8, k: SyntaxKind) -> (r: bool)
    ensures
        r == spec_climbs_through(which, k),
{
    if which == 0 {
        k == SyntaxKind::QualifiedName || k == SyntaxKind::Identifier
    } else if which == 1 {
        k == SyntaxKind::PropertyAccessExpression || k == SyntaxKind::ExpressionWithTypeArguments
    } else {
        k == SyntaxKind::Identifier || k == SyntaxKind::PropertyAccessExpression
    }
}

/// The first ancestor-or-self of `i` whose kind `which` does not climb
/// through; `None` when the walk meets a missing parent.
pub open spec fn spec_climb(ast: &Ast, i: int, which: u8) -> Option<int>
    decreases ast.nodes@.len() - i,
{
    if !ast.has(i) {
        None
    } else if !spec_climbs_through(which, ast.kind_of(i)) {
        Some(i)
    } else {
        match ast.parent_of(i) {
            Some(p) => if i < p < ast.nodes@.len() { spec_climb(ast, p as int, which) } else { None },
            None => None,
        }
    }
}

fn climb(ast: &Ast, node: usize, which: u8) -> (r: usize)
    requires
        ast.wf(),
        ast.has(node as int),
        spec_climb(ast, node as int, which) is Some,
    ensures
        Some(r as int) == spec_climb(ast, node as int, which),
        ast.has(r as int),
{
    let mut cur = node;
    loop
        invariant
            ast.wf(),
            ast.has(cur as int),
            spec_climb(ast, node as int, which) == spec_climb(ast, cur as int, which),
            spec_climb(ast, cur as int, which) is Some,
        decreases ast.nodes@.len() - cur,
    {
        if !climbs_through(which, ast.kind(cur)) {
            return cur;
        }
        cur = ast.parent(cur).unwrap();
    }
}

/// A name inside a `typeof` type query.
pub open spec fn spec_is_part_of_type_query(ast: &Ast, i: int) -> Option<bool> {
    match spec_climb(ast, i, 0) {
        None => None,
        Some(c) => Some(ast.kind_of(c) == SyntaxKind::TypeQuery),
    }
}

/// An identifier in an `implements` clause or an interface's `extends`.
pub open spec fn spec_in_non_emitting_heritage_clause(ast: &Ast, i: int) -> Option<bool> {
    if ast.kind_of(i) != SyntaxKind::Identifier {
        Some(false)
    } else {
        match pp(ast, i) {
            None => None,
            Some(p) => match spec_climb(ast, p, 1) {
                None => None,
                Some(c) => if ast.kind_of(c) != SyntaxKind::HeritageClause {
                    Some(false)
                } else if ast.nd(c).token == SyntaxKind::ImplementsKeyword {
                    Some(true)
                } else {
                    match pp(ast, c) {
                        None => None,
                        Some(g) => Some(ast.kind_of(g) == SyntaxKind::InterfaceDeclaration),
                    }
                },
            },
        }
    }
}

/// A name in the computed property name of an abstract member or of a
/// member of an interface or type literal.
pub open spec fn spec_in_possibly_valid_computed_name(ast: &Ast, i: int) -> Option<bool> {
    match spec_climb(ast, i, 2) {
        None => None,
        Some(c) => if ast.kind_of(c) != SyntaxKind::ComputedPropertyName {
            Some(false)
        } else {
            match pp(ast, c) {
                None => None,
                Some(o) => if spec_has_syntactic_modifier(ast, o, modifier_flags::ABSTRACT) {
                    Some(true)
                } else {
                    match pp(ast, o) {
                        None => None,
                        Some(g) => Some(ast.kind_of(g) == SyntaxKind::InterfaceDeclaration || ast.kind_of(g)
                            == SyntaxKind::TypeLiteral),
                    }
                },
            }
        },
    }
}

/// The name of a shorthand property assignment `{ x }`.
pub open spec fn spec_is_shorthand_property_name_use_site(ast: &Ast, i: int) -> Option<bool> {
    if ast.kind_of(i) != SyntaxKind::Identifier {
        Some(false)
    } else {
        match pp(ast, i) {
            None => None,
            Some(o) => Some(ast.kind_of(o) == SyntaxKind::ShorthandPropertyAssignment && ast.nd(o).name
                == Some(i as usize)),
        }
    }
}

pub open spec fn spec_not(a: Option<bool>) -> Option<bool> {
    match a {
        None => None,
        Some(b) => Some(!b),
    }
}

/// Where a type-only alias may be used: ambient or JSDoc code, a type query,
/// a non-emitting heritage clause, a possibly valid computed name, or any
/// position that is neither an expression nor a shorthand property name.
pub open spec fn spec_is_valid_type_only_alias_use_site(ast: &Ast, i: int) -> Option<bool> {
    spec_or(
        Some(ast.nd(i).flags & (node_flags::AMBIENT | node_flags::JS_DOC) != 0),
        spec_or(
            spec_is_part_of_type_query(ast, i),
            spec_or(
                spec_in_non_emitting_heritage_clause(ast, i),
                spec_or(
                    spec_in_possibly_valid_computed_name(ast, i),
                    spec_not(spec_or(spec_expression_node(ast, i), spec_is_shorthand_property_name_use_site(ast, i))),
                ),
            ),
        ),
    )
}

fn is_part_of_type_query(ast: &Ast, node: usize) -> (r: bool)
    requires
        ast.wf(),
        ast.has(node as int),
        spec_is_part_of_type_query(ast, node as int) is Some,
    ensures
        Some(r) == spec_is_part_of_type_query(ast, node as int),
{
    let c = climb(ast, node, 0);
    ast.kind(c) == SyntaxKind::TypeQuery
}

fn is_identifier_in_non_emitting_heritage_clause(ast: &Ast, node: usize) -> (r: bool)
    requires
        ast.wf(),
        ast.has(node as int),
        spec_in_non_emitting_heritage_clause(ast, node as int) is Some,
    ensures
        Some(r) == spec_in_non_emitting_heritage_clause(ast, node as int),
{
    if ast.kind(node) != SyntaxKind::Identifier {
        return false;
    }
    proof { lemma_pp(ast, node as int); }
    let p = ast.parent(node).unwrap();
    let c = climb(ast, p, 1);
    if ast.kind(c) != SyntaxKind::HeritageClause {
        return false;
    }
    if ast.node(c).token == SyntaxKind::ImplementsKeyword {
        return true;
    }
    proof { lemma_pp(ast, c as int); }
    ast.kind(ast.parent(c).unwrap()) == SyntaxKind::InterfaceDeclaration
}

fn is_part_of_possibly_valid_type_or_abstract_computed_property_name(ast: &Ast, node: usize) -> (r: bool)
    requires
        ast.wf(),
        ast.has(node as int),
        spec_in_possibly_valid_computed_name(ast, node as int) is Some,
    ensures
        Some(r) == spec_in_possibly_valid_computed_name(ast, node as int),
{
    let c = climb(ast, node, 2);
    if ast.kind(c) != SyntaxKind::ComputedPropertyName {
        return false;
    }
    proof { lemma_pp(ast, c as int); }
    let o = ast.parent(c).unwrap();
    if has_syntactic_modifier(ast, o, modifier_flags::ABSTRACT) {
        return true;
    }
    proof { lemma_pp(ast, o as int); }
    let g = ast.parent(o).unwrap();
    ast.kind(g) == SyntaxKind::InterfaceDeclaration || ast.kind(g) == SyntaxKind::TypeLiteral
}

fn is_shorthand_property_name_use_site(ast: &Ast, use_site: usize) -> (r: bool)
    requires
        ast.wf(),
        ast.has(use_site as int),
        spec_is_shorthand_property_name_use_site(ast, use_site as int) is Some,
    ensures
        Some(r) == spec_is_shorthand_property_name_use_site(ast, use_site as int),
{
    if ast.kind(use_site) != SyntaxKind::Identifier {
        return false;
    }
    proof { lemma_pp(ast, use_site as int); }
    let o = ast.parent(use_site).unwrap();
    ast.kind(o) == SyntaxKind::ShorthandPropertyAssignment && ast.node(o).name == Some(use_site)
}

pub fn is_valid_type_only_alias_use_site(ast: &Ast, use_site: usize) -> (r: bool)
    requires
        ast.wf(),
        ast.has(use_site as int),
        spec_is_valid_type_only_alias_use_site(ast, use_site as int) is Some,
    ensures
        Some(r) == spec_is_valid_type_only_alias_use_site(ast, use_site as int),
{
    ast.node(use_site).flags & (node_flags::AMBIENT | node_flags::JS_DOC) != 0
        || is_part_of_type_query(ast, use_site)
        || is_identifier_in_non_emitting_heritage_clause(ast, use_site)
        || is_part_of_possibly_valid_type_or_abstract_computed_property_name(ast, use_site)
        || !(is_expression_node(ast, use_site) || is_shorthand_property_name_use_site(ast, use_site))
}


pub open spec fn default_text() -> Seq<u8> {
    seq![100u8, 101u8, 102u8, 97u8, 117u8, 108u8, 116u8]
}

/// `export * as default from "m"`; `None` when an export declaration has no
/// clause, or its namespace export no name.
pub open spec fn spec_is_export_namespace_as_default_declaration(ast: &Ast, i: int) -> Option<bool> {
    if ast.kind_of(i) != SyntaxKind::ExportDeclaration {
        Some(false)
    } else {
        match ast.nd(i).export_clause {
            None => None,
            Some(c) => if ast.kind_of(c as int) != SyntaxKind::NamespaceExport {
                Some(false)
            } else {
                match ast.nd(c as int).name {
                    None => None,
                    Some(nm) => Some(ast.nd(nm as int).text@ == default_text()),
                }
            },
        }
    }
}

pub fn is_export_namespace_as_default_declaration(ast: &Ast, node: usize) -> (r: bool)
    requires
        ast.wf(),
        ast.has(node as int),
        spec_is_export_namespace_as_default_declaration(ast, node as int) is Some,
    ensures
        Some(r) == spec_is_export_namespace_as_default_declaration(ast, node as int),
{
    proof { lemma_links(ast, node as int); }
    if ast.kind(node) != SyntaxKind::ExportDeclaration {
        return false;
    }
    let c = ast.node(node).export_clause.unwrap();
    proof { lemma_links(ast, c as int); }
    if ast.kind(c) != SyntaxKind::NamespaceExport {
        return false;
    }
    let nm = ast.node(c).name.unwrap();
    bytes_equal(ast.node(nm).text.as_slice(), &[100u8, 101u8, 102u8, 97u8, 117u8, 108u8, 116u8])
}

/// `require("m")` with a single string-literal argument; `None` when a
/// call has no callee.
pub open spec fn spec_is_require_call_with_literal(ast: &Ast, i: int) -> Option<bool> {
    spec_and(
        spec_is_require_call(ast, i),
        Some({
            let a = Ast::list(ast.nd(i).arguments)[0];
            ast.kind_of(a as int) == SyntaxKind::StringLiteral || ast.kind_of(a as int)
                == SyntaxKind::NoSubstitutionTemplateLiteral
        }),
    )
}

fn is_require_call_with_literal(ast: &Ast, node: usize) -> (r: bool)
    requires
        ast.wf(),
        ast.has(node as int),
        spec_is_require_call_with_literal(ast, node as int) is Some,
    ensures
        Some(r) == spec_is_require_call_with_literal(ast, node as int),
{
    if !is_require_call(ast, node) {
        return false;
    }
    proof { lemma_links(ast, node as int); }
    let args = ast.node(node).arguments.as_ref().unwrap();
    let a = args[0];
    ast.kind(a) == SyntaxKind::StringLiteral || ast.kind(a) == SyntaxKind::NoSubstitutionTemplateLiteral
}

/// A variable declaration initialized by `require("m")` with a string
/// literal argument; `None` when its initializer is a call with no callee.
pub open spec fn spec_initialized_to_require(ast: &Ast, d: int) -> Option<bool> {
    if ast.kind_of(d) != SyntaxKind::VariableDeclaration {
        Some(false)
    } else {
        match ast.nd(d).initializer {
            None => Some(false),
            Some(init) => spec_is_require_call_with_literal(ast, init as int),
        }
    }
}

fn is_variable_declaration_initialized_to_require(ast: &Ast, d: usize) -> (r: bool)
    requires
        ast.wf(),
        ast.has(d as int),
        spec_initialized_to_require(ast, d as int) is Some,
    ensures
        Some(r) == spec_initialized_to_require(ast, d as int),
{
    proof { lemma_links(ast, d as int); }
    let n = ast.node(d);
    if n.kind != SyntaxKind::VariableDeclaration {
        return false;
    }
    match n.initializer {
        None => false,
        Some(init) => is_require_call_with_literal(ast, init),
    }
}

/// Whether every declaration of `s` is initialized to `require`; `None`
/// when a test on the way fails.
pub open spec fn spec_all_initialized_to_require(ast: &Ast, s: Seq<usize>) -> Option<bool>
    decreases s.len(),
{
    if s.len() == 0 {
        Some(true)
    } else {
        spec_and(spec_initialized_to_require(ast, s[0] as int), spec_all_initialized_to_require(ast, s.drop_first()))
    }
}

/// `const x = require("m"), y = require("n");`: a variable statement whose
/// declarations (at least one) are all initialized to `require`; `None`
/// when its declaration list or the list's declarations are missing.
pub open spec fn spec_is_require_variable_statement(ast: &Ast, i: int) -> Option<bool> {
    if ast.kind_of(i) != SyntaxKind::VariableStatement {
        Some(false)
    } else {
        match ast.nd(i).declaration_list {
            None => None,
            Some(l) => match ast.nd(l as int).declarations {
                None => None,
                Some(v) => if v@.len() == 0 { Some(false) } else { spec_all_initialized_to_require(ast, v@) },
            },
        }
    }
}

pub fn is_require_variable_statement(ast: &Ast, node: usize) -> (r: bool)
    requires
        ast.wf(),
        ast.has(node as int),
        spec_is_require_variable_statement(ast, node as int) is Some,
    ensures
        Some(r) == spec_is_require_variable_statement(ast, node as int),
{
    proof { lemma_links(ast, node as int); }
    if ast.kind(node) != SyntaxKind::VariableStatement {
        return false;
    }
    let l = ast.node(node).declaration_list.unwrap();
    proof { lemma_links(ast, l as int); }
    let decls = ast.node(l).declarations.as_ref().unwrap();
    if decls.len() == 0 {
        return false;
    }
    let mut j: usize = 0;
    proof { assert(decls@.subrange(0, decls@.len() as int) == decls@); }
    while j < decls.len()
        invariant
            ast.wf(),
            j <= decls@.len(),
            seq_below(decls@, l as int),
            l < ast.nodes@.len(),
            ast.has(node as int),
            ast.kind_of(node as int) == SyntaxKind::VariableStatement,
            ast.nd(node as int).declaration_list == Some(l),
            ast.nd(l as int).declarations == Some(*decls),
            decls@.len() > 0,
            spec_all_initialized_to_require(ast, decls@) == spec_all_initialized_to_require(
                ast,
                decls@.subrange(j as int, decls@.len() as int),
            ),
            spec_all_initialized_to_require(ast, decls@) is Some,
        decreases decls@.len() - j,
    {
        let d = decls[j];
        let ghost rest = decls@.subrange(j as int, decls@.len() as int);
        proof {
            assert(rest[0] == d);
            assert(rest.drop_first() == decls@.subrange(j + 1, decls@.len() as int));
        }
        if !is_variable_declaration_initialized_to_require(ast, d) {
            return false;
        }
        j = j + 1;
    }
    true
}


/// The innermost object of a chain of property and element accesses;
/// `None` when an access has no expression.
pub open spec fn spec_leftmost_access_expression(ast: &Ast, i: int) -> Option<int>
    decreases i,
{
    if !ast.has(i) {
        None
    } else if ast.kind_of(i) == SyntaxKind::PropertyAccessExpression || ast.kind_of(i)
        == SyntaxKind::ElementAccessExpression {
        match ast.nd(i).expression {
            Some(e) => if e < i { spec_leftmost_access_expression(ast, e as int) } else { None },
            None => None,
        }
    } else {
        Some(i)
    }
}

fn get_leftmost_access_expression(ast: &Ast, node: usize) -> (r: usize)
    requires
        ast.wf(),
        ast.has(node as int),
        spec_leftmost_access_expression(ast, node as int) is Some,
    ensures
        Some(r as int) == spec_leftmost_access_expression(ast, node as int),
        ast.has(r as int),
{
    let mut cur = node;
    loop
        invariant
            ast.wf(),
            ast.has(cur as int),
            spec_leftmost_access_expression(ast, node as int) == spec_leftmost_access_expression(ast, cur as int),
            spec_leftmost_access_expression(ast, cur as int) is Some,
        decreases cur,
    {
        let k = ast.kind(cur);
        if k != SyntaxKind::PropertyAccessExpression && k != SyntaxKind::ElementAccessExpression {
            return cur;
        }
        proof { lemma_links(ast, cur as int); }
        cur = ast.node(cur).expression.unwrap();
    }
}

/// The first argument of a call, if any.
pub open spec fn spec_first_argument(ast: &Ast, call: int) -> Option<usize> {
    let args = Ast::list(ast.nd(call).arguments);
    if args.len() > 0 { Some(args[0]) } else { None }
}

/// The module specifier of `const x = require("m")` or of an accessed
/// require such as `const y = require("m").y`; `None` inside for other
/// declarations, outside when a read on the way fails.
pub open spec fn spec_module_specifier_of_bare_or_accessed_require(ast: &Ast, i: int) -> Option<Option<usize>> {
    if ast.kind_of(i) != SyntaxKind::VariableDeclaration {
        Some(None)
    } else {
        match ast.nd(i).initializer {
            None => Some(None),
            Some(init) => match spec_is_require_call_with_literal(ast, init as int) {
                None => None,
                Some(true) => Some(spec_first_argument(ast, init as int)),
                Some(false) => match spec_leftmost_access_expression(ast, init as int) {
                    None => None,
                    Some(l) => match spec_is_require_call_with_literal(ast, l) {
                        None => None,
                        Some(true) => Some(spec_first_argument(ast, l)),
                        Some(false) => Some(None),
                    },
                },
            },
        }
    }
}

pub fn get_module_specifier_of_bare_or_accessed_require(ast: &Ast, node: usize) -> (r: Option<usize>)
    requires
        ast.wf(),
        ast.has(node as int),
        spec_module_specifier_of_bare_or_accessed_require(ast, node as int) is Some,
    ensures
        Some(r) == spec_module_specifier_of_bare_or_accessed_require(ast, node as int),
{
    proof { lemma_links(ast, node as int); }
    let n = ast.node(node);
    if n.kind != SyntaxKind::VariableDeclaration {
        return None;
    }
    let init = match n.initializer {
        None => return None,
        Some(i) => i,
    };
    if is_require_call_with_literal(ast, init) {
        return match &ast.node(init).arguments {
            Some(v) => if v.len() > 0 { Some(v[0]) } else { None },
            None => None,
        };
    }
    let l = get_leftmost_access_expression(ast, init);
    if is_require_call_with_literal(ast, l) {
        return match &ast.node(l).arguments {
            Some(v) => if v.len() > 0 { Some(v[0]) } else { None },
            None => None,
        };
    }
    None
}

} // verus!
