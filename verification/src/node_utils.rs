//! Shared node helpers: modifiers, names, ancestors and containers.
use vstd::prelude::*;
use crate::ast::{links_below, seq_below, Ast};
use crate::kind_classes::{is_class_element_kind, spec_is_class_element};
use crate::modifier_flags;
use crate::node_flags;
use crate::syntax_kind::SyntaxKind;

verus! {

/// The links of a node of a well-formed arena name earlier nodes.
pub proof fn lemma_links(ast: &Ast, i: int)
    requires
        ast.wf(),
        ast.has(i),
    ensures
        links_below(ast.nd(i), i),
        ast.nd(i).name matches Some(x) ==> x < i,
        ast.parent_of(i) matches Some(p) ==> i < p < ast.nodes@.len(),
{
    assert(links_below(ast.nodes@[i], i));
}

/// The flag a modifier keyword (or decorator) stands for.
pub open spec fn spec_modifier_to_flag(k: SyntaxKind) -> u32 {
    match k {
        SyntaxKind::AbstractKeyword => modifier_flags::ABSTRACT,
        SyntaxKind::AccessorKeyword => modifier_flags::ACCESSOR,
        SyntaxKind::AsyncKeyword => modifier_flags::ASYNC,
        SyntaxKind::ConstKeyword => modifier_flags::CONST,
        SyntaxKind::DeclareKeyword => modifier_flags::AMBIENT,
        SyntaxKind::DefaultKeyword => modifier_flags::DEFAULT,
        SyntaxKind::ExportKeyword => modifier_flags::EXPORT,
        SyntaxKind::InKeyword => modifier_flags::IN,
        SyntaxKind::OutKeyword => modifier_flags::OUT,
        SyntaxKind::OverrideKeyword => modifier_flags::OVERRIDE,
        SyntaxKind::PrivateKeyword => modifier_flags::PRIVATE,
        SyntaxKind::ProtectedKeyword => modifier_flags::PROTECTED,
        SyntaxKind::PublicKeyword => modifier_flags::PUBLIC,
        SyntaxKind::ReadonlyKeyword => modifier_flags::READONLY,
        SyntaxKind::StaticKeyword => modifier_flags::STATIC,
        SyntaxKind::Decorator => modifier_flags::DECORATOR,
        _ => modifier_flags::NONE,
    }
}

/// The flag a modifier keyword (or decorator) stands for.
pub fn modifier_to_flag(k: SyntaxKind) -> (r: u32)
    ensures
        r == spec_modifier_to_flag(k),
{
    match k {
        SyntaxKind::AbstractKeyword => modifier_flags::ABSTRACT,
        SyntaxKind::AccessorKeyword => modifier_flags::ACCESSOR,
        SyntaxKind::AsyncKeyword => modifier_flags::ASYNC,
        SyntaxKind::ConstKeyword => modifier_flags::CONST,
        SyntaxKind::DeclareKeyword => modifier_flags::AMBIENT,
        SyntaxKind::DefaultKeyword => modifier_flags::DEFAULT,
        SyntaxKind::ExportKeyword => modifier_flags::EXPORT,
        SyntaxKind::InKeyword => modifier_flags::IN,
        SyntaxKind::OutKeyword => modifier_flags::OUT,
        SyntaxKind::OverrideKeyword => modifier_flags::OVERRIDE,
        SyntaxKind::PrivateKeyword => modifier_flags::PRIVATE,
        SyntaxKind::ProtectedKeyword => modifier_flags::PROTECTED,
        SyntaxKind::PublicKeyword => modifier_flags::PUBLIC,
        SyntaxKind::ReadonlyKeyword => modifier_flags::READONLY,
        SyntaxKind::StaticKeyword => modifier_flags::STATIC,
        SyntaxKind::Decorator => modifier_flags::DECORATOR,
        _ => modifier_flags::NONE,
    }
}

/// Some modifier of `i` stands for a flag in `flags`.
pub open spec fn spec_has_syntactic_modifier(ast: &Ast, i: int, flags: u32) -> bool {
    let m = Ast::list(ast.nd(i).modifiers);
    exists|j: int| 0 <= j < m.len() && spec_modifier_to_flag(ast.kind_of(#[trigger] m[j] as int)) & flags != 0
}

/// Whether a modifier of `node` stands for a flag in `flags`.
pub fn has_syntactic_modifier(ast: &Ast, node: usize, flags: u32) -> (r: bool)
    requires
        ast.wf(),
        ast.has(node as int),
    ensures
        r == spec_has_syntactic_modifier(ast, node as int, flags),
{
    proof { lemma_links(ast, node as int); }
    match &ast.nodes[node].modifiers {
        None => false,
        Some(mods) => {
            let mut j: usize = 0;
            while j < mods.len()
                invariant
                    ast.nd(node as int).modifiers == Some(*mods),
                    seq_below(mods@, node as int),
                    ast.has(node as int),
                    j <= mods@.len(),
                    forall|t: int| 0 <= t < j ==> spec_modifier_to_flag(ast.kind_of(#[trigger] mods@[t] as int)) & flags == 0,
                decreases mods@.len() - j,
            {
                let m = mods[j];
                if modifier_to_flag(ast.kind(m)) & flags != 0 {
                    return true;
                }
                j = j + 1;
            }
            false
        },
    }
}

/// Some modifier of `i` is a decorator.
pub open spec fn spec_has_decorators(ast: &Ast, i: int) -> bool {
    let m = Ast::list(ast.nd(i).modifiers);
    exists|j: int| 0 <= j < m.len() && ast.kind_of(#[trigger] m[j] as int) == SyntaxKind::Decorator
}

/// Whether `node` has a decorator among its modifiers.
pub fn has_decorators(ast: &Ast, node: usize) -> (r: bool)
    requires
        ast.wf(),
        ast.has(node as int),
    ensures
        r == spec_has_decorators(ast, node as int),
{
    proof { lemma_links(ast, node as int); }
    match &ast.nodes[node].modifiers {
        None => false,
        Some(mods) => {
            let mut j: usize = 0;
            while j < mods.len()
                invariant
                    ast.nd(node as int).modifiers == Some(*mods),
                    seq_below(mods@, node as int),
                    ast.has(node as int),
                    j <= mods@.len(),
                    forall|t: int| 0 <= t < j ==> ast.kind_of(#[trigger] mods@[t] as int) != SyntaxKind::Decorator,
                decreases mods@.len() - j,
            {
                if ast.kind(mods[j]) == SyntaxKind::Decorator {
                    return true;
                }
                j = j + 1;
            }
            false
        },
    }
}

/// Whether two byte strings are equal.
pub fn bytes_equal(a: &[u8], b: &[u8]) -> (r: bool)
    ensures
        r == (a@ == b@),
{
    if a.len() != b.len() {
        return false;
    }
    let mut i: usize = 0;
    while i < a.len()
        invariant
            a@.len() == b@.len(),
            i <= a@.len(),
            forall|j: int| 0 <= j < i ==> a@[j] == b@[j],
        decreases a@.len() - i,
    {
        if a[i] != b[i] {
            return false;
        }
        i = i + 1;
    }
    assert(a@ =~= b@);
    true
}

pub open spec fn this_text() -> Seq<u8> {
    seq![116u8, 104u8, 105u8, 115u8]
}

/// Whether `i` is the identifier `this`.
pub open spec fn spec_is_this_identifier(ast: &Ast, i: int) -> bool {
    ast.kind_of(i) == SyntaxKind::Identifier && ast.nd(i).text@ == this_text()
}

/// Whether `node` is the identifier `this`.
pub fn is_this_identifier(ast: &Ast, node: usize) -> (r: bool)
    requires
        ast.has(node as int),
    ensures
        r == spec_is_this_identifier(ast, node as int),
{
    let n = ast.node(node);
    n.kind == SyntaxKind::Identifier && bytes_equal(n.text.as_slice(), &[116u8, 104u8, 105u8, 115u8])
}

/// A present node: one that is not missing (an empty range at a real position).
pub open spec fn spec_node_is_present(ast: &Ast, o: Option<usize>) -> bool {
    match o {
        None => false,
        Some(i) => {
            let n = ast.nd(i as int);
            !(n.pos == n.end && n.pos >= 0 && n.kind != SyntaxKind::EndOfFile)
        },
    }
}

pub fn node_is_present(ast: &Ast, o: Option<usize>) -> (r: bool)
    requires
        o matches Some(i) ==> ast.has(i as int),
    ensures
        r == spec_node_is_present(ast, o),
{
    match o {
        None => false,
        Some(i) => {
            let n = ast.node(i);
            !(n.pos == n.end && n.pos >= 0 && n.kind != SyntaxKind::EndOfFile)
        },
    }
}

/// The nearest ancestor-or-self of `i` that is a source file.
pub open spec fn spec_source_file_of(ast: &Ast, i: int) -> Option<usize>
    decreases ast.nodes@.len() - i,
{
    if !ast.has(i) {
        None
    } else if ast.kind_of(i) == SyntaxKind::SourceFile {
        Some(i as usize)
    } else {
        match ast.parent_of(i) {
            Some(p) => if i < p < ast.nodes@.len() { spec_source_file_of(ast, p as int) } else { None },
            None => None,
        }
    }
}

/// The source file containing `node` (itself when it is one).
pub fn get_source_file_of_node(ast: &Ast, node: Option<usize>) -> (r: Option<usize>)
    requires
        ast.wf(),
        node matches Some(i) ==> ast.has(i as int),
    ensures
        r == match node {
            Some(i) => spec_source_file_of(ast, i as int),
            None => None,
        },
        r matches Some(f) ==> ast.has(f as int),
{
    let mut cur = match node {
        None => return None,
        Some(i) => i,
    };
    loop
        invariant
            ast.wf(),
            ast.has(cur as int),
            node matches Some(i) && spec_source_file_of(ast, i as int) == spec_source_file_of(ast, cur as int),
        decreases ast.nodes@.len() - cur,
    {
        if ast.kind(cur) == SyntaxKind::SourceFile {
            return Some(cur);
        }
        match ast.parent(cur) {
            Some(p) => { cur = p; },
            None => return None,
        }
    }
}

/// Whether `i` is a signed numeric literal such as `-1`.
pub open spec fn spec_is_signed_numeric_literal(ast: &Ast, i: int) -> bool {
    let n = ast.nd(i);
    n.kind == SyntaxKind::PrefixUnaryExpression && (n.token == SyntaxKind::PlusToken || n.token
        == SyntaxKind::MinusToken) && (n.operand matches Some(o) && ast.kind_of(o as int)
        == SyntaxKind::NumericLiteral)
}

pub fn is_signed_numeric_literal(ast: &Ast, node: usize) -> (r: bool)
    requires
        ast.wf(),
        ast.has(node as int),
    ensures
        r == spec_is_signed_numeric_literal(ast, node as int),
{
    proof { lemma_links(ast, node as int); }
    let n = ast.node(node);
    n.kind == SyntaxKind::PrefixUnaryExpression && (n.token == SyntaxKind::PlusToken || n.token
        == SyntaxKind::MinusToken) && match n.operand {
        Some(o) => ast.kind(o) == SyntaxKind::NumericLiteral,
        None => false,
    }
}

/// A `declare global` block.
pub open spec fn spec_is_global_scope_augmentation(ast: &Ast, i: int) -> bool {
    ast.kind_of(i) == SyntaxKind::ModuleDeclaration && ast.nd(i).flags & node_flags::GLOBAL_AUGMENTATION != 0
}

pub fn is_global_scope_augmentation(ast: &Ast, node: usize) -> (r: bool)
    requires
        ast.has(node as int),
    ensures
        r == spec_is_global_scope_augmentation(ast, node as int),
{
    let n = ast.node(node);
    n.kind == SyntaxKind::ModuleDeclaration && n.flags & node_flags::GLOBAL_AUGMENTATION != 0
}

/// A module declaration named by a string literal, or a global augmentation.
pub open spec fn spec_is_ambient_module(ast: &Ast, i: int) -> bool {
    ast.kind_of(i) == SyntaxKind::ModuleDeclaration && ((ast.nd(i).name matches Some(nm)
        && ast.kind_of(nm as int) == SyntaxKind::StringLiteral) || spec_is_global_scope_augmentation(ast, i))
}

pub fn is_ambient_module(ast: &Ast, node: usize) -> (r: bool)
    requires
        ast.wf(),
        ast.has(node as int),
    ensures
        r == spec_is_ambient_module(ast, node as int),
{
    proof { lemma_links(ast, node as int); }
    let n = ast.node(node);
    n.kind == SyntaxKind::ModuleDeclaration && (match n.name {
        Some(nm) => ast.kind(nm) == SyntaxKind::StringLiteral,
        None => false,
    } || is_global_scope_augmentation(ast, node))
}

/// A source file that is an external module.
pub open spec fn spec_is_external_module(ast: &Ast, i: int) -> bool {
    ast.nd(i).external_module_indicator is Some
}

/// Whether an ambient module augments an external module: a top-level
/// declaration of an external module, or one nested in a top-level ambient
/// module of a script. A parentless declaration is refused.
pub open spec fn spec_is_module_augmentation_external(ast: &Ast, i: int) -> bool {
    let p = ast.up(i);
    if ast.kind_of(p) == SyntaxKind::SourceFile {
        spec_is_external_module(ast, p)
    } else if ast.kind_of(p) == SyntaxKind::ModuleBlock {
        ast.has_up(p) && {
            let g = ast.up(p);
            spec_is_ambient_module(ast, g) && ast.has_up(g) && ast.kind_of(ast.up(g)) == SyntaxKind::SourceFile
                && !spec_is_external_module(ast, ast.up(g))
        }
    } else {
        false
    }
}

pub fn is_module_augmentation_external(ast: &Ast, node: usize) -> (r: bool)
    requires
        ast.wf(),
        ast.has(node as int),
        ast.has_up(node as int),
    ensures
        r == spec_is_module_augmentation_external(ast, node as int),
{
    proof { lemma_links(ast, node as int); }
    let p = ast.parent(node).unwrap();
    match ast.kind(p) {
        SyntaxKind::SourceFile => ast.node(p).external_module_indicator.is_some(),
        SyntaxKind::ModuleBlock => {
            proof { lemma_links(ast, p as int); }
            match ast.parent(p) {
                None => false,
                Some(g) => {
                    proof { lemma_links(ast, g as int); }
                    is_ambient_module(ast, g) && match ast.parent(g) {
                        Some(f) => ast.kind(f) == SyntaxKind::SourceFile
                            && ast.node(f).external_module_indicator.is_none(),
                        None => false,
                    }
                },
            }
        },
        _ => false,
    }
}

/// The flags of a declaration combined with those of its declaration list and
/// statement (binding elements answer for their root declaration).
pub open spec fn spec_root_declaration(ast: &Ast, i: int) -> int
    decreases ast.nodes@.len() - i,
{
    if ast.has(i) && ast.kind_of(i) == SyntaxKind::BindingElement && ast.has_up(i) && i < ast.up(i)
        && ast.has_up(ast.up(i)) && ast.up(i) < ast.up(ast.up(i)) && ast.up(ast.up(i)) < ast.nodes@.len() {
        spec_root_declaration(ast, ast.up(ast.up(i)))
    } else {
        i
    }
}

pub open spec fn spec_combined_node_flags(ast: &Ast, i: int) -> u32 {
    let d = spec_root_declaration(ast, i);
    let f0 = ast.nd(d).flags;
    let l = if ast.kind_of(d) == SyntaxKind::VariableDeclaration { ast.parent_of(d) } else { Some(d as usize) };
    match l {
        None => f0,
        Some(l) => if ast.kind_of(l as int) == SyntaxKind::VariableDeclarationList {
            let f1 = f0 | ast.nd(l as int).flags;
            match ast.parent_of(l as int) {
                Some(s) => if ast.kind_of(s as int) == SyntaxKind::VariableStatement {
                    f1 | ast.nd(s as int).flags
                } else {
                    f1
                },
                None => f1,
            }
        } else if ast.kind_of(l as int) == SyntaxKind::VariableStatement {
            f0 | ast.nd(l as int).flags
        } else {
            f0
        },
    }
}

/// A binding element's root declaration: the first ancestor (or itself) that
/// is not a binding element. A binding element without a grandparent is refused.
pub fn root_declaration(ast: &Ast, node: usize) -> (r: usize)
    requires
        ast.wf(),
        ast.has(node as int),
        spec_root_requires(ast, node as int),
    ensures
        r == spec_root_declaration(ast, node as int),
        ast.has(r as int),
{
    let mut cur = node;
    while ast.kind(cur) == SyntaxKind::BindingElement
        invariant
            ast.wf(),
            ast.has(cur as int),
            spec_root_requires(ast, cur as int),
            spec_root_declaration(ast, node as int) == spec_root_declaration(ast, cur as int),
        decreases ast.nodes@.len() - cur,
    {
        let p = ast.parent(cur).unwrap();
        cur = ast.parent(p).unwrap();
    }
    cur
}

/// Every binding element on the walk to the root declaration has a grandparent.
pub open spec fn spec_root_requires(ast: &Ast, i: int) -> bool
    decreases ast.nodes@.len() - i,
{
    if ast.has(i) && ast.kind_of(i) == SyntaxKind::BindingElement {
        ast.has_up(i) && i < ast.up(i) && ast.up(i) < ast.nodes@.len() && ast.has_up(ast.up(i))
            && ast.up(i) < ast.up(ast.up(i)) && ast.up(ast.up(i)) < ast.nodes@.len()
            && spec_root_requires(ast, ast.up(ast.up(i)))
    } else {
        true
    }
}

/// The node flags of `node` combined with those of its variable declaration
/// list and statement.
pub fn get_combined_node_flags(ast: &Ast, node: usize) -> (r: u32)
    requires
        ast.wf(),
        ast.has(node as int),
        spec_root_requires(ast, node as int),
    ensures
        r == spec_combined_node_flags(ast, node as int),
{
    let d = root_declaration(ast, node);
    let f0 = ast.node(d).flags;
    let l = if ast.kind(d) == SyntaxKind::VariableDeclaration { ast.parent(d) } else { Some(d) };
    match l {
        None => f0,
        Some(l) => {
            if ast.kind(l) == SyntaxKind::VariableDeclarationList {
                let f1 = f0 | ast.node(l).flags;
                match ast.parent(l) {
                    Some(s) => if ast.kind(s) == SyntaxKind::VariableStatement {
                        f1 | ast.node(s).flags
                    } else {
                        f1
                    },
                    None => f1,
                }
            } else if ast.kind(l) == SyntaxKind::VariableStatement {
                f0 | ast.node(l).flags
            } else {
                f0
            }
        },
    }
}

/// The static class elements: a static-modified class element, or a static block.
pub open spec fn spec_is_static(ast: &Ast, i: int) -> bool {
    (spec_is_class_element(ast.kind_of(i)) && spec_has_syntactic_modifier(ast, i, modifier_flags::STATIC))
        || ast.kind_of(i) == SyntaxKind::ClassStaticBlockDeclaration
}

pub fn is_static(ast: &Ast, node: usize) -> (r: bool)
    requires
        ast.wf(),
        ast.has(node as int),
    ensures
        r == spec_is_static(ast, node as int),
{
    (is_class_element_kind(ast.kind(node)) && has_syntactic_modifier(ast, node, modifier_flags::STATIC))
        || ast.kind(node) == SyntaxKind::ClassStaticBlockDeclaration
}


/// The parent of `i`, when `i` is a node and its parent a later one.
pub open spec fn pp(ast: &Ast, i: int) -> Option<int> {
    if ast.has(i) && (ast.parent_of(i) matches Some(p) && i < p < ast.nodes@.len()) {
        Some(ast.parent_of(i).unwrap() as int)
    } else {
        None
    }
}

/// In a well-formed arena `pp` is the parent link.
pub proof fn lemma_pp(ast: &Ast, i: int)
    requires
        ast.wf(),
        ast.has(i),
    ensures
        pp(ast, i) == match ast.parent_of(i) {
            Some(p) => Some(p as int),
            None => None::<int>,
        },
{
    lemma_links(ast, i);
}


/// Whether a list slot holds `x`.
pub fn list_contains(o: &Option<Vec<usize>>, x: usize) -> (r: bool)
    ensures
        r == Ast::list(*o).contains(x),
{
    match o {
        None => false,
        Some(v) => {
            let mut j: usize = 0;
            while j < v.len()
                invariant
                    j <= v@.len(),
                    Ast::list(*o) == v@,
                    forall|t: int| 0 <= t < j ==> v@[t] != x,
                decreases v@.len() - j,
            {
                if v[j] == x {
                    assert(v@[j as int] == x);
                    return true;
                }
                j = j + 1;
            }
            false
        },
    }
}

/// `a` is `i` or one of its ancestors: following parent links up from `i`
/// reaches `a`.
pub open spec fn spec_ancestor_or_self(ast: &Ast, i: int, a: int) -> bool
    decreases ast.nodes@.len() - i,
{
    if !ast.has(i) {
        false
    } else if i == a {
        true
    } else {
        match ast.parent_of(i) {
            Some(p) => if i < p < ast.nodes@.len() { spec_ancestor_or_self(ast, p as int, a) } else { false },
            None => false,
        }
    }
}

} // verus!
