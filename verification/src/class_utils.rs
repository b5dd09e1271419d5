//! Classes, heritage clauses, decorators and modifiers.
use vstd::prelude::*;
use crate::ast::{seq_below, Ast};
use crate::kind_classes::{
    is_accessor_kind, is_class_element_kind, is_class_like_kind, is_string_or_numeric_literal_like_kind,
    is_type_element_kind, spec_is_accessor, spec_is_class_element, spec_is_class_like,
    spec_is_string_or_numeric_literal_like, spec_is_type_element,
};
use crate::modifier_flags;
use crate::node_utils::{
    bytes_equal, has_decorators, has_syntactic_modifier, is_signed_numeric_literal, is_static,
    is_this_identifier, lemma_links, node_is_present, spec_has_decorators, spec_has_syntactic_modifier,
    spec_is_signed_numeric_literal, spec_is_static, spec_is_this_identifier, spec_node_is_present,
};
use crate::syntax_kind::SyntaxKind;
use crate::node_utils::{lemma_pp, pp};
use crate::positions::spec_qualified_top;
use crate::targets::{get_property_name_for_property_name_node, spec_property_name_for, spec_property_name_node_ok};

verus! {

/// A copy of a list of node ids.
pub fn copy_ids(v: &Vec<usize>) -> (r: Vec<usize>)
    ensures
        r@ == v@,
{
    let mut out: Vec<usize> = Vec::new();
    let mut i: usize = 0;
    while i < v.len()
        invariant
            i <= v@.len(),
            out@ == v@.subrange(0, i as int),
        decreases v@.len() - i,
    {
        out.push(v[i]);
        proof { assert(v@.subrange(0, i + 1) == v@.subrange(0, i as int).push(v@[i as int])); }
        i = i + 1;
    }
    proof { assert(v@.subrange(0, i as int) == v@); }
    out
}

/// The nodes of a list slot, empty when the list is absent.
pub fn nodes(o: &Option<Vec<usize>>) -> (r: Vec<usize>)
    ensures
        r@ == Ast::list(*o),
{
    match o {
        Some(v) => copy_ids(v),
        None => Vec::new(),
    }
}

/// The kinds that have a member list.
pub open spec fn spec_has_member_list(k: SyntaxKind) -> bool {
    k == SyntaxKind::ClassDeclaration || k == SyntaxKind::ClassExpression || k
        == SyntaxKind::InterfaceDeclaration || k == SyntaxKind::EnumDeclaration || k
        == SyntaxKind::TypeLiteral || k == SyntaxKind::MappedType
}

/// The members of a class, interface, enum, type literal or mapped type. Other
/// kinds have no member list and are refused.
pub fn members(ast: &Ast, node: usize) -> (r: Vec<usize>)
    requires
        ast.has(node as int),
        spec_has_member_list(ast.kind_of(node as int)),
    ensures
        r@ == Ast::list(ast.nd(node as int).members),
{
    nodes(&ast.node(node).members)
}

/// Whether `i` is a parameter named `this`.
pub open spec fn spec_is_this_parameter(ast: &Ast, i: int) -> bool {
    ast.kind_of(i) == SyntaxKind::Parameter && (ast.nd(i).name matches Some(nm) && spec_is_this_identifier(ast, nm as int))
}

pub fn is_this_parameter(ast: &Ast, node: usize) -> (r: bool)
    requires
        ast.wf(),
        ast.has(node as int),
    ensures
        r == spec_is_this_parameter(ast, node as int),
{
    proof { lemma_links(ast, node as int); }
    let n = ast.node(node);
    n.kind == SyntaxKind::Parameter && match n.name {
        Some(nm) => is_this_identifier(ast, nm),
        None => false,
    }
}

/// The `this` parameter of a signature: its first parameter, when named `this`.
pub open spec fn spec_this_parameter(ast: &Ast, i: int) -> Option<usize> {
    let ps = Ast::list(ast.nd(i).parameters);
    if ps.len() > 0 && spec_is_this_parameter(ast, ps[0] as int) { Some(ps[0]) } else { None }
}

pub fn get_this_parameter(ast: &Ast, signature: usize) -> (r: Option<usize>)
    requires
        ast.wf(),
        ast.has(signature as int),
    ensures
        r == spec_this_parameter(ast, signature as int),
{
    proof { lemma_links(ast, signature as int); }
    let ps = nodes(&ast.node(signature).parameters);
    if ps.len() > 0 {
        let first = ps[0];
        if is_this_parameter(ast, first) {
            return Some(first);
        }
    }
    None
}

pub fn has_abstract_modifier(ast: &Ast, node: usize) -> (r: bool)
    requires
        ast.wf(),
        ast.has(node as int),
    ensures
        r == spec_has_syntactic_modifier(ast, node as int, modifier_flags::ABSTRACT),
{
    has_syntactic_modifier(ast, node, modifier_flags::ABSTRACT)
}

pub fn has_ambient_modifier(ast: &Ast, node: usize) -> (r: bool)
    requires
        ast.wf(),
        ast.has(node as int),
    ensures
        r == spec_has_syntactic_modifier(ast, node as int, modifier_flags::AMBIENT),
{
    has_syntactic_modifier(ast, node, modifier_flags::AMBIENT)
}

pub fn is_class_or_type_element(k: SyntaxKind) -> (r: bool)
    ensures
        r == (spec_is_class_element(k) || spec_is_type_element(k)),
{
    is_class_element_kind(k) || is_type_element_kind(k)
}

/// Whether a node may carry decorators where it stands (`parent` and
/// `grandparent` are its enclosing nodes as the caller sees them).
pub open spec fn spec_node_can_be_decorated(
    ast: &Ast,
    legacy: bool,
    i: int,
    parent: Option<usize>,
    grandparent: Option<usize>,
) -> bool {
    if legacy && (ast.nd(i).name matches Some(nm) && ast.kind_of(nm as int) == SyntaxKind::PrivateIdentifier) {
        false
    } else {
        match ast.kind_of(i) {
            SyntaxKind::ClassDeclaration => true,
            SyntaxKind::ClassExpression => !legacy,
            SyntaxKind::PropertyDeclaration => match parent {
                None => false,
                Some(p) => (legacy && ast.kind_of(p as int) == SyntaxKind::ClassDeclaration) || (!legacy
                    && spec_is_class_like(ast.kind_of(p as int)) && !spec_has_syntactic_modifier(ast, i, modifier_flags::ABSTRACT)
                    && !spec_has_syntactic_modifier(ast, i, modifier_flags::AMBIENT)),
            },
            SyntaxKind::GetAccessor | SyntaxKind::SetAccessor | SyntaxKind::MethodDeclaration => match parent {
                None => false,
                Some(p) => ast.nd(i).body is Some && ((legacy && ast.kind_of(p as int) == SyntaxKind::ClassDeclaration)
                    || (!legacy && spec_is_class_like(ast.kind_of(p as int)))),
            },
            SyntaxKind::Parameter => legacy && match parent {
                None => false,
                Some(p) => ast.nd(p as int).body is Some && (ast.kind_of(p as int) == SyntaxKind::Constructor
                    || ast.kind_of(p as int) == SyntaxKind::MethodDeclaration || ast.kind_of(p as int)
                    == SyntaxKind::SetAccessor) && spec_this_parameter(ast, p as int) != Some(i as usize)
                    && (grandparent matches Some(g) && ast.kind_of(g as int) == SyntaxKind::ClassDeclaration),
            },
            _ => false,
        }
    }
}

pub fn node_can_be_decorated(
    ast: &Ast,
    use_legacy_decorators: bool,
    node: usize,
    parent: Option<usize>,
    grandparent: Option<usize>,
) -> (r: bool)
    requires
        ast.wf(),
        ast.has(node as int),
        parent matches Some(p) ==> ast.has(p as int),
        grandparent matches Some(g) ==> ast.has(g as int),
    ensures
        r == spec_node_can_be_decorated(ast, use_legacy_decorators, node as int, parent, grandparent),
{
    proof { lemma_links(ast, node as int); }
    let n = ast.node(node);
    if use_legacy_decorators {
        if let Some(nm) = n.name {
            if ast.kind(nm) == SyntaxKind::PrivateIdentifier {
                return false;
            }
        }
    }
    match n.kind {
        SyntaxKind::ClassDeclaration => true,
        SyntaxKind::ClassExpression => !use_legacy_decorators,
        SyntaxKind::PropertyDeclaration => match parent {
            None => false,
            Some(p) => (use_legacy_decorators && ast.kind(p) == SyntaxKind::ClassDeclaration) || (
            !use_legacy_decorators && is_class_like_kind(ast.kind(p)) && !has_abstract_modifier(ast, node)
                && !has_ambient_modifier(ast, node)),
        },
        SyntaxKind::GetAccessor | SyntaxKind::SetAccessor | SyntaxKind::MethodDeclaration => match parent {
            None => false,
            Some(p) => n.body.is_some() && ((use_legacy_decorators && ast.kind(p) == SyntaxKind::ClassDeclaration)
                || (!use_legacy_decorators && is_class_like_kind(ast.kind(p)))),
        },
        SyntaxKind::Parameter => {
            if !use_legacy_decorators {
                return false;
            }
            match parent {
                None => false,
                Some(p) => {
                    let pk = ast.kind(p);
                    ast.node(p).body.is_some() && (pk == SyntaxKind::Constructor || pk
                        == SyntaxKind::MethodDeclaration || pk == SyntaxKind::SetAccessor)
                        && get_this_parameter(ast, p) != Some(node) && match grandparent {
                        Some(g) => ast.kind(g) == SyntaxKind::ClassDeclaration,
                        None => false,
                    }
                },
            }
        },
        _ => false,
    }
}

pub open spec fn spec_node_is_decorated(
    ast: &Ast,
    legacy: bool,
    i: int,
    parent: Option<usize>,
    grandparent: Option<usize>,
) -> bool {
    spec_has_decorators(ast, i) && spec_node_can_be_decorated(ast, legacy, i, parent, grandparent)
}

/// Whether a node has decorators and may carry them where it stands.
pub fn node_is_decorated(
    ast: &Ast,
    use_legacy_decorators: bool,
    node: usize,
    parent: Option<usize>,
    grandparent: Option<usize>,
) -> (r: bool)
    requires
        ast.wf(),
        ast.has(node as int),
        parent matches Some(p) ==> ast.has(p as int),
        grandparent matches Some(g) ==> ast.has(g as int),
    ensures
        r == spec_node_is_decorated(ast, use_legacy_decorators, node as int, parent, grandparent),
{
    has_decorators(ast, node) && node_can_be_decorated(ast, use_legacy_decorators, node, parent, grandparent)
}

/// Some entry of `list` from index `k` on is decorated (`deep`: it or one of
/// its children), with `owner` as its parent and `parent` as its grandparent.
pub open spec fn spec_any_decorated(
    ast: &Ast,
    legacy: bool,
    list: Seq<usize>,
    k: int,
    owner: int,
    parent: Option<usize>,
    deep: bool,
) -> bool
    decreases owner, 0int, list.len() - k,
{
    if k < 0 || k >= list.len() || list[k] >= owner {
        false
    } else {
        (if deep {
            spec_node_or_child_is_decorated(ast, legacy, list[k] as int, Some(owner as usize), parent)
        } else {
            spec_node_is_decorated(ast, legacy, list[k] as int, Some(owner as usize), parent)
        }) || spec_any_decorated(ast, legacy, list, k + 1, owner, parent, deep)
    }
}

/// A class with a decorated member (or a member with a decorated child), or
/// a method, set accessor or constructor with a decorated parameter.
pub open spec fn spec_child_is_decorated(ast: &Ast, legacy: bool, i: int, parent: Option<usize>) -> bool
    decreases i, 1int, 0int,
{
    if i < 0 {
        false
    } else {
        match ast.kind_of(i) {
            SyntaxKind::ClassDeclaration | SyntaxKind::ClassExpression => spec_any_decorated(
                ast, legacy, Ast::list(ast.nd(i).members), 0, i, parent, true),
            SyntaxKind::MethodDeclaration | SyntaxKind::SetAccessor | SyntaxKind::Constructor => spec_any_decorated(
                ast, legacy, Ast::list(ast.nd(i).parameters), 0, i, parent, false),
            _ => false,
        }
    }
}

pub open spec fn spec_node_or_child_is_decorated(
    ast: &Ast,
    legacy: bool,
    i: int,
    parent: Option<usize>,
    grandparent: Option<usize>,
) -> bool
    decreases i, 2int, 0int,
{
    spec_node_is_decorated(ast, legacy, i, parent, grandparent) || (i >= 0 && spec_child_is_decorated(ast, legacy, i, parent))
}

/// Whether some entry of `list` is decorated, with `owner` as its parent.
fn any_decorated(
    ast: &Ast,
    use_legacy_decorators: bool,
    list: &Vec<usize>,
    owner: usize,
    parent: Option<usize>,
    deep: bool,
) -> (r: bool)
    requires
        ast.wf(),
        ast.has(owner as int),
        seq_below(list@, owner as int),
        parent matches Some(p) ==> ast.has(p as int),
    ensures
        r == spec_any_decorated(ast, use_legacy_decorators, list@, 0, owner as int, parent, deep),
    decreases owner, 0int, list@.len(),
{
    let mut k: usize = list.len();
    let mut acc = false;
    while k > 0
        invariant
            k <= list@.len(),
            ast.wf(),
            ast.has(owner as int),
            seq_below(list@, owner as int),
            parent matches Some(p) ==> ast.has(p as int),
            acc == spec_any_decorated(ast, use_legacy_decorators, list@, k as int, owner as int, parent, deep),
        decreases k,
    {
        k = k - 1;
        let m = list[k];
        let here = if deep {
            node_or_child_is_decorated(ast, use_legacy_decorators, m, Some(owner), parent)
        } else {
            node_is_decorated(ast, use_legacy_decorators, m, Some(owner), parent)
        };
        acc = here || acc;
    }
    acc
}

/// Whether a class has a decorated member (or a member with a decorated
/// child), or a method, set accessor or constructor a decorated parameter.
pub fn child_is_decorated(
    ast: &Ast,
    use_legacy_decorators: bool,
    node: usize,
    parent: Option<usize>,
) -> (r: bool)
    requires
        ast.wf(),
        ast.has(node as int),
        parent matches Some(p) ==> ast.has(p as int),
    ensures
        r == spec_child_is_decorated(ast, use_legacy_decorators, node as int, parent),
    decreases node, 1int, 0int,
{
    proof { lemma_links(ast, node as int); }
    match ast.kind(node) {
        SyntaxKind::ClassDeclaration | SyntaxKind::ClassExpression => {
            let ms = nodes(&ast.node(node).members);
            any_decorated(ast, use_legacy_decorators, &ms, node, parent, true)
        },
        SyntaxKind::MethodDeclaration | SyntaxKind::SetAccessor | SyntaxKind::Constructor => {
            let ps = nodes(&ast.node(node).parameters);
            any_decorated(ast, use_legacy_decorators, &ps, node, parent, false)
        },
        _ => false,
    }
}

/// Whether a node is decorated, or has a decorated child.
pub fn node_or_child_is_decorated(
    ast: &Ast,
    use_legacy_decorators: bool,
    node: usize,
    parent: Option<usize>,
    grandparent: Option<usize>,
) -> (r: bool)
    requires
        ast.wf(),
        ast.has(node as int),
        parent matches Some(p) ==> ast.has(p as int),
        grandparent matches Some(g) ==> ast.has(g as int),
    ensures
        r == spec_node_or_child_is_decorated(ast, use_legacy_decorators, node as int, parent, grandparent),
    decreases node, 2int, 0int,
{
    node_is_decorated(ast, use_legacy_decorators, node, parent, grandparent) || child_is_decorated(
        ast, use_legacy_decorators, node, parent)
}


/// The decorators among a node's modifiers, in order.
pub open spec fn spec_decorators_in(ast: &Ast, s: Seq<usize>) -> Seq<usize>
    decreases s.len(),
{
    if s.len() == 0 {
        Seq::empty()
    } else {
        let rest = spec_decorators_in(ast, s.drop_last());
        if ast.kind_of(s.last() as int) == SyntaxKind::Decorator { rest.push(s.last()) } else { rest }
    }
}

/// The decorators of a node, in order.
pub fn decorators(ast: &Ast, node: usize) -> (r: Vec<usize>)
    requires
        ast.wf(),
        ast.has(node as int),
    ensures
        r@ == spec_decorators_in(ast, Ast::list(ast.nd(node as int).modifiers)),
{
    proof { lemma_links(ast, node as int); }
    let mods = nodes(&ast.node(node).modifiers);
    let mut out: Vec<usize> = Vec::new();
    let mut j: usize = 0;
    while j < mods.len()
        invariant
            j <= mods@.len(),
            mods@ == Ast::list(ast.nd(node as int).modifiers),
            seq_below(mods@, node as int),
            ast.has(node as int),
            out@ == spec_decorators_in(ast, mods@.subrange(0, j as int)),
        decreases mods@.len() - j,
    {
        let m = mods[j];
        proof { assert(mods@.subrange(0, j + 1).drop_last() == mods@.subrange(0, j as int)); }
        if ast.kind(m) == SyntaxKind::Decorator {
            out.push(m);
        }
        j = j + 1;
    }
    proof { assert(mods@.subrange(0, j as int) == mods@); }
    out
}

/// The accessors of one property: the first and second in source order, and
/// the set and get accessor.
#[derive(Clone, Copy, Debug, PartialEq, Eq, Structural)]
pub struct AllAccessorDeclarations {
    pub first_accessor: Option<usize>,
    pub second_accessor: Option<usize>,
    pub set_accessor: Option<usize>,
    pub get_accessor: Option<usize>,
}

/// The first entry of `s` of kind `k`.
pub open spec fn spec_first_of_kind(ast: &Ast, s: Seq<usize>, k: SyntaxKind) -> Option<usize>
    decreases s.len(),
{
    if s.len() == 0 {
        None
    } else if ast.kind_of(s[0] as int) == k {
        Some(s[0])
    } else {
        spec_first_of_kind(ast, s.drop_first(), k)
    }
}

/// The accessor of the other kind.
pub open spec fn spec_other_accessor_kind(k: SyntaxKind) -> SyntaxKind {
    if k == SyntaxKind::SetAccessor { SyntaxKind::GetAccessor } else { SyntaxKind::SetAccessor }
}

/// The accessor ids are nodes below `n`.
pub open spec fn spec_accessors_below(d: AllAccessorDeclarations, n: int) -> bool {
    &&& d.first_accessor matches Some(x) ==> x < n
    &&& d.second_accessor matches Some(x) ==> x < n
    &&& d.set_accessor matches Some(x) ==> x < n
    &&& d.get_accessor matches Some(x) ==> x < n
    &&& d.first_accessor is Some
}

/// The accessors of `accessor`'s property, given the declarations of its
/// symbol (the first of the other kind pairs with it).
pub open spec fn spec_accessors_for_declaration(ast: &Ast, accessor: int, decls: Seq<usize>) -> AllAccessorDeclarations {
    let other = spec_first_of_kind(ast, decls, spec_other_accessor_kind(ast.kind_of(accessor)));
    let other_first = match other {
        Some(o) => ast.nd(o as int).pos < ast.nd(accessor).pos,
        None => false,
    };
    AllAccessorDeclarations {
        first_accessor: if other_first { other } else { Some(accessor as usize) },
        second_accessor: if other_first { Some(accessor as usize) } else { other },
        set_accessor: if ast.kind_of(accessor) == SyntaxKind::SetAccessor { Some(accessor as usize) } else { other },
        get_accessor: if ast.kind_of(accessor) == SyntaxKind::SetAccessor { other } else { Some(accessor as usize) },
    }
}

/// The accessors of a property given its symbol's declarations. Only accessors are accepted.
pub fn get_all_accessor_declarations_for_declaration(
    ast: &Ast,
    accessor: usize,
    declarations_of_symbol: &[usize],
) -> (r: AllAccessorDeclarations)
    requires
        ast.wf(),
        ast.has(accessor as int),
        spec_is_accessor(ast.kind_of(accessor as int)),
        seq_below(declarations_of_symbol@, ast.nodes@.len() as int),
    ensures
        r == spec_accessors_for_declaration(ast, accessor as int, declarations_of_symbol@),
        spec_accessors_below(r, ast.nodes@.len() as int),
{
    let k = ast.kind(accessor);
    let other_kind = if k == SyntaxKind::SetAccessor { SyntaxKind::GetAccessor } else { SyntaxKind::SetAccessor };
    let mut other: Option<usize> = None;
    let mut i: usize = 0;
    proof { assert(declarations_of_symbol@.subrange(0, declarations_of_symbol@.len() as int) == declarations_of_symbol@); }
    while other.is_none() && i < declarations_of_symbol.len()
        invariant
            i <= declarations_of_symbol@.len(),
            seq_below(declarations_of_symbol@, ast.nodes@.len() as int),
            other_kind == spec_other_accessor_kind(ast.kind_of(accessor as int)),
            other is None ==> spec_first_of_kind(ast, declarations_of_symbol@, other_kind) == spec_first_of_kind(
                ast, declarations_of_symbol@.subrange(i as int, declarations_of_symbol@.len() as int), other_kind),
            other is Some ==> spec_first_of_kind(ast, declarations_of_symbol@, other_kind) == other,
            other matches Some(o) ==> o < ast.nodes@.len(),
        decreases declarations_of_symbol@.len() - i,
    {
        let d = declarations_of_symbol[i];
        let ghost rest = declarations_of_symbol@.subrange(i as int, declarations_of_symbol@.len() as int);
        proof {
            assert(rest[0] == d);
            assert(rest.drop_first() == declarations_of_symbol@.subrange(i + 1, declarations_of_symbol@.len() as int));
        }
        if ast.kind(d) == other_kind {
            other = Some(d);
        }
        i = i + 1;
    }
    proof {
        if other is None {
            assert(declarations_of_symbol@.subrange(i as int, declarations_of_symbol@.len() as int).len() == 0);
        }
    }
    let other_first = match other {
        Some(o) => ast.node(o).pos < ast.node(accessor).pos,
        None => false,
    };
    AllAccessorDeclarations {
        first_accessor: if other_first { other } else { Some(accessor) },
        second_accessor: if other_first { Some(accessor) } else { other },
        set_accessor: if k == SyntaxKind::SetAccessor { Some(accessor) } else { other },
        get_accessor: if k == SyntaxKind::SetAccessor { other } else { Some(accessor) },
    }
}

/// A computed or element-access name whose expression is neither a literal
/// nor a signed numeric literal.
pub open spec fn spec_has_dynamic_name(ast: &Ast, d: int) -> bool {
    match ast.nd(d).name {
        None => false,
        Some(nm) => {
            let n = ast.nd(nm as int);
            let e = if n.kind == SyntaxKind::ElementAccessExpression { n.argument } else { n.expression };
            (n.kind == SyntaxKind::ComputedPropertyName || n.kind == SyntaxKind::ElementAccessExpression)
                && (e matches Some(e) && !spec_is_string_or_numeric_literal_like(ast.kind_of(e as int))
                && !spec_is_signed_numeric_literal(ast, e as int))
        },
    }
}

/// Whether a declaration's name is computed from a non-literal expression.
pub fn has_dynamic_name(ast: &Ast, declaration: usize) -> (r: bool)
    requires
        ast.wf(),
        ast.has(declaration as int),
    ensures
        r == spec_has_dynamic_name(ast, declaration as int),
{
    proof { lemma_links(ast, declaration as int); }
    match ast.node(declaration).name {
        None => false,
        Some(nm) => {
            proof { lemma_links(ast, nm as int); }
            let n = ast.node(nm);
            let e = if n.kind == SyntaxKind::ElementAccessExpression { n.argument } else { n.expression };
            (n.kind == SyntaxKind::ComputedPropertyName || n.kind == SyntaxKind::ElementAccessExpression)
                && match e {
                Some(e) => !is_string_or_numeric_literal_like_kind(ast.kind(e)) && !is_signed_numeric_literal(ast, e),
                None => false,
            }
        },
    }
}

/// A node with a name that `get_property_name_for_property_name_node` accepts.
pub open spec fn spec_named_ok(ast: &Ast, d: int) -> bool {
    ast.nd(d).name matches Some(nm) && spec_property_name_node_ok(ast, nm as int)
}

pub open spec fn spec_name_text(ast: &Ast, d: int) -> Seq<u8> {
    spec_property_name_for(ast, ast.nd(d).name.unwrap() as int)
}

/// The declarations that pair with `accessor`: accessors of the same
/// staticness and property name.
pub open spec fn spec_pairs_with(ast: &Ast, accessor: int, m: int) -> bool {
    spec_is_accessor(ast.kind_of(m)) && spec_is_static(ast, m) == spec_is_static(ast, accessor)
        && spec_name_text(ast, m) == spec_name_text(ast, accessor)
}

/// The names `get_all_accessor_declarations` reads exist and are accepted.
pub open spec fn spec_accessor_names_ok(ast: &Ast, parent_declarations: Seq<usize>, accessor: int) -> bool {
    spec_has_dynamic_name(ast, accessor) || (spec_named_ok(ast, accessor) && forall|j: int|
        0 <= j < parent_declarations.len() && spec_is_accessor(ast.kind_of(#[trigger] parent_declarations[j] as int))
            && spec_is_static(ast, parent_declarations[j] as int) == spec_is_static(ast, accessor)
            ==> spec_named_ok(ast, parent_declarations[j] as int))
}

/// The first declaration of the other accessor kind that pairs with `accessor`.
pub open spec fn spec_first_pair(ast: &Ast, s: Seq<usize>, accessor: int) -> Option<usize>
    decreases s.len(),
{
    if s.len() == 0 {
        None
    } else if ast.kind_of(s[0] as int) == spec_other_accessor_kind(ast.kind_of(accessor)) && spec_pairs_with(
        ast, accessor, s[0] as int) {
        Some(s[0])
    } else {
        spec_first_pair(ast, s.drop_first(), accessor)
    }
}

/// The accessors of `accessor`'s property among the declarations of its class:
/// with a dynamic name only itself; else the first other-kind accessor of the
/// same staticness and name pairs with it.
pub open spec fn spec_all_accessor_declarations(ast: &Ast, parent_declarations: Seq<usize>, accessor: int) -> AllAccessorDeclarations {
    if spec_has_dynamic_name(ast, accessor) {
        spec_accessors_for_declaration(ast, accessor, seq![accessor as usize])
    } else {
        let other = spec_first_pair(ast, parent_declarations, accessor);
        spec_accessors_for_declaration(ast, accessor, match other { Some(o) => seq![o], None => Seq::empty() })
    }
}

pub fn get_all_accessor_declarations(ast: &Ast, parent_declarations: &[usize], accessor: usize) -> (r: AllAccessorDeclarations)
    requires
        ast.wf(),
        ast.has(accessor as int),
        spec_is_accessor(ast.kind_of(accessor as int)),
        seq_below(parent_declarations@, ast.nodes@.len() as int),
        spec_accessor_names_ok(ast, parent_declarations@, accessor as int),
    ensures
        r == spec_all_accessor_declarations(ast, parent_declarations@, accessor as int),
        spec_accessors_below(r, ast.nodes@.len() as int),
{
    if has_dynamic_name(ast, accessor) {
        let single = [accessor];
        proof { assert(single@ =~= seq![accessor]); assert(seq_below(single@, ast.nodes@.len() as int)); }
        return get_all_accessor_declarations_for_declaration(ast, accessor, &single);
    }
    proof { lemma_links(ast, accessor as int); }
    let accessor_name = get_property_name_for_property_name_node(ast, ast.node(accessor).name.unwrap());
    let accessor_static = is_static(ast, accessor);
    let k = ast.kind(accessor);
    let other_kind = if k == SyntaxKind::SetAccessor { SyntaxKind::GetAccessor } else { SyntaxKind::SetAccessor };
    let mut found: Option<usize> = None;
    let mut i: usize = 0;
    proof { assert(parent_declarations@.subrange(0, parent_declarations@.len() as int) == parent_declarations@); }
    while found.is_none() && i < parent_declarations.len()
        invariant
            i <= parent_declarations@.len(),
            ast.wf(),
            ast.has(accessor as int),
            seq_below(parent_declarations@, ast.nodes@.len() as int),
            spec_accessor_names_ok(ast, parent_declarations@, accessor as int),
            !spec_has_dynamic_name(ast, accessor as int),
            accessor_name@ == spec_name_text(ast, accessor as int),
            accessor_static == spec_is_static(ast, accessor as int),
            other_kind == spec_other_accessor_kind(ast.kind_of(accessor as int)),
            found is None ==> spec_first_pair(ast, parent_declarations@, accessor as int) == spec_first_pair(
                ast, parent_declarations@.subrange(i as int, parent_declarations@.len() as int), accessor as int),
            found is Some ==> spec_first_pair(ast, parent_declarations@, accessor as int) == found,
            found matches Some(o) ==> o < ast.nodes@.len(),
        decreases parent_declarations@.len() - i,
    {
        let m = parent_declarations[i];
        let ghost rest = parent_declarations@.subrange(i as int, parent_declarations@.len() as int);
        proof {
            assert(rest[0] == m);
            assert(rest.drop_first() == parent_declarations@.subrange(i + 1, parent_declarations@.len() as int));
        }
        if is_accessor_kind(ast.kind(m)) && is_static(ast, m) == accessor_static {
            proof {
                assert(spec_is_accessor(ast.kind_of(parent_declarations@[i as int] as int)));
                lemma_links(ast, m as int);
            }
            let member_name = get_property_name_for_property_name_node(ast, ast.node(m).name.unwrap());
            if ast.kind(m) == other_kind && bytes_equal(member_name.as_slice(), accessor_name.as_slice()) {
                found = Some(m);
            }
        }
        i = i + 1;
    }
    proof {
        if found is None {
            assert(parent_declarations@.subrange(i as int, parent_declarations@.len() as int).len() == 0);
        }
    }
    let ghost decls: Seq<usize> = match found { Some(o) => seq![o], None => Seq::empty() };
    let list: Vec<usize> = match found {
        Some(o) => vec![o],
        None => Vec::new(),
    };
    proof { assert(list@ =~= decls); assert(seq_below(list@, ast.nodes@.len() as int)); }
    get_all_accessor_declarations_for_declaration(ast, accessor, list.as_slice())
}


/// The heritage clauses of a class or interface; other kinds have none.
pub open spec fn spec_heritage_clauses(ast: &Ast, i: int) -> Option<Vec<usize>> {
    let k = ast.kind_of(i);
    if k == SyntaxKind::ClassDeclaration || k == SyntaxKind::ClassExpression || k == SyntaxKind::InterfaceDeclaration {
        ast.nd(i).heritage_clauses
    } else {
        None
    }
}

/// The first clause of `s` whose token is `k`.
pub open spec fn spec_first_with_token(ast: &Ast, s: Seq<usize>, k: SyntaxKind) -> Option<usize>
    decreases s.len(),
{
    if s.len() == 0 {
        None
    } else if ast.nd(s[0] as int).token == k {
        Some(s[0])
    } else {
        spec_first_with_token(ast, s.drop_first(), k)
    }
}

/// The first heritage clause of a class or interface with the given token.
pub open spec fn spec_heritage_clause(ast: &Ast, i: int, k: SyntaxKind) -> Option<usize> {
    match spec_heritage_clauses(ast, i) {
        Some(v) => spec_first_with_token(ast, v@, k),
        None => None,
    }
}

pub fn get_heritage_clause(ast: &Ast, node: usize, kind: SyntaxKind) -> (r: Option<usize>)
    requires
        ast.wf(),
        ast.has(node as int),
    ensures
        r == spec_heritage_clause(ast, node as int, kind),
        r matches Some(c) ==> c < node,
{
    proof { lemma_links(ast, node as int); }
    let k = ast.kind(node);
    if !(k == SyntaxKind::ClassDeclaration || k == SyntaxKind::ClassExpression || k == SyntaxKind::InterfaceDeclaration) {
        return None;
    }
    match &ast.node(node).heritage_clauses {
        None => None,
        Some(clauses) => {
            let mut i: usize = 0;
            proof { assert(clauses@.subrange(0, clauses@.len() as int) == clauses@); }
            while i < clauses.len()
                invariant
                    i <= clauses@.len(),
                    ast.nd(node as int).heritage_clauses == Some(*clauses),
                    spec_heritage_clauses(ast, node as int) == Some(*clauses),
                    seq_below(clauses@, node as int),
                    ast.has(node as int),
                    spec_first_with_token(ast, clauses@, kind) == spec_first_with_token(
                        ast, clauses@.subrange(i as int, clauses@.len() as int), kind),
                decreases clauses@.len() - i,
            {
                let c = clauses[i];
                let ghost rest = clauses@.subrange(i as int, clauses@.len() as int);
                proof {
                    assert(rest[0] == c);
                    assert(rest.drop_first() == clauses@.subrange(i + 1, clauses@.len() as int));
                }
                if ast.node(c).token == kind {
                    assert(spec_first_with_token(ast, rest, kind) == Some(c));
                    return Some(c);
                }
                i = i + 1;
            }
            None
        },
    }
}

/// The types of the first heritage clause with the given token; none without one.
pub open spec fn spec_heritage_elements(ast: &Ast, i: int, k: SyntaxKind) -> Seq<usize> {
    match spec_heritage_clause(ast, i, k) {
        Some(c) => Ast::list(ast.nd(c as int).types),
        None => Seq::empty(),
    }
}

/// The found clause has its type list.
pub open spec fn spec_heritage_elements_ok(ast: &Ast, i: int, k: SyntaxKind) -> bool {
    spec_heritage_clause(ast, i, k) matches Some(c) ==> ast.nd(c as int).types is Some
}

pub fn get_heritage_elements(ast: &Ast, node: usize, kind: SyntaxKind) -> (r: Vec<usize>)
    requires
        ast.wf(),
        ast.has(node as int),
        spec_heritage_elements_ok(ast, node as int, kind),
    ensures
        r@ == spec_heritage_elements(ast, node as int, kind),
{
    match get_heritage_clause(ast, node, kind) {
        None => Vec::new(),
        Some(c) => nodes(&ast.node(c).types),
    }
}

pub fn get_extends_heritage_clause_elements(ast: &Ast, node: usize) -> (r: Vec<usize>)
    requires
        ast.wf(),
        ast.has(node as int),
        spec_heritage_elements_ok(ast, node as int, SyntaxKind::ExtendsKeyword),
    ensures
        r@ == spec_heritage_elements(ast, node as int, SyntaxKind::ExtendsKeyword),
{
    get_heritage_elements(ast, node, SyntaxKind::ExtendsKeyword)
}

pub fn get_implements_heritage_clause_elements(ast: &Ast, node: usize) -> (r: Vec<usize>)
    requires
        ast.wf(),
        ast.has(node as int),
        spec_heritage_elements_ok(ast, node as int, SyntaxKind::ImplementsKeyword),
    ensures
        r@ == spec_heritage_elements(ast, node as int, SyntaxKind::ImplementsKeyword),
{
    get_heritage_elements(ast, node, SyntaxKind::ImplementsKeyword)
}

/// The first `extends` element of a class or interface.
pub fn get_class_extends_heritage_element(ast: &Ast, node: usize) -> (r: Option<usize>)
    requires
        ast.wf(),
        ast.has(node as int),
        spec_heritage_elements_ok(ast, node as int, SyntaxKind::ExtendsKeyword),
    ensures
        r == if spec_heritage_elements(ast, node as int, SyntaxKind::ExtendsKeyword).len() > 0 {
            Some(spec_heritage_elements(ast, node as int, SyntaxKind::ExtendsKeyword)[0])
        } else {
            None
        },
{
    let v = get_heritage_elements(ast, node, SyntaxKind::ExtendsKeyword);
    if v.len() > 0 { Some(v[0]) } else { None }
}

/// The class (or interface) a heritage element belongs to, and whether its
/// clause is `implements`: `(None, false)` unless the element is an
/// expression-with-type-arguments or type reference in a class's heritage clause.
pub open spec fn spec_class_of_heritage_element(ast: &Ast, i: int) -> (Option<usize>, bool) {
    let k = ast.kind_of(i);
    if k == SyntaxKind::ExpressionWithTypeArguments || k == SyntaxKind::TypeReference {
        let p = ast.up(i);
        if ast.kind_of(p) == SyntaxKind::HeritageClause {
            let g = ast.up(p);
            if spec_is_class_like(ast.kind_of(g)) {
                (Some(g as usize), ast.nd(p).token == SyntaxKind::ImplementsKeyword)
            } else {
                (None, false)
            }
        } else {
            (None, false)
        }
    } else {
        (None, false)
    }
}

/// A heritage element has a parent, and a heritage clause parent has one too.
pub open spec fn spec_heritage_element_parents_ok(ast: &Ast, i: int) -> bool {
    let k = ast.kind_of(i);
    (k == SyntaxKind::ExpressionWithTypeArguments || k == SyntaxKind::TypeReference) ==> (ast.has_up(i)
        && (ast.kind_of(ast.up(i)) == SyntaxKind::HeritageClause ==> ast.has_up(ast.up(i))))
}

pub fn try_get_class_implementing_or_extending_heritage_clause_element(ast: &Ast, node: usize) -> (r: (Option<usize>, bool))
    requires
        ast.wf(),
        ast.has(node as int),
        spec_heritage_element_parents_ok(ast, node as int),
    ensures
        r == spec_class_of_heritage_element(ast, node as int),
{
    let k = ast.kind(node);
    if k == SyntaxKind::ExpressionWithTypeArguments || k == SyntaxKind::TypeReference {
        let p = ast.parent(node).unwrap();
        if ast.kind(p) == SyntaxKind::HeritageClause {
            let g = ast.parent(p).unwrap();
            if is_class_like_kind(ast.kind(g)) {
                return (Some(g), ast.node(p).token == SyntaxKind::ImplementsKeyword);
            }
        }
    }
    (None, false)
}

/// The class whose `extends` clause holds an expression-with-type-arguments.
pub open spec fn spec_class_extending(ast: &Ast, i: int) -> Option<usize> {
    if ast.kind_of(i) != SyntaxKind::ExpressionWithTypeArguments {
        None
    } else {
        match spec_class_of_heritage_element(ast, i) {
            (Some(c), false) => Some(c),
            _ => None,
        }
    }
}

pub fn try_get_class_extending_expression_with_type_arguments(ast: &Ast, node: usize) -> (r: Option<usize>)
    requires
        ast.wf(),
        ast.has(node as int),
        spec_heritage_element_parents_ok(ast, node as int),
    ensures
        r == spec_class_extending(ast, node as int),
{
    if ast.kind(node) != SyntaxKind::ExpressionWithTypeArguments {
        return None;
    }
    match try_get_class_implementing_or_extending_heritage_clause_element(ast, node) {
        (Some(c), false) => Some(c),
        _ => None,
    }
}

pub fn is_expression_with_type_arguments_in_class_extends_clause(ast: &Ast, node: usize) -> (r: bool)
    requires
        ast.wf(),
        ast.has(node as int),
        spec_heritage_element_parents_ok(ast, node as int),
    ensures
        r == spec_class_extending(ast, node as int) is Some,
{
    try_get_class_extending_expression_with_type_arguments(ast, node).is_some()
}

/// The first constructor member with a present body.
pub open spec fn spec_first_constructor_with_body(ast: &Ast, s: Seq<usize>) -> Option<usize>
    decreases s.len(),
{
    if s.len() == 0 {
        None
    } else if ast.kind_of(s[0] as int) == SyntaxKind::Constructor && spec_node_is_present(ast, ast.nd(s[0] as int).body) {
        Some(s[0])
    } else {
        spec_first_constructor_with_body(ast, s.drop_first())
    }
}

pub fn get_first_constructor_with_body(ast: &Ast, node: usize) -> (r: Option<usize>)
    requires
        ast.wf(),
        ast.has(node as int),
        spec_has_member_list(ast.kind_of(node as int)),
    ensures
        r == spec_first_constructor_with_body(ast, Ast::list(ast.nd(node as int).members)),
        r matches Some(c) ==> c < node,
{
    proof { lemma_links(ast, node as int); }
    let ms = members(ast, node);
    let mut i: usize = 0;
    proof { assert(ms@.subrange(0, ms@.len() as int) == ms@); }
    while i < ms.len()
        invariant
            i <= ms@.len(),
            ast.wf(),
            seq_below(ms@, node as int),
            ast.has(node as int),
            ms@ == Ast::list(ast.nd(node as int).members),
            spec_first_constructor_with_body(ast, ms@) == spec_first_constructor_with_body(
                ast, ms@.subrange(i as int, ms@.len() as int)),
        decreases ms@.len() - i,
    {
        let m = ms[i];
        let ghost rest = ms@.subrange(i as int, ms@.len() as int);
        proof {
            assert(rest[0] == m);
            assert(rest.drop_first() == ms@.subrange(i + 1, ms@.len() as int));
            lemma_links(ast, m as int);
        }
        if ast.kind(m) == SyntaxKind::Constructor && node_is_present(ast, ast.node(m).body) {
            assert(spec_first_constructor_with_body(ast, rest) == Some(m));
            return Some(m);
        }
        i = i + 1;
    }
    None
}

/// The first class-like declaration of a symbol.
pub open spec fn spec_first_class_like(ast: &Ast, s: Seq<usize>) -> Option<usize>
    decreases s.len(),
{
    if s.len() == 0 {
        None
    } else if spec_is_class_like(ast.kind_of(s[0] as int)) {
        Some(s[0])
    } else {
        spec_first_class_like(ast, s.drop_first())
    }
}

pub fn get_class_like_declaration_of_symbol(ast: &Ast, symbol: usize) -> (r: Option<usize>)
    requires
        ast.wf(),
        symbol < ast.symbols@.len(),
    ensures
        r == spec_first_class_like(ast, ast.symbols@[symbol as int].declarations@),
{
    let decls = &ast.symbol(symbol).declarations;
    proof { assert(crate::ast::symbol_below(ast.symbols@[symbol as int], ast.nodes@.len() as int)); }
    let mut i: usize = 0;
    proof { assert(decls@.subrange(0, decls@.len() as int) == decls@); }
    while i < decls.len()
        invariant
            i <= decls@.len(),
            *decls == ast.symbols@[symbol as int].declarations,
            seq_below(decls@, ast.nodes@.len() as int),
            spec_first_class_like(ast, decls@) == spec_first_class_like(ast, decls@.subrange(i as int, decls@.len() as int)),
        decreases decls@.len() - i,
    {
        let d = decls[i];
        let ghost rest = decls@.subrange(i as int, decls@.len() as int);
        proof {
            assert(rest[0] == d);
            assert(rest.drop_first() == decls@.subrange(i + 1, decls@.len() as int));
        }
        if is_class_like_kind(ast.kind(d)) {
            return Some(d);
        }
        i = i + 1;
    }
    None
}

/// Whether a class or its first constructor with a body is decorated.
pub open spec fn spec_class_or_constructor_parameter_is_decorated(ast: &Ast, legacy: bool, i: int) -> bool {
    spec_node_is_decorated(ast, legacy, i, None, None) || match spec_first_constructor_with_body(
        ast, Ast::list(ast.nd(i).members)) {
        Some(c) => spec_child_is_decorated(ast, legacy, c as int, Some(i as usize)),
        None => false,
    }
}

pub fn class_or_constructor_parameter_is_decorated(ast: &Ast, use_legacy_decorators: bool, node: usize) -> (r: bool)
    requires
        ast.wf(),
        ast.has(node as int),
        spec_has_member_list(ast.kind_of(node as int)),
    ensures
        r == spec_class_or_constructor_parameter_is_decorated(ast, use_legacy_decorators, node as int),
{
    if node_is_decorated(ast, use_legacy_decorators, node, None, None) {
        return true;
    }
    match get_first_constructor_with_body(ast, node) {
        Some(c) => child_is_decorated(ast, use_legacy_decorators, c, Some(node)),
        None => false,
    }
}

/// Some non-`this` parameter of `list` (from index `k`) is decorated, with
/// `owner` as its parent and `parent` as its grandparent.
pub open spec fn spec_any_parameter_decorated(
    ast: &Ast,
    legacy: bool,
    list: Seq<usize>,
    k: int,
    owner: int,
    parent: Option<usize>,
) -> bool
    decreases list.len() - k,
{
    if k < 0 || k >= list.len() {
        false
    } else {
        (!spec_is_this_parameter(ast, list[k] as int) && spec_node_is_decorated(
            ast, legacy, list[k] as int, Some(owner as usize), parent)) || spec_any_parameter_decorated(
            ast, legacy, list, k + 1, owner, parent)
    }
}

/// The parameter list a class element's decoration covers: a method's own; an
/// accessor's, when it is the first decorated accessor of its pair, its set
/// accessor's. `None` inside `Some` means there is none; an outer `None` means
/// an accessor that is not the first decorated one of its pair.
pub open spec fn spec_element_parameters(ast: &Ast, i: int, parent: Option<usize>) -> Option<Option<Vec<usize>>> {
    if spec_is_accessor(ast.kind_of(i)) {
        let d = spec_all_accessor_declarations(ast, Ast::list(ast.nd(parent.unwrap() as int).members), i);
        let first = d.first_accessor.unwrap();
        let with_decorators = if spec_has_decorators(ast, first as int) {
            Some(first)
        } else {
            match d.second_accessor {
                Some(s) => if spec_has_decorators(ast, s as int) { Some(s) } else { None },
                None => None,
            }
        };
        if with_decorators != Some(i as usize) {
            None
        } else {
            Some(match d.set_accessor { Some(s) => ast.nd(s as int).parameters, None => None })
        }
    } else if ast.kind_of(i) == SyntaxKind::MethodDeclaration {
        Some(ast.nd(i).parameters)
    } else {
        Some(None)
    }
}

pub open spec fn spec_class_element_or_parameter_is_decorated(ast: &Ast, legacy: bool, i: int, parent: Option<usize>) -> bool {
    match spec_element_parameters(ast, i, parent) {
        None => false,
        Some(ps) => spec_node_is_decorated(ast, legacy, i, parent, None) || match ps {
            Some(v) => spec_any_parameter_decorated(ast, legacy, v@, 0, i, parent),
            None => false,
        },
    }
}

/// What `class_element_or_class_element_parameter_is_decorated` reads exists:
/// an accessor's parent has a member list whose accessor names are accepted.
pub open spec fn spec_class_element_ok(ast: &Ast, i: int, parent: Option<usize>) -> bool {
    spec_is_accessor(ast.kind_of(i)) ==> (parent matches Some(p) && ast.has(p as int) && spec_has_member_list(
        ast.kind_of(p as int)) && spec_accessor_names_ok(ast, Ast::list(ast.nd(p as int).members), i))
}

/// Whether a class element, or one of its parameters, is decorated; an
/// accessor counts only as the first decorated accessor of its pair.
pub fn class_element_or_class_element_parameter_is_decorated(
    ast: &Ast,
    use_legacy_decorators: bool,
    node: usize,
    parent: Option<usize>,
) -> (r: bool)
    requires
        ast.wf(),
        ast.has(node as int),
        parent matches Some(p) ==> ast.has(p as int),
        spec_class_element_ok(ast, node as int, parent),
    ensures
        r == spec_class_element_or_parameter_is_decorated(ast, use_legacy_decorators, node as int, parent),
{
    let mut parameters: Option<Vec<usize>> = None;
    let ghost mut ps_spec: Option<Option<Vec<usize>>> = spec_element_parameters(ast, node as int, parent);
    if is_accessor_kind(ast.kind(node)) {
        let p = parent.unwrap();
        proof { lemma_links(ast, p as int); }
        let ms = members(ast, p);
        let d = get_all_accessor_declarations(ast, ms.as_slice(), node);
        let first = d.first_accessor.unwrap();
        let with_decorators = if has_decorators(ast, first) {
            Some(first)
        } else {
            match d.second_accessor {
                Some(s) => if has_decorators(ast, s) { Some(s) } else { None },
                None => None,
            }
        };
        if with_decorators != Some(node) {
            return false;
        }
        if let Some(s) = d.set_accessor {
            parameters = match &ast.node(s).parameters {
                Some(v) => Some(copy_ids(v)),
                None => None,
            };
        }
    } else if ast.kind(node) == SyntaxKind::MethodDeclaration {
        parameters = match &ast.node(node).parameters {
            Some(v) => Some(copy_ids(v)),
            None => None,
        };
    }
    assert(ps_spec matches Some(ps) && (ps is Some <==> parameters is Some) && (parameters matches Some(v) ==> v@ == ps.unwrap()@));
    if node_is_decorated(ast, use_legacy_decorators, node, parent, None) {
        return true;
    }
    match parameters {
        None => false,
        Some(ps) => {
            proof { lemma_links(ast, node as int); }
            let mut k: usize = ps.len();
            let mut acc = false;
            while k > 0
                invariant
                    k <= ps@.len(),
                    ast.wf(),
                    ast.has(node as int),
                    seq_below(ps@, ast.nodes@.len() as int),
                    parent matches Some(p) ==> ast.has(p as int),
                    acc == spec_any_parameter_decorated(ast, use_legacy_decorators, ps@, k as int, node as int, parent),
                decreases k,
            {
                k = k - 1;
                let q = ps[k];
                let here = !is_this_parameter(ast, q) && node_is_decorated(ast, use_legacy_decorators, q, Some(node), parent);
                acc = here || acc;
            }
            acc
        },
    }
}


/// The name of a heritage clause element: a type reference's type name, an
/// expression with type arguments' expression.
pub fn get_heritage_clause_element_name(ast: &Ast, node: usize) -> (r: Option<usize>)
    requires
        ast.has(node as int),
        ast.kind_of(node as int) == SyntaxKind::TypeReference || ast.kind_of(node as int)
            == SyntaxKind::ExpressionWithTypeArguments,
    ensures
        r == if ast.kind_of(node as int) == SyntaxKind::TypeReference {
            ast.nd(node as int).name
        } else {
            ast.nd(node as int).expression
        },
{
    let n = ast.node(node);
    if n.kind == SyntaxKind::TypeReference {
        n.name
    } else {
        n.expression
    }
}

/// Whether `i` (through qualified names) is the type name of a type
/// reference that sits in a heritage clause; `None` when a parent read on
/// the way is missing.
pub open spec fn spec_is_name_of_heritage_clause_type_reference(ast: &Ast, i: int) -> Option<bool> {
    match spec_qualified_top(ast, i) {
        None => None,
        Some(c) => {
            let p = pp(ast, c).unwrap();
            if ast.kind_of(p) != SyntaxKind::TypeReference || ast.nd(p).name != Some(c as usize) {
                Some(false)
            } else {
                match pp(ast, p) {
                    None => None,
                    Some(g) => Some(ast.kind_of(g) == SyntaxKind::HeritageClause),
                }
            }
        },
    }
}

pub fn is_name_of_heritage_clause_type_reference(ast: &Ast, node: usize) -> (r: bool)
    requires
        ast.wf(),
        ast.has(node as int),
        spec_is_name_of_heritage_clause_type_reference(ast, node as int) is Some,
    ensures
        Some(r) == spec_is_name_of_heritage_clause_type_reference(ast, node as int),
{
    let mut current = node;
    loop
        invariant
            ast.wf(),
            ast.has(current as int),
            spec_qualified_top(ast, node as int) is Some,
            spec_qualified_top(ast, node as int) == spec_qualified_top(ast, current as int),
        ensures
            ast.has(current as int),
            spec_qualified_top(ast, node as int) == Some(current as int),
        decreases ast.nodes@.len() - current,
    {
        proof { lemma_pp(ast, current as int); }
        let p = ast.parent(current).unwrap();
        if ast.kind(p) != SyntaxKind::QualifiedName {
            break;
        }
        current = p;
    }
    proof { lemma_pp(ast, current as int); }
    let p = ast.parent(current).unwrap();
    if ast.kind(p) != SyntaxKind::TypeReference || ast.node(p).name != Some(current) {
        return false;
    }
    proof { lemma_pp(ast, p as int); }
    let g = ast.parent(p).unwrap();
    ast.kind(g) == SyntaxKind::HeritageClause
}

} // verus!
