//! Replacing the modifiers of a declaration, as a node factory's update does:
//! the node itself when nothing changes, otherwise a new node like it.
use vstd::prelude::*;
use crate::ast::{links_below, list_below, seq_below, Ast, Node};
use crate::class_utils::copy_ids;
use crate::node_utils::lemma_links;
use crate::syntax_kind::SyntaxKind;
use crate::targets::copy_bytes;

verus! {

/// The kinds that carry modifiers, whose modifiers can be replaced.
pub open spec fn spec_has_modifier_list(k: SyntaxKind) -> bool {
    k == SyntaxKind::TypeParameter || k == SyntaxKind::Parameter || k == SyntaxKind::ConstructorType || k
        == SyntaxKind::PropertySignature || k == SyntaxKind::PropertyDeclaration || k == SyntaxKind::MethodSignature
        || k == SyntaxKind::MethodDeclaration || k == SyntaxKind::Constructor || k == SyntaxKind::GetAccessor || k
        == SyntaxKind::SetAccessor || k == SyntaxKind::IndexSignature || k == SyntaxKind::FunctionExpression || k
        == SyntaxKind::ArrowFunction || k == SyntaxKind::ClassExpression || k == SyntaxKind::VariableStatement || k
        == SyntaxKind::FunctionDeclaration || k == SyntaxKind::ClassDeclaration || k
        == SyntaxKind::InterfaceDeclaration || k == SyntaxKind::TypeAliasDeclaration || k
        == SyntaxKind::EnumDeclaration || k == SyntaxKind::ModuleDeclaration || k
        == SyntaxKind::ImportEqualsDeclaration || k == SyntaxKind::ImportDeclaration || k
        == SyntaxKind::ExportAssignment || k == SyntaxKind::ExportDeclaration
}

fn has_modifier_list(k: SyntaxKind) -> (r: bool)
    ensures
        r == spec_has_modifier_list(k),
{
    matches!(
        k,
        SyntaxKind::TypeParameter | SyntaxKind::Parameter | SyntaxKind::ConstructorType
            | SyntaxKind::PropertySignature | SyntaxKind::PropertyDeclaration | SyntaxKind::MethodSignature
            | SyntaxKind::MethodDeclaration | SyntaxKind::Constructor | SyntaxKind::GetAccessor
            | SyntaxKind::SetAccessor | SyntaxKind::IndexSignature | SyntaxKind::FunctionExpression
            | SyntaxKind::ArrowFunction | SyntaxKind::ClassExpression | SyntaxKind::VariableStatement
            | SyntaxKind::FunctionDeclaration | SyntaxKind::ClassDeclaration | SyntaxKind::InterfaceDeclaration
            | SyntaxKind::TypeAliasDeclaration | SyntaxKind::EnumDeclaration | SyntaxKind::ModuleDeclaration
            | SyntaxKind::ImportEqualsDeclaration | SyntaxKind::ImportDeclaration | SyntaxKind::ExportAssignment
            | SyntaxKind::ExportDeclaration
    )
}

/// Two list slots hold the same list: both absent, or both present with
/// the same entries.
pub open spec fn same_list(a: Option<Vec<usize>>, b: Option<Vec<usize>>) -> bool {
    match (a, b) {
        (None, None) => true,
        (Some(x), Some(y)) => x@ == y@,
        _ => false,
    }
}

/// `s` without the entries that occur in `m`, in order.
pub open spec fn spec_without(s: Seq<usize>, m: Seq<usize>) -> Seq<usize>
    decreases s.len(),
{
    if s.len() == 0 {
        s
    } else {
        let rest = spec_without(s.drop_last(), m);
        if m.contains(s.last()) { rest } else { rest.push(s.last()) }
    }
}

/// The children of the updated node: the new modifiers, then the old
/// children that were not old modifiers.
pub open spec fn spec_updated_children(n: Node, modifiers: Option<Vec<usize>>) -> Seq<usize> {
    Ast::list(modifiers) + spec_without(n.children@, Ast::list(n.modifiers))
}

/// `b` is `a` with its modifiers replaced by `modifiers` and its children
/// updated to match; every other field is the same.
pub open spec fn spec_is_modifier_update(a: Node, b: Node, modifiers: Option<Vec<usize>>) -> bool {
    &&& same_list(b.modifiers, modifiers)
    &&& b.children@ == spec_updated_children(a, modifiers)
    &&& b.kind == a.kind && b.pos == a.pos && b.end == a.end && b.flags == a.flags && b.text@ == a.text@
    &&& b.token == a.token && b.is_type_only == a.is_type_only && b.is_type_of == a.is_type_of
    &&& b.has_asterisk == a.has_asterisk && b.has_dot_dot_dot == a.has_dot_dot_dot
    &&& b.name == a.name && b.property_name == a.property_name && b.expression == a.expression
    &&& b.body == a.body && b.initializer == a.initializer && b.type_node == a.type_node
    &&& b.left == a.left && b.right == a.right && b.operator_token == a.operator_token
    &&& b.module_specifier == a.module_specifier && b.module_reference == a.module_reference
    &&& b.import_clause == a.import_clause && b.named_bindings == a.named_bindings
    &&& b.export_clause == a.export_clause && b.attributes == a.attributes && b.argument == a.argument
    &&& b.literal == a.literal && b.tag_name == a.tag_name && b.statement == a.statement
    &&& b.condition == a.condition && b.incrementor == a.incrementor && b.constraint == a.constraint
    &&& b.object_assignment_initializer == a.object_assignment_initializer && b.namespace == a.namespace
    &&& b.operand == a.operand && b.declaration_list == a.declaration_list
    &&& b.external_module_indicator == a.external_module_indicator
    &&& b.postfix_token == a.postfix_token && b.full_signature == a.full_signature
    &&& b.equals_greater_than_token == a.equals_greater_than_token && b.default_type == a.default_type
    &&& same_list(b.parameters, a.parameters) && same_list(b.type_parameters, a.type_parameters)
    &&& same_list(b.members, a.members) && same_list(b.heritage_clauses, a.heritage_clauses)
    &&& same_list(b.types, a.types) && same_list(b.arguments, a.arguments)
    &&& same_list(b.type_arguments, a.type_arguments) && same_list(b.elements, a.elements)
    &&& same_list(b.tags, a.tags) && same_list(b.declarations, a.declarations)
    &&& b.jsdoc@ == a.jsdoc@ && b.reparsed_clones@ == a.reparsed_clones@
    &&& b.symbol == a.symbol && b.assignment_kind == a.assignment_kind && b.instance_state == a.instance_state
}

fn copy_list(o: &Option<Vec<usize>>) -> (r: Option<Vec<usize>>)
    ensures
        same_list(r, *o),
{
    match o {
        Some(v) => Some(copy_ids(v)),
        None => None,
    }
}

fn list_contains_id(s: &Vec<usize>, x: usize) -> (r: bool)
    ensures
        r == s@.contains(x),
{
    let mut j: usize = 0;
    while j < s.len()
        invariant
            j <= s@.len(),
            forall|t: int| 0 <= t < j ==> s@[t] != x,
        decreases s@.len() - j,
    {
        if s[j] == x {
            assert(s@[j as int] == x);
            return true;
        }
        j = j + 1;
    }
    false
}

fn updated_children(n: &Node, modifiers: &Option<Vec<usize>>) -> (r: Vec<usize>)
    ensures
        r@ == spec_updated_children(*n, *modifiers),
{
    let mut out: Vec<usize> = match modifiers {
        Some(m) => copy_ids(m),
        None => Vec::new(),
    };
    let empty: Vec<usize> = Vec::new();
    let old_mods: &Vec<usize> = match &n.modifiers {
        Some(m) => m,
        None => &empty,
    };
    proof { assert(old_mods@ == Ast::list(n.modifiers)); }
    let ghost head = out@;
    let mut j: usize = 0;
    proof { assert(n.children@.subrange(0, 0) =~= Seq::<usize>::empty()); }
    while j < n.children.len()
        invariant
            j <= n.children@.len(),
            old_mods@ == Ast::list(n.modifiers),
            head == Ast::list(*modifiers),
            out@ == head + spec_without(n.children@.subrange(0, j as int), old_mods@),
        decreases n.children@.len() - j,
    {
        let c = n.children[j];
        proof {
            let s = n.children@.subrange(0, j + 1);
            assert(s.drop_last() == n.children@.subrange(0, j as int));
            assert(s.last() == c);
        }
        if !list_contains_id(old_mods, c) {
            out.push(c);
            proof {
                assert(out@ == head + spec_without(n.children@.subrange(0, j + 1), old_mods@));
            }
        }
        j = j + 1;
    }
    proof { assert(n.children@.subrange(0, j as int) == n.children@); }
    out
}

pub proof fn lemma_without_below(s: Seq<usize>, m: Seq<usize>, b: int)
    requires
        seq_below(s, b),
    ensures
        seq_below(spec_without(s, m), b),
    decreases s.len(),
{
    if s.len() > 0 {
        lemma_without_below(s.drop_last(), m, b);
        let rest = spec_without(s.drop_last(), m);
        if !m.contains(s.last()) {
            assert forall|t: int| 0 <= t < rest.push(s.last()).len() implies #[trigger] rest.push(s.last())[t] < b by {
                if t < rest.len() {
                    assert(rest.push(s.last())[t] == rest[t]);
                }
            }
        }
    }
}

/// The node `n` with its modifiers replaced by `modifiers`.
fn updated_node(n: &Node, modifiers: Option<Vec<usize>>) -> (r: Node)
    ensures
        spec_is_modifier_update(*n, r, modifiers),
{
    let children = updated_children(n, &modifiers);
    Node {
        kind: n.kind,
        pos: n.pos,
        end: n.end,
        flags: n.flags,
        text: copy_bytes(&n.text),
        token: n.token,
        is_type_only: n.is_type_only,
        is_type_of: n.is_type_of,
        has_asterisk: n.has_asterisk,
        has_dot_dot_dot: n.has_dot_dot_dot,
        name: n.name,
        property_name: n.property_name,
        expression: n.expression,
        body: n.body,
        initializer: n.initializer,
        type_node: n.type_node,
        left: n.left,
        right: n.right,
        operator_token: n.operator_token,
        module_specifier: n.module_specifier,
        module_reference: n.module_reference,
        import_clause: n.import_clause,
        named_bindings: n.named_bindings,
        export_clause: n.export_clause,
        attributes: n.attributes,
        argument: n.argument,
        literal: n.literal,
        tag_name: n.tag_name,
        statement: n.statement,
        condition: n.condition,
        incrementor: n.incrementor,
        constraint: n.constraint,
        object_assignment_initializer: n.object_assignment_initializer,
        namespace: n.namespace,
        operand: n.operand,
        declaration_list: n.declaration_list,
        external_module_indicator: n.external_module_indicator,
        postfix_token: n.postfix_token,
        full_signature: n.full_signature,
        equals_greater_than_token: n.equals_greater_than_token,
        default_type: n.default_type,
        modifiers,
        parameters: copy_list(&n.parameters),
        type_parameters: copy_list(&n.type_parameters),
        members: copy_list(&n.members),
        heritage_clauses: copy_list(&n.heritage_clauses),
        types: copy_list(&n.types),
        arguments: copy_list(&n.arguments),
        type_arguments: copy_list(&n.type_arguments),
        elements: copy_list(&n.elements),
        tags: copy_list(&n.tags),
        declarations: copy_list(&n.declarations),
        jsdoc: copy_ids(&n.jsdoc),
        children,
        reparsed_clones: copy_ids(&n.reparsed_clones),
        symbol: n.symbol,
        assignment_kind: n.assignment_kind,
        instance_state: n.instance_state,
    }
}

fn same_list_exec(a: &Option<Vec<usize>>, b: &Option<Vec<usize>>) -> (r: bool)
    ensures
        r == same_list(*a, *b),
{
    match (a, b) {
        (None, None) => true,
        (Some(x), Some(y)) => {
            if x.len() != y.len() {
                return false;
            }
            let mut j: usize = 0;
            while j < x.len()
                invariant
                    j <= x@.len(),
                    x@.len() == y@.len(),
                    *a == Some(*x),
                    *b == Some(*y),
                    forall|t: int| 0 <= t < j ==> x@[t] == y@[t],
                decreases x@.len() - j,
            {
                if x[j] != y[j] {
                    proof {
                        if x@ == y@ {
                            assert(x@[j as int] == y@[j as int]);
                        }
                    }
                    return false;
                }
                j = j + 1;
            }
            proof { assert(x@ =~= y@); }
            true
        },
        _ => false,
    }
}

/// Replaces the modifiers of `node`, whose kind must carry modifiers. With
/// the same modifiers the node itself comes back and the arena is unchanged;
/// otherwise a new node like it, with the new modifiers, is appended and
/// returned, and it becomes the parent of its children.
pub fn replace_modifiers(ast: &mut Ast, node: usize, modifiers: Option<Vec<usize>>) -> (r: usize)
    requires
        old(ast).wf(),
        old(ast).has(node as int),
        spec_has_modifier_list(old(ast).kind_of(node as int)),
        list_below(modifiers, old(ast).nodes@.len() as int),
    ensures
        final(ast).wf(),
        same_list(old(ast).nd(node as int).modifiers, modifiers) ==> r == node && final(ast).nodes@ == old(ast).nodes@
            && final(ast).parents@ == old(ast).parents@ && final(ast).symbols@ == old(ast).symbols@,
        !same_list(old(ast).nd(node as int).modifiers, modifiers) ==> r == old(ast).nodes@.len(),
        !same_list(old(ast).nd(node as int).modifiers, modifiers) ==> final(ast).nodes@ == old(ast).nodes@.push(
            final(ast).nd(r as int),
        ),
        !same_list(old(ast).nd(node as int).modifiers, modifiers) ==> spec_is_modifier_update(
            old(ast).nd(node as int),
            final(ast).nd(r as int),
            modifiers,
        ),
        !same_list(old(ast).nd(node as int).modifiers, modifiers) ==> final(ast).symbols@ == old(ast).symbols@,
        !same_list(old(ast).nd(node as int).modifiers, modifiers) ==> final(ast).parents@[r as int] is None,
        !same_list(old(ast).nd(node as int).modifiers, modifiers) ==> forall|i: int|
            0 <= i < old(ast).nodes@.len() ==> #[trigger] final(ast).parents@[i] == if final(ast).nd(
                r as int,
            ).children@.contains(i as usize) {
                Some(r)
            } else {
                old(ast).parents@[i]
            },
{
    proof { lemma_links(ast, node as int); }
    if same_list_exec(&ast.node(node).modifiers, &modifiers) {
        return node;
    }
    let len: usize = ast.len();
    let updated = updated_node(ast.node(node), modifiers);
    proof {
        let n = ast.nd(node as int);
        lemma_without_below(n.children@, Ast::list(n.modifiers), node as int);
        let m = Ast::list(updated.modifiers);
        assert(seq_below(m, len as int));
        let w = spec_without(n.children@, Ast::list(n.modifiers));
        assert forall|t: int| 0 <= t < updated.children@.len() implies #[trigger] updated.children@[t] < len by {
            if t < m.len() {
                assert(updated.children@[t] == m[t]);
            } else {
                assert(updated.children@[t] == w[t - m.len()]);
            }
        }
        assert(links_below(updated, len as int));
    }
    let ghost u = updated;
    let r = ast.push(updated);
    proof {
        assert(ast.nodes@ == old(ast).nodes@.push(u));
        assert(ast.nodes@.subrange(0, len as int) == old(ast).nodes@);
        assert(ast.nd(len as int) == u);
        assert(spec_is_modifier_update(old(ast).nd(node as int), ast.nd(len as int), modifiers));
        assert(ast.parents@[len as int] is None);
        assert(forall|i: int|
            0 <= i < old(ast).nodes@.len() ==> #[trigger] ast.parents@[i] == if u.children@.contains(i as usize) {
                Some(len as usize)
            } else {
                old(ast).parents@[i]
            });
    }
    r.unwrap()
}


/// Replacing modifiers twice with the same list is replacing them once: the
/// updated node already has them, so a second replacement returns it as it is.
pub proof fn lemma_replace_modifiers_twice(a: Node, b: Node, modifiers: Option<Vec<usize>>)
    requires
        spec_is_modifier_update(a, b, modifiers),
    ensures
        same_list(b.modifiers, modifiers),
        b.kind == a.kind,
{
}

} // verus!
