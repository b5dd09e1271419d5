//! Containers of a node: functions, block scopes, `this`/`super`/`new.target`
//! containers, function flags and reparsed JSDoc clones.
use vstd::prelude::*;
use crate::ast::{seq_below, Ast};
use crate::class_utils::{is_this_parameter, spec_is_this_parameter};
use crate::function_flags;
use crate::kind_classes::{
    is_class_element_kind, is_class_like_kind, is_function_like_kind, spec_is_class_element,
    spec_is_class_like, spec_is_function_like,
};
use crate::modifier_flags;
use crate::node_flags;
use crate::node_utils::{
    spec_ancestor_or_self, get_source_file_of_node, has_syntactic_modifier, lemma_links, spec_has_syntactic_modifier,
    spec_source_file_of,
};
use crate::syntax_kind::SyntaxKind;

verus! {

/// The flags of a function-like node: generator, async, and invalid when it
/// has no body (or is not a function).
pub open spec fn spec_function_flags(ast: &Ast, node: Option<usize>) -> u32 {
    match node {
        None => function_flags::INVALID,
        Some(i) => {
            let k = ast.kind_of(i as int);
            if !(k == SyntaxKind::FunctionDeclaration || k == SyntaxKind::FunctionExpression || k
                == SyntaxKind::MethodDeclaration || k == SyntaxKind::ArrowFunction || k == SyntaxKind::Constructor
                || k == SyntaxKind::GetAccessor || k == SyntaxKind::SetAccessor || k == SyntaxKind::ModuleDeclaration) {
                function_flags::INVALID
            } else {
                let may_be_async = k == SyntaxKind::FunctionDeclaration || k == SyntaxKind::FunctionExpression || k
                    == SyntaxKind::MethodDeclaration || k == SyntaxKind::ArrowFunction;
                let generator = may_be_async && k != SyntaxKind::ArrowFunction && ast.nd(i as int).has_asterisk;
                let is_async = may_be_async && spec_has_syntactic_modifier(ast, i as int, modifier_flags::ASYNC);
                let invalid = ast.nd(i as int).body is None;
                (if generator { function_flags::GENERATOR } else { 0u32 }) | (if is_async {
                    function_flags::ASYNC
                } else {
                    0u32
                }) | (if invalid { function_flags::INVALID } else { 0u32 })
            }
        },
    }
}

pub fn get_function_flags(ast: &Ast, node: Option<usize>) -> (r: u32)
    requires
        ast.wf(),
        node matches Some(i) ==> ast.has(i as int),
    ensures
        r == spec_function_flags(ast, node),
{
    let i = match node {
        None => return function_flags::INVALID,
        Some(i) => i,
    };
    let k = ast.kind(i);
    if !(k == SyntaxKind::FunctionDeclaration || k == SyntaxKind::FunctionExpression || k
        == SyntaxKind::MethodDeclaration || k == SyntaxKind::ArrowFunction || k == SyntaxKind::Constructor || k
        == SyntaxKind::GetAccessor || k == SyntaxKind::SetAccessor || k == SyntaxKind::ModuleDeclaration) {
        return function_flags::INVALID;
    }
    let may_be_async = k == SyntaxKind::FunctionDeclaration || k == SyntaxKind::FunctionExpression || k
        == SyntaxKind::MethodDeclaration || k == SyntaxKind::ArrowFunction;
    let generator = may_be_async && k != SyntaxKind::ArrowFunction && ast.node(i).has_asterisk;
    let is_async = may_be_async && has_syntactic_modifier(ast, i, modifier_flags::ASYNC);
    let invalid = ast.node(i).body.is_none();
    (if generator { function_flags::GENERATOR } else { 0u32 }) | (if is_async { function_flags::ASYNC } else { 0u32 })
        | (if invalid { function_flags::INVALID } else { 0u32 })
}

/// The nearest ancestor-or-self of `i` that is function-like.
pub open spec fn spec_function_like_ancestor(ast: &Ast, i: int) -> Option<usize>
    decreases ast.nodes@.len() - i,
{
    if !ast.has(i) {
        None
    } else if spec_is_function_like(ast.kind_of(i)) {
        Some(i as usize)
    } else {
        match ast.parent_of(i) {
            Some(p) => if i < p < ast.nodes@.len() { spec_function_like_ancestor(ast, p as int) } else { None },
            None => None,
        }
    }
}

/// The ancestor-or-self that `spec_function_like_ancestor` finds is the
/// nearest function-like one: it is function-like, every node on the way up
/// to it (all below it) is not, and with no result no ancestor-or-self is
/// function-like.
pub proof fn lemma_function_like_ancestor_is_nearest(ast: &Ast, i: int)
    requires
        ast.nodes@.len() <= usize::MAX,
    ensures
        match spec_function_like_ancestor(ast, i) {
            Some(a) => spec_ancestor_or_self(ast, i, a as int) && spec_is_function_like(ast.kind_of(a as int))
                && forall|b: int| #![trigger spec_ancestor_or_self(ast, i, b)]
                    spec_ancestor_or_self(ast, i, b) && b < a ==> !spec_is_function_like(ast.kind_of(b)),
            None => forall|b: int|
                #![trigger spec_ancestor_or_self(ast, i, b)]
                spec_ancestor_or_self(ast, i, b) ==> !spec_is_function_like(ast.kind_of(b)),
        },
    decreases ast.nodes@.len() - i,
{
    if !ast.has(i) {
        assert forall|b: int| !spec_ancestor_or_self(ast, i, b) by {}
    } else if spec_is_function_like(ast.kind_of(i)) {
        assert(spec_ancestor_or_self(ast, i, i));
        lemma_ancestor_not_below(ast, i);
    } else {
        let up = ast.parent_of(i);
        if up is Some && i < up.unwrap() < ast.nodes@.len() {
            let p = up.unwrap() as int;
            lemma_function_like_ancestor_is_nearest(ast, p);
            assert forall|b: int| spec_ancestor_or_self(ast, i, b) && b != i implies #[trigger] spec_ancestor_or_self(
                ast,
                p,
                b,
            ) by {}
            match spec_function_like_ancestor(ast, p) {
                Some(a) => {
                    assert(spec_ancestor_or_self(ast, i, a as int));
                    assert forall|b: int| #[trigger] spec_ancestor_or_self(ast, i, b) && b < a implies !spec_is_function_like(
                        ast.kind_of(b),
                    ) by {
                        if b != i {
                            assert(spec_ancestor_or_self(ast, p, b));
                        }
                    }
                },
                None => {
                    assert forall|b: int| #[trigger] spec_ancestor_or_self(ast, i, b) implies !spec_is_function_like(
                        ast.kind_of(b),
                    ) by {
                        if b != i {
                            assert(spec_ancestor_or_self(ast, p, b));
                        }
                    }
                },
            }
        } else {
            assert forall|b: int| #[trigger] spec_ancestor_or_self(ast, i, b) implies b == i by {}
        }
    }
}

/// An ancestor-or-self is never below the node.
proof fn lemma_ancestor_not_below(ast: &Ast, i: int)
    ensures
        forall|b: int| #[trigger] spec_ancestor_or_self(ast, i, b) ==> i <= b,
    decreases ast.nodes@.len() - i,
{
    if ast.has(i) {
        let up = ast.parent_of(i);
        if up is Some && i < up.unwrap() < ast.nodes@.len() {
            let p = up.unwrap() as int;
            lemma_ancestor_not_below(ast, p);
            assert forall|b: int| #[trigger] spec_ancestor_or_self(ast, i, b) implies i <= b by {
                if b != i {
                    assert(spec_ancestor_or_self(ast, p, b));
                }
            }
        } else {
            assert forall|b: int| #[trigger] spec_ancestor_or_self(ast, i, b) implies i <= b by {}
        }
    } else {
        assert forall|b: int| #[trigger] spec_ancestor_or_self(ast, i, b) implies i <= b by {}
    }
}

/// The function containing a node (a parentless node is refused).
pub fn get_containing_function(ast: &Ast, node: usize) -> (r: Option<usize>)
    requires
        ast.wf(),
        ast.has(node as int),
        ast.has_up(node as int),
    ensures
        r == spec_function_like_ancestor(ast, ast.up(node as int)),
{
    let mut cur = ast.parent(node).unwrap();
    loop
        invariant
            ast.wf(),
            ast.has(cur as int),
            spec_function_like_ancestor(ast, ast.up(node as int)) == spec_function_like_ancestor(ast, cur as int),
        decreases ast.nodes@.len() - cur,
    {
        if is_function_like_kind(ast.kind(cur)) {
            return Some(cur);
        }
        match ast.parent(cur) {
            Some(p) => { cur = p; },
            None => return None,
        }
    }
}

/// Whether a node opens a block scope; a block does unless its parent is
/// function-like or a class static block.
pub open spec fn spec_is_block_scope(ast: &Ast, i: int, parent: Option<usize>) -> bool {
    match ast.kind_of(i) {
        SyntaxKind::SourceFile | SyntaxKind::CaseBlock | SyntaxKind::CatchClause | SyntaxKind::ModuleDeclaration
        | SyntaxKind::ForStatement | SyntaxKind::ForInStatement | SyntaxKind::ForOfStatement
        | SyntaxKind::Constructor | SyntaxKind::MethodDeclaration | SyntaxKind::GetAccessor
        | SyntaxKind::SetAccessor | SyntaxKind::FunctionDeclaration | SyntaxKind::FunctionExpression
        | SyntaxKind::ArrowFunction | SyntaxKind::PropertyDeclaration
        | SyntaxKind::ClassStaticBlockDeclaration => true,
        SyntaxKind::Block => match parent {
            Some(p) => !(spec_is_function_like(ast.kind_of(p as int)) || ast.kind_of(p as int)
                == SyntaxKind::ClassStaticBlockDeclaration),
            None => true,
        },
        _ => false,
    }
}

pub fn is_block_scope(ast: &Ast, node: usize, parent_node: Option<usize>) -> (r: bool)
    requires
        ast.has(node as int),
        parent_node matches Some(p) ==> ast.has(p as int),
    ensures
        r == spec_is_block_scope(ast, node as int, parent_node),
{
    match ast.kind(node) {
        SyntaxKind::SourceFile | SyntaxKind::CaseBlock | SyntaxKind::CatchClause | SyntaxKind::ModuleDeclaration
        | SyntaxKind::ForStatement | SyntaxKind::ForInStatement | SyntaxKind::ForOfStatement
        | SyntaxKind::Constructor | SyntaxKind::MethodDeclaration | SyntaxKind::GetAccessor
        | SyntaxKind::SetAccessor | SyntaxKind::FunctionDeclaration | SyntaxKind::FunctionExpression
        | SyntaxKind::ArrowFunction | SyntaxKind::PropertyDeclaration
        | SyntaxKind::ClassStaticBlockDeclaration => true,
        SyntaxKind::Block => match parent_node {
            Some(p) => !(is_function_like_kind(ast.kind(p)) || ast.kind(p) == SyntaxKind::ClassStaticBlockDeclaration),
            None => true,
        },
        _ => false,
    }
}

/// The nearest ancestor-or-self of `i` that is a block scope.
pub open spec fn spec_block_scope_from(ast: &Ast, i: int) -> Option<usize>
    decreases ast.nodes@.len() - i,
{
    if !ast.has(i) {
        None
    } else if spec_is_block_scope(ast, i, ast.parent_of(i)) {
        Some(i as usize)
    } else {
        match ast.parent_of(i) {
            Some(p) => if i < p < ast.nodes@.len() { spec_block_scope_from(ast, p as int) } else { None },
            None => None,
        }
    }
}

/// The nearest proper ancestor of a node that opens a block scope.
pub fn get_enclosing_block_scope_container(ast: &Ast, node: usize) -> (r: Option<usize>)
    requires
        ast.wf(),
        ast.has(node as int),
    ensures
        r == match ast.parent_of(node as int) {
            Some(p) => spec_block_scope_from(ast, p as int),
            None => None,
        },
{
    let mut current = ast.parent(node);
    while current.is_some()
        invariant
            ast.wf(),
            current matches Some(c) ==> ast.has(c as int),
            (match ast.parent_of(node as int) {
                Some(p) => spec_block_scope_from(ast, p as int),
                None => None,
            }) == match current {
                Some(c) => spec_block_scope_from(ast, c as int),
                None => None,
            },
        decreases ast.nodes@.len() - match current { Some(c) => c as int, None => ast.nodes@.len() as int },
    {
        let id = current.unwrap();
        let p = ast.parent(id);
        if is_block_scope(ast, id, p) {
            return Some(id);
        }
        current = p;
    }
    None
}

/// The kinds at which the `this`-container walk stops.
pub open spec fn spec_is_this_container_kind(k: SyntaxKind) -> bool {
    match k {
        SyntaxKind::FunctionDeclaration | SyntaxKind::FunctionExpression | SyntaxKind::ModuleDeclaration
        | SyntaxKind::ClassStaticBlockDeclaration | SyntaxKind::PropertyDeclaration
        | SyntaxKind::PropertySignature | SyntaxKind::MethodDeclaration | SyntaxKind::MethodSignature
        | SyntaxKind::Constructor | SyntaxKind::GetAccessor | SyntaxKind::SetAccessor
        | SyntaxKind::CallSignature | SyntaxKind::ConstructSignature | SyntaxKind::IndexSignature
        | SyntaxKind::EnumDeclaration | SyntaxKind::SourceFile => true,
        _ => false,
    }
}

/// The parent of `i` when it is a later node of the arena.
pub open spec fn spec_up_ok(ast: &Ast, i: int) -> bool {
    ast.has(i) && ast.has_up(i) && i < ast.up(i) < ast.nodes@.len()
}

/// The `this` container walk from `cur`: the container, or `None` where the
/// walk reads a missing parent.
pub open spec fn spec_this_container_from(ast: &Ast, cur: int, arrows: bool, computed: bool) -> Option<usize>
    decreases ast.nodes@.len() - cur,
{
    if !spec_up_ok(ast, cur) {
        None
    } else {
        let p = ast.up(cur);
        let k = ast.kind_of(p);
        if k == SyntaxKind::ComputedPropertyName {
            if spec_up_ok(ast, p) && spec_up_ok(ast, ast.up(p)) {
                let gg = ast.up(ast.up(p));
                if computed && spec_is_class_like(ast.kind_of(gg)) {
                    Some(p as usize)
                } else {
                    spec_this_container_from(ast, gg, arrows, computed)
                }
            } else {
                None
            }
        } else if k == SyntaxKind::Decorator {
            if spec_up_ok(ast, p) {
                let q = ast.up(p);
                if ast.kind_of(q) == SyntaxKind::Parameter && spec_up_ok(ast, q) && spec_is_class_element(
                    ast.kind_of(ast.up(q))) {
                    spec_this_container_from(ast, ast.up(q), arrows, computed)
                } else if ast.kind_of(q) == SyntaxKind::Parameter && !spec_up_ok(ast, q) {
                    None
                } else if spec_is_class_element(ast.kind_of(q)) {
                    spec_this_container_from(ast, q, arrows, computed)
                } else {
                    spec_this_container_from(ast, p, arrows, computed)
                }
            } else {
                None
            }
        } else if k == SyntaxKind::ArrowFunction {
            if arrows { Some(p as usize) } else { spec_this_container_from(ast, p, arrows, computed) }
        } else if spec_is_this_container_kind(k) {
            Some(p as usize)
        } else {
            spec_this_container_from(ast, p, arrows, computed)
        }
    }
}

/// The function, accessor, class element, module, enum or source file whose
/// `this` a node sees; the walk must find one before a missing parent.
pub fn get_this_container(
    ast: &Ast,
    node: usize,
    include_arrow_functions: bool,
    include_class_computed_property_name: bool,
) -> (r: usize)
    requires
        ast.wf(),
        ast.has(node as int),
        spec_this_container_from(ast, node as int, include_arrow_functions, include_class_computed_property_name) is Some,
    ensures
        Some(r) == spec_this_container_from(ast, node as int, include_arrow_functions, include_class_computed_property_name),
        ast.has(r as int),
{
    let mut cur = node;
    loop
        invariant
            ast.wf(),
            ast.has(cur as int),
            spec_this_container_from(ast, node as int, include_arrow_functions, include_class_computed_property_name)
                == spec_this_container_from(ast, cur as int, include_arrow_functions, include_class_computed_property_name),
            spec_this_container_from(ast, cur as int, include_arrow_functions, include_class_computed_property_name) is Some,
        decreases ast.nodes@.len() - cur,
    {
        let p = ast.parent(cur).unwrap();
        let k = ast.kind(p);
        if k == SyntaxKind::ComputedPropertyName {
            let g = ast.parent(p).unwrap();
            let gg = ast.parent(g).unwrap();
            if include_class_computed_property_name && is_class_like_kind(ast.kind(gg)) {
                return p;
            }
            cur = gg;
        } else if k == SyntaxKind::Decorator {
            let q = ast.parent(p).unwrap();
            if ast.kind(q) == SyntaxKind::Parameter && is_class_element_kind(ast.kind(ast.parent(q).unwrap())) {
                cur = ast.parent(q).unwrap();
            } else if is_class_element_kind(ast.kind(q)) {
                cur = q;
            } else {
                cur = p;
            }
        } else if k == SyntaxKind::ArrowFunction {
            if include_arrow_functions {
                return p;
            }
            cur = p;
        } else if spec_this_kind(k) {
            return p;
        } else {
            cur = p;
        }
    }
}

/// Whether a kind stops the `this`-container walk.
fn spec_this_kind(k: SyntaxKind) -> (r: bool)
    ensures
        r == spec_is_this_container_kind(k),
{
    matches!(k, SyntaxKind::FunctionDeclaration | SyntaxKind::FunctionExpression | SyntaxKind::ModuleDeclaration
        | SyntaxKind::ClassStaticBlockDeclaration | SyntaxKind::PropertyDeclaration
        | SyntaxKind::PropertySignature | SyntaxKind::MethodDeclaration | SyntaxKind::MethodSignature
        | SyntaxKind::Constructor | SyntaxKind::GetAccessor | SyntaxKind::SetAccessor
        | SyntaxKind::CallSignature | SyntaxKind::ConstructSignature | SyntaxKind::IndexSignature
        | SyntaxKind::EnumDeclaration | SyntaxKind::SourceFile)
}

/// The container whose `new.target` a node sees: its `this` container when
/// that is a constructor or a function.
pub open spec fn spec_new_target_container(ast: &Ast, i: int) -> Option<usize> {
    let c = spec_this_container_from(ast, i, false, false).unwrap();
    let k = ast.kind_of(c as int);
    if k == SyntaxKind::Constructor || k == SyntaxKind::FunctionDeclaration || k == SyntaxKind::FunctionExpression {
        Some(c)
    } else {
        None
    }
}

pub fn get_new_target_container(ast: &Ast, node: usize) -> (r: Option<usize>)
    requires
        ast.wf(),
        ast.has(node as int),
        spec_this_container_from(ast, node as int, false, false) is Some,
    ensures
        r == spec_new_target_container(ast, node as int),
{
    let c = get_this_container(ast, node, false, false);
    let k = ast.kind(c);
    if k == SyntaxKind::Constructor || k == SyntaxKind::FunctionDeclaration || k == SyntaxKind::FunctionExpression {
        Some(c)
    } else {
        None
    }
}

/// The `super` container walk from the node `cur`: `Some(r)` is the answer,
/// `None` a read of a missing parent.
pub open spec fn spec_super_container_from(ast: &Ast, current: Option<usize>, stop_on_functions: bool) -> Option<Option<usize>>
    decreases ast.nodes@.len() - match current { Some(c) => c as int, None => ast.nodes@.len() as int },
{
    match current {
        None => Some(None),
        Some(id) => {
            let id = id as int;
            if !ast.has(id) {
                None
            } else {
                let k = ast.kind_of(id);
                if k == SyntaxKind::FunctionDeclaration || k == SyntaxKind::FunctionExpression || k == SyntaxKind::ArrowFunction {
                    if stop_on_functions {
                        Some(Some(id as usize))
                    } else {
                        spec_super_step(ast, id, id, stop_on_functions)
                    }
                } else if k == SyntaxKind::PropertyDeclaration || k == SyntaxKind::PropertySignature || k
                    == SyntaxKind::MethodDeclaration || k == SyntaxKind::MethodSignature || k == SyntaxKind::Constructor
                    || k == SyntaxKind::GetAccessor || k == SyntaxKind::SetAccessor || k
                    == SyntaxKind::ClassStaticBlockDeclaration {
                    Some(Some(id as usize))
                } else if k == SyntaxKind::ComputedPropertyName {
                    if spec_up_ok(ast, id) { spec_super_step(ast, id, ast.up(id), stop_on_functions) } else { None }
                } else if k == SyntaxKind::Decorator {
                    if !spec_up_ok(ast, id) {
                        None
                    } else {
                        let p = ast.up(id);
                        if ast.kind_of(p) == SyntaxKind::Parameter {
                            if !spec_up_ok(ast, p) {
                                None
                            } else if spec_is_class_element(ast.kind_of(ast.up(p))) {
                                spec_super_step(ast, id, ast.up(p), stop_on_functions)
                            } else {
                                spec_super_step(ast, id, id, stop_on_functions)
                            }
                        } else if spec_is_class_element(ast.kind_of(p)) {
                            spec_super_step(ast, id, p, stop_on_functions)
                        } else {
                            spec_super_step(ast, id, id, stop_on_functions)
                        }
                    }
                } else {
                    spec_super_step(ast, id, id, stop_on_functions)
                }
            }
        },
    }
}

/// Continues the `super` walk from the parent of `next` (a node at or above `id`).
pub open spec fn spec_super_step(ast: &Ast, id: int, next: int, stop_on_functions: bool) -> Option<Option<usize>>
    decreases ast.nodes@.len() - id, 0int,
{
    if id <= next < ast.nodes@.len() && (ast.parent_of(next) matches Some(p) ==> next < p < ast.nodes@.len()) {
        spec_super_container_from(ast, ast.parent_of(next), stop_on_functions)
    } else {
        None
    }
}


/// The class element (or, with `stop_on_functions`, the function) whose
/// `super` a node sees, walking out past computed names and decorators.
pub fn get_super_container(ast: &Ast, node: usize, stop_on_functions: bool) -> (r: Option<usize>)
    requires
        ast.wf(),
        ast.has(node as int),
        spec_super_container_from(ast, ast.parent_of(node as int), stop_on_functions) is Some,
    ensures
        Some(r) == spec_super_container_from(ast, ast.parent_of(node as int), stop_on_functions),
{
    let mut current = ast.parent(node);
    while current.is_some()
        invariant
            ast.wf(),
            current matches Some(c) ==> ast.has(c as int),
            spec_super_container_from(ast, ast.parent_of(node as int), stop_on_functions)
                == spec_super_container_from(ast, current, stop_on_functions),
            spec_super_container_from(ast, current, stop_on_functions) is Some,
        decreases ast.nodes@.len() - match current { Some(c) => c as int, None => ast.nodes@.len() as int },
    {
        let id = current.unwrap();
        let k = ast.kind(id);
        let mut next = id;
        if k == SyntaxKind::FunctionDeclaration || k == SyntaxKind::FunctionExpression || k == SyntaxKind::ArrowFunction {
            if stop_on_functions {
                return Some(id);
            }
        } else if k == SyntaxKind::PropertyDeclaration || k == SyntaxKind::PropertySignature || k
            == SyntaxKind::MethodDeclaration || k == SyntaxKind::MethodSignature || k == SyntaxKind::Constructor || k
            == SyntaxKind::GetAccessor || k == SyntaxKind::SetAccessor || k == SyntaxKind::ClassStaticBlockDeclaration {
            return Some(id);
        } else if k == SyntaxKind::ComputedPropertyName {
            next = ast.parent(id).unwrap();
        } else if k == SyntaxKind::Decorator {
            let p = ast.parent(id).unwrap();
            if ast.kind(p) == SyntaxKind::Parameter {
                let q = ast.parent(p).unwrap();
                if is_class_element_kind(ast.kind(q)) {
                    next = q;
                }
            } else if is_class_element_kind(ast.kind(p)) {
                next = p;
            }
        }
        current = ast.parent(next);
    }
    None
}

/// Whether `pos..end` lies within `outer_pos..outer_end`.
pub open spec fn spec_contained_by(pos: i32, end: i32, outer_pos: i32, outer_end: i32) -> bool {
    pos >= outer_pos && end <= outer_end
}

pub fn contained_by(pos: i32, end: i32, outer_pos: i32, outer_end: i32) -> (r: bool)
    ensures
        r == spec_contained_by(pos, end, outer_pos, outer_end),
{
    pos >= outer_pos && end <= outer_end
}

/// The first child of `s` whose range contains `pos..end`.
pub open spec fn spec_first_containing_child(ast: &Ast, s: Seq<usize>, pos: i32, end: i32) -> Option<usize>
    decreases s.len(),
{
    if s.len() == 0 {
        None
    } else if spec_contained_by(pos, end, ast.nd(s[0] as int).pos, ast.nd(s[0] as int).end) {
        Some(s[0])
    } else {
        spec_first_containing_child(ast, s.drop_first(), pos, end)
    }
}

/// The clone of `original` under `node`: descending through the first child
/// that contains its range until a node of its kind and range.
pub open spec fn spec_find_clone(ast: &Ast, node: int, original: int) -> Option<usize>
    decreases node,
{
    if !ast.has(node) {
        None
    } else {
        let n = ast.nd(node);
        let o = ast.nd(original);
        if n.kind == o.kind && n.pos == o.pos && n.end == o.end {
            Some(node as usize)
        } else {
            match spec_first_containing_child(ast, n.children@, o.pos, o.end) {
                Some(c) => if 0 <= c < node { spec_find_clone(ast, c as int, original) } else { None },
                None => None,
            }
        }
    }
}

pub proof fn lemma_first_containing_child_in(ast: &Ast, s: Seq<usize>, pos: i32, end: i32)
    ensures
        spec_first_containing_child(ast, s, pos, end) matches Some(c) ==> s.contains(c),
    decreases s.len(),
{
    if s.len() > 0 {
        lemma_first_containing_child_in(ast, s.drop_first(), pos, end);
        if let Some(c) = spec_first_containing_child(ast, s.drop_first(), pos, end) {
            if s.drop_first().contains(c) {
                let j = choose|j: int| 0 <= j < s.drop_first().len() && s.drop_first()[j] == c;
                assert(s[j + 1] == c);
            }
        }
        assert(s[0] == s[0]);
    }
}

pub fn find_clone_in_node(ast: &Ast, node: usize, original: usize) -> (r: Option<usize>)
    requires
        ast.wf(),
        ast.has(node as int),
        ast.has(original as int),
    ensures
        r == spec_find_clone(ast, node as int, original as int),
{
    let o = ast.node(original);
    let mut current = node;
    loop
        invariant
            ast.wf(),
            ast.has(current as int),
            ast.has(original as int),
            *o == ast.nd(original as int),
            spec_find_clone(ast, node as int, original as int) == spec_find_clone(ast, current as int, original as int),
        decreases current,
    {
        let n = ast.node(current);
        if n.kind == o.kind && n.pos == o.pos && n.end == o.end {
            return Some(current);
        }
        proof { lemma_links(ast, current as int); }
        let mut next: Option<usize> = None;
        let mut j: usize = 0;
        proof { assert(n.children@.subrange(0, n.children@.len() as int) == n.children@); }
        while next.is_none() && j < n.children.len()
            invariant
                j <= n.children@.len(),
                seq_below(n.children@, current as int),
                ast.has(current as int),
                next is None ==> spec_first_containing_child(ast, n.children@, o.pos, o.end)
                    == spec_first_containing_child(ast, n.children@.subrange(j as int, n.children@.len() as int), o.pos, o.end),
                next is Some ==> spec_first_containing_child(ast, n.children@, o.pos, o.end) == next,
                next matches Some(c) ==> c < current,
            decreases n.children@.len() - j,
        {
            let c = n.children[j];
            let ghost rest = n.children@.subrange(j as int, n.children@.len() as int);
            proof {
                assert(rest[0] == c);
                assert(rest.drop_first() == n.children@.subrange(j + 1, n.children@.len() as int));
            }
            let cn = ast.node(c);
            if contained_by(o.pos, o.end, cn.pos, cn.end) {
                next = Some(c);
            }
            j = j + 1;
        }
        proof {
            if next is None {
                assert(n.children@.subrange(j as int, n.children@.len() as int).len() == 0);
            }
        }
        match next {
            Some(c) => { current = c; },
            None => return None,
        }
    }
}

/// Orders two nodes by start, then end: negative, zero or positive.
pub open spec fn spec_compare_node_positions(ast: &Ast, a: int, b: int) -> int {
    let (na, nb) = (ast.nd(a), ast.nd(b));
    if na.pos != nb.pos {
        if na.pos < nb.pos { -1 } else { 1 }
    } else if na.end != nb.end {
        if na.end < nb.end { -1 } else { 1 }
    } else {
        0
    }
}

pub fn compare_node_positions(ast: &Ast, a: usize, b: usize) -> (r: i32)
    requires
        ast.has(a as int),
        ast.has(b as int),
    ensures
        r == spec_compare_node_positions(ast, a as int, b as int),
{
    let (na, nb) = (ast.node(a), ast.node(b));
    if na.pos != nb.pos {
        if na.pos < nb.pos { -1 } else { 1 }
    } else if na.end != nb.end {
        if na.end < nb.end { -1 } else { 1 }
    } else {
        0
    }
}

/// The clones are ordered by position (the binary search's precondition).
pub open spec fn spec_clones_sorted(ast: &Ast, clones: Seq<usize>) -> bool {
    forall|a: int, b: int| 0 <= a < b < clones.len() ==> spec_compare_node_positions(ast, #[trigger] clones[a] as int, #[trigger] clones[b] as int) <= 0
}

/// The index of the reparsed clone to try: the first clone not ordered before
/// the node, stepping back one unless it is at the node's position.
pub open spec fn spec_reparsed_candidate_index(ast: &Ast, clones: Seq<usize>, node: int) -> int {
    let low = spec_lower_bound(ast, clones, node);
    let found = low < clones.len() && spec_compare_node_positions(ast, clones[low] as int, node) == 0;
    if !found && low > 0 { low - 1 } else { low }
}

/// The number of clones ordered before `node`.
pub open spec fn spec_lower_bound(ast: &Ast, clones: Seq<usize>, node: int) -> int
    decreases clones.len(),
{
    if clones.len() == 0 {
        0
    } else if spec_compare_node_positions(ast, clones.last() as int, node) < 0 {
        clones.len() as int
    } else {
        spec_lower_bound(ast, clones.drop_last(), node)
    }
}

/// A JSDoc node that was not itself reparsed answers for its reparsed clone
/// in its file, if the candidate clone contains it; every other node for itself.
pub open spec fn spec_reparsed_node_for_node(ast: &Ast, node: Option<usize>) -> Option<usize> {
    match node {
        None => None,
        Some(id) => {
            let n = ast.nd(id as int);
            if n.flags & crate::node_flags::JS_DOC != 0 && n.flags & crate::node_flags::REPARSED == 0 {
                match spec_source_file_of(ast, id as int) {
                    Some(f) => {
                        let clones = ast.nd(f as int).reparsed_clones@;
                        if clones.len() == 0 {
                            Some(id)
                        } else {
                            let cand = clones[spec_reparsed_candidate_index(ast, clones, id as int)];
                            let c = ast.nd(cand as int);
                            if spec_contained_by(n.pos, n.end, c.pos, c.end) {
                                match spec_find_clone(ast, cand as int, id as int) {
                                    Some(r) => Some(r),
                                    None => Some(id),
                                }
                            } else {
                                Some(id)
                            }
                        }
                    },
                    None => Some(id),
                }
            } else {
                Some(id)
            }
        },
    }
}

proof fn lemma_lower_bound(ast: &Ast, clones: Seq<usize>, node: int, k: int)
    requires
        spec_clones_sorted(ast, clones),
        0 <= k <= clones.len(),
    ensures
        0 <= spec_lower_bound(ast, clones, node) <= clones.len(),
        k < spec_lower_bound(ast, clones, node) ==> spec_compare_node_positions(ast, clones[k] as int, node) < 0,
        spec_lower_bound(ast, clones, node) <= k < clones.len() ==> spec_compare_node_positions(ast, clones[k] as int, node) >= 0,
    decreases clones.len(),
{
    if clones.len() > 0 {
        let d = clones.drop_last();
        assert forall|a: int, b: int| 0 <= a < b < d.len() implies spec_compare_node_positions(ast, #[trigger] d[a] as int, #[trigger] d[b] as int) <= 0 by {
            assert(d[a] == clones[a] && d[b] == clones[b]);
        }
        if k < d.len() {
            lemma_lower_bound(ast, d, node, k);
            assert(d[k] == clones[k]);
        } else {
            lemma_lower_bound(ast, d, node, 0);
        }
        if spec_compare_node_positions(ast, clones.last() as int, node) >= 0 && k < clones.len() - 1 {
            // clones[k] <= last in position order; the order is total on (pos, end)
            assert(spec_compare_node_positions(ast, clones[k] as int, clones[clones.len() - 1] as int) <= 0);
        }
    }
}

/// A JSDoc node's reparsed clone (found by binary search over its file's
/// clones, ordered by position), else the node itself.
pub fn get_reparsed_node_for_node(ast: &Ast, node: Option<usize>) -> (r: Option<usize>)
    requires
        ast.wf(),
        node matches Some(i) ==> ast.has(i as int),
        node matches Some(i) && spec_source_file_of(ast, i as int) matches Some(f) ==> spec_clones_sorted(
            ast, ast.nd(f as int).reparsed_clones@),
    ensures
        r == spec_reparsed_node_for_node(ast, node),
{
    let id = match node {
        None => return None,
        Some(id) => id,
    };
    let n = ast.node(id);
    if n.flags & node_flags::JS_DOC != 0 && n.flags & node_flags::REPARSED == 0 {
        if let Some(file) = get_source_file_of_node(ast, Some(id)) {
            proof { lemma_links(ast, file as int); }
            let clones = &ast.node(file).reparsed_clones;
            if clones.len() > 0 {
                let mut found = false;
                let mut low: usize = 0;
                let mut high: usize = clones.len();
                proof { lemma_lower_bound(ast, clones@, id as int, 0); }
                while low < high
                    invariant
                        ast.wf(),
                        ast.has(id as int),
                        seq_below(clones@, ast.nodes@.len() as int),
                        spec_clones_sorted(ast, clones@),
                        low <= high <= clones@.len(),
                        low <= spec_lower_bound(ast, clones@, id as int) <= high,
                        found ==> high < clones@.len() && spec_compare_node_positions(ast, clones@[high as int] as int, id as int) == 0,
                        !found ==> high == clones@.len() || spec_compare_node_positions(ast, clones@[high as int] as int, id as int) > 0,
                    decreases high - low,
                {
                    let middle = low + (high - low) / 2;
                    proof {
                        lemma_lower_bound(ast, clones@, id as int, middle as int);
                    }
                    let order = compare_node_positions(ast, clones[middle], id);
                    if order < 0 {
                        low = middle + 1;
                    } else {
                        if order == 0 {
                            found = true;
                        } else if found {
                            assert(spec_compare_node_positions(ast, clones@[middle as int] as int, clones@[high as int] as int) <= 0);
                        }
                        high = middle;
                    }
                }
                let mut position = low;
                if !found && position > 0 {
                    position = position - 1;
                }
                proof {
                    assert(low == spec_lower_bound(ast, clones@, id as int));
                    assert(position as int == spec_reparsed_candidate_index(ast, clones@, id as int));
                }
                let candidate = clones[position];
                let cn = ast.node(candidate);
                if contained_by(n.pos, n.end, cn.pos, cn.end) {
                    if let Some(reparsed) = find_clone_in_node(ast, candidate, id) {
                        return Some(reparsed);
                    }
                }
            }
        }
    }
    Some(id)
}

/// A signature without type parameters whose parameters lack a type
/// annotation, or (other than an arrow function) that uses `this` without an
/// explicit `this` parameter.
pub open spec fn spec_has_context_sensitive_parameters(ast: &Ast, i: int) -> bool {
    let n = ast.nd(i);
    if n.type_parameters is None {
        let ps = Ast::list(n.parameters);
        if exists|j: int| 0 <= j < ps.len() && ast.nd(#[trigger] ps[j] as int).type_node is None {
            true
        } else if n.kind != SyntaxKind::ArrowFunction {
            let explicit_this = ps.len() > 0 && spec_is_this_parameter(ast, ps[0] as int);
            !explicit_this && n.flags & node_flags::CONTAINS_THIS != 0
        } else {
            false
        }
    } else {
        false
    }
}

/// Whether a signature's parameters are context sensitive. A signature
/// without a parameter list is refused.
pub fn has_context_sensitive_parameters(ast: &Ast, node: usize) -> (r: bool)
    requires
        ast.wf(),
        ast.has(node as int),
        ast.nd(node as int).type_parameters is None ==> ast.nd(node as int).parameters is Some,
    ensures
        r == spec_has_context_sensitive_parameters(ast, node as int),
{
    proof { lemma_links(ast, node as int); }
    let n = ast.node(node);
    if n.type_parameters.is_none() {
        let ps = match &n.parameters {
            Some(v) => v,
            None => { return false; },
        };
        let mut j: usize = 0;
        while j < ps.len()
            invariant
                j <= ps@.len(),
                n.parameters == Some(*ps),
                *n == ast.nd(node as int),
                n.type_parameters is None,
                seq_below(ps@, node as int),
                ast.has(node as int),
                forall|t: int| 0 <= t < j ==> ast.nd(#[trigger] ps@[t] as int).type_node is Some,
            decreases ps@.len() - j,
        {
            if ast.node(ps[j]).type_node.is_none() {
                proof {
                    let ps2 = Ast::list(ast.nd(node as int).parameters);
                    assert(ps2 == ps@);
                    assert(ast.nd(ps2[j as int] as int).type_node is None);
                    assert(exists|t: int| 0 <= t < ps2.len() && ast.nd(#[trigger] ps2[t] as int).type_node is None);
                }
                return true;
            }
            j = j + 1;
        }
        if n.kind != SyntaxKind::ArrowFunction {
            let explicit_this = ps.len() > 0 && is_this_parameter(ast, ps[0]);
            if !explicit_this {
                return n.flags & node_flags::CONTAINS_THIS != 0;
            }
        }
    }
    false
}


/// The statement kinds a search for return statements looks into.
pub open spec fn spec_holds_statements(k: SyntaxKind) -> bool {
    k == SyntaxKind::CaseBlock || k == SyntaxKind::Block || k == SyntaxKind::IfStatement || k == SyntaxKind::DoStatement
        || k == SyntaxKind::WhileStatement || k == SyntaxKind::ForStatement || k == SyntaxKind::ForInStatement || k
        == SyntaxKind::ForOfStatement || k == SyntaxKind::WithStatement || k == SyntaxKind::SwitchStatement || k
        == SyntaxKind::CaseClause || k == SyntaxKind::DefaultClause || k == SyntaxKind::LabeledStatement || k
        == SyntaxKind::TryStatement || k == SyntaxKind::CatchClause
}

fn holds_statements(k: SyntaxKind) -> (r: bool)
    ensures
        r == spec_holds_statements(k),
{
    matches!(
        k,
        SyntaxKind::CaseBlock | SyntaxKind::Block | SyntaxKind::IfStatement | SyntaxKind::DoStatement
            | SyntaxKind::WhileStatement | SyntaxKind::ForStatement | SyntaxKind::ForInStatement
            | SyntaxKind::ForOfStatement | SyntaxKind::WithStatement | SyntaxKind::SwitchStatement
            | SyntaxKind::CaseClause | SyntaxKind::DefaultClause | SyntaxKind::LabeledStatement
            | SyntaxKind::TryStatement | SyntaxKind::CatchClause
    )
}

/// The return statements of a body, in the order a visitor meets them: the
/// body itself if it is one, else those of its children when it holds
/// statements (nested functions are not looked into).
pub open spec fn spec_return_statements(ast: &Ast, i: int) -> Seq<usize>
    decreases i, 1int, 0int,
{
    if !ast.has(i) {
        Seq::empty()
    } else if ast.kind_of(i) == SyntaxKind::ReturnStatement {
        seq![i as usize]
    } else if spec_holds_statements(ast.kind_of(i)) {
        spec_return_statements_in(ast, ast.nd(i).children@, i)
    } else {
        Seq::empty()
    }
}

/// The return statements of the subtrees `s`, children of `parent`, in order.
pub open spec fn spec_return_statements_in(ast: &Ast, s: Seq<usize>, parent: int) -> Seq<usize>
    decreases parent, 0int, s.len(),
{
    if s.len() == 0 {
        Seq::empty()
    } else if s[0] < parent {
        spec_return_statements(ast, s[0] as int) + spec_return_statements_in(ast, s.drop_first(), parent)
    } else {
        Seq::empty()
    }
}

/// The return statements of `body` in visiting order; a visitor that stops
/// at the first it accepts reads a prefix of this list.
pub fn return_statements(ast: &Ast, body: usize) -> (r: Vec<usize>)
    requires
        ast.wf(),
        ast.has(body as int),
    ensures
        r@ == spec_return_statements(ast, body as int),
    decreases body, 1int, 0int,
{
    proof { lemma_links(ast, body as int); }
    let k = ast.kind(body);
    if k == SyntaxKind::ReturnStatement {
        let r = vec![body];
        proof { assert(r@ =~= seq![body]); }
        return r;
    }
    if holds_statements(k) {
        return return_statements_in(ast, &ast.node(body).children, body);
    }
    Vec::new()
}

fn return_statements_in(ast: &Ast, s: &Vec<usize>, parent: usize) -> (r: Vec<usize>)
    requires
        ast.wf(),
        seq_below(s@, parent as int),
        parent <= ast.nodes@.len(),
    ensures
        r@ == spec_return_statements_in(ast, s@, parent as int),
    decreases parent, 0int, s@.len(),
{
    let mut out: Vec<usize> = Vec::new();
    let mut j: usize = 0;
    proof { assert(s@.subrange(0, s@.len() as int) == s@); }
    while j < s.len()
        invariant
            ast.wf(),
            j <= s@.len(),
            seq_below(s@, parent as int),
            parent <= ast.nodes@.len(),
            out@ + spec_return_statements_in(ast, s@.subrange(j as int, s@.len() as int), parent as int)
                == spec_return_statements_in(ast, s@, parent as int),
        decreases s@.len() - j,
    {
        let c = s[j];
        let ghost rest = s@.subrange(j as int, s@.len() as int);
        proof {
            assert(rest[0] == c);
            assert(rest.drop_first() == s@.subrange(j + 1, s@.len() as int));
        }
        let found = return_statements(ast, c);
        let ghost before = out@;
        let mut k: usize = 0;
        while k < found.len()
            invariant
                k <= found@.len(),
                out@ == before + found@.subrange(0, k as int),
            decreases found@.len() - k,
        {
            out.push(found[k]);
            proof { assert(found@.subrange(0, k + 1) == found@.subrange(0, k as int).push(found@[k as int])); }
            k = k + 1;
        }
        proof {
            assert(found@.subrange(0, k as int) == found@);
            let tail = spec_return_statements_in(ast, s@.subrange(j + 1, s@.len() as int), parent as int);
            assert(before + (found@ + tail) == (before + found@) + tail);
        }
        j = j + 1;
    }
    proof {
        assert(s@.subrange(j as int, s@.len() as int).len() == 0);
        assert(out@ + Seq::<usize>::empty() == out@);
    }
    out
}


/// The class members whose `super` a node inside them sees: properties,
/// methods, constructors, accessors and class static blocks.
pub open spec fn spec_is_super_member_kind(k: SyntaxKind) -> bool {
    k == SyntaxKind::PropertyDeclaration || k == SyntaxKind::PropertySignature || k == SyntaxKind::MethodDeclaration
        || k == SyntaxKind::MethodSignature || k == SyntaxKind::Constructor || k == SyntaxKind::GetAccessor || k
        == SyntaxKind::SetAccessor || k == SyntaxKind::ClassStaticBlockDeclaration
}

/// A node the `super` walk passes without a decision of its own: no such
/// member, no function, no computed name and no decorator.
pub open spec fn spec_is_plain_for_super(k: SyntaxKind) -> bool {
    !spec_is_super_member_kind(k) && k != SyntaxKind::FunctionDeclaration && k != SyntaxKind::FunctionExpression && k
        != SyntaxKind::ArrowFunction && k != SyntaxKind::ComputedPropertyName && k != SyntaxKind::Decorator
}

/// Walking up from `x`, the `super` container is the first member reached
/// when every node before it is plain: a node inside a constructor's body,
/// under blocks, statements and expressions, has that constructor as its
/// `super` container (with or without stopping at functions).
pub proof fn lemma_super_container_is_enclosing_member(ast: &Ast, x: int, a: int, stop_on_functions: bool)
    requires
        ast.nodes@.len() <= usize::MAX,
        spec_ancestor_or_self(ast, x, a),
        spec_is_super_member_kind(ast.kind_of(a)),
        forall|b: int| #![trigger spec_ancestor_or_self(ast, x, b)]
            spec_ancestor_or_self(ast, x, b) && b < a ==> spec_is_plain_for_super(ast.kind_of(b)),
    ensures
        spec_super_container_from(ast, Some(x as usize), stop_on_functions) == Some(Some(a as usize)),
    decreases ast.nodes@.len() - x,
{
    lemma_ancestor_not_below(ast, x);
    assert(ast.has(x));
    if x != a {
        assert(x < a);
        assert(spec_ancestor_or_self(ast, x, x));
        let p = ast.parent_of(x).unwrap() as int;
        assert(x < p < ast.nodes@.len());
        assert(spec_ancestor_or_self(ast, p, a));
        assert forall|b: int| #![trigger spec_ancestor_or_self(ast, p, b)]
            spec_ancestor_or_self(ast, p, b) && b < a implies spec_is_plain_for_super(ast.kind_of(b)) by {
            assert(spec_ancestor_or_self(ast, x, b));
        }
        lemma_super_container_is_enclosing_member(ast, p, a, stop_on_functions);
    }
}

} // verus!
