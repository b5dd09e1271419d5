//! The syntax-tree model: an arena of nodes, each holding the child slots and
//! facts that the utilities read, with parent links kept by the arena.
use vstd::prelude::*;
use crate::syntax_kind::SyntaxKind;

verus! {

/// What the binder reports as the JavaScript assignment-declaration kind of a node.
#[derive(Clone, Copy, Debug, PartialEq, Eq, Structural)]
pub enum AssignmentKind {
    NotDeclaration,
    ExportsProperty,
    ModuleExports,
    PrototypeProperty,
    ThisProperty,
    Property,
    Prototype,
}

/// What the binder reports as the instance state of a module declaration.
#[derive(Clone, Copy, Debug, PartialEq, Eq, Structural)]
pub enum ModuleInstanceState {
    NonInstantiated,
    Instantiated,
    ConstEnumOnly,
}

/// One node of the tree. Single-child slots are `Option<usize>` ids of
/// earlier nodes; list slots are `Option<Vec<usize>>` (absent versus empty
/// is kept). `children` lists every child in visiting order.
#[derive(Debug)]
pub struct Node {
    pub kind: SyntaxKind,
    pub pos: i32,
    pub end: i32,
    pub flags: u32,
    /// The source text of a name or literal.
    pub text: Vec<u8>,
    /// A heritage clause's token, a prefix operator, a meta property's keyword.
    pub token: SyntaxKind,
    pub is_type_only: bool,
    pub is_type_of: bool,
    pub has_asterisk: bool,
    pub has_dot_dot_dot: bool,
    pub name: Option<usize>,
    pub property_name: Option<usize>,
    pub expression: Option<usize>,
    pub body: Option<usize>,
    pub initializer: Option<usize>,
    pub type_node: Option<usize>,
    pub left: Option<usize>,
    /// The right operand of a binary expression or of a qualified name.
    pub right: Option<usize>,
    pub operator_token: Option<usize>,
    pub module_specifier: Option<usize>,
    pub module_reference: Option<usize>,
    pub import_clause: Option<usize>,
    pub named_bindings: Option<usize>,
    pub export_clause: Option<usize>,
    pub attributes: Option<usize>,
    /// An import type's argument; an element access's argument expression.
    pub argument: Option<usize>,
    pub literal: Option<usize>,
    /// The tag of a JSX element or of a tagged template.
    pub tag_name: Option<usize>,
    pub statement: Option<usize>,
    pub condition: Option<usize>,
    pub incrementor: Option<usize>,
    pub constraint: Option<usize>,
    pub object_assignment_initializer: Option<usize>,
    pub namespace: Option<usize>,
    pub operand: Option<usize>,
    pub declaration_list: Option<usize>,
    pub external_module_indicator: Option<usize>,
    /// The `?` of an optional parameter; the `?` or `!` after the name of a
    /// property or method.
    pub postfix_token: Option<usize>,
    /// The signature a JSDoc comment gives a function-like declaration.
    pub full_signature: Option<usize>,
    /// The `=>` of an arrow function.
    pub equals_greater_than_token: Option<usize>,
    /// The default of a type parameter.
    pub default_type: Option<usize>,
    pub modifiers: Option<Vec<usize>>,
    pub parameters: Option<Vec<usize>>,
    pub type_parameters: Option<Vec<usize>>,
    pub members: Option<Vec<usize>>,
    pub heritage_clauses: Option<Vec<usize>>,
    pub types: Option<Vec<usize>>,
    pub arguments: Option<Vec<usize>>,
    pub type_arguments: Option<Vec<usize>>,
    pub elements: Option<Vec<usize>>,
    pub tags: Option<Vec<usize>>,
    pub declarations: Option<Vec<usize>>,
    /// The JSDoc comments attached to the node.
    pub jsdoc: Vec<usize>,
    /// Every child, in visiting order.
    pub children: Vec<usize>,
    /// For a source file: its reparsed JSDoc clones, in position order.
    pub reparsed_clones: Vec<usize>,
    /// The symbol the binder gave the node.
    pub symbol: Option<usize>,
    pub assignment_kind: AssignmentKind,
    pub instance_state: ModuleInstanceState,
}

/// A symbol: its flags and declarations.
#[derive(Debug)]
pub struct Symbol {
    pub flags: u32,
    pub declarations: Vec<usize>,
    pub value_declaration: Option<usize>,
}

/// The arena. Every link of a node names an earlier node, and a parent is
/// always a later node, so both walks terminate.
#[derive(Debug)]
pub struct Ast {
    pub nodes: Vec<Node>,
    pub parents: Vec<Option<usize>>,
    pub symbols: Vec<Symbol>,
}

pub open spec fn opt_below(o: Option<usize>, b: int) -> bool {
    o matches Some(x) ==> x < b
}

pub open spec fn seq_below(s: Seq<usize>, b: int) -> bool {
    forall|j: int| 0 <= j < s.len() ==> #[trigger] s[j] < b
}

pub open spec fn list_below(o: Option<Vec<usize>>, b: int) -> bool {
    o matches Some(v) ==> seq_below(v@, b)
}

/// Every link of `n` names a node below `b`.
pub open spec fn links_below(n: Node, b: int) -> bool {
    &&& opt_below(n.name, b)
    &&& opt_below(n.property_name, b)
    &&& opt_below(n.expression, b)
    &&& opt_below(n.body, b)
    &&& opt_below(n.initializer, b)
    &&& opt_below(n.type_node, b)
    &&& opt_below(n.left, b)
    &&& opt_below(n.right, b)
    &&& opt_below(n.operator_token, b)
    &&& opt_below(n.module_specifier, b)
    &&& opt_below(n.module_reference, b)
    &&& opt_below(n.import_clause, b)
    &&& opt_below(n.named_bindings, b)
    &&& opt_below(n.export_clause, b)
    &&& opt_below(n.attributes, b)
    &&& opt_below(n.argument, b)
    &&& opt_below(n.literal, b)
    &&& opt_below(n.tag_name, b)
    &&& opt_below(n.statement, b)
    &&& opt_below(n.condition, b)
    &&& opt_below(n.incrementor, b)
    &&& opt_below(n.constraint, b)
    &&& opt_below(n.object_assignment_initializer, b)
    &&& opt_below(n.namespace, b)
    &&& opt_below(n.operand, b)
    &&& opt_below(n.declaration_list, b)
    &&& opt_below(n.external_module_indicator, b)
    &&& opt_below(n.postfix_token, b)
    &&& opt_below(n.full_signature, b)
    &&& opt_below(n.equals_greater_than_token, b)
    &&& opt_below(n.default_type, b)
    &&& list_below(n.modifiers, b)
    &&& list_below(n.parameters, b)
    &&& list_below(n.type_parameters, b)
    &&& list_below(n.members, b)
    &&& list_below(n.heritage_clauses, b)
    &&& list_below(n.types, b)
    &&& list_below(n.arguments, b)
    &&& list_below(n.type_arguments, b)
    &&& list_below(n.elements, b)
    &&& list_below(n.tags, b)
    &&& list_below(n.declarations, b)
    &&& seq_below(n.jsdoc@, b)
    &&& seq_below(n.children@, b)
    &&& seq_below(n.reparsed_clones@, b)
}

/// A symbol whose declarations are nodes below `b`.
pub open spec fn symbol_below(s: Symbol, b: int) -> bool {
    seq_below(s.declarations@, b) && opt_below(s.value_declaration, b)
}

impl Ast {
    /// The arena's invariant.
    pub open spec fn wf(&self) -> bool {
        &&& self.parents@.len() == self.nodes@.len()
        &&& forall|i: int| 0 <= i < self.nodes@.len() ==> links_below(#[trigger] self.nodes@[i], i)
        &&& forall|i: int|
            0 <= i < self.nodes@.len() ==> (#[trigger] self.parents@[i] matches Some(p) ==> i < p
                < self.nodes@.len())
        &&& forall|s: int|
            0 <= s < self.symbols@.len() ==> symbol_below(#[trigger] self.symbols@[s], self.nodes@.len() as int)
    }

    pub open spec fn has(&self, i: int) -> bool {
        0 <= i < self.nodes@.len()
    }

    pub open spec fn nd(&self, i: int) -> Node {
        self.nodes@[i]
    }

    pub open spec fn kind_of(&self, i: int) -> SyntaxKind {
        self.nodes@[i].kind
    }

    pub open spec fn parent_of(&self, i: int) -> Option<usize> {
        self.parents@[i]
    }

    /// The parent of `i`, which must exist.
    pub open spec fn up(&self, i: int) -> int {
        self.parents@[i].unwrap() as int
    }

    /// Whether `i` has a parent.
    pub open spec fn has_up(&self, i: int) -> bool {
        self.parents@[i] is Some
    }

    /// A list slot as a sequence, empty when absent.
    pub open spec fn list(o: Option<Vec<usize>>) -> Seq<usize> {
        match o {
            Some(v) => v@,
            None => Seq::empty(),
        }
    }

    /// The empty arena.
    pub fn new() -> (r: Ast)
        ensures
            r.wf(),
            r.nodes@.len() == 0,
            r.symbols@.len() == 0,
    {
        Ast { nodes: Vec::new(), parents: Vec::new(), symbols: Vec::new() }
    }

    pub fn len(&self) -> (r: usize)
        ensures
            r == self.nodes@.len(),
    {
        self.nodes.len()
    }

    /// The node with id `i`.
    pub fn node(&self, i: usize) -> (r: &Node)
        requires
            i < self.nodes@.len(),
        ensures
            *r == self.nodes@[i as int],
    {
        &self.nodes[i]
    }

    pub fn kind(&self, i: usize) -> (r: SyntaxKind)
        requires
            i < self.nodes@.len(),
        ensures
            r == self.kind_of(i as int),
    {
        self.nodes[i].kind
    }

    /// The parent of node `i`, if it has one.
    pub fn parent(&self, i: usize) -> (r: Option<usize>)
        requires
            self.wf(),
            i < self.nodes@.len(),
        ensures
            r == self.parent_of(i as int),
            r matches Some(p) ==> i < p < self.nodes@.len(),
    {
        self.parents[i]
    }

    /// The symbol with id `s`.
    pub fn symbol(&self, s: usize) -> (r: &Symbol)
        requires
            s < self.symbols@.len(),
        ensures
            *r == self.symbols@[s as int],
    {
        &self.symbols[s]
    }

    /// Appends a node whose links all name existing nodes, and makes it the
    /// parent of each node in its `children`. A node with a dangling link is
    /// refused (`None`) and the arena is unchanged.
    pub fn push(&mut self, node: Node) -> (r: Option<usize>)
        requires
            old(self).wf(),
        ensures
            final(self).wf(),
            links_below(node, old(self).nodes@.len() as int) ==> {
                &&& r == Some(old(self).nodes@.len() as usize)
                &&& final(self).nodes@ == old(self).nodes@.push(node)
                &&& final(self).symbols@ == old(self).symbols@
                &&& forall|i: int|
                    0 <= i < old(self).nodes@.len() ==> #[trigger] final(self).parents@[i] == if node.children@.contains(i as usize) {
                        Some(old(self).nodes@.len() as usize)
                    } else {
                        old(self).parents@[i]
                    }
                &&& final(self).parents@[old(self).nodes@.len() as int] is None
            },
            !links_below(node, old(self).nodes@.len() as int) ==> r is None && *final(self) == *old(self),
    {
        let id = self.nodes.len();
        if !links_are_below(&node, id) {
            return None;
        }
        let ghost old_parents = self.parents@;
        let mut k: usize = 0;
        while k < node.children.len()
            invariant
                self.parents@.len() == id,
                self.nodes@.len() == id,
                self.nodes@ == old(self).nodes@,
                self.symbols@ == old(self).symbols@,
                old(self).wf(),
                forall|i: int| 0 <= i < id ==> (#[trigger] self.parents@[i] matches Some(p) ==> i < p <= id),
                old_parents.len() == id,
                k <= node.children@.len(),
                seq_below(node.children@, id as int),
                forall|i: int|
                    0 <= i < id ==> #[trigger] self.parents@[i] == if node.children@.subrange(0, k as int).contains(i as usize) {
                        Some(id)
                    } else {
                        old_parents[i]
                    },
            decreases node.children@.len() - k,
        {
            let c = node.children[k];
            assert(c < id);
            self.parents.set(c, Some(id));
            proof {
                assert forall|i: int| 0 <= i < id implies #[trigger] self.parents@[i] == if node.children@.subrange(0, k + 1).contains(i as usize) {
                    Some(id)
                } else {
                    old_parents[i]
                } by {
                    let s1 = node.children@.subrange(0, k as int);
                    let s2 = node.children@.subrange(0, k + 1);
                    assert(s2 == s1.push(c));
                    if i == c as int {
                        assert(s2[k as int] == c);
                    } else {
                        if s2.contains(i as usize) {
                            let j = choose|j: int| 0 <= j < s2.len() && s2[j] == i as usize;
                            assert(s1[j] == i as usize);
                        }
                        if s1.contains(i as usize) {
                            let j = choose|j: int| 0 <= j < s1.len() && s1[j] == i as usize;
                            assert(s2[j] == i as usize);
                        }
                    }
                }
            }
            k = k + 1;
        }
        proof {
            assert(node.children@.subrange(0, k as int) == node.children@);
        }
        self.nodes.push(node);
        self.parents.push(None);
        proof {
            assert forall|i: int| 0 <= i < self.nodes@.len() implies links_below(#[trigger] self.nodes@[i], i) by {
                if i < id {
                    assert(self.nodes@[i] == old(self).nodes@[i]);
                }
            }
            assert forall|s: int| 0 <= s < self.symbols@.len() implies symbol_below(#[trigger] self.symbols@[s], self.nodes@.len() as int) by {
                let sym = self.symbols@[s];
                assert(symbol_below(sym, id as int));
            }
        }
        Some(id)
    }

    /// Makes `parent` the parent of `child`; refused (`false`, no change)
    /// unless `child < parent` and both exist.
    pub fn set_parent(&mut self, child: usize, parent: usize) -> (r: bool)
        requires
            old(self).wf(),
        ensures
            final(self).wf(),
            r == (child < parent && parent < old(self).nodes@.len()),
            r ==> final(self).parents@ == old(self).parents@.update(child as int, Some(parent)),
            !r ==> final(self).parents@ == old(self).parents@,
            final(self).nodes@ == old(self).nodes@,
            final(self).symbols@ == old(self).symbols@,
    {
        if child < parent && parent < self.nodes.len() {
            self.parents.set(child, Some(parent));
            true
        } else {
            false
        }
    }

    /// Appends a symbol whose declarations all exist; refused (`None`) otherwise.
    pub fn push_symbol(&mut self, symbol: Symbol) -> (r: Option<usize>)
        requires
            old(self).wf(),
        ensures
            final(self).wf(),
            final(self).nodes@ == old(self).nodes@,
            final(self).parents@ == old(self).parents@,
            symbol_below(symbol, old(self).nodes@.len() as int) ==> r == Some(old(self).symbols@.len() as usize)
                && final(self).symbols@ == old(self).symbols@.push(symbol),
            !symbol_below(symbol, old(self).nodes@.len() as int) ==> r is None && final(self).symbols@
                == old(self).symbols@,
    {
        let n = self.nodes.len();
        let ok = seq_is_below(&symbol.declarations, n) && opt_is_below(symbol.value_declaration, n);
        if !ok {
            return None;
        }
        let id = self.symbols.len();
        self.symbols.push(symbol);
        Some(id)
    }
}

impl Node {
    /// A node of `kind` over `pos..end` with no flags, text, links or facts.
    pub fn new(kind: SyntaxKind, pos: i32, end: i32) -> (r: Node)
        ensures
            r.kind == kind,
            r.pos == pos,
            r.end == end,
            r.flags == 0,
            r.text@.len() == 0,
            links_below(r, 0),
            r.modifiers is None,
            r.parameters is None,
            r.type_parameters is None,
            r.members is None,
            r.heritage_clauses is None,
            r.types is None,
            r.arguments is None,
            r.type_arguments is None,
            r.elements is None,
            r.tags is None,
            r.declarations is None,
            r.jsdoc@.len() == 0,
            r.children@.len() == 0,
            r.reparsed_clones@.len() == 0,
            r.name is None && r.expression is None && r.body is None && r.initializer is None,
            r.symbol is None,
            r.assignment_kind == AssignmentKind::NotDeclaration,
            r.instance_state == ModuleInstanceState::NonInstantiated,
            r.token == SyntaxKind::Unknown,
            !r.is_type_only && !r.is_type_of && !r.has_asterisk && !r.has_dot_dot_dot,
    {
        Node {
            kind,
            pos,
            end,
            flags: 0,
            text: Vec::new(),
            token: SyntaxKind::Unknown,
            is_type_only: false,
            is_type_of: false,
            has_asterisk: false,
            has_dot_dot_dot: false,
            name: None,
            property_name: None,
            expression: None,
            body: None,
            initializer: None,
            type_node: None,
            left: None,
            right: None,
            operator_token: None,
            module_specifier: None,
            module_reference: None,
            import_clause: None,
            named_bindings: None,
            export_clause: None,
            attributes: None,
            argument: None,
            literal: None,
            tag_name: None,
            statement: None,
            condition: None,
            incrementor: None,
            constraint: None,
            object_assignment_initializer: None,
            namespace: None,
            operand: None,
            declaration_list: None,
            external_module_indicator: None,
            postfix_token: None,
            full_signature: None,
            equals_greater_than_token: None,
            default_type: None,
            modifiers: None,
            parameters: None,
            type_parameters: None,
            members: None,
            heritage_clauses: None,
            types: None,
            arguments: None,
            type_arguments: None,
            elements: None,
            tags: None,
            declarations: None,
            jsdoc: Vec::new(),
            children: Vec::new(),
            reparsed_clones: Vec::new(),
            symbol: None,
            assignment_kind: AssignmentKind::NotDeclaration,
            instance_state: ModuleInstanceState::NonInstantiated,
        }
    }
}

fn opt_is_below(o: Option<usize>, b: usize) -> (r: bool)
    ensures
        r == opt_below(o, b as int),
{
    match o {
        Some(x) => x < b,
        None => true,
    }
}

fn seq_is_below(v: &Vec<usize>, b: usize) -> (r: bool)
    ensures
        r == seq_below(v@, b as int),
{
    let mut i: usize = 0;
    while i < v.len()
        invariant
            i <= v@.len(),
            forall|j: int| 0 <= j < i ==> #[trigger] v@[j] < b,
        decreases v@.len() - i,
    {
        if v[i] >= b {
            return false;
        }
        i = i + 1;
    }
    true
}

fn list_is_below(o: &Option<Vec<usize>>, b: usize) -> (r: bool)
    ensures
        r == list_below(*o, b as int),
{
    match o {
        Some(v) => seq_is_below(v, b),
        None => true,
    }
}

fn links_are_below(n: &Node, b: usize) -> (r: bool)
    ensures
        r == links_below(*n, b as int),
{
    opt_is_below(n.name, b) && opt_is_below(n.property_name, b) && opt_is_below(n.expression, b)
        && opt_is_below(n.body, b) && opt_is_below(n.initializer, b) && opt_is_below(n.type_node, b)
        && opt_is_below(n.left, b) && opt_is_below(n.right, b) && opt_is_below(n.operator_token, b)
        && opt_is_below(n.module_specifier, b) && opt_is_below(n.module_reference, b)
        && opt_is_below(n.import_clause, b) && opt_is_below(n.named_bindings, b)
        && opt_is_below(n.export_clause, b) && opt_is_below(n.attributes, b)
        && opt_is_below(n.argument, b) && opt_is_below(n.literal, b) && opt_is_below(n.tag_name, b)
        && opt_is_below(n.statement, b) && opt_is_below(n.condition, b)
        && opt_is_below(n.incrementor, b) && opt_is_below(n.constraint, b)
        && opt_is_below(n.object_assignment_initializer, b) && opt_is_below(n.namespace, b)
        && opt_is_below(n.operand, b) && opt_is_below(n.declaration_list, b)
        && opt_is_below(n.external_module_indicator, b) && opt_is_below(n.postfix_token, b)
        && opt_is_below(n.full_signature, b) && opt_is_below(n.equals_greater_than_token, b)
        && opt_is_below(n.default_type, b) && list_is_below(&n.modifiers, b)
        && list_is_below(&n.parameters, b) && list_is_below(&n.type_parameters, b)
        && list_is_below(&n.members, b) && list_is_below(&n.heritage_clauses, b)
        && list_is_below(&n.types, b) && list_is_below(&n.arguments, b)
        && list_is_below(&n.type_arguments, b) && list_is_below(&n.elements, b)
        && list_is_below(&n.tags, b) && list_is_below(&n.declarations, b)
        && seq_is_below(&n.jsdoc, b) && seq_is_below(&n.children, b)
        && seq_is_below(&n.reparsed_clones, b)
}

} // verus!
