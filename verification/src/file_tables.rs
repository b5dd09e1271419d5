//! Per-file tables: declaration names, the declaration map, identifier
//! membership, and per-file data computed once per key.
use vstd::prelude::*;
use crate::ast::{seq_below, Ast};
use crate::ast::AssignmentKind;
use crate::class_utils::copy_ids;
use crate::kind_classes::{
    is_binding_pattern_kind, is_property_name_kind, is_string_or_numeric_literal_like_kind,
    spec_is_binding_pattern, spec_is_property_name, spec_is_string_or_numeric_literal_like,
};
use crate::modifier_flags;
use crate::node_utils::{bytes_equal, has_syntactic_modifier, lemma_links, spec_has_syntactic_modifier};
use crate::module_utils::spec_or;
use crate::node_utils::{lemma_pp, pp};
use crate::positions::{
    assignment_declaration_name, is_declaration_name, is_literal_computed_property_declaration_name,
    spec_assignment_declaration_name, spec_is_declaration_name, spec_is_literal_computed_property_declaration_name,
};
use crate::syntax_kind::SyntaxKind;
use crate::targets::copy_bytes;

verus! {

/// The node that names a declaration, ignoring names given by assignment:
/// an identifier names itself, an assignment declaration is named by its
/// accessed name, `export = x` by `x`, any other declaration by its name slot.
pub open spec fn spec_non_assigned_name(ast: &Ast, d: int) -> Option<usize> {
    let n = ast.nd(d);
    if n.kind == SyntaxKind::Identifier {
        Some(d as usize)
    } else if n.kind == SyntaxKind::BinaryExpression {
        spec_assignment_declaration_name(ast, d)
    } else if n.kind == SyntaxKind::ExportAssignment {
        match n.expression {
            Some(e) => if ast.kind_of(e as int) == SyntaxKind::Identifier { Some(e) } else { None },
            None => None,
        }
    } else {
        n.name
    }
}

fn get_non_assigned_name_of_declaration(ast: &Ast, d: usize) -> (r: Option<usize>)
    requires
        ast.wf(),
        ast.has(d as int),
    ensures
        r == spec_non_assigned_name(ast, d as int),
        r matches Some(x) ==> ast.has(x as int),
{
    proof { lemma_links(ast, d as int); }
    let n = ast.node(d);
    if n.kind == SyntaxKind::Identifier {
        Some(d)
    } else if n.kind == SyntaxKind::BinaryExpression {
        let r = assignment_declaration_name(ast, d);
        proof {
            if let Some(l) = ast.nd(d as int).left {
                lemma_links(ast, l as int);
            }
        }
        r
    } else if n.kind == SyntaxKind::ExportAssignment {
        match n.expression {
            Some(e) => if ast.kind(e) == SyntaxKind::Identifier { Some(e) } else { None },
            None => None,
        }
    } else {
        n.name
    }
}

/// The name a declaration map files a declaration under, empty for none;
/// `None` when a computed name has no expression or a property access in
/// it no name.
pub open spec fn spec_declaration_name(ast: &Ast, d: int) -> Option<Seq<u8>> {
    match spec_non_assigned_name(ast, d) {
        None => Some(Seq::empty()),
        Some(n) => if ast.kind_of(n as int) == SyntaxKind::ComputedPropertyName {
            match ast.nd(n as int).expression {
                None => None,
                Some(e) => if spec_is_string_or_numeric_literal_like(ast.kind_of(e as int)) {
                    Some(ast.nd(e as int).text@)
                } else if ast.kind_of(e as int) == SyntaxKind::PropertyAccessExpression {
                    match ast.nd(e as int).name {
                        None => None,
                        Some(m) => Some(ast.nd(m as int).text@),
                    }
                } else {
                    Some(Seq::empty())
                },
            }
        } else if spec_is_property_name(ast.kind_of(n as int)) {
            Some(ast.nd(n as int).text@)
        } else {
            Some(Seq::empty())
        },
    }
}

pub fn get_declaration_name(ast: &Ast, declaration: usize) -> (r: Vec<u8>)
    requires
        ast.wf(),
        ast.has(declaration as int),
        spec_declaration_name(ast, declaration as int) is Some,
    ensures
        Some(r@) == spec_declaration_name(ast, declaration as int),
{
    read_declaration_name(ast, declaration).unwrap()
}

/// The declaration name, or `None` where a link on the way is missing.
fn read_declaration_name(ast: &Ast, declaration: usize) -> (r: Option<Vec<u8>>)
    requires
        ast.wf(),
        ast.has(declaration as int),
    ensures
        match r {
            Some(v) => spec_declaration_name(ast, declaration as int) == Some(v@),
            None => spec_declaration_name(ast, declaration as int) is None,
        },
{
    let name = match get_non_assigned_name_of_declaration(ast, declaration) {
        None => return Some(Vec::new()),
        Some(n) => n,
    };
    proof { lemma_links(ast, name as int); }
    let nn = ast.node(name);
    if nn.kind == SyntaxKind::ComputedPropertyName {
        let e = match nn.expression {
            None => return None,
            Some(e) => e,
        };
        proof { lemma_links(ast, e as int); }
        let en = ast.node(e);
        if is_string_or_numeric_literal_like_kind(en.kind) {
            return Some(copy_bytes(&en.text));
        }
        if en.kind == SyntaxKind::PropertyAccessExpression {
            let m = match en.name {
                None => return None,
                Some(m) => m,
            };
            return Some(copy_bytes(&ast.node(m).text));
        }
        Some(Vec::new())
    } else if is_property_name_kind(nn.kind) {
        Some(copy_bytes(&nn.text))
    } else {
        Some(Vec::new())
    }
}

/// One name of a declaration map and the declarations filed under it.
#[derive(Debug)]
pub struct DeclarationEntry {
    pub name: Vec<u8>,
    pub declarations: Vec<usize>,
}

/// A declaration map: names with the declarations filed under each, in the
/// order the names were first filed.
#[derive(Debug)]
pub struct DeclarationMap {
    pub entries: Vec<DeclarationEntry>,
}

/// The entries of a declaration map as plain values.
pub open spec fn entries_view(v: Seq<DeclarationEntry>) -> Seq<(Seq<u8>, Seq<usize>)> {
    Seq::new(v.len(), |i: int| (v[i].name@, v[i].declarations@))
}

impl View for DeclarationMap {
    type V = Seq<(Seq<u8>, Seq<usize>)>;

    open spec fn view(&self) -> Seq<(Seq<u8>, Seq<usize>)> {
        entries_view(self.entries@)
    }
}

/// The first of the first `n` entries named `k`, or -1.
pub open spec fn spec_find_in(e: Seq<(Seq<u8>, Seq<usize>)>, k: Seq<u8>, n: int) -> int
    decreases n,
{
    if n <= 0 {
        -1
    } else {
        let r = spec_find_in(e, k, n - 1);
        if r >= 0 {
            r
        } else if e[n - 1].0 == k {
            n - 1
        } else {
            -1
        }
    }
}

/// The index of the entry named `k`, or -1.
pub open spec fn spec_find(e: Seq<(Seq<u8>, Seq<usize>)>, k: Seq<u8>) -> int {
    spec_find_in(e, k, e.len() as int)
}

/// Files `d` under `name`; an empty name files nothing.
pub open spec fn spec_file(e: Seq<(Seq<u8>, Seq<usize>)>, name: Seq<u8>, d: usize) -> Seq<(Seq<u8>, Seq<usize>)> {
    if name.len() == 0 {
        e
    } else {
        let i = spec_find(e, name);
        if i >= 0 {
            e.update(i, (name, e[i].1.push(d)))
        } else {
            e.push((name, seq![d]))
        }
    }
}

/// The declarations filed under `name`, as a map would answer.
pub open spec fn spec_lookup(e: Seq<(Seq<u8>, Seq<usize>)>, name: Seq<u8>) -> Option<Seq<usize>> {
    let i = spec_find(e, name);
    if i >= 0 { Some(e[i].1) } else { None }
}

pub proof fn lemma_find_in_bounds(e: Seq<(Seq<u8>, Seq<usize>)>, k: Seq<u8>, n: int)
    requires
        0 <= n <= e.len(),
    ensures
        -1 <= spec_find_in(e, k, n) < n,
        spec_find_in(e, k, n) >= 0 ==> e[spec_find_in(e, k, n)].0 == k,
        spec_find_in(e, k, n) == -1 ==> forall|j: int| 0 <= j < n ==> e[j].0 != k,
        spec_find_in(e, k, n) >= 0 ==> forall|j: int| 0 <= j < spec_find_in(e, k, n) ==> e[j].0 != k,
    decreases n,
{
    if n > 0 {
        lemma_find_in_bounds(e, k, n - 1);
    }
}

/// Once an entry named `k` is among the first `m`, it stays the first.
pub proof fn lemma_find_stable(e: Seq<(Seq<u8>, Seq<usize>)>, k: Seq<u8>, m: int, n: int)
    requires
        0 <= m <= n,
        spec_find_in(e, k, m) >= 0,
    ensures
        spec_find_in(e, k, n) == spec_find_in(e, k, m),
    decreases n - m,
{
    if n > m {
        lemma_find_stable(e, k, m, n - 1);
    }
}

impl DeclarationMap {
    pub fn new() -> (r: DeclarationMap)
        ensures
            r@ == Seq::<(Seq<u8>, Seq<usize>)>::empty(),
    {
        let r = DeclarationMap { entries: Vec::new() };
        proof { assert(r@ =~= Seq::<(Seq<u8>, Seq<usize>)>::empty()); }
        r
    }

    /// The index of the entry named `name`, if any.
    pub fn find(&self, name: &Vec<u8>) -> (r: Option<usize>)
        ensures
            r matches Some(i) ==> i as int == spec_find(self@, name@) && i < self@.len(),
            r is None ==> spec_find(self@, name@) == -1,
    {
        let mut j: usize = 0;
        while j < self.entries.len()
            invariant
                j <= self.entries@.len(),
                self@.len() == self.entries@.len(),
                spec_find_in(self@, name@, j as int) == -1,
            decreases self.entries@.len() - j,
        {
            if bytes_equal(self.entries[j].name.as_slice(), name.as_slice()) {
                proof {
                    assert(self@[j as int].0 == name@);
                    lemma_find_stable(self@, name@, j + 1, self@.len() as int);
                }
                return Some(j);
            }
            j = j + 1;
        }
        None
    }

    /// The declarations filed under `name`.
    pub fn get(&self, name: &Vec<u8>) -> (r: Option<&Vec<usize>>)
        ensures
            match r {
                Some(v) => spec_lookup(self@, name@) == Some(v@),
                None => spec_lookup(self@, name@) is None,
            },
    {
        match self.find(name) {
            Some(i) => Some(&self.entries[i].declarations),
            None => None,
        }
    }

    /// Files `d` under `name`; an empty name files nothing.
    pub fn file(&mut self, name: Vec<u8>, d: usize)
        ensures
            final(self)@ == spec_file(old(self)@, name@, d),
    {
        if name.len() == 0 {
            return;
        }
        proof { lemma_find_in_bounds(self@, name@, self@.len() as int); }
        match self.find(&name) {
            Some(i) => {
                let mut ds = copy_ids(&self.entries[i].declarations);
                ds.push(d);
                let ghost before = self@;
                let ghost nm = name@;
                proof {
                    assert(spec_find(before, nm) == i as int);
                    assert(before[i as int].1 == self.entries@[i as int].declarations@);
                    assert(ds@ == before[i as int].1.push(d));
                }
                self.entries.set(i, DeclarationEntry { name, declarations: ds });
                proof {
                    assert(self@[i as int] == (nm, before[i as int].1.push(d)));
                    assert(self@ =~= before.update(i as int, (nm, before[i as int].1.push(d))));
                    assert(self@ =~= spec_file(before, nm, d));
                }
            },
            None => {
                let ghost before = self@;
                let ghost nm = name@;
                let ds = vec![d];
                proof { assert(ds@ =~= seq![d]); }
                self.entries.push(DeclarationEntry { name, declarations: ds });
                proof {
                    assert(self@ =~= before.push((nm, seq![d])));
                    assert(self@ =~= spec_file(before, nm, d));
                }
            },
        }
    }

    /// Makes `d` the last declaration filed under the entry at `i`.
    pub fn replace_last(&mut self, i: usize, d: usize)
        requires
            i < old(self)@.len(),
            old(self)@[i as int].1.len() > 0,
        ensures
            final(self)@ == old(self)@.update(
                i as int,
                (old(self)@[i as int].0, old(self)@[i as int].1.update(old(self)@[i as int].1.len() - 1, d)),
            ),
    {
        let name = copy_bytes(&self.entries[i].name);
        let mut ds = copy_ids(&self.entries[i].declarations);
        let last = ds.len() - 1;
        ds.set(last, d);
        let ghost before = self@;
        self.entries.set(i, DeclarationEntry { name, declarations: ds });
        proof {
            assert(self@ =~= before.update(i as int, (before[i as int].0, before[i as int].1.update(last as int, d))));
        }
    }
}

/// The source of per-file data keys: each key it gives is one more than the
/// last, so no two are equal and none is zero. Its count is private: a
/// counter is made by `new` and only moves forward.
#[derive(Debug)]
pub struct DataKeyCounter {
    last: u64,
}

impl DataKeyCounter {
    /// The last key given, 0 before the first.
    pub closed spec fn last_key(&self) -> u64 {
        self.last
    }

    pub fn new() -> (r: DataKeyCounter)
        ensures
            r.last_key() == 0,
    {
        DataKeyCounter { last: 0 }
    }

    /// The last key given, 0 before the first.
    pub fn last(&self) -> (r: u64)
        ensures
            r == self.last_key(),
    {
        self.last
    }
}

/// A fresh key for one kind of per-file value.
pub fn new_source_file_data_key(counter: &mut DataKeyCounter) -> (r: u64)
    requires
        old(counter).last_key() < u64::MAX,
    ensures
        r == old(counter).last_key() + 1,
        final(counter).last_key() == r,
        r != 0,
{
    counter.last = counter.last + 1;
    counter.last
}

/// The per-file values of one value type, by key.
#[derive(Debug)]
pub struct SourceFileData<T> {
    pub keys: Vec<u64>,
    pub values: Vec<T>,
}

impl<T> SourceFileData<T> {
    /// Keys and values pair up, and no key occurs twice.
    pub open spec fn wf(&self) -> bool {
        &&& self.keys@.len() == self.values@.len()
        &&& forall|i: int, j: int| 0 <= i < j < self.keys@.len() ==> self.keys@[i] != self.keys@[j]
    }

    /// The stored values by key.
    pub open spec fn contents(&self) -> Map<u64, T> {
        Map::new(
            |k: u64| self.keys@.contains(k),
            |k: u64| self.values@[choose|i: int| 0 <= i < self.keys@.len() && self.keys@[i] == k],
        )
    }

    pub fn new() -> (r: SourceFileData<T>)
        ensures
            r.wf(),
            r.contents() == Map::<u64, T>::empty(),
    {
        let r = SourceFileData { keys: Vec::new(), values: Vec::new() };
        proof { assert(r.contents() =~= Map::<u64, T>::empty()); }
        r
    }

    fn index_of(&self, key: u64) -> (r: Option<usize>)
        requires
            self.wf(),
        ensures
            r matches Some(i) ==> i < self.keys@.len() && self.keys@[i as int] == key,
            r is None ==> !self.keys@.contains(key),
    {
        let mut i: usize = 0;
        while i < self.keys.len()
            invariant
                i <= self.keys@.len(),
                forall|j: int| 0 <= j < i ==> self.keys@[j] != key,
            decreases self.keys@.len() - i,
        {
            if self.keys[i] == key {
                return Some(i);
            }
            i = i + 1;
        }
        None
    }
}

/// The value stored under `key`, computing and storing it first when there
/// is none. The result is a clone of the stored value. A zero or absent key
/// is refused by `requires`.
pub fn get_or_compute_source_file_data<T: Clone, F: FnOnce() -> T>(
    data: &mut SourceFileData<T>,
    key: Option<u64>,
    compute: F,
) -> (r: T)
    requires
        old(data).wf(),
        key matches Some(k) && k != 0,
        call_requires(compute, ()),
    ensures
        final(data).wf(),
        final(data).contents().contains_key(key.unwrap()),
        old(data).contents().contains_key(key.unwrap()) ==> final(data).contents() == old(data).contents(),
        !old(data).contents().contains_key(key.unwrap()) ==> (call_ensures(
            compute,
            (),
            final(data).contents()[key.unwrap()],
        ) && final(data).contents() == old(data).contents().insert(
            key.unwrap(),
            final(data).contents()[key.unwrap()],
        )),
        cloned::<T>(final(data).contents()[key.unwrap()], r),
        old(data).contents().contains_key(key.unwrap()) ==> cloned::<T>(old(data).contents()[key.unwrap()], r),
{
    let k = key.unwrap();
    let i = match data.index_of(k) {
        Some(i) => i,
        None => {
            let v = compute();
            let ghost before = data.contents();
            let ghost old_keys = data.keys@;
            let ghost old_values = data.values@;
            data.keys.push(k);
            data.values.push(v);
            proof {
                let n = old_keys.len() as int;
                assert(data.keys@ == old_keys.push(k));
                assert(data.values@ == old_values.push(v));
                assert forall|a: int, b: int| 0 <= a < b < data.keys@.len() implies data.keys@[a] != data.keys@[b] by {
                    if b == n {
                        assert(old_keys[a] == data.keys@[a]);
                        assert(old_keys.contains(data.keys@[a]));
                    }
                }
                assert forall|kk: u64| data.keys@.contains(kk) <==> (old_keys.contains(kk) || kk == k) by {
                    if old_keys.contains(kk) {
                        let j = choose|j: int| 0 <= j < old_keys.len() && old_keys[j] == kk;
                        assert(data.keys@[j] == kk);
                    }
                    if kk == k {
                        assert(data.keys@[n] == k);
                    }
                    if data.keys@.contains(kk) {
                        let j = choose|j: int| 0 <= j < data.keys@.len() && data.keys@[j] == kk;
                        if j < n {
                            assert(old_keys[j] == kk);
                        }
                    }
                }
                assert forall|kk: u64| data.keys@.contains(kk) implies #[trigger] data.contents()[kk]
                    == before.insert(k, v)[kk] by {
                    let j = choose|j: int| 0 <= j < data.keys@.len() && data.keys@[j] == kk;
                    if kk == k {
                        if j < n {
                            assert(old_keys[j] == k);
                            assert(old_keys.contains(k));
                        }
                        assert(j == n);
                    } else {
                        assert(j < n);
                        assert(old_keys[j] == kk);
                        assert(old_keys.contains(kk));
                        let j0 = choose|j0: int| 0 <= j0 < old_keys.len() && old_keys[j0] == kk;
                        assert(data.keys@[j0] == kk);
                        assert(j0 == j);
                    }
                }
                assert(data.contents() =~= before.insert(k, v));
            }
            data.keys.len() - 1
        },
    };
    proof {
        assert(data.keys@[i as int] == k);
        assert(data.keys@.contains(k));
        let j = choose|j: int| 0 <= j < data.keys@.len() && data.keys@[j] == k;
        if j < i { assert(data.keys@[j] != data.keys@[i as int]); }
        if i < j { assert(data.keys@[i as int] != data.keys@[j]); }
        assert(j == i);
    }
    data.values[i].clone()
}


/// Every declaration filed in `e` is a node below `n`.
pub open spec fn entries_below(e: Seq<(Seq<u8>, Seq<usize>)>, n: int) -> bool {
    forall|i: int| 0 <= i < e.len() ==> seq_below(#[trigger] e[i].1, n)
}

/// The symbol of `i`, when the map is built over bound files.
pub open spec fn spec_symbol_of(ast: &Ast, bound: bool, i: int) -> Option<usize> {
    if bound { ast.nd(i).symbol } else { None }
}

/// Files a declaration under its declaration name; `None` when the name
/// cannot be read.
pub open spec fn spec_add_declaration(ast: &Ast, e: Seq<(Seq<u8>, Seq<usize>)>, d: int) -> Option<Seq<(Seq<u8>, Seq<usize>)>> {
    match spec_declaration_name(ast, d) {
        None => None,
        Some(name) => Some(spec_file(e, name, d as usize)),
    }
}

/// Files a function-like declaration: an overload group (same parent, same
/// symbol as the last one filed under the name) keeps one entry, the
/// implementation with a body replacing a bodiless signature.
pub open spec fn spec_file_function(
    ast: &Ast,
    bound: bool,
    e: Seq<(Seq<u8>, Seq<usize>)>,
    name: Seq<u8>,
    i: int,
) -> Seq<(Seq<u8>, Seq<usize>)> {
    let idx = spec_find(e, name);
    if idx >= 0 && e[idx].1.len() > 0 {
        let l = e[idx].1.last() as int;
        if ast.parent_of(i) == ast.parent_of(l) && spec_symbol_of(ast, bound, i) == spec_symbol_of(ast, bound, l) {
            if ast.nd(i).body is Some && ast.nd(l).body is None {
                e.update(idx, (e[idx].0, e[idx].1.update(e[idx].1.len() - 1, i as usize)))
            } else {
                e
            }
        } else {
            spec_file(e, name, i as usize)
        }
    } else {
        spec_file(e, name, i as usize)
    }
}

pub open spec fn spec_is_function_declaration_kind(k: SyntaxKind) -> bool {
    k == SyntaxKind::FunctionDeclaration || k == SyntaxKind::FunctionExpression || k == SyntaxKind::MethodDeclaration
        || k == SyntaxKind::MethodSignature
}

/// The kinds filed under their own name before their children are visited.
pub open spec fn spec_is_named_container_kind(k: SyntaxKind) -> bool {
    k == SyntaxKind::ClassDeclaration || k == SyntaxKind::ClassExpression || k == SyntaxKind::InterfaceDeclaration
        || k == SyntaxKind::TypeAliasDeclaration || k == SyntaxKind::EnumDeclaration || k
        == SyntaxKind::ModuleDeclaration || k == SyntaxKind::ImportEqualsDeclaration || k == SyntaxKind::ImportClause
        || k == SyntaxKind::NamespaceImport || k == SyntaxKind::GetAccessor || k == SyntaxKind::SetAccessor || k
        == SyntaxKind::TypeLiteral
}

/// The declaration map after visiting node `i`; `None` when a name on the
/// way cannot be read.
pub open spec fn spec_visit(ast: &Ast, bound: bool, e: Seq<(Seq<u8>, Seq<usize>)>, i: int) -> Option<Seq<(Seq<u8>, Seq<usize>)>>
    decreases i, 1int, 0int,
{
    if !(0 <= i < ast.nodes@.len()) {
        Some(e)
    } else {
        let n = ast.nd(i);
        let k = n.kind;
        if spec_is_function_declaration_kind(k) {
            match spec_declaration_name(ast, i) {
                None => None,
                Some(name) => {
                    let e1 = if name.len() == 0 { e } else { spec_file_function(ast, bound, e, name, i) };
                    spec_visit_seq(ast, bound, e1, n.children@, i)
                },
            }
        } else if spec_is_named_container_kind(k) {
            match spec_add_declaration(ast, e, i) {
                None => None,
                Some(e1) => spec_visit_seq(ast, bound, e1, n.children@, i),
            }
        } else if k == SyntaxKind::ImportSpecifier || k == SyntaxKind::ExportSpecifier {
            if n.property_name is Some { spec_add_declaration(ast, e, i) } else { Some(e) }
        } else if k == SyntaxKind::Parameter && !spec_has_syntactic_modifier(
            ast,
            i,
            modifier_flags::PARAMETER_PROPERTY_MODIFIER,
        ) {
            Some(e)
        } else if k == SyntaxKind::Parameter || k == SyntaxKind::VariableDeclaration || k == SyntaxKind::BindingElement {
            match n.name {
                None => Some(e),
                Some(nm) => if nm < i {
                    if spec_is_binding_pattern(ast.kind_of(nm as int)) {
                        spec_visit_seq(ast, bound, e, ast.nd(nm as int).children@, nm as int)
                    } else {
                        let e1 = match n.initializer {
                            Some(init) => if init < i { spec_visit(ast, bound, e, init as int) } else { Some(e) },
                            None => Some(e),
                        };
                        match e1 {
                            None => None,
                            Some(e2) => spec_add_declaration(ast, e2, i),
                        }
                    }
                } else {
                    Some(e)
                },
            }
        } else if k == SyntaxKind::EnumMember || k == SyntaxKind::PropertyDeclaration || k == SyntaxKind::PropertySignature {
            spec_add_declaration(ast, e, i)
        } else if k == SyntaxKind::ExportDeclaration {
            match n.export_clause {
                None => Some(e),
                Some(c) => if c < i {
                    if ast.kind_of(c as int) == SyntaxKind::NamedExports {
                        spec_visit_seq(ast, bound, e, Ast::list(ast.nd(c as int).elements), c as int)
                    } else {
                        match ast.nd(c as int).name {
                            None => None,
                            Some(m) => if m < i { spec_visit(ast, bound, e, m as int) } else { Some(e) },
                        }
                    }
                } else {
                    Some(e)
                },
            }
        } else if k == SyntaxKind::ImportDeclaration {
            match n.import_clause {
                None => Some(e),
                Some(c) => if c < i {
                    let cn = ast.nd(c as int);
                    let e1 = match cn.name {
                        Some(m) => spec_add_declaration(ast, e, m as int),
                        None => Some(e),
                    };
                    match e1 {
                        None => None,
                        Some(e2) => match cn.named_bindings {
                            None => Some(e2),
                            Some(nb) => if ast.kind_of(nb as int) == SyntaxKind::NamespaceImport {
                                spec_add_declaration(ast, e2, nb as int)
                            } else if nb < i {
                                spec_visit_seq(ast, bound, e2, Ast::list(ast.nd(nb as int).elements), nb as int)
                            } else {
                                Some(e2)
                            },
                        },
                    }
                } else {
                    Some(e)
                },
            }
        } else if k == SyntaxKind::BinaryExpression {
            let ak = n.assignment_kind;
            let e1 = if ak == AssignmentKind::ExportsProperty || ak == AssignmentKind::ThisProperty || ak
                == AssignmentKind::Property {
                spec_add_declaration(ast, e, i)
            } else {
                Some(e)
            };
            match e1 {
                None => None,
                Some(e2) => spec_visit_seq(ast, bound, e2, n.children@, i),
            }
        } else {
            spec_visit_seq(ast, bound, e, n.children@, i)
        }
    }
}

/// The declaration map after visiting the nodes `s`, children of `bound`, in order.
pub open spec fn spec_visit_seq(
    ast: &Ast,
    bound: bool,
    e: Seq<(Seq<u8>, Seq<usize>)>,
    s: Seq<usize>,
    parent: int,
) -> Option<Seq<(Seq<u8>, Seq<usize>)>>
    decreases parent, 0int, s.len(),
{
    if s.len() == 0 {
        Some(e)
    } else if s[0] < parent {
        match spec_visit(ast, bound, e, s[0] as int) {
            None => None,
            Some(e1) => spec_visit_seq(ast, bound, e1, s.drop_first(), parent),
        }
    } else {
        Some(e)
    }
}

/// The declaration map of a file: its children visited in order.
pub open spec fn spec_declaration_map(ast: &Ast, bound: bool, file: int) -> Option<Seq<(Seq<u8>, Seq<usize>)>> {
    spec_visit_seq(ast, bound, Seq::empty(), ast.nd(file).children@, file)
}

fn symbol_of(ast: &Ast, bound: bool, i: usize) -> (r: Option<usize>)
    requires
        ast.has(i as int),
    ensures
        r == spec_symbol_of(ast, bound, i as int),
{
    if bound { ast.node(i).symbol } else { None }
}

fn add_declaration(ast: &Ast, map: &mut DeclarationMap, d: usize) -> (r: bool)
    requires
        ast.wf(),
        ast.has(d as int),
        entries_below(old(map)@, ast.nodes@.len() as int),
    ensures
        r == spec_add_declaration(ast, old(map)@, d as int) is Some,
        r ==> Some(final(map)@) == spec_add_declaration(ast, old(map)@, d as int),
        entries_below(final(map)@, ast.nodes@.len() as int),
{
    let name = match read_declaration_name(ast, d) {
        None => return false,
        Some(name) => name,
    };
    let ghost before = map@;
    map.file(name, d);
    proof { lemma_file_below(before, name@, d, ast.nodes@.len() as int); }
    true
}

pub proof fn lemma_file_below(e: Seq<(Seq<u8>, Seq<usize>)>, name: Seq<u8>, d: usize, n: int)
    requires
        entries_below(e, n),
        d < n,
    ensures
        entries_below(spec_file(e, name, d), n),
{
    lemma_find_in_bounds(e, name, e.len() as int);
    let r = spec_file(e, name, d);
    assert forall|i: int| 0 <= i < r.len() implies seq_below(#[trigger] r[i].1, n) by {
        if name.len() > 0 {
            let j = spec_find(e, name);
            if j >= 0 && i == j {
                assert(seq_below(e[j].1, n));
                assert forall|t: int| 0 <= t < r[i].1.len() implies #[trigger] r[i].1[t] < n by {
                    if t < e[j].1.len() {
                        assert(r[i].1[t] == e[j].1[t]);
                    }
                }
            } else if j < 0 && i == e.len() {
                assert(r[i].1 == seq![d]);
            } else {
                assert(r[i] == e[i]);
            }
        }
    }
}

fn file_function(ast: &Ast, bound: bool, map: &mut DeclarationMap, name: Vec<u8>, i: usize)
    requires
        ast.wf(),
        ast.has(i as int),
        entries_below(old(map)@, ast.nodes@.len() as int),
    ensures
        final(map)@ == spec_file_function(ast, bound, old(map)@, name@, i as int),
        entries_below(final(map)@, ast.nodes@.len() as int),
{
    let ghost before = map@;
    proof { lemma_find_in_bounds(before, name@, before.len() as int); }
    let idx = map.find(&name);
    match idx {
        Some(j) => {
            let len = map.entries[j].declarations.len();
            if len > 0 {
                let l = map.entries[j].declarations[len - 1];
                proof {
                    assert(seq_below(before[j as int].1, ast.nodes@.len() as int));
                    assert(before[j as int].1.last() == l);
                }
                if ast.parent(i) == ast.parent(l) && symbol_of(ast, bound, i) == symbol_of(ast, bound, l) {
                    if ast.node(i).body.is_some() && ast.node(l).body.is_none() {
                        map.replace_last(j, i);
                        proof {
                            let r = map@;
                            assert forall|t: int| 0 <= t < r.len() implies seq_below(#[trigger] r[t].1, ast.nodes@.len() as int) by {
                                if t == j {
                                    assert forall|u: int| 0 <= u < r[t].1.len() implies #[trigger] r[t].1[u] < ast.nodes@.len() by {
                                        if u < r[t].1.len() - 1 {
                                            assert(r[t].1[u] == before[t].1[u]);
                                        }
                                    }
                                } else {
                                    assert(r[t] == before[t]);
                                }
                            }
                        }
                    }
                    return;
                }
            }
            map.file(name, i);
            proof { lemma_file_below(before, name@, i, ast.nodes@.len() as int); }
        },
        None => {
            map.file(name, i);
            proof { lemma_file_below(before, name@, i, ast.nodes@.len() as int); }
        },
    }
}


fn visit_seq(ast: &Ast, bound: bool, map: &mut DeclarationMap, s: &Vec<usize>, parent: usize) -> (r: bool)
    requires
        ast.wf(),
        entries_below(old(map)@, ast.nodes@.len() as int),
        seq_below(s@, parent as int),
        parent <= ast.nodes@.len(),
    ensures
        r == spec_visit_seq(ast, bound, old(map)@, s@, parent as int) is Some,
        r ==> Some(final(map)@) == spec_visit_seq(ast, bound, old(map)@, s@, parent as int),
        entries_below(final(map)@, ast.nodes@.len() as int),
    decreases parent, 0int, s@.len(),
{
    let mut j: usize = 0;
    proof { assert(s@.subrange(0, s@.len() as int) == s@); }
    while j < s.len()
        invariant
            ast.wf(),
            j <= s@.len(),
            seq_below(s@, parent as int),
            parent <= ast.nodes@.len(),
            entries_below(map@, ast.nodes@.len() as int),
            spec_visit_seq(ast, bound, old(map)@, s@, parent as int) == spec_visit_seq(
                ast,
                bound,
                map@,
                s@.subrange(j as int, s@.len() as int),
                parent as int,
            ),
        decreases s@.len() - j,
    {
        let c = s[j];
        let ghost rest = s@.subrange(j as int, s@.len() as int);
        proof {
            assert(rest[0] == c);
            assert(rest.drop_first() == s@.subrange(j + 1, s@.len() as int));
        }
        if !visit(ast, bound, map, c) {
            return false;
        }
        j = j + 1;
    }
    proof { assert(s@.subrange(j as int, s@.len() as int).len() == 0); }
    true
}

fn visit(ast: &Ast, bound: bool, map: &mut DeclarationMap, node: usize) -> (r: bool)
    requires
        ast.wf(),
        ast.has(node as int),
        entries_below(old(map)@, ast.nodes@.len() as int),
    ensures
        r == spec_visit(ast, bound, old(map)@, node as int) is Some,
        r ==> Some(final(map)@) == spec_visit(ast, bound, old(map)@, node as int),
        entries_below(final(map)@, ast.nodes@.len() as int),
    decreases node, 2int, 0int,
{
    proof { lemma_links(ast, node as int); }
    let n = ast.node(node);
    let k = n.kind;
    if spec_is_function_declaration_kind_exec(k) {
        visit_function(ast, bound, map, node)
    } else if is_named_container_kind(k) {
        add_declaration(ast, map, node) && visit_seq(ast, bound, map, &n.children, node)
    } else if k == SyntaxKind::ImportSpecifier || k == SyntaxKind::ExportSpecifier {
        if n.property_name.is_some() {
            add_declaration(ast, map, node)
        } else {
            true
        }
    } else if k == SyntaxKind::Parameter && !has_syntactic_modifier(
        ast,
        node,
        modifier_flags::PARAMETER_PROPERTY_MODIFIER,
    ) {
        true
    } else if k == SyntaxKind::Parameter || k == SyntaxKind::VariableDeclaration || k == SyntaxKind::BindingElement {
        visit_variable_like(ast, bound, map, node)
    } else if k == SyntaxKind::EnumMember || k == SyntaxKind::PropertyDeclaration || k == SyntaxKind::PropertySignature {
        add_declaration(ast, map, node)
    } else if k == SyntaxKind::ExportDeclaration {
        visit_export_declaration(ast, bound, map, node)
    } else if k == SyntaxKind::ImportDeclaration {
        visit_import_declaration(ast, bound, map, node)
    } else if k == SyntaxKind::BinaryExpression {
        let ak = n.assignment_kind;
        if ak == AssignmentKind::ExportsProperty || ak == AssignmentKind::ThisProperty || ak == AssignmentKind::Property {
            if !add_declaration(ast, map, node) {
                return false;
            }
        }
        visit_seq(ast, bound, map, &n.children, node)
    } else {
        visit_seq(ast, bound, map, &n.children, node)
    }
}

fn visit_function(ast: &Ast, bound: bool, map: &mut DeclarationMap, node: usize) -> (r: bool)
    requires
        ast.wf(),
        ast.has(node as int),
        spec_is_function_declaration_kind(ast.kind_of(node as int)),
        entries_below(old(map)@, ast.nodes@.len() as int),
    ensures
        r == spec_visit(ast, bound, old(map)@, node as int) is Some,
        r ==> Some(final(map)@) == spec_visit(ast, bound, old(map)@, node as int),
        entries_below(final(map)@, ast.nodes@.len() as int),
    decreases node, 1int, 0int,
{
    proof { lemma_links(ast, node as int); }
    let n = ast.node(node);
    let name = match read_declaration_name(ast, node) {
        None => return false,
        Some(name) => name,
    };
    if name.len() != 0 {
        file_function(ast, bound, map, name, node);
    }
    visit_seq(ast, bound, map, &n.children, node)
}

fn visit_variable_like(ast: &Ast, bound: bool, map: &mut DeclarationMap, node: usize) -> (r: bool)
    requires
        ast.wf(),
        ast.has(node as int),
        ast.kind_of(node as int) == SyntaxKind::Parameter || ast.kind_of(node as int) == SyntaxKind::VariableDeclaration
            || ast.kind_of(node as int) == SyntaxKind::BindingElement,
        ast.kind_of(node as int) == SyntaxKind::Parameter ==> spec_has_syntactic_modifier(
            ast,
            node as int,
            modifier_flags::PARAMETER_PROPERTY_MODIFIER,
        ),
        entries_below(old(map)@, ast.nodes@.len() as int),
    ensures
        r == spec_visit(ast, bound, old(map)@, node as int) is Some,
        r ==> Some(final(map)@) == spec_visit(ast, bound, old(map)@, node as int),
        entries_below(final(map)@, ast.nodes@.len() as int),
    decreases node, 1int, 0int,
{
    proof { lemma_links(ast, node as int); }
    let n = ast.node(node);
    if let Some(nm) = n.name {
        proof { lemma_links(ast, nm as int); }
        if is_binding_pattern_kind(ast.kind(nm)) {
            visit_seq(ast, bound, map, &ast.node(nm).children, nm)
        } else {
            if let Some(init) = n.initializer {
                if !visit(ast, bound, map, init) {
                    return false;
                }
            }
            add_declaration(ast, map, node)
        }
    } else {
        true
    }
}

fn visit_export_declaration(ast: &Ast, bound: bool, map: &mut DeclarationMap, node: usize) -> (r: bool)
    requires
        ast.wf(),
        ast.has(node as int),
        ast.kind_of(node as int) == SyntaxKind::ExportDeclaration,
        entries_below(old(map)@, ast.nodes@.len() as int),
    ensures
        r == spec_visit(ast, bound, old(map)@, node as int) is Some,
        r ==> Some(final(map)@) == spec_visit(ast, bound, old(map)@, node as int),
        entries_below(final(map)@, ast.nodes@.len() as int),
    decreases node, 1int, 0int,
{
    proof { lemma_links(ast, node as int); }
    let n = ast.node(node);
    proof {
        assert(!spec_is_function_declaration_kind(SyntaxKind::ExportDeclaration));
        assert(!spec_is_named_container_kind(SyntaxKind::ExportDeclaration));
    }
    let ghost e0 = map@;
    let c = match n.export_clause {
        None => return true,
        Some(c) => c,
    };
    proof { lemma_links(ast, c as int); }
    let cn = ast.node(c);
    if cn.kind == SyntaxKind::NamedExports {
        match &cn.elements {
            Some(v) => visit_seq(ast, bound, map, v, c),
            None => {
                proof {
                    assert(Ast::list(ast.nd(c as int).elements).len() == 0);
                    assert(spec_visit_seq(ast, bound, e0, Ast::list(ast.nd(c as int).elements), c as int) == Some(e0));
                }
                true
            },
        }
    } else {
        match cn.name {
            None => false,
            Some(m) => visit(ast, bound, map, m),
        }
    }
}

fn visit_import_declaration(ast: &Ast, bound: bool, map: &mut DeclarationMap, node: usize) -> (r: bool)
    requires
        ast.wf(),
        ast.has(node as int),
        ast.kind_of(node as int) == SyntaxKind::ImportDeclaration,
        entries_below(old(map)@, ast.nodes@.len() as int),
    ensures
        r == spec_visit(ast, bound, old(map)@, node as int) is Some,
        r ==> Some(final(map)@) == spec_visit(ast, bound, old(map)@, node as int),
        entries_below(final(map)@, ast.nodes@.len() as int),
    decreases node, 1int, 0int,
{
    proof { lemma_links(ast, node as int); }
    let n = ast.node(node);
    proof {
        assert(!spec_is_function_declaration_kind(SyntaxKind::ImportDeclaration));
        assert(!spec_is_named_container_kind(SyntaxKind::ImportDeclaration));
    }
    if let Some(c) = n.import_clause {
        proof { lemma_links(ast, c as int); }
        let cn = ast.node(c);
        if let Some(m) = cn.name {
            if !add_declaration(ast, map, m) {
                return false;
            }
        }
        if let Some(nb) = cn.named_bindings {
            proof { lemma_links(ast, nb as int); }
            if ast.kind(nb) == SyntaxKind::NamespaceImport {
                add_declaration(ast, map, nb)
            } else {
                match &ast.node(nb).elements {
                    Some(v) => visit_seq(ast, bound, map, v, nb),
                    None => {
                        proof {
                            let ghost e1 = map@;
                            assert(Ast::list(ast.nd(nb as int).elements).len() == 0);
                            assert(spec_visit_seq(ast, bound, e1, Ast::list(ast.nd(nb as int).elements), nb as int) == Some(e1));
                        }
                        true
                    },
                }
            }
        } else {
            true
        }
    } else {
        true
    }
}

fn spec_is_function_declaration_kind_exec(k: SyntaxKind) -> (r: bool)
    ensures
        r == spec_is_function_declaration_kind(k),
{
    matches!(
        k,
        SyntaxKind::FunctionDeclaration | SyntaxKind::FunctionExpression | SyntaxKind::MethodDeclaration
            | SyntaxKind::MethodSignature
    )
}

fn is_named_container_kind(k: SyntaxKind) -> (r: bool)
    ensures
        r == spec_is_named_container_kind(k),
{
    matches!(
        k,
        SyntaxKind::ClassDeclaration | SyntaxKind::ClassExpression | SyntaxKind::InterfaceDeclaration
            | SyntaxKind::TypeAliasDeclaration | SyntaxKind::EnumDeclaration | SyntaxKind::ModuleDeclaration
            | SyntaxKind::ImportEqualsDeclaration | SyntaxKind::ImportClause | SyntaxKind::NamespaceImport
            | SyntaxKind::GetAccessor | SyntaxKind::SetAccessor | SyntaxKind::TypeLiteral
    )
}

fn compute_declaration_map(ast: &Ast, bound: bool, file: usize) -> (r: Option<DeclarationMap>)
    requires
        ast.wf(),
        ast.has(file as int),
    ensures
        match r {
            Some(m) => Some(m@) == spec_declaration_map(ast, bound, file as int) && entries_below(
                m@,
                ast.nodes@.len() as int,
            ),
            None => spec_declaration_map(ast, bound, file as int) is None,
        },
{
    proof { lemma_links(ast, file as int); }
    let mut map = DeclarationMap::new();
    if visit_seq(ast, bound, &mut map, &ast.node(file).children, file) {
        Some(map)
    } else {
        None
    }
}

/// The declaration map of a file: each declaration name with the
/// declarations filed under it. With `bound`, overloads are grouped by symbol
/// as well as by parent.
pub fn get_declaration_map(ast: &Ast, bound: bool, file: usize) -> (r: DeclarationMap)
    requires
        ast.wf(),
        ast.has(file as int),
        spec_declaration_map(ast, bound, file as int) is Some,
    ensures
        Some(r@) == spec_declaration_map(ast, bound, file as int),
        entries_below(r@, ast.nodes@.len() as int),
        spec_map_ok(r@),
{
    proof { lemma_declaration_map_is_well_formed(ast, bound, file as int); }
    compute_declaration_map(ast, bound, file).unwrap()
}

/// The declaration map of a file, or `None` where the file has a
/// declaration whose name cannot be read (a computed name without its
/// expression, an export without its name).
pub fn try_get_declaration_map(ast: &Ast, bound: bool, file: usize) -> (r: Option<DeclarationMap>)
    requires
        ast.wf(),
        ast.has(file as int),
    ensures
        match r {
            Some(m) => Some(m@) == spec_declaration_map(ast, bound, file as int) && entries_below(
                m@,
                ast.nodes@.len() as int,
            ) && spec_map_ok(m@),
            None => spec_declaration_map(ast, bound, file as int) is None,
        },
{
    proof { lemma_declaration_map_is_well_formed(ast, bound, file as int); }
    compute_declaration_map(ast, bound, file)
}


/// The kinds whose text a file's identifier set collects.
pub open spec fn spec_is_identifier_text_kind(k: SyntaxKind) -> bool {
    k == SyntaxKind::Identifier || k == SyntaxKind::PrivateIdentifier || k == SyntaxKind::StringLiteral || k
        == SyntaxKind::NumericLiteral || k == SyntaxKind::BigIntLiteral || k == SyntaxKind::NoSubstitutionTemplateLiteral
}

/// Whether node `i` or a descendant is a name or literal with text `name`.
pub open spec fn spec_tree_has_text(ast: &Ast, i: int, name: Seq<u8>) -> bool
    decreases i, 1int, 0int,
{
    &&& 0 <= i < ast.nodes@.len()
    &&& ((spec_is_identifier_text_kind(ast.kind_of(i)) && ast.nd(i).text@ == name) || spec_seq_has_text(
        ast,
        ast.nd(i).children@,
        i,
        name,
    ))
}

/// Whether one of the subtrees `s`, children of `parent`, has text `name`.
pub open spec fn spec_seq_has_text(ast: &Ast, s: Seq<usize>, parent: int, name: Seq<u8>) -> bool
    decreases parent, 0int, s.len(),
{
    s.len() > 0 && ((s[0] < parent && spec_tree_has_text(ast, s[0] as int, name)) || spec_seq_has_text(
        ast,
        s.drop_first(),
        parent,
        name,
    ))
}

fn is_identifier_text_kind(k: SyntaxKind) -> (r: bool)
    ensures
        r == spec_is_identifier_text_kind(k),
{
    matches!(
        k,
        SyntaxKind::Identifier | SyntaxKind::PrivateIdentifier | SyntaxKind::StringLiteral | SyntaxKind::NumericLiteral
            | SyntaxKind::BigIntLiteral | SyntaxKind::NoSubstitutionTemplateLiteral
    )
}

fn tree_has_text(ast: &Ast, node: usize, name: &[u8]) -> (r: bool)
    requires
        ast.wf(),
        ast.has(node as int),
    ensures
        r == spec_tree_has_text(ast, node as int, name@),
    decreases node, 1int, 0int,
{
    proof { lemma_links(ast, node as int); }
    let n = ast.node(node);
    if is_identifier_text_kind(n.kind) && bytes_equal(n.text.as_slice(), name) {
        return true;
    }
    seq_has_text(ast, &n.children, node, name)
}

fn seq_has_text(ast: &Ast, s: &Vec<usize>, parent: usize, name: &[u8]) -> (r: bool)
    requires
        ast.wf(),
        seq_below(s@, parent as int),
        parent <= ast.nodes@.len(),
    ensures
        r == spec_seq_has_text(ast, s@, parent as int, name@),
    decreases parent, 0int, s@.len(),
{
    let mut j: usize = 0;
    proof { assert(s@.subrange(0, s@.len() as int) == s@); }
    while j < s.len()
        invariant
            ast.wf(),
            j <= s@.len(),
            seq_below(s@, parent as int),
            parent <= ast.nodes@.len(),
            spec_seq_has_text(ast, s@, parent as int, name@) == spec_seq_has_text(
                ast,
                s@.subrange(j as int, s@.len() as int),
                parent as int,
                name@,
            ),
        decreases s@.len() - j,
    {
        let c = s[j];
        let ghost rest = s@.subrange(j as int, s@.len() as int);
        proof {
            assert(rest[0] == c);
            assert(rest.drop_first() == s@.subrange(j + 1, s@.len() as int));
        }
        if tree_has_text(ast, c, name) {
            return true;
        }
        j = j + 1;
    }
    false
}

/// Whether a name or literal of the file (the file included) has text `name`.
pub fn has_identifier(ast: &Ast, file: usize, name: &[u8]) -> (r: bool)
    requires
        ast.wf(),
        ast.has(file as int),
    ensures
        r == spec_tree_has_text(ast, file as int, name@),
{
    tree_has_text(ast, file, name)
}


/// Whether a literal serves as a name: a declaration name, an external
/// module reference, an element access argument, or a literal computed
/// property name of a declaration; `None` when a read on the way fails.
pub open spec fn spec_literal_is_name(ast: &Ast, i: int) -> Option<bool> {
    match pp(ast, i) {
        None => None,
        Some(p) => spec_or(
            spec_is_declaration_name(ast, i),
            spec_or(
                Some(ast.kind_of(p) == SyntaxKind::ExternalModuleReference || (ast.kind_of(p)
                    == SyntaxKind::ElementAccessExpression && ast.nd(p).argument == Some(i as usize))),
                spec_is_literal_computed_property_declaration_name(ast, i),
            ),
        ),
    }
}

pub fn literal_is_name(ast: &Ast, node: usize) -> (r: bool)
    requires
        ast.wf(),
        ast.has(node as int),
        spec_literal_is_name(ast, node as int) is Some,
    ensures
        Some(r) == spec_literal_is_name(ast, node as int),
{
    proof { lemma_pp(ast, node as int); }
    let p = ast.parent(node).unwrap();
    if is_declaration_name(ast, node) {
        return true;
    }
    let pk = ast.kind(p);
    if pk == SyntaxKind::ExternalModuleReference || (pk == SyntaxKind::ElementAccessExpression && ast.node(p).argument
        == Some(node)) {
        return true;
    }
    is_literal_computed_property_declaration_name(ast, node)
}


/// A well-formed declaration map: each name once, none empty, each with at
/// least one declaration.
pub open spec fn spec_map_ok(e: Seq<(Seq<u8>, Seq<usize>)>) -> bool {
    &&& forall|i: int, j: int| 0 <= i < j < e.len() ==> e[i].0 != e[j].0
    &&& forall|i: int| 0 <= i < e.len() ==> (#[trigger] e[i]).0.len() > 0 && e[i].1.len() > 0
}

proof fn lemma_file_ok(e: Seq<(Seq<u8>, Seq<usize>)>, name: Seq<u8>, d: usize)
    requires
        spec_map_ok(e),
    ensures
        spec_map_ok(spec_file(e, name, d)),
{
    lemma_find_in_bounds(e, name, e.len() as int);
    let r = spec_file(e, name, d);
    if name.len() > 0 {
        let k = spec_find(e, name);
        assert forall|i: int, j: int| 0 <= i < j < r.len() implies r[i].0 != r[j].0 by {
            if k < 0 && j == e.len() {
                assert(e[i].0 != name);
            } else {
                assert(r[i].0 == e[i].0 && r[j].0 == e[j].0);
            }
        }
        assert forall|i: int| 0 <= i < r.len() implies (#[trigger] r[i]).0.len() > 0 && r[i].1.len() > 0 by {
            if !(k >= 0 && i == k) && !(k < 0 && i == e.len()) {
                assert(r[i] == e[i]);
            }
        }
    }
}

proof fn lemma_file_function_ok(ast: &Ast, bound: bool, e: Seq<(Seq<u8>, Seq<usize>)>, name: Seq<u8>, i: int)
    requires
        spec_map_ok(e),
    ensures
        spec_map_ok(spec_file_function(ast, bound, e, name, i)),
{
    lemma_file_ok(e, name, i as usize);
    let idx = spec_find(e, name);
    lemma_find_in_bounds(e, name, e.len() as int);
    if idx >= 0 && e[idx].1.len() > 0 {
        let l = e[idx].1.last() as int;
        if ast.parent_of(i) == ast.parent_of(l) && spec_symbol_of(ast, bound, i) == spec_symbol_of(ast, bound, l)
            && ast.nd(i).body is Some && ast.nd(l).body is None {
            let r = e.update(idx, (e[idx].0, e[idx].1.update(e[idx].1.len() - 1, i as usize)));
            assert(r == spec_file_function(ast, bound, e, name, i));
            assert forall|a: int, b: int| 0 <= a < b < r.len() implies r[a].0 != r[b].0 by {
                assert(r[a].0 == e[a].0 && r[b].0 == e[b].0);
            }
            assert forall|a: int| 0 <= a < r.len() implies (#[trigger] r[a]).0.len() > 0 && r[a].1.len() > 0 by {
                assert(r[a].0 == e[a].0 && r[a].1.len() == e[a].1.len());
            }
        }
    }
}

proof fn lemma_add_ok(ast: &Ast, e: Seq<(Seq<u8>, Seq<usize>)>, d: int)
    requires
        spec_map_ok(e),
    ensures
        spec_add_declaration(ast, e, d) matches Some(r) ==> spec_map_ok(r),
{
    if let Some(name) = spec_declaration_name(ast, d) {
        lemma_file_ok(e, name, d as usize);
    }
}

proof fn lemma_visit_ok(ast: &Ast, bound: bool, e: Seq<(Seq<u8>, Seq<usize>)>, i: int)
    requires
        spec_map_ok(e),
    ensures
        spec_visit(ast, bound, e, i) matches Some(r) ==> spec_map_ok(r),
    decreases i, 1int, 0int,
{
    if 0 <= i < ast.nodes@.len() {
        let n = ast.nd(i);
        let k = n.kind;
        if spec_is_function_declaration_kind(k) {
            if let Some(name) = spec_declaration_name(ast, i) {
                let e1 = if name.len() == 0 { e } else { spec_file_function(ast, bound, e, name, i) };
                lemma_file_function_ok(ast, bound, e, name, i);
                lemma_visit_seq_ok(ast, bound, e1, n.children@, i);
            }
        } else if spec_is_named_container_kind(k) {
            lemma_add_ok(ast, e, i);
            if let Some(e1) = spec_add_declaration(ast, e, i) {
                lemma_visit_seq_ok(ast, bound, e1, n.children@, i);
            }
        } else if k == SyntaxKind::ImportSpecifier || k == SyntaxKind::ExportSpecifier {
            lemma_add_ok(ast, e, i);
        } else if k == SyntaxKind::Parameter && !spec_has_syntactic_modifier(
            ast,
            i,
            modifier_flags::PARAMETER_PROPERTY_MODIFIER,
        ) {
        } else if k == SyntaxKind::Parameter || k == SyntaxKind::VariableDeclaration || k == SyntaxKind::BindingElement {
            if let Some(nm) = n.name {
                if nm < i {
                    if spec_is_binding_pattern(ast.kind_of(nm as int)) {
                        lemma_visit_seq_ok(ast, bound, e, ast.nd(nm as int).children@, nm as int);
                    } else {
                        let e1 = match n.initializer {
                            Some(init) => if init < i { spec_visit(ast, bound, e, init as int) } else { Some(e) },
                            None => Some(e),
                        };
                        if let Some(init) = n.initializer {
                            if init < i {
                                lemma_visit_ok(ast, bound, e, init as int);
                            }
                        }
                        if let Some(e2) = e1 {
                            lemma_add_ok(ast, e2, i);
                        }
                    }
                }
            }
        } else if k == SyntaxKind::EnumMember || k == SyntaxKind::PropertyDeclaration || k == SyntaxKind::PropertySignature {
            lemma_add_ok(ast, e, i);
        } else if k == SyntaxKind::ExportDeclaration {
            if let Some(c) = n.export_clause {
                if c < i {
                    if ast.kind_of(c as int) == SyntaxKind::NamedExports {
                        lemma_visit_seq_ok(ast, bound, e, Ast::list(ast.nd(c as int).elements), c as int);
                    } else if let Some(m) = ast.nd(c as int).name {
                        if m < i {
                            lemma_visit_ok(ast, bound, e, m as int);
                        }
                    }
                }
            }
        } else if k == SyntaxKind::ImportDeclaration {
            if let Some(c) = n.import_clause {
                if c < i {
                    let cn = ast.nd(c as int);
                    let e1 = match cn.name {
                        Some(m) => spec_add_declaration(ast, e, m as int),
                        None => Some(e),
                    };
                    if let Some(m) = cn.name {
                        lemma_add_ok(ast, e, m as int);
                    }
                    if let Some(e2) = e1 {
                        if let Some(nb) = cn.named_bindings {
                            if ast.kind_of(nb as int) == SyntaxKind::NamespaceImport {
                                lemma_add_ok(ast, e2, nb as int);
                            } else if nb < i {
                                lemma_visit_seq_ok(ast, bound, e2, Ast::list(ast.nd(nb as int).elements), nb as int);
                            }
                        }
                    }
                }
            }
        } else if k == SyntaxKind::BinaryExpression {
            let ak = n.assignment_kind;
            let e1 = if ak == AssignmentKind::ExportsProperty || ak == AssignmentKind::ThisProperty || ak
                == AssignmentKind::Property {
                spec_add_declaration(ast, e, i)
            } else {
                Some(e)
            };
            lemma_add_ok(ast, e, i);
            if let Some(e2) = e1 {
                lemma_visit_seq_ok(ast, bound, e2, n.children@, i);
            }
        } else {
            lemma_visit_seq_ok(ast, bound, e, n.children@, i);
        }
    }
}

proof fn lemma_visit_seq_ok(ast: &Ast, bound: bool, e: Seq<(Seq<u8>, Seq<usize>)>, s: Seq<usize>, parent: int)
    requires
        spec_map_ok(e),
    ensures
        spec_visit_seq(ast, bound, e, s, parent) matches Some(r) ==> spec_map_ok(r),
    decreases parent, 0int, s.len(),
{
    if s.len() > 0 && s[0] < parent {
        lemma_visit_ok(ast, bound, e, s[0] as int);
        if let Some(e1) = spec_visit(ast, bound, e, s[0] as int) {
            lemma_visit_seq_ok(ast, bound, e1, s.drop_first(), parent);
        }
    }
}

/// A file's declaration map files each name once, never the empty name, and
/// every name it holds has at least one declaration.
pub proof fn lemma_declaration_map_is_well_formed(ast: &Ast, bound: bool, file: int)
    ensures
        spec_declaration_map(ast, bound, file) matches Some(e) ==> spec_map_ok(e),
{
    lemma_visit_seq_ok(ast, bound, Seq::empty(), ast.nd(file).children@, file);
}


/// A string or numeric literal that is the argument of an element access
/// (`o["foo"]`, `o[0]`) serves as a name.
pub proof fn lemma_element_access_argument_is_name(ast: &Ast, i: int)
    requires
        ast.wf(),
        ast.has(i),
        spec_is_string_or_numeric_literal_like(ast.kind_of(i)),
        ast.parent_of(i) matches Some(p) && ast.kind_of(p as int) == SyntaxKind::ElementAccessExpression && ast.nd(
            p as int,
        ).argument == Some(i as usize),
    ensures
        spec_literal_is_name(ast, i) == Some(true),
{
    lemma_pp(ast, i);
}

} // verus!
