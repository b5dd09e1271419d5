//! A file's name table: each name or name-like literal of the file (its
//! JSDoc included) with the position of its only occurrence, or -1 when it
//! occurs more than once.
use vstd::prelude::*;
use crate::ast::{seq_below, Ast};
use crate::file_tables::{literal_is_name, spec_literal_is_name};
use crate::kind_classes::{is_string_or_numeric_literal_like_kind, spec_is_string_or_numeric_literal_like};
use crate::node_utils::{bytes_equal, lemma_links};
use crate::syntax_kind::SyntaxKind;
use crate::targets::copy_bytes;

verus! {

/// The kinds of JSDoc tags.
pub open spec fn spec_is_jsdoc_tag(k: SyntaxKind) -> bool {
    k == SyntaxKind::JSDocTag || k == SyntaxKind::JSDocAugmentsTag || k == SyntaxKind::JSDocImplementsTag || k
        == SyntaxKind::JSDocDeprecatedTag || k == SyntaxKind::JSDocParameterTag || k == SyntaxKind::JSDocPropertyTag
        || k == SyntaxKind::JSDocTypedefTag || k == SyntaxKind::JSDocCallbackTag || k == SyntaxKind::JSDocReturnTag
        || k == SyntaxKind::JSDocTypeTag || k == SyntaxKind::JSDocTemplateTag
}

fn is_jsdoc_tag_kind(k: SyntaxKind) -> (r: bool)
    ensures
        r == spec_is_jsdoc_tag(k),
{
    matches!(
        k,
        SyntaxKind::JSDocTag | SyntaxKind::JSDocAugmentsTag | SyntaxKind::JSDocImplementsTag
            | SyntaxKind::JSDocDeprecatedTag | SyntaxKind::JSDocParameterTag | SyntaxKind::JSDocPropertyTag
            | SyntaxKind::JSDocTypedefTag | SyntaxKind::JSDocCallbackTag | SyntaxKind::JSDocReturnTag
            | SyntaxKind::JSDocTypeTag | SyntaxKind::JSDocTemplateTag
    )
}

/// The tag name of a JSDoc tag (`param` in `@param`).
pub open spec fn spec_is_tag_name(ast: &Ast, i: int) -> bool {
    ast.has_up(i) && spec_is_jsdoc_tag(ast.kind_of(ast.up(i))) && ast.nd(ast.up(i)).tag_name == Some(i as usize)
}

pub fn is_tag_name(ast: &Ast, node: usize) -> (r: bool)
    requires
        ast.wf(),
        ast.has(node as int),
    ensures
        r == spec_is_tag_name(ast, node as int),
{
    match ast.parent(node) {
        None => false,
        Some(p) => is_jsdoc_tag_kind(ast.kind(p)) && ast.node(p).tag_name == Some(node),
    }
}

/// Whether node `i` enters the name table: a non-empty identifier that is
/// not a tag name, a private identifier, or a literal that serves as a
/// name; `None` when the literal's test fails.
pub open spec fn spec_enters_table(ast: &Ast, i: int) -> Option<bool> {
    let k = ast.kind_of(i);
    if k == SyntaxKind::Identifier {
        Some(!spec_is_tag_name(ast, i) && ast.nd(i).text@.len() > 0)
    } else if k == SyntaxKind::PrivateIdentifier {
        Some(true)
    } else if spec_is_string_or_numeric_literal_like(k) {
        spec_literal_is_name(ast, i)
    } else {
        Some(false)
    }
}

/// The index of the entry named `k`, or -1.
pub open spec fn spec_table_find(t: Seq<(Seq<u8>, i32)>, k: Seq<u8>, n: int) -> int
    decreases n,
{
    if n <= 0 {
        -1
    } else {
        let r = spec_table_find(t, k, n - 1);
        if r >= 0 {
            r
        } else if t[n - 1].0 == k {
            n - 1
        } else {
            -1
        }
    }
}

proof fn lemma_table_find_stable(t: Seq<(Seq<u8>, i32)>, k: Seq<u8>, m: int, n: int)
    requires
        0 <= m <= n,
        spec_table_find(t, k, m) >= 0,
    ensures
        spec_table_find(t, k, n) == spec_table_find(t, k, m),
    decreases n - m,
{
    if n > m {
        lemma_table_find_stable(t, k, m, n - 1);
    }
}

proof fn lemma_table_find_bounds(t: Seq<(Seq<u8>, i32)>, k: Seq<u8>, n: int)
    requires
        0 <= n <= t.len(),
    ensures
        -1 <= spec_table_find(t, k, n) < n,
        spec_table_find(t, k, n) >= 0 ==> t[spec_table_find(t, k, n)].0 == k,
        spec_table_find(t, k, n) == -1 ==> forall|j: int| 0 <= j < n ==> t[j].0 != k,
        spec_table_find(t, k, n) >= 0 ==> forall|j: int| 0 <= j < spec_table_find(t, k, n) ==> t[j].0 != k,
    decreases n,
{
    if n > 0 {
        lemma_table_find_bounds(t, k, n - 1);
    }
}

/// Enters a name at a position: a name already present gets -1.
pub open spec fn spec_table_enter(t: Seq<(Seq<u8>, i32)>, name: Seq<u8>, pos: i32) -> Seq<(Seq<u8>, i32)> {
    let i = spec_table_find(t, name, t.len() as int);
    if i >= 0 {
        t.update(i, (name, -1i32))
    } else {
        t.push((name, pos))
    }
}

/// The table after walking node `i`: the node itself, its children, then
/// the children of each of its JSDoc comments. `None` when a test fails.
pub open spec fn spec_walk(ast: &Ast, t: Seq<(Seq<u8>, i32)>, i: int) -> Option<Seq<(Seq<u8>, i32)>>
    decreases i, 2int, 0int,
{
    if !(0 <= i < ast.nodes@.len()) {
        Some(t)
    } else {
        match spec_enters_table(ast, i) {
            None => None,
            Some(b) => {
                let t1 = if b { spec_table_enter(t, ast.nd(i).text@, ast.nd(i).pos) } else { t };
                match spec_walk_seq(ast, t1, ast.nd(i).children@, i) {
                    None => None,
                    Some(t2) => spec_walk_docs(ast, t2, ast.nd(i).jsdoc@, i),
                }
            },
        }
    }
}

/// The table after walking the subtrees `s`, children of `parent`.
pub open spec fn spec_walk_seq(ast: &Ast, t: Seq<(Seq<u8>, i32)>, s: Seq<usize>, parent: int) -> Option<Seq<(Seq<u8>, i32)>>
    decreases parent, 0int, s.len(),
{
    if s.len() == 0 {
        Some(t)
    } else if s[0] < parent {
        match spec_walk(ast, t, s[0] as int) {
            None => None,
            Some(t1) => spec_walk_seq(ast, t1, s.drop_first(), parent),
        }
    } else {
        Some(t)
    }
}

/// The table after walking the children of JSDoc comments `docs` of `owner`.
pub open spec fn spec_walk_docs(ast: &Ast, t: Seq<(Seq<u8>, i32)>, docs: Seq<usize>, owner: int) -> Option<Seq<(Seq<u8>, i32)>>
    decreases owner, 1int, docs.len(),
{
    if docs.len() == 0 {
        Some(t)
    } else if docs[0] < owner {
        match spec_walk_seq(ast, t, ast.nd(docs[0] as int).children@, docs[0] as int) {
            None => None,
            Some(t1) => spec_walk_docs(ast, t1, docs.drop_first(), owner),
        }
    } else {
        Some(t)
    }
}

/// The name table of a file: its children walked in order.
pub open spec fn spec_name_table(ast: &Ast, file: int) -> Option<Seq<(Seq<u8>, i32)>> {
    spec_walk_seq(ast, Seq::empty(), ast.nd(file).children@, file)
}

/// A name table: names with their single position, or -1.
#[derive(Debug)]
pub struct NameTable {
    pub entries: Vec<(Vec<u8>, i32)>,
}

pub open spec fn table_view(v: Seq<(Vec<u8>, i32)>) -> Seq<(Seq<u8>, i32)> {
    Seq::new(v.len(), |i: int| (v[i].0@, v[i].1))
}

impl View for NameTable {
    type V = Seq<(Seq<u8>, i32)>;

    open spec fn view(&self) -> Seq<(Seq<u8>, i32)> {
        table_view(self.entries@)
    }
}

impl NameTable {
    /// The position entered for `name`, if it was entered.
    pub fn get(&self, name: &[u8]) -> (r: Option<i32>)
        ensures
            ({
                let i = spec_table_find(self@, name@, self@.len() as int);
                r == if i >= 0 { Some(self@[i].1) } else { None::<i32> }
            }),
    {
        let mut j: usize = 0;
        while j < self.entries.len()
            invariant
                j <= self.entries@.len(),
                self@.len() == self.entries@.len(),
                spec_table_find(self@, name@, j as int) == -1,
            decreases self.entries@.len() - j,
        {
            if bytes_equal(self.entries[j].0.as_slice(), name) {
                proof {
                    assert(self@[j as int].0 == name@);
                    lemma_table_find_stable(self@, name@, j + 1, self@.len() as int);
                }
                return Some(self.entries[j].1);
            }
            j = j + 1;
        }
        None
    }

    fn enter(&mut self, name: Vec<u8>, pos: i32)
        ensures
            final(self)@ == spec_table_enter(old(self)@, name@, pos),
    {
        let ghost before = self@;
        proof { lemma_table_find_bounds(before, name@, before.len() as int); }
        let mut j: usize = 0;
        while j < self.entries.len()
            invariant
                j <= self.entries@.len(),
                self@ == before,
                before == old(self)@,
                spec_table_find(self@, name@, j as int) == -1,
            decreases self.entries@.len() - j,
        {
            if bytes_equal(self.entries[j].0.as_slice(), name.as_slice()) {
                proof {
                    assert(before[j as int].0 == name@);
                    lemma_table_find_stable(before, name@, j + 1, before.len() as int);
                    assert(spec_table_find(before, name@, before.len() as int) == j as int);
                }
                let ghost nm = name@;
                self.entries.set(j, (name, -1i32));
                proof {
                    assert(self@ =~= before.update(j as int, (nm, -1i32)));
                    assert(self@ == spec_table_enter(before, nm, pos));
                }
                return;
            }
            j = j + 1;
        }
        let ghost nm = name@;
        self.entries.push((name, pos));
        proof { assert(self@ =~= before.push((nm, pos))); }
    }
}

fn walk(ast: &Ast, table: &mut NameTable, node: usize)
    requires
        ast.wf(),
        ast.has(node as int),
        spec_walk(ast, old(table)@, node as int) is Some,
    ensures
        Some(final(table)@) == spec_walk(ast, old(table)@, node as int),
    decreases node, 2int, 0int,
{
    proof { lemma_links(ast, node as int); }
    let n = ast.node(node);
    let k = n.kind;
    let enters = if k == SyntaxKind::Identifier {
        !is_tag_name(ast, node) && n.text.len() > 0
    } else if k == SyntaxKind::PrivateIdentifier {
        true
    } else if is_string_or_numeric_literal_like_kind(k) {
        literal_is_name(ast, node)
    } else {
        false
    };
    if enters {
        table.enter(copy_bytes(&n.text), n.pos);
    }
    walk_seq(ast, table, &n.children, node);
    walk_docs(ast, table, &n.jsdoc, node);
}

fn walk_seq(ast: &Ast, table: &mut NameTable, s: &Vec<usize>, parent: usize)
    requires
        ast.wf(),
        seq_below(s@, parent as int),
        parent <= ast.nodes@.len(),
        spec_walk_seq(ast, old(table)@, s@, parent as int) is Some,
    ensures
        Some(final(table)@) == spec_walk_seq(ast, old(table)@, s@, parent as int),
    decreases parent, 0int, s@.len(),
{
    let mut j: usize = 0;
    proof { assert(s@.subrange(0, s@.len() as int) == s@); }
    while j < s.len()
        invariant
            ast.wf(),
            j <= s@.len(),
            seq_below(s@, parent as int),
            parent <= ast.nodes@.len(),
            spec_walk_seq(ast, old(table)@, s@, parent as int) == spec_walk_seq(
                ast,
                table@,
                s@.subrange(j as int, s@.len() as int),
                parent as int,
            ),
            spec_walk_seq(ast, old(table)@, s@, parent as int) is Some,
        decreases s@.len() - j,
    {
        let c = s[j];
        let ghost rest = s@.subrange(j as int, s@.len() as int);
        proof {
            assert(rest[0] == c);
            assert(rest.drop_first() == s@.subrange(j + 1, s@.len() as int));
        }
        walk(ast, table, c);
        j = j + 1;
    }
}

fn walk_docs(ast: &Ast, table: &mut NameTable, docs: &Vec<usize>, owner: usize)
    requires
        ast.wf(),
        seq_below(docs@, owner as int),
        owner <= ast.nodes@.len(),
        spec_walk_docs(ast, old(table)@, docs@, owner as int) is Some,
    ensures
        Some(final(table)@) == spec_walk_docs(ast, old(table)@, docs@, owner as int),
    decreases owner, 1int, docs@.len(),
{
    let mut j: usize = 0;
    proof { assert(docs@.subrange(0, docs@.len() as int) == docs@); }
    while j < docs.len()
        invariant
            ast.wf(),
            j <= docs@.len(),
            seq_below(docs@, owner as int),
            owner <= ast.nodes@.len(),
            spec_walk_docs(ast, old(table)@, docs@, owner as int) == spec_walk_docs(
                ast,
                table@,
                docs@.subrange(j as int, docs@.len() as int),
                owner as int,
            ),
            spec_walk_docs(ast, old(table)@, docs@, owner as int) is Some,
        decreases docs@.len() - j,
    {
        let d = docs[j];
        let ghost rest = docs@.subrange(j as int, docs@.len() as int);
        proof {
            assert(rest[0] == d);
            assert(rest.drop_first() == docs@.subrange(j + 1, docs@.len() as int));
            lemma_links(ast, d as int);
        }
        walk_seq(ast, table, &ast.node(d).children, d);
        j = j + 1;
    }
}

/// The name table of a file.
pub fn get_name_table(ast: &Ast, file: usize) -> (r: NameTable)
    requires
        ast.wf(),
        ast.has(file as int),
        spec_name_table(ast, file as int) is Some,
    ensures
        Some(r@) == spec_name_table(ast, file as int),
{
    proof { lemma_links(ast, file as int); }
    let mut table = NameTable { entries: Vec::new() };
    proof { assert(table@ =~= Seq::<(Seq<u8>, i32)>::empty()); }
    walk_seq(ast, &mut table, &ast.node(file).children, file);
    table
}


/// Each name occurs at most once in a table.
pub open spec fn spec_names_distinct(t: Seq<(Seq<u8>, i32)>) -> bool {
    forall|i: int, j: int| 0 <= i < j < t.len() ==> t[i].0 != t[j].0
}

/// Entering a name keeps the names of a table distinct.
pub proof fn lemma_enter_keeps_names_distinct(t: Seq<(Seq<u8>, i32)>, name: Seq<u8>, pos: i32)
    requires
        spec_names_distinct(t),
    ensures
        spec_names_distinct(spec_table_enter(t, name, pos)),
{
    lemma_table_find_bounds(t, name, t.len() as int);
    let r = spec_table_enter(t, name, pos);
    let k = spec_table_find(t, name, t.len() as int);
    assert forall|i: int, j: int| 0 <= i < j < r.len() implies r[i].0 != r[j].0 by {
        if k < 0 && j == t.len() {
            assert(t[i].0 != name);
        } else {
            assert(r[i].0 == t[i].0 && r[j].0 == t[j].0);
        }
    }
}

/// A name entered a second time loses its position: the table answers -1.
pub proof fn lemma_repeated_name_has_no_position(t: Seq<(Seq<u8>, i32)>, name: Seq<u8>, p: i32, q: i32)
    ensures
        ({
            let u = spec_table_enter(spec_table_enter(t, name, p), name, q);
            let i = spec_table_find(u, name, u.len() as int);
            i >= 0 && u[i].1 == -1
        }),
{
    lemma_table_find_bounds(t, name, t.len() as int);
    let t1 = spec_table_enter(t, name, p);
    let k = spec_table_find(t, name, t.len() as int);
    let i1 = if k >= 0 { k } else { t.len() as int };
    assert(t1[i1].0 == name);
    assert forall|j: int| 0 <= j < i1 implies t1[j].0 != name by {
        assert(t1[j] == t[j]);
    }
    lemma_find_prefix_none(t1, name, i1);
    lemma_table_find_stable(t1, name, i1 + 1, t1.len() as int);
    let u = spec_table_enter(t1, name, q);
    assert(u == t1.update(i1, (name, -1i32)));
    assert forall|j: int| 0 <= j < i1 implies u[j].0 != name by {
        assert(u[j] == t1[j]);
    }
    lemma_find_prefix_none(u, name, i1);
    lemma_table_find_stable(u, name, i1 + 1, u.len() as int);
}

/// No entry among the first `n` is named `name`, so the search finds none there.
proof fn lemma_find_prefix_none(t: Seq<(Seq<u8>, i32)>, name: Seq<u8>, n: int)
    requires
        0 <= n <= t.len(),
        forall|j: int| 0 <= j < n ==> t[j].0 != name,
    ensures
        spec_table_find(t, name, n) == -1,
    decreases n,
{
    if n > 0 {
        lemma_find_prefix_none(t, name, n - 1);
    }
}


/// A string or numeric literal that is the argument of an element access
/// enters the file's name table: the walk of the file enters its text at
/// its position.
pub proof fn lemma_element_access_argument_enters_table(ast: &Ast, i: int)
    requires
        ast.wf(),
        ast.has(i),
        ast.kind_of(i) == SyntaxKind::StringLiteral || ast.kind_of(i) == SyntaxKind::NumericLiteral || ast.kind_of(i)
            == SyntaxKind::NoSubstitutionTemplateLiteral,
        ast.parent_of(i) matches Some(p) && ast.kind_of(p as int) == SyntaxKind::ElementAccessExpression && ast.nd(
            p as int,
        ).argument == Some(i as usize),
    ensures
        spec_enters_table(ast, i) == Some(true),
{
    crate::file_tables::lemma_element_access_argument_is_name(ast, i);
}

} // verus!
