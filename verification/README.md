# tsr_ast

Syntax-tree utilities of a TypeScript front end, written in Verus and proved
against their contracts.

The tree is an arena (`src/ast.rs`): every node names its children by id,
every link names an earlier node and every parent a later one, so each walk
over the tree terminates and each query is a recursive spec function over
the arena. The other modules answer questions about that tree:

- `kind_classes`, `node_utils`, `targets`, `positions`, `containers`,
  `class_utils`, `module_utils`, `outer_expressions`: classification of nodes
  and walks to their containers, targets and declarations;
- `file_tables`, `name_table`: a file's declaration map and name table, and
  per-file data computed once per key;
- `modifier_update`: replacing a node's modifier list;
- `span_map`: mapping spans of generated text back to the source text;
- `bundled`, `bundled_fs`: the bundled library table and the read-only
  file tree that serves it (`stat`, reads, listings, walks);
- `diagnostics`, `creation_trace`, `source_metadata`,
  `name_utils`, `tuple_inference`: diagnostics, traces, module formats,
  name helpers and the plan of tuple inference.

`app/` holds the process-wide plumbing that Verus does not see: the
thread's trace slot with its JSON events, the global counters, and the
loop that hands a bundled walk's visits to a caller's callback.
`tests/` exercises the library on concrete trees.

## What the library does not cover

Some parts of the front end that these utilities come from are not here,
because what they rest on is not available to this crate:

- the type checker's operations (tuple, object and mapped inference, enum
  evaluation, import types, binary operators): they read the checker's
  type store, which this crate does not have; only the plan of tuple
  inference is here;
- token navigation (the token at, before or after a position): it is
  driven by the scanner and the token cache;
- constant evaluation: it computes in floating point;
- sorting a diagnostics collection, localizing and printing messages,
  and building diagnostics from serialized form: they rest on the
  diagnostic comparator and the message tables;
- the contents of the bundled libraries: `app/` lists their names, and the
  build that ships them embeds the bytes.
