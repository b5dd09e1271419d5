//! Syntax-tree utilities of a TypeScript front end, with a verified tree model.
pub mod ast;
pub mod modifier_flags;
pub mod node_flags;
pub mod syntax_kind;
pub mod kind_classes;
pub mod node_utils;
pub mod class_utils;
pub mod targets;
pub mod containers;
pub mod function_flags;
pub mod positions;
pub mod module_utils;
pub mod outer_expressions;
pub mod file_tables;
pub mod name_table;
pub mod modifier_update;
pub mod span_map;
pub mod creation_trace;
pub mod diagnostics;
pub mod bundled;
pub mod bundled_fs;
pub mod source_metadata;
pub mod evaluation;
pub mod name_utils;
pub mod tuple_inference;
pub mod semantic_meaning;
