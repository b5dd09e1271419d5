use tsr_ast::ast::{Ast, Node, Symbol};
use tsr_ast::module_utils::{
    get_external_module_import_equals_declaration_expression, get_external_module_name, get_non_augmentation_declaration,
    import_from_module_specifier, is_emittable_import, is_export_namespace_as_default_declaration,
    is_external_module_augmentation, is_external_module_import_equals_declaration, is_external_module_indicator,
    is_module_with_string_literal_name, is_part_of_type_only_import_or_export_declaration, is_require_variable_statement,
    is_type_only_import_declaration, is_valid_type_only_alias_use_site, try_get_import_from_module_specifier,
};
use tsr_ast::node_flags;
use tsr_ast::syntax_kind::SyntaxKind as K;

fn mk(ast: &mut Ast, kind: K, f: impl FnOnce(&mut Node)) -> usize {
    let mut n = Node::new(kind, 0, 0);
    f(&mut n);
    ast.push(n).expect("links name existing nodes")
}

fn text(ast: &mut Ast, kind: K, t: &[u8]) -> usize {
    mk(ast, kind, |n| n.text = t.to_vec())
}

#[test]
fn import_equals_require_names_its_module_and_its_import() {
    let mut a = Ast::new();
    let lit = text(&mut a, K::StringLiteral, b"m");
    let emr = mk(&mut a, K::ExternalModuleReference, |n| {
        n.expression = Some(lit);
        n.children = vec![lit];
    });
    let x = text(&mut a, K::Identifier, b"x");
    let ied = mk(&mut a, K::ImportEqualsDeclaration, |n| {
        n.name = Some(x);
        n.module_reference = Some(emr);
        n.children = vec![x, emr];
    });
    let _file = mk(&mut a, K::SourceFile, |n| n.children = vec![ied]);
    assert!(is_external_module_import_equals_declaration(&a, ied));
    assert_eq!(get_external_module_import_equals_declaration_expression(&a, ied), Some(lit));
    assert_eq!(get_external_module_name(&a, ied), Some(lit));
    assert_eq!(try_get_import_from_module_specifier(&a, lit), Some(ied));
    assert_eq!(import_from_module_specifier(&a, lit), Some(ied));
    assert!(is_emittable_import(&a, ied));
    assert!(is_external_module_indicator(&a, ied));
    assert!(!is_external_module_import_equals_declaration(&a, x));
}

#[test]
fn a_type_only_import_clause_makes_its_specifiers_type_only() {
    let mut a = Ast::new();
    let name = text(&mut a, K::Identifier, b"a");
    let spec = mk(&mut a, K::ImportSpecifier, |n| {
        n.name = Some(name);
        n.children = vec![name];
    });
    let named = mk(&mut a, K::NamedImports, |n| {
        n.elements = Some(vec![spec]);
        n.children = vec![spec];
    });
    let clause = mk(&mut a, K::ImportClause, |n| {
        n.is_type_only = true;
        n.named_bindings = Some(named);
        n.children = vec![named];
    });
    let lit = text(&mut a, K::StringLiteral, b"m");
    let decl = mk(&mut a, K::ImportDeclaration, |n| {
        n.import_clause = Some(clause);
        n.module_specifier = Some(lit);
        n.children = vec![clause, lit];
    });
    assert!(is_type_only_import_declaration(&a, spec));
    assert!(is_type_only_import_declaration(&a, clause));
    assert!(is_part_of_type_only_import_or_export_declaration(&a, name));
    assert!(!is_emittable_import(&a, decl));
    assert_eq!(try_get_import_from_module_specifier(&a, lit), Some(decl));
    assert_eq!(get_external_module_name(&a, decl), Some(lit));
}

#[test]
fn a_require_call_argument_belongs_to_the_call() {
    let mut a = Ast::new();
    let callee = text(&mut a, K::Identifier, b"require");
    let lit = text(&mut a, K::StringLiteral, b"m");
    let call = mk(&mut a, K::CallExpression, |n| {
        n.expression = Some(callee);
        n.arguments = Some(vec![lit]);
        n.children = vec![callee, lit];
    });
    assert_eq!(try_get_import_from_module_specifier(&a, lit), Some(call));
    assert_eq!(get_external_module_name(&a, call), Some(lit));

    let other = text(&mut a, K::Identifier, b"load");
    let lit2 = text(&mut a, K::StringLiteral, b"m");
    let _call2 = mk(&mut a, K::CallExpression, |n| {
        n.expression = Some(other);
        n.arguments = Some(vec![lit2]);
        n.children = vec![other, lit2];
    });
    assert_eq!(try_get_import_from_module_specifier(&a, lit2), None);
}

#[test]
fn a_namespace_export_named_default() {
    let mut a = Ast::new();
    let d = text(&mut a, K::Identifier, b"default");
    let ns = mk(&mut a, K::NamespaceExport, |n| {
        n.name = Some(d);
        n.children = vec![d];
    });
    let decl = mk(&mut a, K::ExportDeclaration, |n| {
        n.export_clause = Some(ns);
        n.children = vec![ns];
    });
    assert!(is_export_namespace_as_default_declaration(&a, decl));
    let o = text(&mut a, K::Identifier, b"other");
    let ns2 = mk(&mut a, K::NamespaceExport, |n| {
        n.name = Some(o);
        n.children = vec![o];
    });
    let decl2 = mk(&mut a, K::ExportDeclaration, |n| {
        n.export_clause = Some(ns2);
        n.children = vec![ns2];
    });
    assert!(!is_export_namespace_as_default_declaration(&a, decl2));
    assert!(!is_export_namespace_as_default_declaration(&a, ns2));
}

fn require_statement(a: &mut Ast, argument_kind: K) -> usize {
    let callee = text(a, K::Identifier, b"require");
    let arg = text(a, argument_kind, b"m");
    let call = mk(a, K::CallExpression, |n| {
        n.expression = Some(callee);
        n.arguments = Some(vec![arg]);
        n.children = vec![callee, arg];
    });
    let x = text(a, K::Identifier, b"x");
    let decl = mk(a, K::VariableDeclaration, |n| {
        n.name = Some(x);
        n.initializer = Some(call);
        n.children = vec![x, call];
    });
    let list = mk(a, K::VariableDeclarationList, |n| {
        n.declarations = Some(vec![decl]);
        n.children = vec![decl];
    });
    mk(a, K::VariableStatement, |n| {
        n.declaration_list = Some(list);
        n.children = vec![list];
    })
}

#[test]
fn a_variable_statement_of_string_requires() {
    let mut a = Ast::new();
    let yes = require_statement(&mut a, K::StringLiteral);
    let no = require_statement(&mut a, K::NumericLiteral);
    assert!(is_require_variable_statement(&a, yes));
    assert!(!is_require_variable_statement(&a, no));
    let empty_list = mk(&mut a, K::VariableDeclarationList, |n| n.declarations = Some(vec![]));
    let empty = mk(&mut a, K::VariableStatement, |n| {
        n.declaration_list = Some(empty_list);
        n.children = vec![empty_list];
    });
    assert!(!is_require_variable_statement(&a, empty));
}

#[test]
fn type_only_aliases_are_valid_in_types_and_ambient_code_but_not_in_expressions() {
    let mut a = Ast::new();
    let in_type = text(&mut a, K::Identifier, b"T");
    let reference = mk(&mut a, K::TypeReference, |n| {
        n.name = Some(in_type);
        n.children = vec![in_type];
    });
    let in_expression = text(&mut a, K::Identifier, b"T");
    let statement = mk(&mut a, K::ExpressionStatement, |n| {
        n.expression = Some(in_expression);
        n.children = vec![in_expression];
    });
    let ambient = mk(&mut a, K::Identifier, |n| {
        n.text = b"T".to_vec();
        n.flags = node_flags::AMBIENT;
    });
    let statement2 = mk(&mut a, K::ExpressionStatement, |n| {
        n.expression = Some(ambient);
        n.children = vec![ambient];
    });
    let _file = mk(&mut a, K::SourceFile, |n| n.children = vec![reference, statement, statement2]);
    assert!(is_valid_type_only_alias_use_site(&a, in_type));
    assert!(!is_valid_type_only_alias_use_site(&a, in_expression));
    assert!(is_valid_type_only_alias_use_site(&a, ambient));
}

#[test]
fn module_augmentations_are_skipped_for_the_plain_declaration() {
    let mut a = Ast::new();
    let name = text(&mut a, K::StringLiteral, b"m");
    let augmentation = mk(&mut a, K::ModuleDeclaration, |n| {
        n.name = Some(name);
        n.children = vec![name];
    });
    let marker = mk(&mut a, K::ExportKeyword, |_| {});
    let file = mk(&mut a, K::SourceFile, |n| {
        n.external_module_indicator = Some(marker);
        n.children = vec![augmentation];
    });
    let plain_name = text(&mut a, K::Identifier, b"m");
    let plain = mk(&mut a, K::ModuleDeclaration, |n| {
        n.name = Some(plain_name);
        n.children = vec![plain_name];
    });
    let _other = mk(&mut a, K::SourceFile, |n| n.children = vec![plain]);
    assert!(is_module_with_string_literal_name(&a, augmentation));
    assert!(!is_module_with_string_literal_name(&a, plain));
    assert!(is_external_module_augmentation(&a, augmentation));
    assert!(!is_external_module_augmentation(&a, plain));
    let symbol = a
        .push_symbol(Symbol { flags: 0, declarations: vec![augmentation, plain], value_declaration: None })
        .unwrap();
    assert_eq!(get_non_augmentation_declaration(&a, symbol), Some(plain));
    assert_eq!(tsr_ast::module_utils::get_source_file_of_module(&a, symbol), Some(_other));
    assert_eq!(tsr_ast::node_utils::get_source_file_of_node(&a, Some(augmentation)), Some(file));
}
