use tsr_ast::ast::{Ast, ModuleInstanceState, Node};
use tsr_ast::class_utils::{
    get_all_accessor_declarations, get_class_extends_heritage_element, get_heritage_clause_element_name,
    get_implements_heritage_clause_elements, is_name_of_heritage_clause_type_reference, is_this_parameter,
};
use tsr_ast::containers::{get_containing_function, get_function_flags, get_this_container};
use tsr_ast::function_flags;
use tsr_ast::node_utils::{has_syntactic_modifier, is_static, is_this_identifier};
use tsr_ast::modifier_flags;
use tsr_ast::positions::{
    get_access_kind, get_declaration_from_name, get_meaning_from_declaration, is_expression_node, is_part_of_type_node,
    is_write_access, AccessKind,
};
use tsr_ast::semantic_meaning;
use tsr_ast::syntax_kind::SyntaxKind as K;
use tsr_ast::targets::{get_property_name_for_property_name_node, get_text_of_property_name, is_iteration_statement};

fn mk(ast: &mut Ast, kind: K, f: impl FnOnce(&mut Node)) -> usize {
    let mut n = Node::new(kind, 0, 0);
    f(&mut n);
    ast.push(n).expect("links name existing nodes")
}

fn ident(ast: &mut Ast, t: &[u8]) -> usize {
    mk(ast, K::Identifier, |n| n.text = t.to_vec())
}

#[test]
fn function_flags_of_async_generators_arrows_and_non_functions() {
    let mut a = Ast::new();
    let async_kw = mk(&mut a, K::AsyncKeyword, |_| {});
    let body = mk(&mut a, K::Block, |_| {});
    let method = mk(&mut a, K::MethodDeclaration, |n| {
        n.modifiers = Some(vec![async_kw]);
        n.has_asterisk = true;
        n.body = Some(body);
        n.children = vec![async_kw, body];
    });
    assert_eq!(get_function_flags(&a, Some(method)), function_flags::GENERATOR | function_flags::ASYNC);
    let async_kw2 = mk(&mut a, K::AsyncKeyword, |_| {});
    let arrow = mk(&mut a, K::ArrowFunction, |n| {
        n.modifiers = Some(vec![async_kw2]);
        n.has_asterisk = true;
    });
    assert_eq!(get_function_flags(&a, Some(arrow)), function_flags::ASYNC | function_flags::INVALID);
    let class = mk(&mut a, K::ClassDeclaration, |_| {});
    assert_eq!(get_function_flags(&a, Some(class)), function_flags::INVALID);
    assert_eq!(get_function_flags(&a, None), function_flags::INVALID);
}

#[test]
fn this_in_an_arrow_inside_a_method() {
    let mut a = Ast::new();
    let this = mk(&mut a, K::ThisKeyword, |_| {});
    let statement = mk(&mut a, K::ExpressionStatement, |n| {
        n.expression = Some(this);
        n.children = vec![this];
    });
    let arrow_body = mk(&mut a, K::Block, |n| n.children = vec![statement]);
    let arrow = mk(&mut a, K::ArrowFunction, |n| {
        n.body = Some(arrow_body);
        n.children = vec![arrow_body];
    });
    let outer = mk(&mut a, K::ExpressionStatement, |n| {
        n.expression = Some(arrow);
        n.children = vec![arrow];
    });
    let body = mk(&mut a, K::Block, |n| n.children = vec![outer]);
    let name = ident(&mut a, b"m");
    let method = mk(&mut a, K::MethodDeclaration, |n| {
        n.name = Some(name);
        n.body = Some(body);
        n.children = vec![name, body];
    });
    let class = mk(&mut a, K::ClassDeclaration, |n| {
        n.members = Some(vec![method]);
        n.children = vec![method];
    });
    let _file = mk(&mut a, K::SourceFile, |n| n.children = vec![class]);
    assert_eq!(get_this_container(&a, this, false, false), method);
    assert_eq!(get_this_container(&a, this, true, false), arrow);
    assert_eq!(get_containing_function(&a, this), Some(arrow));
    assert_eq!(get_containing_function(&a, arrow), Some(method));
}

#[test]
fn names_types_and_write_access() {
    let mut a = Ast::new();
    let tname = ident(&mut a, b"T");
    let tref = mk(&mut a, K::TypeReference, |n| {
        n.name = Some(tname);
        n.children = vec![tname];
    });
    let x = ident(&mut a, b"x");
    let decl = mk(&mut a, K::VariableDeclaration, |n| {
        n.name = Some(x);
        n.type_node = Some(tref);
        n.children = vec![x, tref];
    });
    let list = mk(&mut a, K::VariableDeclarationList, |n| {
        n.declarations = Some(vec![decl]);
        n.children = vec![decl];
    });
    let var = mk(&mut a, K::VariableStatement, |n| {
        n.declaration_list = Some(list);
        n.children = vec![list];
    });
    let target = ident(&mut a, b"x");
    let eq = mk(&mut a, K::EqualsToken, |_| {});
    let one = mk(&mut a, K::NumericLiteral, |n| n.text = b"1".to_vec());
    let assign = mk(&mut a, K::BinaryExpression, |n| {
        n.left = Some(target);
        n.operator_token = Some(eq);
        n.right = Some(one);
        n.children = vec![target, eq, one];
    });
    let target2 = ident(&mut a, b"x");
    let plus_eq = mk(&mut a, K::PlusEqualsToken, |_| {});
    let two = mk(&mut a, K::NumericLiteral, |n| n.text = b"2".to_vec());
    let compound = mk(&mut a, K::BinaryExpression, |n| {
        n.left = Some(target2);
        n.operator_token = Some(plus_eq);
        n.right = Some(two);
        n.children = vec![target2, plus_eq, two];
    });
    let s1 = mk(&mut a, K::ExpressionStatement, |n| {
        n.expression = Some(assign);
        n.children = vec![assign];
    });
    let s2 = mk(&mut a, K::ExpressionStatement, |n| {
        n.expression = Some(compound);
        n.children = vec![compound];
    });
    let _file = mk(&mut a, K::SourceFile, |n| n.children = vec![var, s1, s2]);
    assert!(is_part_of_type_node(&a, tname));
    assert!(!is_part_of_type_node(&a, x));
    assert!(is_expression_node(&a, one));
    assert_eq!(get_declaration_from_name(&a, Some(x)), Some(decl));
    assert_eq!(get_access_kind(&a, target), AccessKind::Write);
    assert_eq!(get_access_kind(&a, target2), AccessKind::ReadWrite);
    assert_eq!(get_access_kind(&a, one), AccessKind::Read);
    assert!(is_write_access(&a, target));
    assert!(!is_write_access(&a, one));
}

#[test]
fn meanings_of_declarations() {
    let mut a = Ast::new();
    let class = mk(&mut a, K::ClassDeclaration, |_| {});
    let interface = mk(&mut a, K::InterfaceDeclaration, |_| {});
    let function = mk(&mut a, K::FunctionDeclaration, |_| {});
    let ns_name = ident(&mut a, b"N");
    let namespace = mk(&mut a, K::ModuleDeclaration, |n| {
        n.name = Some(ns_name);
        n.children = vec![ns_name];
    });
    let ns_name2 = ident(&mut a, b"M");
    let instantiated = mk(&mut a, K::ModuleDeclaration, |n| {
        n.name = Some(ns_name2);
        n.instance_state = ModuleInstanceState::Instantiated;
        n.children = vec![ns_name2];
    });
    assert_eq!(get_meaning_from_declaration(&a, class), semantic_meaning::VALUE | semantic_meaning::TYPE);
    assert_eq!(get_meaning_from_declaration(&a, interface), semantic_meaning::TYPE);
    assert_eq!(get_meaning_from_declaration(&a, function), semantic_meaning::VALUE);
    assert_eq!(get_meaning_from_declaration(&a, namespace), semantic_meaning::NAMESPACE);
    assert_eq!(
        get_meaning_from_declaration(&a, instantiated),
        semantic_meaning::NAMESPACE | semantic_meaning::VALUE
    );
}

#[test]
fn static_members_and_this_parameters() {
    let mut a = Ast::new();
    let st = mk(&mut a, K::StaticKeyword, |_| {});
    let pn = ident(&mut a, b"p");
    let prop = mk(&mut a, K::PropertyDeclaration, |n| {
        n.modifiers = Some(vec![st]);
        n.name = Some(pn);
        n.children = vec![st, pn];
    });
    assert!(is_static(&a, prop));
    assert!(has_syntactic_modifier(&a, prop, modifier_flags::STATIC));
    assert!(!has_syntactic_modifier(&a, prop, modifier_flags::EXPORT));
    let this_name = ident(&mut a, b"this");
    let param = mk(&mut a, K::Parameter, |n| {
        n.name = Some(this_name);
        n.children = vec![this_name];
    });
    assert!(is_this_identifier(&a, this_name));
    assert!(is_this_parameter(&a, param));
    let other = ident(&mut a, b"that");
    assert!(!is_this_identifier(&a, other));
}

#[test]
fn heritage_clauses_of_a_class() {
    let mut a = Ast::new();
    let base = ident(&mut a, b"Base");
    let ext = mk(&mut a, K::ExpressionWithTypeArguments, |n| {
        n.expression = Some(base);
        n.children = vec![base];
    });
    let extends = mk(&mut a, K::HeritageClause, |n| {
        n.token = K::ExtendsKeyword;
        n.types = Some(vec![ext]);
        n.children = vec![ext];
    });
    let iface = ident(&mut a, b"I");
    let imp = mk(&mut a, K::ExpressionWithTypeArguments, |n| {
        n.expression = Some(iface);
        n.children = vec![iface];
    });
    let implements = mk(&mut a, K::HeritageClause, |n| {
        n.token = K::ImplementsKeyword;
        n.types = Some(vec![imp]);
        n.children = vec![imp];
    });
    let class = mk(&mut a, K::ClassDeclaration, |n| {
        n.heritage_clauses = Some(vec![extends, implements]);
        n.children = vec![extends, implements];
    });
    assert_eq!(get_class_extends_heritage_element(&a, class), Some(ext));
    assert_eq!(get_implements_heritage_clause_elements(&a, class), vec![imp]);
    assert_eq!(get_heritage_clause_element_name(&a, ext), Some(base));

    let tname = ident(&mut a, b"J");
    let tref = mk(&mut a, K::TypeReference, |n| {
        n.name = Some(tname);
        n.children = vec![tname];
    });
    let _clause = mk(&mut a, K::HeritageClause, |n| {
        n.token = K::ExtendsKeyword;
        n.types = Some(vec![tref]);
        n.children = vec![tref];
    });
    assert!(is_name_of_heritage_clause_type_reference(&a, tname));
}

#[test]
fn accessor_pairs_are_found_among_the_declarations() {
    let mut a = Ast::new();
    let gn = ident(&mut a, b"v");
    let getter = mk(&mut a, K::GetAccessor, |n| {
        n.pos = 0;
        n.end = 10;
        n.name = Some(gn);
        n.children = vec![gn];
    });
    let sn = ident(&mut a, b"v");
    let setter = mk(&mut a, K::SetAccessor, |n| {
        n.pos = 20;
        n.end = 30;
        n.name = Some(sn);
        n.children = vec![sn];
    });
    let on = ident(&mut a, b"w");
    let other = mk(&mut a, K::GetAccessor, |n| {
        n.name = Some(on);
        n.children = vec![on];
    });
    let all = get_all_accessor_declarations(&a, &[getter, other, setter], setter);
    assert_eq!(all.get_accessor, Some(getter));
    assert_eq!(all.set_accessor, Some(setter));
    assert_eq!(all.first_accessor, Some(getter));
    assert_eq!(all.second_accessor, Some(setter));
    // Asked from the getter, the order is still by position.
    let from_getter = get_all_accessor_declarations(&a, &[setter, other, getter], getter);
    assert_eq!((from_getter.first_accessor, from_getter.second_accessor), (Some(getter), Some(setter)));
    assert_eq!(from_getter.set_accessor, Some(setter));
    // An accessor with no partner stands alone.
    let alone = get_all_accessor_declarations(&a, &[getter, other, setter], other);
    assert_eq!((alone.first_accessor, alone.second_accessor), (Some(other), None));
    assert_eq!((alone.get_accessor, alone.set_accessor), (Some(other), None));
}

#[test]
fn property_names_of_literals_and_signed_numbers() {
    let mut a = Ast::new();
    let one = mk(&mut a, K::NumericLiteral, |n| n.text = b"1".to_vec());
    let minus = mk(&mut a, K::PrefixUnaryExpression, |n| {
        n.token = K::MinusToken;
        n.operand = Some(one);
        n.children = vec![one];
    });
    let computed = mk(&mut a, K::ComputedPropertyName, |n| {
        n.expression = Some(minus);
        n.children = vec![minus];
    });
    assert_eq!(get_property_name_for_property_name_node(&a, computed), b"-1".to_vec());
    let id = ident(&mut a, b"k");
    assert_eq!(get_text_of_property_name(&a, id), b"k".to_vec());
    let call = mk(&mut a, K::CallExpression, |_| {});
    let computed2 = mk(&mut a, K::ComputedPropertyName, |n| {
        n.expression = Some(call);
        n.children = vec![call];
    });
    assert_eq!(get_text_of_property_name(&a, computed2), Vec::<u8>::new());
}

#[test]
fn labeled_loops_are_iteration_statements_when_labels_are_looked_into() {
    let mut a = Ast::new();
    let body = mk(&mut a, K::Block, |_| {});
    let lp = mk(&mut a, K::ForStatement, |n| {
        n.statement = Some(body);
        n.children = vec![body];
    });
    let label = ident(&mut a, b"outer");
    let labeled = mk(&mut a, K::LabeledStatement, |n| {
        n.statement = Some(lp);
        n.children = vec![label, lp];
    });
    assert!(is_iteration_statement(&a, lp, false));
    assert!(is_iteration_statement(&a, labeled, true));
    assert!(!is_iteration_statement(&a, labeled, false));
}

#[test]
fn property_name_text_of_literal_computed_jsx_and_other_names() {
    let mut a = Ast::new();
    let lit = mk(&mut a, K::StringLiteral, |n| n.text = b"s".to_vec());
    assert_eq!(get_text_of_property_name(&a, lit), b"s".to_vec());
    let inner = mk(&mut a, K::NumericLiteral, |n| n.text = b"7".to_vec());
    let computed = mk(&mut a, K::ComputedPropertyName, |n| {
        n.expression = Some(inner);
        n.children = vec![inner];
    });
    assert_eq!(get_text_of_property_name(&a, computed), b"7".to_vec());
    let ns = ident(&mut a, b"svg");
    let name = ident(&mut a, b"rect");
    let jsx = mk(&mut a, K::JsxNamespacedName, |n| {
        n.namespace = Some(ns);
        n.name = Some(name);
        n.children = vec![ns, name];
    });
    assert_eq!(get_text_of_property_name(&a, jsx), b"svg:rect".to_vec());
    let block = mk(&mut a, K::Block, |_| {});
    assert_eq!(get_text_of_property_name(&a, block), Vec::<u8>::new());
}
