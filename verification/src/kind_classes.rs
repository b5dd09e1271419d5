//! Kind classes: which syntax kinds belong to each class the utilities test.
use vstd::prelude::*;
use crate::syntax_kind::SyntaxKind;

verus! {

/// Whether a kind is function-like: a declaration or type with a signature.
pub open spec fn spec_is_function_like(k: SyntaxKind) -> bool {
    k == SyntaxKind::FunctionDeclaration || k == SyntaxKind::MethodDeclaration || k == SyntaxKind::Constructor || k == SyntaxKind::GetAccessor || k == SyntaxKind::SetAccessor || k == SyntaxKind::FunctionExpression || k == SyntaxKind::ArrowFunction || k == SyntaxKind::MethodSignature || k == SyntaxKind::CallSignature || k == SyntaxKind::JSDocSignature || k == SyntaxKind::ConstructSignature || k == SyntaxKind::IndexSignature || k == SyntaxKind::FunctionType || k == SyntaxKind::ConstructorType
}

/// Whether a kind is function-like: a declaration or type with a signature.
pub fn is_function_like_kind(k: SyntaxKind) -> (r: bool)
    ensures
        r == spec_is_function_like(k),
{
    matches!(k, SyntaxKind::FunctionDeclaration | SyntaxKind::MethodDeclaration | SyntaxKind::Constructor | SyntaxKind::GetAccessor | SyntaxKind::SetAccessor | SyntaxKind::FunctionExpression | SyntaxKind::ArrowFunction | SyntaxKind::MethodSignature | SyntaxKind::CallSignature | SyntaxKind::JSDocSignature | SyntaxKind::ConstructSignature | SyntaxKind::IndexSignature | SyntaxKind::FunctionType | SyntaxKind::ConstructorType)
}

/// Whether a kind is a class declaration or expression.
pub open spec fn spec_is_class_like(k: SyntaxKind) -> bool {
    k == SyntaxKind::ClassDeclaration || k == SyntaxKind::ClassExpression
}

/// Whether a kind is a class declaration or expression.
pub fn is_class_like_kind(k: SyntaxKind) -> (r: bool)
    ensures
        r == spec_is_class_like(k),
{
    matches!(k, SyntaxKind::ClassDeclaration | SyntaxKind::ClassExpression)
}

/// Whether a kind is a class element.
pub open spec fn spec_is_class_element(k: SyntaxKind) -> bool {
    k == SyntaxKind::Constructor || k == SyntaxKind::PropertyDeclaration || k == SyntaxKind::MethodDeclaration || k == SyntaxKind::GetAccessor || k == SyntaxKind::SetAccessor || k == SyntaxKind::IndexSignature || k == SyntaxKind::ClassStaticBlockDeclaration || k == SyntaxKind::SemicolonClassElement
}

/// Whether a kind is a class element.
pub fn is_class_element_kind(k: SyntaxKind) -> (r: bool)
    ensures
        r == spec_is_class_element(k),
{
    matches!(k, SyntaxKind::Constructor | SyntaxKind::PropertyDeclaration | SyntaxKind::MethodDeclaration | SyntaxKind::GetAccessor | SyntaxKind::SetAccessor | SyntaxKind::IndexSignature | SyntaxKind::ClassStaticBlockDeclaration | SyntaxKind::SemicolonClassElement)
}

/// Whether a kind is a type element.
pub open spec fn spec_is_type_element(k: SyntaxKind) -> bool {
    k == SyntaxKind::ConstructSignature || k == SyntaxKind::CallSignature || k == SyntaxKind::PropertySignature || k == SyntaxKind::MethodSignature || k == SyntaxKind::IndexSignature || k == SyntaxKind::GetAccessor || k == SyntaxKind::SetAccessor
}

/// Whether a kind is a type element.
pub fn is_type_element_kind(k: SyntaxKind) -> (r: bool)
    ensures
        r == spec_is_type_element(k),
{
    matches!(k, SyntaxKind::ConstructSignature | SyntaxKind::CallSignature | SyntaxKind::PropertySignature | SyntaxKind::MethodSignature | SyntaxKind::IndexSignature | SyntaxKind::GetAccessor | SyntaxKind::SetAccessor)
}

/// Whether a kind is a get or set accessor.
pub open spec fn spec_is_accessor(k: SyntaxKind) -> bool {
    k == SyntaxKind::GetAccessor || k == SyntaxKind::SetAccessor
}

/// Whether a kind is a get or set accessor.
pub fn is_accessor_kind(k: SyntaxKind) -> (r: bool)
    ensures
        r == spec_is_accessor(k),
{
    matches!(k, SyntaxKind::GetAccessor | SyntaxKind::SetAccessor)
}

/// Whether a kind is a declaration kind.
pub open spec fn spec_is_declaration(k: SyntaxKind) -> bool {
    k == SyntaxKind::ArrowFunction || k == SyntaxKind::BindingElement || k == SyntaxKind::ClassDeclaration || k == SyntaxKind::ClassExpression || k == SyntaxKind::ClassStaticBlockDeclaration || k == SyntaxKind::Constructor || k == SyntaxKind::EnumDeclaration || k == SyntaxKind::EnumMember || k == SyntaxKind::ExportSpecifier || k == SyntaxKind::FunctionDeclaration || k == SyntaxKind::FunctionExpression || k == SyntaxKind::GetAccessor || k == SyntaxKind::ImportClause || k == SyntaxKind::ImportEqualsDeclaration || k == SyntaxKind::ImportSpecifier || k == SyntaxKind::InterfaceDeclaration || k == SyntaxKind::JsxAttribute || k == SyntaxKind::MethodDeclaration || k == SyntaxKind::MethodSignature || k == SyntaxKind::ModuleDeclaration || k == SyntaxKind::NamespaceExportDeclaration || k == SyntaxKind::NamespaceImport || k == SyntaxKind::NamespaceExport || k == SyntaxKind::Parameter || k == SyntaxKind::PropertyAssignment || k == SyntaxKind::PropertyDeclaration || k == SyntaxKind::PropertySignature || k == SyntaxKind::SetAccessor || k == SyntaxKind::ShorthandPropertyAssignment || k == SyntaxKind::TypeAliasDeclaration || k == SyntaxKind::JSTypeAliasDeclaration || k == SyntaxKind::TypeParameter || k == SyntaxKind::VariableDeclaration || k == SyntaxKind::JSDocTypedefTag || k == SyntaxKind::JSDocCallbackTag || k == SyntaxKind::JSDocPropertyTag || k == SyntaxKind::JSDocParameterTag
}

/// Whether a kind is a declaration kind.
pub fn is_declaration_kind(k: SyntaxKind) -> (r: bool)
    ensures
        r == spec_is_declaration(k),
{
    matches!(k, SyntaxKind::ArrowFunction | SyntaxKind::BindingElement | SyntaxKind::ClassDeclaration | SyntaxKind::ClassExpression | SyntaxKind::ClassStaticBlockDeclaration | SyntaxKind::Constructor | SyntaxKind::EnumDeclaration | SyntaxKind::EnumMember | SyntaxKind::ExportSpecifier | SyntaxKind::FunctionDeclaration | SyntaxKind::FunctionExpression | SyntaxKind::GetAccessor | SyntaxKind::ImportClause | SyntaxKind::ImportEqualsDeclaration | SyntaxKind::ImportSpecifier | SyntaxKind::InterfaceDeclaration | SyntaxKind::JsxAttribute | SyntaxKind::MethodDeclaration | SyntaxKind::MethodSignature | SyntaxKind::ModuleDeclaration | SyntaxKind::NamespaceExportDeclaration | SyntaxKind::NamespaceImport | SyntaxKind::NamespaceExport | SyntaxKind::Parameter | SyntaxKind::PropertyAssignment | SyntaxKind::PropertyDeclaration | SyntaxKind::PropertySignature | SyntaxKind::SetAccessor | SyntaxKind::ShorthandPropertyAssignment | SyntaxKind::TypeAliasDeclaration | SyntaxKind::JSTypeAliasDeclaration | SyntaxKind::TypeParameter | SyntaxKind::VariableDeclaration | SyntaxKind::JSDocTypedefTag | SyntaxKind::JSDocCallbackTag | SyntaxKind::JSDocPropertyTag | SyntaxKind::JSDocParameterTag)
}

/// Whether a kind is a string, template or numeric literal.
pub open spec fn spec_is_string_or_numeric_literal_like(k: SyntaxKind) -> bool {
    k == SyntaxKind::StringLiteral || k == SyntaxKind::NoSubstitutionTemplateLiteral || k == SyntaxKind::NumericLiteral
}

/// Whether a kind is a string, template or numeric literal.
pub fn is_string_or_numeric_literal_like_kind(k: SyntaxKind) -> (r: bool)
    ensures
        r == spec_is_string_or_numeric_literal_like(k),
{
    matches!(k, SyntaxKind::StringLiteral | SyntaxKind::NoSubstitutionTemplateLiteral | SyntaxKind::NumericLiteral)
}

/// Whether a kind can name a property.
pub open spec fn spec_is_property_name(k: SyntaxKind) -> bool {
    k == SyntaxKind::Identifier || k == SyntaxKind::PrivateIdentifier || k == SyntaxKind::StringLiteral || k == SyntaxKind::NumericLiteral || k == SyntaxKind::ComputedPropertyName
}

/// Whether a kind can name a property.
pub fn is_property_name_kind(k: SyntaxKind) -> (r: bool)
    ensures
        r == spec_is_property_name(k),
{
    matches!(k, SyntaxKind::Identifier | SyntaxKind::PrivateIdentifier | SyntaxKind::StringLiteral | SyntaxKind::NumericLiteral | SyntaxKind::ComputedPropertyName)
}

/// Whether a kind is a binding pattern.
pub open spec fn spec_is_binding_pattern(k: SyntaxKind) -> bool {
    k == SyntaxKind::ObjectBindingPattern || k == SyntaxKind::ArrayBindingPattern
}

/// Whether a kind is a binding pattern.
pub fn is_binding_pattern_kind(k: SyntaxKind) -> (r: bool)
    ensures
        r == spec_is_binding_pattern(k),
{
    matches!(k, SyntaxKind::ObjectBindingPattern | SyntaxKind::ArrayBindingPattern)
}

/// Whether a kind is a left-hand-side expression.
pub open spec fn spec_is_left_hand_side_expression(k: SyntaxKind) -> bool {
    k == SyntaxKind::PropertyAccessExpression || k == SyntaxKind::ElementAccessExpression || k == SyntaxKind::NewExpression || k == SyntaxKind::CallExpression || k == SyntaxKind::JsxElement || k == SyntaxKind::JsxSelfClosingElement || k == SyntaxKind::JsxFragment || k == SyntaxKind::TaggedTemplateExpression || k == SyntaxKind::ArrayLiteralExpression || k == SyntaxKind::ParenthesizedExpression || k == SyntaxKind::ObjectLiteralExpression || k == SyntaxKind::ClassExpression || k == SyntaxKind::FunctionExpression || k == SyntaxKind::Identifier || k == SyntaxKind::PrivateIdentifier || k == SyntaxKind::RegularExpressionLiteral || k == SyntaxKind::NumericLiteral || k == SyntaxKind::BigIntLiteral || k == SyntaxKind::StringLiteral || k == SyntaxKind::NoSubstitutionTemplateLiteral || k == SyntaxKind::TemplateExpression || k == SyntaxKind::FalseKeyword || k == SyntaxKind::NullKeyword || k == SyntaxKind::ThisKeyword || k == SyntaxKind::TrueKeyword || k == SyntaxKind::SuperKeyword || k == SyntaxKind::NonNullExpression || k == SyntaxKind::ExpressionWithTypeArguments || k == SyntaxKind::MetaProperty || k == SyntaxKind::ImportKeyword
}

/// Whether a kind is a left-hand-side expression.
pub fn is_left_hand_side_expression_kind(k: SyntaxKind) -> (r: bool)
    ensures
        r == spec_is_left_hand_side_expression(k),
{
    matches!(k, SyntaxKind::PropertyAccessExpression | SyntaxKind::ElementAccessExpression | SyntaxKind::NewExpression | SyntaxKind::CallExpression | SyntaxKind::JsxElement | SyntaxKind::JsxSelfClosingElement | SyntaxKind::JsxFragment | SyntaxKind::TaggedTemplateExpression | SyntaxKind::ArrayLiteralExpression | SyntaxKind::ParenthesizedExpression | SyntaxKind::ObjectLiteralExpression | SyntaxKind::ClassExpression | SyntaxKind::FunctionExpression | SyntaxKind::Identifier | SyntaxKind::PrivateIdentifier | SyntaxKind::RegularExpressionLiteral | SyntaxKind::NumericLiteral | SyntaxKind::BigIntLiteral | SyntaxKind::StringLiteral | SyntaxKind::NoSubstitutionTemplateLiteral | SyntaxKind::TemplateExpression | SyntaxKind::FalseKeyword | SyntaxKind::NullKeyword | SyntaxKind::ThisKeyword | SyntaxKind::TrueKeyword | SyntaxKind::SuperKeyword | SyntaxKind::NonNullExpression | SyntaxKind::ExpressionWithTypeArguments | SyntaxKind::MetaProperty | SyntaxKind::ImportKeyword)
}

/// Whether a kind is an expression kind.
pub open spec fn spec_is_expression(k: SyntaxKind) -> bool {
    k == SyntaxKind::ConditionalExpression || k == SyntaxKind::YieldExpression || k == SyntaxKind::ArrowFunction || k == SyntaxKind::BinaryExpression || k == SyntaxKind::SpreadElement || k == SyntaxKind::AsExpression || k == SyntaxKind::OmittedExpression || k == SyntaxKind::PartiallyEmittedExpression || k == SyntaxKind::SatisfiesExpression || k == SyntaxKind::PrefixUnaryExpression || k == SyntaxKind::PostfixUnaryExpression || k == SyntaxKind::DeleteExpression || k == SyntaxKind::TypeOfExpression || k == SyntaxKind::VoidExpression || k == SyntaxKind::AwaitExpression || k == SyntaxKind::TypeAssertionExpression || k == SyntaxKind::PropertyAccessExpression || k == SyntaxKind::ElementAccessExpression || k == SyntaxKind::NewExpression || k == SyntaxKind::CallExpression || k == SyntaxKind::JsxElement || k == SyntaxKind::JsxSelfClosingElement || k == SyntaxKind::JsxFragment || k == SyntaxKind::TaggedTemplateExpression || k == SyntaxKind::ArrayLiteralExpression || k == SyntaxKind::ParenthesizedExpression || k == SyntaxKind::ObjectLiteralExpression || k == SyntaxKind::ClassExpression || k == SyntaxKind::FunctionExpression || k == SyntaxKind::Identifier || k == SyntaxKind::PrivateIdentifier || k == SyntaxKind::RegularExpressionLiteral || k == SyntaxKind::NumericLiteral || k == SyntaxKind::BigIntLiteral || k == SyntaxKind::StringLiteral || k == SyntaxKind::NoSubstitutionTemplateLiteral || k == SyntaxKind::TemplateExpression || k == SyntaxKind::FalseKeyword || k == SyntaxKind::NullKeyword || k == SyntaxKind::ThisKeyword || k == SyntaxKind::TrueKeyword || k == SyntaxKind::SuperKeyword || k == SyntaxKind::NonNullExpression || k == SyntaxKind::ExpressionWithTypeArguments || k == SyntaxKind::MetaProperty || k == SyntaxKind::ImportKeyword
}

/// Whether a kind is an expression kind.
pub fn is_expression_kind(k: SyntaxKind) -> (r: bool)
    ensures
        r == spec_is_expression(k),
{
    matches!(k, SyntaxKind::ConditionalExpression | SyntaxKind::YieldExpression | SyntaxKind::ArrowFunction | SyntaxKind::BinaryExpression | SyntaxKind::SpreadElement | SyntaxKind::AsExpression | SyntaxKind::OmittedExpression | SyntaxKind::PartiallyEmittedExpression | SyntaxKind::SatisfiesExpression | SyntaxKind::PrefixUnaryExpression | SyntaxKind::PostfixUnaryExpression | SyntaxKind::DeleteExpression | SyntaxKind::TypeOfExpression | SyntaxKind::VoidExpression | SyntaxKind::AwaitExpression | SyntaxKind::TypeAssertionExpression | SyntaxKind::PropertyAccessExpression | SyntaxKind::ElementAccessExpression | SyntaxKind::NewExpression | SyntaxKind::CallExpression | SyntaxKind::JsxElement | SyntaxKind::JsxSelfClosingElement | SyntaxKind::JsxFragment | SyntaxKind::TaggedTemplateExpression | SyntaxKind::ArrayLiteralExpression | SyntaxKind::ParenthesizedExpression | SyntaxKind::ObjectLiteralExpression | SyntaxKind::ClassExpression | SyntaxKind::FunctionExpression | SyntaxKind::Identifier | SyntaxKind::PrivateIdentifier | SyntaxKind::RegularExpressionLiteral | SyntaxKind::NumericLiteral | SyntaxKind::BigIntLiteral | SyntaxKind::StringLiteral | SyntaxKind::NoSubstitutionTemplateLiteral | SyntaxKind::TemplateExpression | SyntaxKind::FalseKeyword | SyntaxKind::NullKeyword | SyntaxKind::ThisKeyword | SyntaxKind::TrueKeyword | SyntaxKind::SuperKeyword | SyntaxKind::NonNullExpression | SyntaxKind::ExpressionWithTypeArguments | SyntaxKind::MetaProperty | SyntaxKind::ImportKeyword)
}

/// Whether a token kind is an assignment operator.
pub open spec fn spec_is_assignment_operator(k: SyntaxKind) -> bool {
    k == SyntaxKind::EqualsToken || k == SyntaxKind::PlusEqualsToken || k == SyntaxKind::MinusEqualsToken || k == SyntaxKind::AsteriskEqualsToken || k == SyntaxKind::SlashEqualsToken || k == SyntaxKind::PercentEqualsToken || k == SyntaxKind::AmpersandAmpersandEqualsToken || k == SyntaxKind::BarBarEqualsToken || k == SyntaxKind::QuestionQuestionEqualsToken
}

/// Whether a token kind is an assignment operator.
pub fn is_assignment_operator_kind(k: SyntaxKind) -> (r: bool)
    ensures
        r == spec_is_assignment_operator(k),
{
    matches!(k, SyntaxKind::EqualsToken | SyntaxKind::PlusEqualsToken | SyntaxKind::MinusEqualsToken | SyntaxKind::AsteriskEqualsToken | SyntaxKind::SlashEqualsToken | SyntaxKind::PercentEqualsToken | SyntaxKind::AmpersandAmpersandEqualsToken | SyntaxKind::BarBarEqualsToken | SyntaxKind::QuestionQuestionEqualsToken)
}

/// Whether a kind is an import declaration or import-equals declaration.
pub open spec fn spec_is_any_import_syntax(k: SyntaxKind) -> bool {
    k == SyntaxKind::ImportDeclaration || k == SyntaxKind::JSImportDeclaration || k == SyntaxKind::ImportEqualsDeclaration
}

/// Whether a kind is an import declaration or import-equals declaration.
pub fn is_any_import_syntax_kind(k: SyntaxKind) -> (r: bool)
    ensures
        r == spec_is_any_import_syntax(k),
{
    matches!(k, SyntaxKind::ImportDeclaration | SyntaxKind::JSImportDeclaration | SyntaxKind::ImportEqualsDeclaration)
}

/// Whether a kind imports or re-exports.
pub open spec fn spec_is_any_import_or_re_export(k: SyntaxKind) -> bool {
    k == SyntaxKind::ImportDeclaration || k == SyntaxKind::JSImportDeclaration || k == SyntaxKind::ImportEqualsDeclaration || k == SyntaxKind::ExportDeclaration
}

/// Whether a kind imports or re-exports.
pub fn is_any_import_or_re_export_kind(k: SyntaxKind) -> (r: bool)
    ensures
        r == spec_is_any_import_or_re_export(k),
{
    matches!(k, SyntaxKind::ImportDeclaration | SyntaxKind::JSImportDeclaration | SyntaxKind::ImportEqualsDeclaration | SyntaxKind::ExportDeclaration)
}

/// Whether a kind is a JSDoc link.
pub open spec fn spec_is_jsdoc_link_like(k: SyntaxKind) -> bool {
    k == SyntaxKind::JSDocLink || k == SyntaxKind::JSDocLinkCode || k == SyntaxKind::JSDocLinkPlain
}

/// Whether a kind is a JSDoc link.
pub fn is_jsdoc_link_like_kind(k: SyntaxKind) -> (r: bool)
    ensures
        r == spec_is_jsdoc_link_like(k),
{
    matches!(k, SyntaxKind::JSDocLink | SyntaxKind::JSDocLinkCode | SyntaxKind::JSDocLinkPlain)
}

/// Whether a kind opens a JSX element.
pub open spec fn spec_is_jsx_opening_like_element(k: SyntaxKind) -> bool {
    k == SyntaxKind::JsxOpeningElement || k == SyntaxKind::JsxSelfClosingElement
}

/// Whether a kind opens a JSX element.
pub fn is_jsx_opening_like_element_kind(k: SyntaxKind) -> (r: bool)
    ensures
        r == spec_is_jsx_opening_like_element(k),
{
    matches!(k, SyntaxKind::JsxOpeningElement | SyntaxKind::JsxSelfClosingElement)
}

/// Whether a kind is a call or `new` expression.
pub open spec fn spec_is_call_or_new_expression(k: SyntaxKind) -> bool {
    k == SyntaxKind::CallExpression || k == SyntaxKind::NewExpression
}

/// Whether a kind is a call or `new` expression.
pub fn is_call_or_new_expression_kind(k: SyntaxKind) -> (r: bool)
    ensures
        r == spec_is_call_or_new_expression(k),
{
    matches!(k, SyntaxKind::CallExpression | SyntaxKind::NewExpression)
}

} // verus!
