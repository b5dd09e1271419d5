//! The syntax kinds of the tree model, and the kind classes the utilities test.
use vstd::prelude::*;

verus! {

/// The kind of a syntax node. `Unknown` stands for every kind that no
/// utility of this library distinguishes.
#[derive(Clone, Copy, Debug, PartialEq, Eq, Structural)]
pub enum SyntaxKind {
    Unknown,
    EndOfFile,
    // Literals and names
    NumericLiteral,
    BigIntLiteral,
    StringLiteral,
    RegularExpressionLiteral,
    NoSubstitutionTemplateLiteral,
    Identifier,
    PrivateIdentifier,
    // Punctuation
    PlusToken,
    MinusToken,
    PlusPlusToken,
    MinusMinusToken,
    CommaToken,
    EqualsToken,
    PlusEqualsToken,
    MinusEqualsToken,
    AsteriskEqualsToken,
    SlashEqualsToken,
    PercentEqualsToken,
    AmpersandAmpersandEqualsToken,
    BarBarEqualsToken,
    QuestionQuestionEqualsToken,
    QuestionToken,
    ExclamationToken,
    EqualsGreaterThanToken,
    // Keywords
    AbstractKeyword,
    AccessorKeyword,
    AsyncKeyword,
    ConstKeyword,
    DeclareKeyword,
    DefaultKeyword,
    ExportKeyword,
    ExtendsKeyword,
    FalseKeyword,
    ImplementsKeyword,
    ImportKeyword,
    InKeyword,
    NewKeyword,
    NullKeyword,
    OutKeyword,
    OverrideKeyword,
    PrivateKeyword,
    ProtectedKeyword,
    PublicKeyword,
    ReadonlyKeyword,
    StaticKeyword,
    SuperKeyword,
    ThisKeyword,
    TrueKeyword,
    VoidKeyword,
    AnyKeyword,
    UnknownKeyword,
    NumberKeyword,
    BigIntKeyword,
    StringKeyword,
    BooleanKeyword,
    SymbolKeyword,
    ObjectKeyword,
    UndefinedKeyword,
    NeverKeyword,
    // Names
    QualifiedName,
    ComputedPropertyName,
    // Signature elements
    TypeParameter,
    Parameter,
    Decorator,
    PropertySignature,
    PropertyDeclaration,
    MethodSignature,
    MethodDeclaration,
    ClassStaticBlockDeclaration,
    Constructor,
    GetAccessor,
    SetAccessor,
    CallSignature,
    ConstructSignature,
    IndexSignature,
    // Types, in the order of the type-node range
    TypePredicate,
    TypeReference,
    FunctionType,
    ConstructorType,
    TypeQuery,
    TypeLiteral,
    ArrayType,
    TupleType,
    OptionalType,
    RestType,
    UnionType,
    IntersectionType,
    ConditionalType,
    InferType,
    ParenthesizedType,
    ThisType,
    TypeOperator,
    IndexedAccessType,
    MappedType,
    LiteralType,
    NamedTupleMember,
    TemplateLiteralType,
    TemplateLiteralTypeSpan,
    ImportType,
    // Binding patterns
    ObjectBindingPattern,
    ArrayBindingPattern,
    BindingElement,
    // Expressions
    ArrayLiteralExpression,
    ObjectLiteralExpression,
    PropertyAccessExpression,
    ElementAccessExpression,
    CallExpression,
    NewExpression,
    TaggedTemplateExpression,
    TypeAssertionExpression,
    ParenthesizedExpression,
    FunctionExpression,
    ArrowFunction,
    DeleteExpression,
    TypeOfExpression,
    VoidExpression,
    AwaitExpression,
    PrefixUnaryExpression,
    PostfixUnaryExpression,
    BinaryExpression,
    ConditionalExpression,
    TemplateExpression,
    YieldExpression,
    SpreadElement,
    ClassExpression,
    OmittedExpression,
    ExpressionWithTypeArguments,
    AsExpression,
    NonNullExpression,
    MetaProperty,
    SatisfiesExpression,
    PartiallyEmittedExpression,
    TemplateSpan,
    SemicolonClassElement,
    // Statements
    Block,
    VariableStatement,
    ExpressionStatement,
    IfStatement,
    DoStatement,
    WhileStatement,
    ForStatement,
    ForInStatement,
    ForOfStatement,
    ReturnStatement,
    WithStatement,
    SwitchStatement,
    LabeledStatement,
    ThrowStatement,
    TryStatement,
    // Declarations
    VariableDeclaration,
    VariableDeclarationList,
    FunctionDeclaration,
    ClassDeclaration,
    InterfaceDeclaration,
    TypeAliasDeclaration,
    EnumDeclaration,
    ModuleDeclaration,
    ModuleBlock,
    CaseBlock,
    NamespaceExportDeclaration,
    ImportEqualsDeclaration,
    ImportDeclaration,
    ImportClause,
    NamespaceImport,
    NamedImports,
    ImportSpecifier,
    ExportAssignment,
    ExportDeclaration,
    NamedExports,
    NamespaceExport,
    ExportSpecifier,
    ExternalModuleReference,
    ImportAttributes,
    JSImportDeclaration,
    JSTypeAliasDeclaration,
    // JSX
    JsxElement,
    JsxSelfClosingElement,
    JsxOpeningElement,
    JsxClosingElement,
    JsxFragment,
    JsxAttribute,
    JsxSpreadAttribute,
    JsxExpression,
    JsxNamespacedName,
    // Clauses
    CaseClause,
    DefaultClause,
    HeritageClause,
    CatchClause,
    // Property assignments
    PropertyAssignment,
    ShorthandPropertyAssignment,
    SpreadAssignment,
    EnumMember,
    SourceFile,
    // JSDoc
    JSDoc,
    JSDocTypeExpression,
    JSDocNameReference,
    JSDocLink,
    JSDocLinkCode,
    JSDocLinkPlain,
    JSDocNullableType,
    JSDocNonNullableType,
    JSDocOptionalType,
    JSDocSignature,
    JSDocAugmentsTag,
    JSDocImplementsTag,
    JSDocDeprecatedTag,
    JSDocParameterTag,
    JSDocPropertyTag,
    JSDocTypedefTag,
    JSDocCallbackTag,
    JSDocTag,
    JSDocReturnTag,
    JSDocTypeTag,
    JSDocTemplateTag,
}

/// `KindFirstTypeNode <= kind <= KindLastTypeNode`.
pub open spec fn is_type_node_kind(k: SyntaxKind) -> bool {
    match k {
        SyntaxKind::TypePredicate | SyntaxKind::TypeReference | SyntaxKind::FunctionType
        | SyntaxKind::ConstructorType | SyntaxKind::TypeQuery | SyntaxKind::TypeLiteral
        | SyntaxKind::ArrayType | SyntaxKind::TupleType | SyntaxKind::OptionalType
        | SyntaxKind::RestType | SyntaxKind::UnionType | SyntaxKind::IntersectionType
        | SyntaxKind::ConditionalType | SyntaxKind::InferType | SyntaxKind::ParenthesizedType
        | SyntaxKind::ThisType | SyntaxKind::TypeOperator | SyntaxKind::IndexedAccessType
        | SyntaxKind::MappedType | SyntaxKind::LiteralType | SyntaxKind::NamedTupleMember
        | SyntaxKind::TemplateLiteralType | SyntaxKind::TemplateLiteralTypeSpan
        | SyntaxKind::ImportType => true,
        _ => false,
    }
}

/// Whether a kind lies in the range of type-node kinds.
pub fn is_first_to_last_type_node(k: SyntaxKind) -> (r: bool)
    ensures
        r == is_type_node_kind(k),
{
    matches!(k, SyntaxKind::TypePredicate | SyntaxKind::TypeReference | SyntaxKind::FunctionType
        | SyntaxKind::ConstructorType | SyntaxKind::TypeQuery | SyntaxKind::TypeLiteral
        | SyntaxKind::ArrayType | SyntaxKind::TupleType | SyntaxKind::OptionalType
        | SyntaxKind::RestType | SyntaxKind::UnionType | SyntaxKind::IntersectionType
        | SyntaxKind::ConditionalType | SyntaxKind::InferType | SyntaxKind::ParenthesizedType
        | SyntaxKind::ThisType | SyntaxKind::TypeOperator | SyntaxKind::IndexedAccessType
        | SyntaxKind::MappedType | SyntaxKind::LiteralType | SyntaxKind::NamedTupleMember
        | SyntaxKind::TemplateLiteralType | SyntaxKind::TemplateLiteralTypeSpan
        | SyntaxKind::ImportType)
}

} // verus!
