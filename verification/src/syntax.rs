//! Source spans, definition identifiers and operators of the syntax tree.

use vstd::prelude::*;

use crate::value::Value;

verus! {

/// The raw number of the span that points into no source file.
pub const DETACHED: u64 = 1;

/// A source span, held by its raw number.
#[derive(Debug, Clone, Copy, PartialEq, Eq, Structural, Hash)]
pub struct Span(pub u64);

impl Span {
    /// The span that points into no source file.
    pub fn detached() -> (s: Span)
        ensures
            s == Span(DETACHED),
    {
        Span(DETACHED)
    }

    /// Whether this span points into no source file.
    pub open spec fn spec_is_detached(self) -> bool {
        self.0 == DETACHED
    }

    /// Whether this span points into no source file.
    #[verifier::when_used_as_spec(spec_is_detached)]
    pub fn is_detached(self) -> (r: bool)
        ensures
            r == self.spec_is_detached(),
    {
        self.0 == DETACHED
    }
}

/// The stable identifier of a definition.
#[derive(Debug, Clone, Copy, PartialEq, Eq, Structural, Hash)]
pub struct DefId(pub u64);

/// A unary operator.
#[derive(Debug, Clone, Copy, PartialEq, Eq, Structural, Hash)]
pub enum UnOp {
    Pos,
    Neg,
    Not,
}

/// A binary operator.
#[derive(Debug, Clone, Copy, PartialEq, Eq, Structural, Hash)]
pub enum BinOp {
    Add,
    Sub,
    Mul,
    Div,
    And,
    Or,
    Eq,
    Neq,
    Lt,
    Leq,
    Gt,
    Geq,
    Assign,
    In,
    NotIn,
    AddAssign,
    SubAssign,
    MulAssign,
    DivAssign,
}

/// The kind of a syntax node.
#[derive(Debug, Clone, Copy, PartialEq, Eq, Structural, Hash)]
pub enum SyntaxKind {
    Markup,
    Text,
    Space,
    Linebreak,
    Parbreak,
    Escape,
    Shorthand,
    SmartQuote,
    Strong,
    Emph,
    Raw,
    RawLang,
    RawDelim,
    RawTrimmed,
    Link,
    Label,
    Ref,
    RefMarker,
    Heading,
    HeadingMarker,
    ListItem,
    ListMarker,
    EnumItem,
    EnumMarker,
    TermItem,
    TermMarker,
    Equation,
    Math,
    MathIdent,
    MathAlignPoint,
    MathDelimited,
    MathAttach,
    MathPrimes,
    MathFrac,
    MathRoot,
    Hash,
    LeftBrace,
    RightBrace,
    LeftBracket,
    RightBracket,
    LeftParen,
    RightParen,
    Comma,
    Semicolon,
    Colon,
    Star,
    Underscore,
    Dollar,
    Plus,
    Minus,
    Slash,
    Hat,
    Prime,
    Dot,
    Eq,
    EqEq,
    ExclEq,
    Lt,
    LtEq,
    Gt,
    GtEq,
    PlusEq,
    HyphEq,
    StarEq,
    SlashEq,
    Dots,
    Arrow,
    Root,
    Not,
    And,
    Or,
    NoneLit,
    Auto,
    Let,
    SetKw,
    Show,
    Context,
    If,
    Else,
    For,
    In,
    While,
    Break,
    Continue,
    Return,
    Import,
    Include,
    As,
    Code,
    Ident,
    Bool,
    Int,
    Float,
    Numeric,
    Str,
    CodeBlock,
    ContentBlock,
    Parenthesized,
    Array,
    Dict,
    Named,
    Keyed,
    Unary,
    Binary,
    FieldAccess,
    FuncCall,
    Args,
    Spread,
    Closure,
    Params,
    LetBinding,
    SetRule,
    ShowRule,
    Contextual,
    Conditional,
    WhileLoop,
    ForLoop,
    ModuleImport,
    ImportItems,
    RenamedImportItem,
    ModuleInclude,
    LoopBreak,
    LoopContinue,
    FuncReturn,
    Destructuring,
    DestructAssignment,
    LineComment,
    BlockComment,
    Error,
    Eof,
}

/// An identifier at the place that binds it, with what the definition/use
/// resolver tells of it.
#[derive(Debug)]
pub struct Binding {
    pub name: String,
    pub span: Span,
    /// The definition that the identifier introduces or refers to; `None`
    /// where the resolver knows none.
    pub def: Option<DefId>,
}

/// An identifier at a place that uses it, with what the resolvers tell of
/// it.
#[derive(Debug)]
pub struct IdentInfo {
    pub name: String,
    /// The definition that the reference binds to, if it is bound in the
    /// source file.
    pub def: Option<DefId>,
    /// The value of the name in the global scope of the host library.
    pub global: Option<Value>,
    /// The value of the name in the math scope of the host library.
    pub math: Option<Value>,
}

/// A pattern that distributes a value over bindings.
#[derive(Debug)]
pub enum Pattern {
    /// A single identifier.
    Ident(Binding),
    /// Any other expression.
    Normal,
    /// An underscore.
    Placeholder,
    /// A pattern in parentheses.
    Parenthesized(Box<Pattern>),
    /// A destructuring pattern.
    Destructuring,
}

/// An item of a dictionary literal.
#[derive(Debug)]
pub enum DictItem {
    /// `name: expr`; `span` is the span of the whole item.
    Named { name: String, expr: SyntaxNode, span: Span },
    /// `key: expr` with a computed key; `key` is what constant evaluation
    /// gives for it.
    Keyed { key: Option<Value>, expr: SyntaxNode, span: Span },
    /// `..expr`.
    Spread,
}

/// An argument of a call.
#[derive(Debug)]
pub enum Arg {
    /// A positional argument.
    Pos(SyntaxNode),
    /// `name: expr`; `span` is the span of the whole item.
    Named { name: String, expr: SyntaxNode, span: Span },
    /// `..expr`.
    Spread,
}

/// A parameter of a closure.
#[derive(Debug)]
pub enum Param {
    /// A positional parameter.
    Pos(Pattern),
    /// A named parameter with its default.
    Named { name: Binding, expr: SyntaxNode },
    /// A sink for the remaining arguments, with its identifier if it has one.
    Spread { sink: Option<Binding> },
}

/// What a let binding binds.
#[derive(Debug)]
pub enum LetBindingKind {
    /// A pattern.
    Normal(Pattern),
    /// A closure, under the given name.
    Closure(Binding),
}

/// The typed reading of a syntax node.
#[derive(Debug)]
#[allow(inconsistent_fields)]
pub enum SyntaxBody {
    /// The node has no parts that type inference reads.
    Leaf,
    /// The children of a container, punctuation included.
    Children(Vec<SyntaxNode>),
    /// A literal, with what evaluation gives for it.
    Literal(Option<Value>),
    /// An identifier in use.
    Ident(IdentInfo),
    /// A dictionary literal.
    Dict(Vec<DictItem>),
    /// A unary operation, with the constant that it evaluates to, if any.
    Unary { constant: Option<Value>, op: UnOp, expr: Box<SyntaxNode> },
    /// A binary operation, with the constant that it evaluates to, if any.
    Binary { constant: Option<Value>, op: BinOp, lhs: Box<SyntaxNode>, rhs: Box<SyntaxNode> },
    /// `target.field`.
    FieldAccess { target: Box<SyntaxNode>, field: String },
    /// `callee(args)`.
    FuncCall { callee: Box<SyntaxNode>, args: Box<SyntaxNode> },
    /// The arguments of a call.
    Args(Vec<Arg>),
    /// A closure.
    Closure { params: Vec<Param>, body: Box<SyntaxNode> },
    /// A let binding.
    LetBinding { kind: LetBindingKind, init: Option<Box<SyntaxNode>> },
    /// A set rule.
    SetRule { target: Box<SyntaxNode>, args: Box<SyntaxNode>, condition: Option<Box<SyntaxNode>> },
    /// A show rule.
    ShowRule { selector: Option<Box<SyntaxNode>>, transform: Box<SyntaxNode> },
    /// A contextual expression.
    Contextual { body: Box<SyntaxNode> },
    /// A conditional.
    Conditional {
        condition: Box<SyntaxNode>,
        if_body: Box<SyntaxNode>,
        else_body: Option<Box<SyntaxNode>>,
    },
    /// A while loop.
    WhileLoop { condition: Box<SyntaxNode>, body: Box<SyntaxNode> },
    /// A for loop.
    ForLoop { iterable: Box<SyntaxNode>, pattern: Box<SyntaxNode>, body: Box<SyntaxNode> },
}

/// A node of the syntax tree.
#[derive(Debug)]
pub struct SyntaxNode {
    pub kind: SyntaxKind,
    pub span: Span,
    pub body: SyntaxBody,
}

impl SyntaxNode {
    /// A node without parts.
    pub fn leaf(kind: SyntaxKind, span: Span) -> (r: SyntaxNode)
        ensures
            r == (SyntaxNode { kind, span, body: SyntaxBody::Leaf }),
    {
        SyntaxNode { kind, span, body: SyntaxBody::Leaf }
    }

    /// A container with its children.
    pub fn inner(kind: SyntaxKind, span: Span, children: Vec<SyntaxNode>) -> (r: SyntaxNode)
        ensures
            r == (SyntaxNode { kind, span, body: SyntaxBody::Children(children) }),
    {
        SyntaxNode { kind, span, body: SyntaxBody::Children(children) }
    }

    /// A node with the given typed reading.
    pub fn new(kind: SyntaxKind, span: Span, body: SyntaxBody) -> (r: SyntaxNode)
        ensures
            r == (SyntaxNode { kind, span, body }),
    {
        SyntaxNode { kind, span, body }
    }
}

} // verus!
