//! The data shared by the three stages: source positions, tokens, the
//! syntax tree and symbol-table entries, each with the mathematical value
//! (its view) that the contracts speak of.

use crate::text::{debug_quote, debug_quoted, enclose};
use vstd::prelude::*;
use vstd::string::StringExecFns;

verus! {

/// The three built-in value types.
#[derive(Debug, PartialEq, Eq, Clone, Copy, Structural)]
pub enum Primitive {
    Int,
    Float,
    Bool,
}

/// A place in the source text. Lines and columns count from 1; the value
/// `{0, 0}` stands for "no place".
#[derive(Debug, PartialEq, Eq, Clone, Copy, Structural)]
pub struct Span {
    pub line: usize,
    pub col: usize,
}

impl Default for Span {
    fn default() -> (r: Self)
        ensures
            r == (Span { line: 0, col: 0 }),
    {
        Span { line: 0, col: 0 }
    }
}

/// What the symbol table records of a declared name.
#[derive(Debug, PartialEq, Eq, Clone, Copy, Structural)]
pub struct Identifier {
    pub primitive: Primitive,
    pub span: Span,
    pub mutable: bool,
}

/// The infix operators and the assignment sign, as the scanner tells them
/// apart.
#[derive(Debug, PartialEq, Eq, Clone, Copy, Structural)]
pub enum BinOpKind {
    Assign,
    Add,
    Sub,
    Mult,
    Div,
    Gt,
    Lt,
    Ge,
    Le,
    Eq,
    Ne,
    And,
    Or,
    Not,
}

/// The prefix operators.
#[derive(Debug, PartialEq, Eq, Clone, Copy, Structural)]
pub enum UnaryOpKind {
    Neg,
    Not,
}

/// A literal as written: its lexeme and the type its spelling gives it.
#[derive(Debug, PartialEq, Clone)]
pub struct Literal {
    pub value: String,
    pub primitive: Primitive,
}

/// The value of a [`Literal`].
pub struct LiteralView {
    pub value: Seq<char>,
    pub primitive: Primitive,
}

impl View for Literal {
    type V = LiteralView;

    open spec fn view(&self) -> LiteralView {
        LiteralView { value: self.value@, primitive: self.primitive }
    }
}

#[derive(Debug, PartialEq, Clone)]
pub enum TokenKind {
    Declare(Primitive),
    Identifier(String),
    Literal(Literal),
    BinOp(BinOpKind),
    Mut,
    LParen,
    RParen,
    Print,
    EOS,
    EOF,
}

/// The value of a [`TokenKind`].
pub enum TokenKindView {
    Declare(Primitive),
    Identifier(Seq<char>),
    Literal(LiteralView),
    BinOp(BinOpKind),
    Mut,
    LParen,
    RParen,
    Print,
    EOS,
    EOF,
}

impl View for TokenKind {
    type V = TokenKindView;

    open spec fn view(&self) -> TokenKindView {
        match self {
            TokenKind::Declare(p) => TokenKindView::Declare(*p),
            TokenKind::Identifier(name) => TokenKindView::Identifier(name@),
            TokenKind::Literal(literal) => TokenKindView::Literal(literal@),
            TokenKind::BinOp(op) => TokenKindView::BinOp(*op),
            TokenKind::Mut => TokenKindView::Mut,
            TokenKind::LParen => TokenKindView::LParen,
            TokenKind::RParen => TokenKindView::RParen,
            TokenKind::Print => TokenKindView::Print,
            TokenKind::EOS => TokenKindView::EOS,
            TokenKind::EOF => TokenKindView::EOF,
        }
    }
}

#[derive(Debug, PartialEq, Clone)]
pub struct Token {
    pub kind: TokenKind,
    pub span: Span,
}

/// The value of a [`Token`].
pub struct TokenView {
    pub kind: TokenKindView,
    pub span: Span,
}

impl View for Token {
    type V = TokenView;

    open spec fn view(&self) -> TokenView {
        TokenView { kind: self.kind@, span: self.span }
    }
}

impl Literal {
    /// A copy of the literal.
    pub fn duplicate(&self) -> (r: Literal)
        ensures
            r@ == self@,
    {
        Literal { value: self.value.clone(), primitive: self.primitive }
    }
}

impl TokenKind {
    /// A copy of the token kind.
    pub fn duplicate(&self) -> (r: TokenKind)
        ensures
            r@ == self@,
    {
        match self {
            TokenKind::Declare(p) => TokenKind::Declare(*p),
            TokenKind::Identifier(name) => TokenKind::Identifier(name.clone()),
            TokenKind::Literal(literal) => TokenKind::Literal(literal.duplicate()),
            TokenKind::BinOp(op) => TokenKind::BinOp(*op),
            TokenKind::Mut => TokenKind::Mut,
            TokenKind::LParen => TokenKind::LParen,
            TokenKind::RParen => TokenKind::RParen,
            TokenKind::Print => TokenKind::Print,
            TokenKind::EOS => TokenKind::EOS,
            TokenKind::EOF => TokenKind::EOF,
        }
    }
}

impl Token {
    /// A copy of the token.
    pub fn duplicate(&self) -> (r: Token)
        ensures
            r@ == self@,
    {
        Token { kind: self.kind.duplicate(), span: self.span }
    }
}

/// The values of a sequence of tokens, in order.
pub open spec fn token_views(tokens: Seq<Token>) -> Seq<TokenView> {
    tokens.map_values(|t: Token| t@)
}

/// An expression. Every node carries the place of the token it was built
/// from: the operator for the two compound forms.
#[derive(Debug, PartialEq)]
pub enum Expr {
    Literal { value: String, primitive: Primitive, span: Span },
    Identifier { name: String, span: Span },
    BinOp { op: BinOpKind, left: Box<Expr>, right: Box<Expr>, span: Span },
    UnaryOp { op: UnaryOpKind, operand: Box<Expr>, span: Span },
}

/// The value of an [`Expr`].
pub enum ExprView {
    Literal { value: Seq<char>, primitive: Primitive, span: Span },
    Identifier { name: Seq<char>, span: Span },
    BinOp { op: BinOpKind, left: Box<ExprView>, right: Box<ExprView>, span: Span },
    UnaryOp { op: UnaryOpKind, operand: Box<ExprView>, span: Span },
}

/// The value of an expression, node by node.
pub open spec fn expr_view(expr: Expr) -> ExprView
    decreases expr,
{
    match expr {
        Expr::Literal { value, primitive, span } => ExprView::Literal {
            value: value@,
            primitive,
            span,
        },
        Expr::Identifier { name, span } => ExprView::Identifier { name: name@, span },
        Expr::BinOp { op, left, right, span } => ExprView::BinOp {
            op,
            left: Box::new(expr_view(*left)),
            right: Box::new(expr_view(*right)),
            span,
        },
        Expr::UnaryOp { op, operand, span } => ExprView::UnaryOp {
            op,
            operand: Box::new(expr_view(*operand)),
            span,
        },
    }
}

impl View for Expr {
    type V = ExprView;

    open spec fn view(&self) -> ExprView {
        expr_view(*self)
    }
}

impl Expr {
    /// A copy of the whole tree.
    pub fn duplicate(&self) -> (r: Expr)
        ensures
            r@ == self@,
        decreases self,
    {
        match self {
            Expr::Literal { value, primitive, span } => Expr::Literal {
                value: value.clone(),
                primitive: *primitive,
                span: *span,
            },
            Expr::Identifier { name, span } => Expr::Identifier { name: name.clone(), span: *span },
            Expr::BinOp { op, left, right, span } => Expr::BinOp {
                op: *op,
                left: Box::new(left.duplicate()),
                right: Box::new(right.duplicate()),
                span: *span,
            },
            Expr::UnaryOp { op, operand, span } => Expr::UnaryOp {
                op: *op,
                operand: Box::new(operand.duplicate()),
                span: *span,
            },
        }
    }
}

impl Clone for Expr {
    fn clone(&self) -> (r: Self)
        ensures
            r@ == self@,
    {
        self.duplicate()
    }
}

/// A statement, with the place of its first token.
#[derive(Debug, PartialEq, Clone)]
pub enum Stmt {
    Declare { dtype: Primitive, mutable: bool, name: String, expr: Expr, span: Span },
    MutAssign { name: String, expr: Expr, span: Span },
    Print { expr: Expr, span: Span },
}

/// The value of a [`Stmt`].
pub enum StmtView {
    Declare { dtype: Primitive, mutable: bool, name: Seq<char>, expr: ExprView, span: Span },
    MutAssign { name: Seq<char>, expr: ExprView, span: Span },
    Print { expr: ExprView, span: Span },
}

impl View for Stmt {
    type V = StmtView;

    open spec fn view(&self) -> StmtView {
        match self {
            Stmt::Declare { dtype, mutable, name, expr, span } => StmtView::Declare {
                dtype: *dtype,
                mutable: *mutable,
                name: name@,
                expr: expr@,
                span: *span,
            },
            Stmt::MutAssign { name, expr, span } => StmtView::MutAssign {
                name: name@,
                expr: expr@,
                span: *span,
            },
            Stmt::Print { expr, span } => StmtView::Print { expr: expr@, span: *span },
        }
    }
}

/// A program: its statements in the order in which they were written.
pub type Ast = Vec<Stmt>;

/// The values of a sequence of statements, in order.
pub open spec fn stmt_views(stmts: Seq<Stmt>) -> Seq<StmtView> {
    stmts.map_values(|s: Stmt| s@)
}

impl Primitive {
    /// The name of the type, as diagnostics print it.
    pub open spec fn label(self) -> Seq<char> {
        match self {
            Primitive::Int => "Int"@,
            Primitive::Float => "Float"@,
            Primitive::Bool => "Bool"@,
        }
    }

    pub fn name(&self) -> (r: &'static str)
        ensures
            r@ == self.label(),
    {
        match self {
            Primitive::Int => "Int",
            Primitive::Float => "Float",
            Primitive::Bool => "Bool",
        }
    }
}

impl BinOpKind {
    /// The name of the operator, as diagnostics print it.
    pub open spec fn label(self) -> Seq<char> {
        match self {
            BinOpKind::Assign => "Assign"@,
            BinOpKind::Add => "Add"@,
            BinOpKind::Sub => "Sub"@,
            BinOpKind::Mult => "Mult"@,
            BinOpKind::Div => "Div"@,
            BinOpKind::Gt => "Gt"@,
            BinOpKind::Lt => "Lt"@,
            BinOpKind::Ge => "Ge"@,
            BinOpKind::Le => "Le"@,
            BinOpKind::Eq => "Eq"@,
            BinOpKind::Ne => "Ne"@,
            BinOpKind::And => "And"@,
            BinOpKind::Or => "Or"@,
            BinOpKind::Not => "Not"@,
        }
    }

    pub fn name(&self) -> (r: &'static str)
        ensures
            r@ == self.label(),
    {
        match self {
            BinOpKind::Assign => "Assign",
            BinOpKind::Add => "Add",
            BinOpKind::Sub => "Sub",
            BinOpKind::Mult => "Mult",
            BinOpKind::Div => "Div",
            BinOpKind::Gt => "Gt",
            BinOpKind::Lt => "Lt",
            BinOpKind::Ge => "Ge",
            BinOpKind::Le => "Le",
            BinOpKind::Eq => "Eq",
            BinOpKind::Ne => "Ne",
            BinOpKind::And => "And",
            BinOpKind::Or => "Or",
            BinOpKind::Not => "Not",
        }
    }
}

impl UnaryOpKind {
    /// The name of the operator, as diagnostics print it.
    pub open spec fn label(self) -> Seq<char> {
        match self {
            UnaryOpKind::Neg => "Neg"@,
            UnaryOpKind::Not => "Not"@,
        }
    }

    pub fn name(&self) -> (r: &'static str)
        ensures
            r@ == self.label(),
    {
        match self {
            UnaryOpKind::Neg => "Neg",
            UnaryOpKind::Not => "Not",
        }
    }
}

/// How a diagnostic prints an identifier token, given the quoted name.
pub open spec fn identifier_text(quoted: Seq<char>) -> Seq<char> {
    "Identifier("@ + quoted + ")"@
}

/// How a diagnostic prints a literal token, given the quoted lexeme.
pub open spec fn literal_text(quoted: Seq<char>, primitive: Primitive) -> Seq<char> {
    "Literal(Literal { value: "@ + quoted + ", primitive: "@ + primitive.label() + " })"@
}

impl TokenKindView {
    /// How a diagnostic prints the token kind.
    pub open spec fn describe(self) -> Seq<char> {
        match self {
            TokenKindView::Declare(p) => "Declare("@ + p.label() + ")"@,
            TokenKindView::Identifier(name) => identifier_text(debug_quoted(name)),
            TokenKindView::Literal(literal) => literal_text(
                debug_quoted(literal.value),
                literal.primitive,
            ),
            TokenKindView::BinOp(op) => "BinOp("@ + op.label() + ")"@,
            TokenKindView::Mut => "Mut"@,
            TokenKindView::LParen => "LParen"@,
            TokenKindView::RParen => "RParen"@,
            TokenKindView::Print => "Print"@,
            TokenKindView::EOS => "EOS"@,
            TokenKindView::EOF => "EOF"@,
        }
    }
}

/// Prints an identifier token whose name, already quoted, is `quoted`.
pub fn render_identifier(quoted: &str) -> (r: String)
    ensures
        r@ == identifier_text(quoted@),
{
    enclose("Identifier(", quoted, ")")
}

/// Prints a literal token whose lexeme, already quoted, is `quoted`.
pub fn render_literal(quoted: &str, primitive: Primitive) -> (r: String)
    ensures
        r@ == literal_text(quoted@, primitive),
{
    let mut out = enclose("Literal(Literal { value: ", quoted, ", primitive: ");
    out.append(primitive.name());
    out.append(" })");
    out
}

impl TokenKind {
    /// The token kind as diagnostics print it.
    pub fn describe(&self) -> (r: String)
        ensures
            r@ == self@.describe(),
    {
        match self {
            TokenKind::Declare(p) => enclose("Declare(", p.name(), ")"),
            TokenKind::Identifier(name) => {
                let quoted = debug_quote(name.as_str());
                render_identifier(quoted.as_str())
            },
            TokenKind::Literal(literal) => {
                let quoted = debug_quote(literal.value.as_str());
                render_literal(quoted.as_str(), literal.primitive)
            },
            TokenKind::BinOp(op) => enclose("BinOp(", op.name(), ")"),
            TokenKind::Mut => String::from_str("Mut"),
            TokenKind::LParen => String::from_str("LParen"),
            TokenKind::RParen => String::from_str("RParen"),
            TokenKind::Print => String::from_str("Print"),
            TokenKind::EOS => String::from_str("EOS"),
            TokenKind::EOF => String::from_str("EOF"),
        }
    }
}

} // verus!
