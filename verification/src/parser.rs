//! The parser: from tokens to statements, by recursive descent over the
//! statement forms and precedence climbing over the operators.

use crate::errors::{CompilerError, CompilerErrorView};
use crate::schemas::{
    stmt_views, token_views, Ast, BinOpKind, Expr, ExprView, Primitive, Span, Stmt, StmtView,
    Token, TokenKind, TokenKindView, TokenView, UnaryOpKind,
};
use crate::text::enclose;
use vstd::prelude::*;
use vstd::string::StringExecFns;

verus! {

/// The binding power that the operand of a prefix operator is parsed at:
/// above that of every infix operator.
pub const PREFIX_POWER: u8 = 255;

/// The left and right binding powers of an infix operator, in tenths. The
/// bands of the six precedence levels do not overlap, and the right power
/// exceeds the left, so that operators of one level group to the left.
/// `Assign` and `Not` are no infix operators and have none.
pub open spec fn binding_power(op: BinOpKind) -> Option<(u8, u8)> {
    match op {
        BinOpKind::Mult | BinOpKind::Div => Some((61u8, 62u8)),
        BinOpKind::Add | BinOpKind::Sub => Some((51u8, 52u8)),
        BinOpKind::Gt | BinOpKind::Lt | BinOpKind::Ge | BinOpKind::Le => Some((41u8, 42u8)),
        BinOpKind::Eq | BinOpKind::Ne => Some((31u8, 32u8)),
        BinOpKind::And => Some((21u8, 22u8)),
        BinOpKind::Or => Some((11u8, 12u8)),
        BinOpKind::Assign | BinOpKind::Not => None,
    }
}

/// The token at index `i`, or an end-of-input token without a place where
/// the tokens have run out.
pub open spec fn token_at(ts: Seq<TokenView>, i: int) -> TokenView {
    if 0 <= i < ts.len() {
        ts[i]
    } else {
        TokenView { kind: TokenKindView::EOF, span: Span { line: 0, col: 0 } }
    }
}

/// How many tokens taking the token at index `i` uses up: one, or none
/// where the tokens have run out.
pub open spec fn taken(ts: Seq<TokenView>, i: int) -> nat {
    if 0 <= i < ts.len() {
        1
    } else {
        0
    }
}

/// How many tokens are left from index `pos` on.
pub open spec fn tokens_left(ts: Seq<TokenView>, pos: int) -> nat {
    if pos < ts.len() {
        (ts.len() - pos) as nat
    } else {
        0
    }
}

/// The message for a token that cannot stand where it does.
pub open spec fn unexpected_token_message(kind: TokenKindView) -> Seq<char> {
    "Unexpected token "@ + kind.describe() + "."@
}

/// The message for an operator that cannot stand between two operands.
pub open spec fn unexpected_operator_message(op: BinOpKind) -> Seq<char> {
    "Unexpected token "@ + op.label() + "."@
}

/// The message for a token that no statement begins with.
pub open spec fn unexpected_start_message(kind: TokenKindView) -> Seq<char> {
    "Unexpected token of kind "@ + kind.describe() + "."@
}

/// A syntax error with the given message and place.
pub open spec fn syntax_error(message: Seq<char>, span: Span) -> CompilerErrorView {
    CompilerErrorView::SyntaxError { message, span }
}

/// The outcome of parsing one construct: what was built or why not, and
/// how many tokens were used up on the way.
pub enum Parsed<T> {
    Done { value: T, used: nat },
    Failed { error: CompilerErrorView, used: nat },
}

impl<T> Parsed<T> {
    /// The same outcome, reached after `n` more tokens were used up before.
    pub open spec fn after(self, n: nat) -> Parsed<T> {
        match self {
            Parsed::Done { value, used } => Parsed::Done { value, used: n + used },
            Parsed::Failed { error, used } => Parsed::Failed { error, used: n + used },
        }
    }

    /// How many tokens were used up.
    pub open spec fn used(self) -> nat {
        match self {
            Parsed::Done { used, .. } => used,
            Parsed::Failed { used, .. } => used,
        }
    }
}

/// The expression that starts at index `pos`, taking in infix operators for
/// as long as their left binding power is at least `min_bp`.
pub open spec fn parse_expr(ts: Seq<TokenView>, pos: int, min_bp: u8) -> Parsed<ExprView>
    decreases tokens_left(ts, pos), 1nat,
{
    let first = token_at(ts, pos);
    match first.kind {
        TokenKindView::Literal(literal) => parse_infix(
            ts,
            pos + 1,
            ExprView::Literal {
                value: literal.value,
                primitive: literal.primitive,
                span: first.span,
            },
            min_bp,
        ).after(1),
        TokenKindView::Identifier(name) => parse_infix(
            ts,
            pos + 1,
            ExprView::Identifier { name, span: first.span },
            min_bp,
        ).after(1),
        TokenKindView::BinOp(BinOpKind::Sub) => match parse_expr(ts, pos + 1, PREFIX_POWER) {
            Parsed::Done { value, used } => parse_infix(
                ts,
                pos + 1 + used,
                ExprView::UnaryOp {
                    op: UnaryOpKind::Neg,
                    operand: Box::new(value),
                    span: first.span,
                },
                min_bp,
            ).after(1 + used),
            Parsed::Failed { error, used } => Parsed::Failed { error, used: 1 + used },
        },
        TokenKindView::BinOp(BinOpKind::Add) => match parse_expr(ts, pos + 1, PREFIX_POWER) {
            Parsed::Done { value, used } => parse_infix(ts, pos + 1 + used, value, min_bp).after(
                1 + used,
            ),
            Parsed::Failed { error, used } => Parsed::Failed { error, used: 1 + used },
        },
        TokenKindView::BinOp(BinOpKind::Not) => match parse_expr(ts, pos + 1, PREFIX_POWER) {
            Parsed::Done { value, used } => parse_infix(
                ts,
                pos + 1 + used,
                ExprView::UnaryOp {
                    op: UnaryOpKind::Not,
                    operand: Box::new(value),
                    span: first.span,
                },
                min_bp,
            ).after(1 + used),
            Parsed::Failed { error, used } => Parsed::Failed { error, used: 1 + used },
        },
        TokenKindView::LParen => match parse_expr(ts, pos + 1, 0) {
            Parsed::Done { value, used } => {
                let close = token_at(ts, pos + 1 + used);
                if close.kind == TokenKindView::RParen {
                    parse_infix(ts, pos + 2 + used, value, min_bp).after(2 + used)
                } else {
                    Parsed::Failed {
                        error: syntax_error("Expected closing ')'."@, close.span),
                        used: 1 + used,
                    }
                }
            },
            Parsed::Failed { error, used } => Parsed::Failed { error, used: 1 + used },
        },
        other => Parsed::Failed {
            error: syntax_error(unexpected_token_message(other), first.span),
            used: taken(ts, pos),
        },
    }
}

/// The expression that `lhs` grows into when the tokens from index `pos` on
/// are read as a chain of infix operators and right operands.
pub open spec fn parse_infix(ts: Seq<TokenView>, pos: int, lhs: ExprView, min_bp: u8) -> Parsed<
    ExprView,
>
    decreases tokens_left(ts, pos), 0nat,
{
    let next = token_at(ts, pos);
    match next.kind {
        TokenKindView::BinOp(op) => match binding_power(op) {
            None => Parsed::Failed {
                error: syntax_error(unexpected_operator_message(op), next.span),
                used: 0,
            },
            Some((lbp, rbp)) => if lbp < min_bp {
                Parsed::Done { value: lhs, used: 0 }
            } else {
                match parse_expr(ts, pos + 1, rbp) {
                    Parsed::Done { value, used } => parse_infix(
                        ts,
                        pos + 1 + used,
                        ExprView::BinOp {
                            op,
                            left: Box::new(lhs),
                            right: Box::new(value),
                            span: next.span,
                        },
                        min_bp,
                    ).after(1 + used),
                    Parsed::Failed { error, used } => Parsed::Failed { error, used: 1 + used },
                }
            },
        },
        TokenKindView::RParen | TokenKindView::EOS | TokenKindView::EOF => Parsed::Done {
            value: lhs,
            used: 0,
        },
        other => Parsed::Failed {
            error: syntax_error(unexpected_token_message(other), next.span),
            used: 0,
        },
    }
}

/// The rest of a declaration, from the name on: the name, `=`, and the
/// initializer. `span` is the place of the type keyword.
pub open spec fn parse_binding(
    ts: Seq<TokenView>,
    pos: int,
    dtype: Primitive,
    mutable: bool,
    span: Span,
) -> Parsed<StmtView> {
    let name_token = token_at(ts, pos);
    match name_token.kind {
        TokenKindView::Identifier(name) => {
            let sign = token_at(ts, pos + 1);
            if sign.kind == TokenKindView::BinOp(BinOpKind::Assign) {
                match parse_expr(ts, pos + 2, 0) {
                    Parsed::Done { value, used } => Parsed::Done {
                        value: StmtView::Declare { dtype, mutable, name, expr: value, span },
                        used: 2 + used,
                    },
                    Parsed::Failed { error, used } => Parsed::Failed { error, used: 2 + used },
                }
            } else {
                Parsed::Failed {
                    error: syntax_error("Expected '=' after declaration."@, sign.span),
                    used: 1,
                }
            }
        },
        other => Parsed::Failed {
            error: syntax_error(unexpected_token_message(other), name_token.span),
            used: 0,
        },
    }
}

/// The statement that starts at index `pos`, without the `;` that ends it.
///
/// A declaration is a type keyword, a name, `=` and an expression; the
/// qualifier `mut` may stand before the type keyword or after it. A
/// reassignment is a name, `=` and an expression. A print statement is
/// `print`, then an expression in parentheses.
pub open spec fn parse_stmt(ts: Seq<TokenView>, pos: int) -> Parsed<StmtView> {
    let first = token_at(ts, pos);
    match first.kind {
        TokenKindView::Mut => {
            let keyword = token_at(ts, pos + 1);
            match keyword.kind {
                TokenKindView::Declare(dtype) => parse_binding(
                    ts,
                    pos + 2,
                    dtype,
                    true,
                    keyword.span,
                ).after(2),
                other => Parsed::Failed {
                    error: syntax_error(unexpected_token_message(other), keyword.span),
                    used: 1,
                },
            }
        },
        TokenKindView::Declare(dtype) => {
            if token_at(ts, pos + 1).kind == TokenKindView::Mut {
                parse_binding(ts, pos + 2, dtype, true, first.span).after(2)
            } else {
                parse_binding(ts, pos + 1, dtype, false, first.span).after(1)
            }
        },
        TokenKindView::Identifier(name) => {
            if token_at(ts, pos + 1).kind == TokenKindView::BinOp(BinOpKind::Assign) {
                match parse_expr(ts, pos + 2, 0) {
                    Parsed::Done { value, used } => Parsed::Done {
                        value: StmtView::MutAssign { name, expr: value, span: first.span },
                        used: 2 + used,
                    },
                    Parsed::Failed { error, used } => Parsed::Failed { error, used: 2 + used },
                }
            } else {
                Parsed::Failed {
                    error: syntax_error(unexpected_start_message(first.kind), first.span),
                    used: 1,
                }
            }
        },
        TokenKindView::Print => {
            let open = token_at(ts, pos + 1);
            if open.kind == TokenKindView::LParen {
                match parse_expr(ts, pos + 2, 0) {
                    Parsed::Done { value, used } => {
                        let close = token_at(ts, pos + 2 + used);
                        if close.kind == TokenKindView::RParen {
                            Parsed::Done {
                                value: StmtView::Print { expr: value, span: first.span },
                                used: 3 + used,
                            }
                        } else {
                            Parsed::Failed {
                                error: syntax_error("Expected closing ')'."@, close.span),
                                used: 2 + used,
                            }
                        }
                    },
                    Parsed::Failed { error, used } => Parsed::Failed { error, used: 2 + used },
                }
            } else {
                Parsed::Failed {
                    error: syntax_error(
                        "Expected opening '(' after 'print' keyword."@,
                        open.span,
                    ),
                    used: 1,
                }
            }
        },
        other => Parsed::Failed {
            error: syntax_error(unexpected_start_message(other), first.span),
            used: taken(ts, pos),
        },
    }
}

/// What a parse leaves behind: the statements it built, how many tokens it
/// used up, and the error if it failed.
pub struct ParseRun {
    pub tree: Seq<StmtView>,
    pub used: nat,
    pub error: Option<CompilerErrorView>,
}

/// The parse of the tokens from index `pos` on: statement by statement,
/// each followed by `;`, until the end-of-input token or the first error.
pub open spec fn parse_program(ts: Seq<TokenView>, pos: int) -> ParseRun
    decreases tokens_left(ts, pos),
{
    if token_at(ts, pos).kind == TokenKindView::EOF {
        ParseRun { tree: Seq::empty(), used: 0, error: None }
    } else {
        match parse_stmt(ts, pos) {
            Parsed::Failed { error, used } => ParseRun {
                tree: Seq::empty(),
                used,
                error: Some(error),
            },
            Parsed::Done { value, used } => {
                let end = token_at(ts, pos + used);
                if end.kind == TokenKindView::EOS {
                    let rest = parse_program(ts, pos + used + 1);
                    ParseRun {
                        tree: seq![value] + rest.tree,
                        used: used + 1 + rest.used,
                        error: rest.error,
                    }
                } else if end.kind == TokenKindView::RParen {
                    ParseRun {
                        tree: Seq::empty(),
                        used,
                        error: Some(syntax_error("Unmatched ')'."@, end.span)),
                    }
                } else {
                    ParseRun {
                        tree: Seq::empty(),
                        used,
                        error: Some(
                            syntax_error("Expected ';' at end of expression."@, end.span),
                        ),
                    }
                }
            },
        }
    }
}

/// A parser over one token sequence. It walks the tokens once, from the
/// first to the end-of-input token.
pub struct Parser {
    tokens: Vec<Token>,
    pos: usize,
    tree: Ast,
}

/// The value of a [`Parser`]: the tokens, how many of them are used up, and
/// the statements built so far.
pub struct ParserView {
    pub tokens: Seq<TokenView>,
    pub pos: nat,
    pub tree: Seq<StmtView>,
}

impl ParserView {
    /// The state that a run of the parser leads to.
    pub open spec fn parsed(self) -> ParserView {
        let run = parse_program(self.tokens, self.pos as int);
        ParserView { tokens: self.tokens, pos: self.pos + run.used, tree: self.tree + run.tree }
    }

    /// The error that a run of the parser ends in, if any.
    pub open spec fn failure(self) -> Option<CompilerErrorView> {
        parse_program(self.tokens, self.pos as int).error
    }
}

impl View for Parser {
    type V = ParserView;

    closed spec fn view(&self) -> ParserView {
        ParserView {
            tokens: token_views(self.tokens@),
            pos: self.pos as nat,
            tree: stmt_views(self.tree@),
        }
    }
}

fn failure(message: String, span: Span) -> (r: CompilerError)
    ensures
        r@ == syntax_error(message@, span),
{
    CompilerError::SyntaxError { message, span }
}

fn unexpected_token(kind: &TokenKind, span: Span) -> (r: CompilerError)
    ensures
        r@ == syntax_error(unexpected_token_message(kind@), span),
{
    let text = kind.describe();
    failure(enclose("Unexpected token ", text.as_str(), "."), span)
}

fn unexpected_start(kind: &TokenKind, span: Span) -> (r: CompilerError)
    ensures
        r@ == syntax_error(unexpected_start_message(kind@), span),
{
    let text = kind.describe();
    failure(enclose("Unexpected token of kind ", text.as_str(), "."), span)
}

proof fn lemma_stmt_views_push(stmts: Seq<Stmt>, stmt: Stmt)
    ensures
        stmt_views(stmts.push(stmt)) == stmt_views(stmts).push(stmt@),
{
    assert(stmt_views(stmts.push(stmt)) =~= stmt_views(stmts).push(stmt@));
}

impl Parser {
    /// A parser at the first of `tokens`, with no statement yet.
    pub fn new(tokens: Vec<Token>) -> (r: Self)
        ensures
            r@ == (ParserView { tokens: token_views(tokens@), pos: 0, tree: Seq::empty() }),
    {
        let r = Parser { tokens, pos: 0, tree: Vec::new() };
        assert(r@.tree =~= Seq::empty());
        r
    }

    /// The left and right binding powers of `op`, or the error for an
    /// operator that may not stand between two operands.
    fn arithmetic_binding_power(op: BinOpKind, span: Span) -> (r: Result<(u8, u8), CompilerError>)
        ensures
            match binding_power(op) {
                Some(powers) => r == Ok::<(u8, u8), CompilerError>(powers),
                None => r is Err && r->Err_0@ == syntax_error(
                    unexpected_operator_message(op),
                    span,
                ),
            },
    {
        match op {
            BinOpKind::Mult | BinOpKind::Div => Ok((61, 62)),
            BinOpKind::Add | BinOpKind::Sub => Ok((51, 52)),
            BinOpKind::Gt | BinOpKind::Lt | BinOpKind::Ge | BinOpKind::Le => Ok((41, 42)),
            BinOpKind::Eq | BinOpKind::Ne => Ok((31, 32)),
            BinOpKind::And => Ok((21, 22)),
            BinOpKind::Or => Ok((11, 12)),
            BinOpKind::Assign | BinOpKind::Not => Err(
                failure(enclose("Unexpected token ", op.name(), "."), span),
            ),
        }
    }

    fn peek_next(&self) -> (r: Token)
        ensures
            r@ == token_at(token_views(self.tokens@), self.pos as int),
    {
        if self.pos < self.tokens.len() {
            self.tokens[self.pos].duplicate()
        } else {
            Token { kind: TokenKind::EOF, span: Span { line: 0, col: 0 } }
        }
    }

    fn consume_next(&mut self) -> (r: Token)
        ensures
            r@ == token_at(token_views(old(self).tokens@), old(self).pos as int),
            final(self).tokens == old(self).tokens,
            final(self).tree == old(self).tree,
            final(self).pos == old(self).pos + taken(
                token_views(old(self).tokens@),
                old(self).pos as int,
            ),
    {
        if self.pos < self.tokens.len() {
            let token = self.tokens[self.pos].duplicate();
            self.pos = self.pos + 1;
            token
        } else {
            Token { kind: TokenKind::EOF, span: Span { line: 0, col: 0 } }
        }
    }

    fn parse_expression(&mut self, min_binding_pow: u8) -> (r: Result<Expr, CompilerError>)
        ensures
            final(self).tokens == old(self).tokens,
            final(self).tree == old(self).tree,
            match parse_expr(token_views(old(self).tokens@), old(self).pos as int, min_binding_pow) {
                Parsed::Done { value, used } => {
                    &&& r is Ok
                    &&& r->Ok_0@ == value
                    &&& final(self).pos == old(self).pos + used
                },
                Parsed::Failed { error, used } => {
                    &&& r is Err
                    &&& r->Err_0@ == error
                    &&& final(self).pos == old(self).pos + used
                },
            },
        decreases tokens_left(token_views(old(self).tokens@), old(self).pos as int),
    {
        let ghost ts = token_views(self.tokens@);
        let ghost start = self.pos as int;
        let ghost goal = parse_expr(ts, start, min_binding_pow);
        let cur_token = self.consume_next();
        let mut lhs = match cur_token.kind {
            TokenKind::Literal(literal) => Expr::Literal {
                value: literal.value,
                primitive: literal.primitive,
                span: cur_token.span,
            },
            TokenKind::Identifier(name) => Expr::Identifier { name, span: cur_token.span },
            TokenKind::BinOp(BinOpKind::Sub) => {
                match self.parse_expression(PREFIX_POWER) {
                    Ok(operand) => Expr::UnaryOp {
                        op: UnaryOpKind::Neg,
                        operand: Box::new(operand),
                        span: cur_token.span,
                    },
                    Err(error) => {
                        return Err(error);
                    },
                }
            },
            TokenKind::BinOp(BinOpKind::Add) => {
                match self.parse_expression(PREFIX_POWER) {
                    Ok(operand) => operand,
                    Err(error) => {
                        return Err(error);
                    },
                }
            },
            TokenKind::BinOp(BinOpKind::Not) => {
                match self.parse_expression(PREFIX_POWER) {
                    Ok(operand) => Expr::UnaryOp {
                        op: UnaryOpKind::Not,
                        operand: Box::new(operand),
                        span: cur_token.span,
                    },
                    Err(error) => {
                        return Err(error);
                    },
                }
            },
            TokenKind::LParen => {
                match self.parse_expression(0) {
                    Ok(inner) => {
                        let next_token = self.peek_next();
                        if !matches!(next_token.kind, TokenKind::RParen) {
                            return Err(
                                failure(String::from_str("Expected closing ')'."), next_token.span),
                            );
                        }
                        self.consume_next();
                        inner
                    },
                    Err(error) => {
                        return Err(error);
                    },
                }
            },
            other => {
                return Err(unexpected_token(&other, cur_token.span));
            },
        };

        loop
            invariant
                self.tokens == old(self).tokens,
                self.tree == old(self).tree,
                ts == token_views(self.tokens@),
                start == old(self).pos,
                start <= self.pos,
                goal == parse_expr(ts, start, min_binding_pow),
                goal == parse_infix(ts, self.pos as int, lhs@, min_binding_pow).after(
                    (self.pos - start) as nat,
                ),
            ensures
                goal == (Parsed::Done { value: lhs@, used: (self.pos - start) as nat }),
            decreases tokens_left(ts, self.pos as int),
        {
            let next_op_token = self.peek_next();
            match next_op_token.kind {
                TokenKind::BinOp(op) => {
                    let (lbp, rbp) = match Self::arithmetic_binding_power(op, next_op_token.span) {
                        Ok(powers) => powers,
                        Err(error) => {
                            return Err(error);
                        },
                    };
                    if lbp < min_binding_pow {
                        break ;
                    }
                    self.consume_next();
                    match self.parse_expression(rbp) {
                        Ok(right) => {
                            lhs = Expr::BinOp {
                                op,
                                left: Box::new(lhs),
                                right: Box::new(right),
                                span: next_op_token.span,
                            };
                        },
                        Err(error) => {
                            return Err(error);
                        },
                    }
                },
                TokenKind::RParen => {
                    break ;
                },
                TokenKind::EOS => {
                    break ;
                },
                TokenKind::EOF => {
                    break ;
                },
                other => {
                    return Err(unexpected_token(&other, next_op_token.span));
                },
            }
        }
        Ok(lhs)
    }

    /// Parses what follows the type keyword (and the qualifier) of a
    /// declaration.
    fn parse_declared(&mut self, dtype: Primitive, mutable: bool, span: Span) -> (r: Result<
        Stmt,
        CompilerError,
    >)
        ensures
            final(self).tokens == old(self).tokens,
            final(self).tree == old(self).tree,
            match parse_binding(
                token_views(old(self).tokens@),
                old(self).pos as int,
                dtype,
                mutable,
                span,
            ) {
                Parsed::Done { value, used } => {
                    &&& r is Ok
                    &&& r->Ok_0@ == value
                    &&& final(self).pos == old(self).pos + used
                },
                Parsed::Failed { error, used } => {
                    &&& r is Err
                    &&& r->Err_0@ == error
                    &&& final(self).pos == old(self).pos + used
                },
            },
    {
        let next_token = self.peek_next();
        let name = match next_token.kind {
            TokenKind::Identifier(name) => name,
            other => {
                return Err(unexpected_token(&other, next_token.span));
            },
        };
        self.consume_next();

        let next_token = self.peek_next();
        if !matches!(next_token.kind, TokenKind::BinOp(BinOpKind::Assign)) {
            return Err(failure(String::from_str("Expected '=' after declaration."), next_token.span));
        }
        self.consume_next();

        match self.parse_expression(0) {
            Ok(expr) => Ok(Stmt::Declare { dtype, mutable, name, expr, span }),
            Err(error) => Err(error),
        }
    }

    fn parse_statement(&mut self) -> (r: Result<Stmt, CompilerError>)
        ensures
            final(self).tokens == old(self).tokens,
            final(self).tree == old(self).tree,
            match parse_stmt(token_views(old(self).tokens@), old(self).pos as int) {
                Parsed::Done { value, used } => {
                    &&& r is Ok
                    &&& r->Ok_0@ == value
                    &&& final(self).pos == old(self).pos + used
                },
                Parsed::Failed { error, used } => {
                    &&& r is Err
                    &&& r->Err_0@ == error
                    &&& final(self).pos == old(self).pos + used
                },
            },
    {
        let cur_token = self.consume_next();
        match cur_token.kind {
            TokenKind::Mut => {
                let next_token = self.peek_next();
                match next_token.kind {
                    TokenKind::Declare(dtype) => {
                        self.consume_next();
                        self.parse_declared(dtype, true, next_token.span)
                    },
                    other => Err(unexpected_token(&other, next_token.span)),
                }
            },
            TokenKind::Declare(dtype) => {
                let next_token = self.peek_next();
                if matches!(next_token.kind, TokenKind::Mut) {
                    self.consume_next();
                    self.parse_declared(dtype, true, cur_token.span)
                } else {
                    self.parse_declared(dtype, false, cur_token.span)
                }
            },
            TokenKind::Identifier(name) => {
                let next_token = self.peek_next();
                if !matches!(next_token.kind, TokenKind::BinOp(BinOpKind::Assign)) {
                    return Err(unexpected_start(&TokenKind::Identifier(name), cur_token.span));
                }
                self.consume_next();
                match self.parse_expression(0) {
                    Ok(expr) => Ok(Stmt::MutAssign { name, expr, span: cur_token.span }),
                    Err(error) => Err(error),
                }
            },
            TokenKind::Print => {
                let next_token = self.peek_next();
                if !matches!(next_token.kind, TokenKind::LParen) {
                    return Err(
                        failure(
                            String::from_str("Expected opening '(' after 'print' keyword."),
                            next_token.span,
                        ),
                    );
                }
                self.consume_next();

                let expr = match self.parse_expression(0) {
                    Ok(expr) => expr,
                    Err(error) => {
                        return Err(error);
                    },
                };

                let next_token = self.peek_next();
                if !matches!(next_token.kind, TokenKind::RParen) {
                    return Err(failure(String::from_str("Expected closing ')'."), next_token.span));
                }
                self.consume_next();

                Ok(Stmt::Print { expr, span: cur_token.span })
            },
            other => Err(unexpected_start(&other, cur_token.span)),
        }
    }

    /// Parses the tokens from where the parser stands to the end-of-input
    /// token, adding the statements to those already built. The parse
    /// stops at the first error.
    pub fn parse(&mut self) -> (r: Result<(), CompilerError>)
        ensures
            final(self)@ == old(self)@.parsed(),
            match old(self)@.failure() {
                None => r is Ok,
                Some(error) => r is Err && r->Err_0@ == error,
            },
    {
        let ghost ts = token_views(self.tokens@);
        let ghost start = self.pos as int;
        let ghost first = parse_program(ts, start);
        let ghost before = stmt_views(self.tree@);
        loop
            invariant
                self.tokens == old(self).tokens,
                ts == token_views(self.tokens@),
                start == old(self).pos,
                start <= self.pos,
                before == stmt_views(old(self).tree@),
                first == parse_program(ts, start),
                first.error == parse_program(ts, self.pos as int).error,
                first.used == (self.pos - start) + parse_program(ts, self.pos as int).used,
                before + first.tree == stmt_views(self.tree@) + parse_program(
                    ts,
                    self.pos as int,
                ).tree,
            decreases tokens_left(ts, self.pos as int),
        {
            let ghost seen = stmt_views(self.tree@);
            let ghost rest = parse_program(ts, self.pos as int);
            if matches!(self.peek_next().kind, TokenKind::EOF) {
                proof {
                    assert(self@.tree =~= before + first.tree);
                }
                return Ok(());
            }
            let stmt = match self.parse_statement() {
                Ok(stmt) => stmt,
                Err(error) => {
                    proof {
                        assert(self@.tree =~= before + first.tree);
                    }
                    return Err(error);
                },
            };

            let next_token = self.peek_next();
            match next_token.kind {
                TokenKind::EOS => {
                    self.consume_next();
                    proof {
                        lemma_stmt_views_push(self.tree@, stmt);
                    }
                    self.tree.push(stmt);
                    proof {
                        let next = parse_program(ts, self.pos as int);
                        assert(stmt_views(self.tree@) + next.tree =~= seen + rest.tree);
                    }
                },
                TokenKind::RParen => {
                    proof {
                        assert(self@.tree =~= before + first.tree);
                    }
                    return Err(failure(String::from_str("Unmatched ')'."), next_token.span));
                },
                _ => {
                    proof {
                        assert(self@.tree =~= before + first.tree);
                    }
                    return Err(
                        failure(
                            String::from_str("Expected ';' at end of expression."),
                            next_token.span,
                        ),
                    );
                },
            }
        }
    }

    /// The statements built so far.
    pub fn get_tree(&self) -> (r: &Ast)
        ensures
            stmt_views(r@) == self@.tree,
    {
        &self.tree
    }
}

/// What parsing a whole token sequence yields: its statements, or the
/// first error.
pub open spec fn parse_spec(tokens: Seq<TokenView>) -> Result<Seq<StmtView>, CompilerErrorView> {
    let run = parse_program(tokens, 0);
    match run.error {
        None => Ok(run.tree),
        Some(error) => Err(error),
    }
}

/// Parses `tokens` from the first to the end-of-input token.
pub fn parse(tokens: Vec<Token>) -> (r: Result<Ast, CompilerError>)
    ensures
        match parse_spec(token_views(tokens@)) {
            Ok(tree) => r is Ok && stmt_views(r->Ok_0@) == tree,
            Err(error) => r is Err && r->Err_0@ == error,
        },
{
    let ghost ts = token_views(tokens@);
    let mut parser = Parser::new(tokens);
    match parser.parse() {
        Ok(_) => {
            assert(parser@.tree =~= parse_program(ts, 0).tree);
            Ok(parser.tree)
        },
        Err(error) => Err(error),
    }
}

/// A statement that is not followed by `;` is rejected at the token that
/// stands in its place: as an unmatched `)` if it is one, else as a
/// missing terminator. The statements after it are not looked at.
pub proof fn lemma_missing_terminator(ts: Seq<TokenView>, pos: int)
    requires
        token_at(ts, pos).kind != TokenKindView::EOF,
        parse_stmt(ts, pos) is Done,
        token_at(ts, pos + parse_stmt(ts, pos).used()).kind != TokenKindView::EOS,
    ensures
        ({
            let offending = token_at(ts, pos + parse_stmt(ts, pos).used());
            let message = if offending.kind == TokenKindView::RParen {
                "Unmatched ')'."@
            } else {
                "Expected ';' at end of expression."@
            };
            parse_program(ts, pos) == (ParseRun {
                tree: Seq::empty(),
                used: parse_stmt(ts, pos).used(),
                error: Some(syntax_error(message, offending.span)),
            })
        }),
{
}

/// An opening parenthesis whose expression is not followed by `)` is
/// rejected at the token that stands in its place.
pub proof fn lemma_missing_closing_parenthesis(ts: Seq<TokenView>, pos: int, min_bp: u8)
    requires
        token_at(ts, pos).kind == TokenKindView::LParen,
        parse_expr(ts, pos + 1, 0) is Done,
        token_at(ts, pos + 1 + parse_expr(ts, pos + 1, 0).used()).kind != TokenKindView::RParen,
    ensures
        parse_expr(ts, pos, min_bp) == (Parsed::<ExprView>::Failed {
            error: syntax_error(
                "Expected closing ')'."@,
                token_at(ts, pos + 1 + parse_expr(ts, pos + 1, 0).used()).span,
            ),
            used: 1 + parse_expr(ts, pos + 1, 0).used(),
        }),
{
}

/// Whether an expression may end before a token of this kind.
pub open spec fn ends_expression(kind: TokenKindView, min_bp: u8) -> bool {
    match kind {
        TokenKindView::RParen | TokenKindView::EOS | TokenKindView::EOF => true,
        TokenKindView::BinOp(op) => binding_power(op) matches Some(powers) && powers.0 < min_bp,
        _ => false,
    }
}

/// An expression uses up at least one token and none beyond the last; and
/// it ends before a closing parenthesis, a `;`, the end of input, or an
/// operator that binds less tightly than asked for.
pub proof fn lemma_expression_extent(ts: Seq<TokenView>, pos: int, min_bp: u8)
    requires
        0 <= pos <= ts.len(),
    ensures
        parse_expr(ts, pos, min_bp) matches Parsed::Done { value, used } ==> 1 <= used
            && ends_expression(token_at(ts, pos + used).kind, min_bp),
        pos + parse_expr(ts, pos, min_bp).used() <= ts.len(),
    decreases tokens_left(ts, pos), 1nat,
{
    let first = token_at(ts, pos);
    match first.kind {
        TokenKindView::Literal(literal) => {
            lemma_infix_extent(
                ts,
                pos + 1,
                ExprView::Literal {
                    value: literal.value,
                    primitive: literal.primitive,
                    span: first.span,
                },
                min_bp,
            );
        },
        TokenKindView::Identifier(name) => {
            lemma_infix_extent(ts, pos + 1, ExprView::Identifier { name, span: first.span }, min_bp);
        },
        TokenKindView::BinOp(BinOpKind::Sub) => {
            lemma_expression_extent(ts, pos + 1, PREFIX_POWER);
            match parse_expr(ts, pos + 1, PREFIX_POWER) {
                Parsed::Done { value, used } => {
                    lemma_infix_extent(
                        ts,
                        pos + 1 + used,
                        ExprView::UnaryOp {
                            op: UnaryOpKind::Neg,
                            operand: Box::new(value),
                            span: first.span,
                        },
                        min_bp,
                    );
                },
                Parsed::Failed { error, used } => {},
            }
        },
        TokenKindView::BinOp(BinOpKind::Add) => {
            lemma_expression_extent(ts, pos + 1, PREFIX_POWER);
            match parse_expr(ts, pos + 1, PREFIX_POWER) {
                Parsed::Done { value, used } => {
                    lemma_infix_extent(ts, pos + 1 + used, value, min_bp);
                },
                Parsed::Failed { error, used } => {},
            }
        },
        TokenKindView::BinOp(BinOpKind::Not) => {
            lemma_expression_extent(ts, pos + 1, PREFIX_POWER);
            match parse_expr(ts, pos + 1, PREFIX_POWER) {
                Parsed::Done { value, used } => {
                    lemma_infix_extent(
                        ts,
                        pos + 1 + used,
                        ExprView::UnaryOp {
                            op: UnaryOpKind::Not,
                            operand: Box::new(value),
                            span: first.span,
                        },
                        min_bp,
                    );
                },
                Parsed::Failed { error, used } => {},
            }
        },
        TokenKindView::LParen => {
            lemma_expression_extent(ts, pos + 1, 0);
            match parse_expr(ts, pos + 1, 0) {
                Parsed::Done { value, used } => {
                    if token_at(ts, pos + 1 + used).kind == TokenKindView::RParen {
                        lemma_infix_extent(ts, pos + 2 + used, value, min_bp);
                    }
                },
                Parsed::Failed { error, used } => {},
            }
        },
        _ => {},
    }
}

/// The chain of operators and operands that follows an operand uses up no
/// token beyond the last, and ends as an expression does.
pub proof fn lemma_infix_extent(ts: Seq<TokenView>, pos: int, lhs: ExprView, min_bp: u8)
    requires
        0 <= pos <= ts.len(),
    ensures
        parse_infix(ts, pos, lhs, min_bp) matches Parsed::Done { value, used }
            ==> ends_expression(token_at(ts, pos + used).kind, min_bp),
        pos + parse_infix(ts, pos, lhs, min_bp).used() <= ts.len(),
    decreases tokens_left(ts, pos), 0nat,
{
    let next = token_at(ts, pos);
    match next.kind {
        TokenKindView::BinOp(op) => {
            match binding_power(op) {
                None => {},
                Some((lbp, rbp)) => {
                    if lbp >= min_bp {
                        lemma_expression_extent(ts, pos + 1, rbp);
                        match parse_expr(ts, pos + 1, rbp) {
                            Parsed::Done { value, used } => {
                                lemma_infix_extent(
                                    ts,
                                    pos + 1 + used,
                                    ExprView::BinOp {
                                        op,
                                        left: Box::new(lhs),
                                        right: Box::new(value),
                                        span: next.span,
                                    },
                                    min_bp,
                                );
                            },
                            Parsed::Failed { error, used } => {},
                        }
                    }
                },
            }
        },
        _ => {},
    }
}

} // verus!
