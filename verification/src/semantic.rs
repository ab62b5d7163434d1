//! The semantic analyser: one pass over the statements, in order, that
//! records every declared name and checks types and mutability.

use crate::errors::{CompilerError, CompilerErrorView};
use crate::schemas::{
    stmt_views, Ast, BinOpKind, Expr, ExprView, Identifier, Primitive, Span, Stmt, StmtView,
    UnaryOpKind,
};
use vstd::hash_map::StringHashMap;
use vstd::prelude::*;

verus! {

/// Whether values of the type are numbers.
pub open spec fn is_number(p: Primitive) -> bool {
    p == Primitive::Int || p == Primitive::Float
}

/// Whether a value of type `found` may be stored in a binding of type
/// `target`: numbers go into numeric bindings, of either kind, and booleans
/// into boolean ones.
pub open spec fn assignable(target: Primitive, found: Primitive) -> bool {
    (is_number(target) && is_number(found)) || (target == Primitive::Bool && found
        == Primitive::Bool)
}

/// The type of `left op right` for an infix operator, where the operands'
/// types suit it.
///
/// Arithmetic on two `Int`s stays `Int`, except for division, which gives
/// `Float`, as any arithmetic with a `Float` in it does. The logical
/// connectives take and give `Bool`. Equality compares two booleans or two
/// numbers, the order relations compare two numbers, and all give `Bool`.
pub open spec fn operator_type(op: BinOpKind, left: Primitive, right: Primitive) -> Option<
    Primitive,
> {
    match op {
        BinOpKind::Add | BinOpKind::Sub | BinOpKind::Mult => if left == Primitive::Int && right
            == Primitive::Int {
            Some(Primitive::Int)
        } else if is_number(left) && is_number(right) {
            Some(Primitive::Float)
        } else {
            None
        },
        BinOpKind::Div => if is_number(left) && is_number(right) {
            Some(Primitive::Float)
        } else {
            None
        },
        BinOpKind::And | BinOpKind::Or => if left == Primitive::Bool && right == Primitive::Bool {
            Some(Primitive::Bool)
        } else {
            None
        },
        BinOpKind::Eq | BinOpKind::Ne => if (left == Primitive::Bool && right == Primitive::Bool)
            || (is_number(left) && is_number(right)) {
            Some(Primitive::Bool)
        } else {
            None
        },
        BinOpKind::Gt | BinOpKind::Lt | BinOpKind::Ge | BinOpKind::Le => if is_number(left)
            && is_number(right) {
            Some(Primitive::Bool)
        } else {
            None
        },
        BinOpKind::Assign | BinOpKind::Not => None,
    }
}

/// The type that `op` gives on operands of types `left` and `right`, or the
/// error reported at `span`. For `Assign`, `left` is the type of the
/// target, which is also the result where `right` may be stored in it.
pub open spec fn binop_type(op: BinOpKind, left: Primitive, right: Primitive, span: Span) -> Result<
    Primitive,
    CompilerErrorView,
> {
    if op == BinOpKind::Assign {
        if assignable(left, right) {
            Ok(left)
        } else {
            Err(CompilerErrorView::TypeDeclarationError { expected: left, found: right, span })
        }
    } else {
        match operator_type(op, left, right) {
            Some(result) => Ok(result),
            None => Err(CompilerErrorView::TypeBinOpError { op, left, right, span }),
        }
    }
}

/// The type that the prefix operator `op` gives on an operand of type
/// `operand`, or the error reported at `span`: negation keeps the type of a
/// number, `!` that of a boolean.
pub open spec fn unaryop_type(op: UnaryOpKind, operand: Primitive, span: Span) -> Result<
    Primitive,
    CompilerErrorView,
> {
    if (op == UnaryOpKind::Neg && is_number(operand)) || (op == UnaryOpKind::Not && operand
        == Primitive::Bool) {
        Ok(operand)
    } else {
        Err(CompilerErrorView::TypeUnaryOpError { op, operand, span })
    }
}

/// The type of `expr` where the names in `table` are declared, or the first
/// error met when the operands are checked from left to right, each before
/// the operator that joins them.
pub open spec fn expr_type(expr: ExprView, table: Map<Seq<char>, Identifier>) -> Result<
    Primitive,
    CompilerErrorView,
>
    decreases expr,
{
    match expr {
        ExprView::Literal { primitive, .. } => Ok(primitive),
        ExprView::Identifier { name, span } => if table.contains_key(name) {
            Ok(table[name].primitive)
        } else {
            Err(CompilerErrorView::NameError { name, span })
        },
        ExprView::BinOp { op, left, right, span } => match expr_type(*left, table) {
            Err(error) => Err(error),
            Ok(left_type) => match expr_type(*right, table) {
                Err(error) => Err(error),
                Ok(right_type) => binop_type(op, left_type, right_type, span),
            },
        },
        ExprView::UnaryOp { op, operand, span } => match expr_type(*operand, table) {
            Err(error) => Err(error),
            Ok(operand_type) => unaryop_type(op, operand_type, span),
        },
    }
}

/// Whether a value of type `found`, or the failure to find one, is an error
/// for a binding of type `target` declared or assigned at `span`.
pub open spec fn stored(target: Primitive, found: Result<Primitive, CompilerErrorView>, span: Span)
    -> Option<CompilerErrorView> {
    match found {
        Err(error) => Some(error),
        Ok(found_type) => match binop_type(BinOpKind::Assign, target, found_type, span) {
            Ok(_) => None,
            Err(error) => Some(error),
        },
    }
}

/// What checking leaves behind: the symbol table, and the error if a
/// statement was rejected.
pub struct Checked {
    pub table: Map<Seq<char>, Identifier>,
    pub error: Option<CompilerErrorView>,
}

/// The check of one statement against `table`.
///
/// A declaration enters its name first, in place of any earlier entry of
/// that name, and then checks the initializer against the declared type. A
/// reassignment needs a declared, mutable target, and a value that fits
/// its type. A print statement needs a well-typed expression.
pub open spec fn stmt_check(stmt: StmtView, table: Map<Seq<char>, Identifier>) -> Checked {
    match stmt {
        StmtView::Declare { dtype, mutable, name, expr, span } => {
            let declared = table.insert(name, Identifier { primitive: dtype, span, mutable });
            Checked { table: declared, error: stored(dtype, expr_type(expr, declared), span) }
        },
        StmtView::MutAssign { name, expr, span } => Checked {
            table,
            error: if !table.contains_key(name) {
                Some(CompilerErrorView::NameError { name, span })
            } else if !table[name].mutable {
                Some(CompilerErrorView::MutabilityError { name, span })
            } else {
                stored(table[name].primitive, expr_type(expr, table), span)
            },
        },
        StmtView::Print { expr, .. } => Checked {
            table,
            error: match expr_type(expr, table) {
                Err(error) => Some(error),
                Ok(_) => None,
            },
        },
    }
}

/// The check of the statements from index `from` on, in order, against
/// `table`; it stops at the first statement that is rejected.
pub open spec fn check_from(stmts: Seq<StmtView>, from: int, table: Map<Seq<char>, Identifier>)
    -> Checked
    decreases stmts.len() - from,
{
    if 0 <= from < stmts.len() {
        let step = stmt_check(stmts[from], table);
        if step.error is Some {
            step
        } else {
            check_from(stmts, from + 1, step.table)
        }
    } else {
        Checked { table, error: None }
    }
}

/// The names that a program declares, each with its type, the place of its
/// declaration and whether it may be assigned again.
pub struct SymbolTable {
    entries: StringHashMap<Identifier>,
}

impl View for SymbolTable {
    type V = Map<Seq<char>, Identifier>;

    closed spec fn view(&self) -> Map<Seq<char>, Identifier> {
        self.entries@
    }
}

impl SymbolTable {
    /// A table without entries.
    pub fn new() -> (r: Self)
        ensures
            r@ == Map::<Seq<char>, Identifier>::empty(),
    {
        SymbolTable { entries: StringHashMap::new() }
    }

    /// The entry of `name`, if it is declared.
    pub fn get(&self, name: &str) -> (r: Option<Identifier>)
        ensures
            r == if self@.contains_key(name@) {
                Some(self@[name@])
            } else {
                None
            },
    {
        match self.entries.get(name) {
            Some(entry) => Some(*entry),
            None => None,
        }
    }

    /// Whether `name` is declared.
    pub fn contains(&self, name: &str) -> (r: bool)
        ensures
            r == self@.contains_key(name@),
    {
        self.entries.contains_key(name)
    }

    /// The number of declared names.
    pub fn len(&self) -> (r: usize)
        ensures
            r == self@.len(),
    {
        self.entries.len()
    }

    /// Enters `name`, in place of any earlier entry of that name.
    pub fn insert(&mut self, name: String, entry: Identifier)
        ensures
            final(self)@ == old(self)@.insert(name@, entry),
    {
        self.entries.insert(name, entry);
    }
}

/// An analyser for one program.
pub struct SemanticAnalyser {
    ast: Ast,
    symbol_table: SymbolTable,
}

/// The value of a [`SemanticAnalyser`]: the program and the symbol table.
pub struct AnalyserView {
    pub ast: Seq<StmtView>,
    pub table: Map<Seq<char>, Identifier>,
}

impl View for SemanticAnalyser {
    type V = AnalyserView;

    closed spec fn view(&self) -> AnalyserView {
        AnalyserView { ast: stmt_views(self.ast@), table: self.symbol_table@ }
    }
}

impl SemanticAnalyser {
    /// An analyser for `ast`, with an empty symbol table.
    pub fn new(ast: Ast) -> (r: Self)
        ensures
            r@ == (AnalyserView {
                ast: stmt_views(ast@),
                table: Map::<Seq<char>, Identifier>::empty(),
            }),
    {
        SemanticAnalyser { ast, symbol_table: SymbolTable::new() }
    }

    /// The type of `left op right`, or the error for operands that `op`
    /// does not take.
    pub fn infer_binop_type(op: BinOpKind, left_type: Primitive, right_type: Primitive, span: Span)
        -> (r: Result<Primitive, CompilerError>)
        ensures
            match binop_type(op, left_type, right_type, span) {
                Ok(result) => r == Ok::<Primitive, CompilerError>(result),
                Err(error) => r is Err && r->Err_0@ == error,
            },
    {
        match (op, left_type, right_type) {
            (
                BinOpKind::Add | BinOpKind::Sub | BinOpKind::Mult,
                Primitive::Int,
                Primitive::Int,
            ) => Ok(Primitive::Int),
            (BinOpKind::Div, Primitive::Int, Primitive::Int) => Ok(Primitive::Float),
            (
                BinOpKind::Add | BinOpKind::Sub | BinOpKind::Mult | BinOpKind::Div,
                Primitive::Int | Primitive::Float,
                Primitive::Int | Primitive::Float,
            ) => Ok(Primitive::Float),
            (
                BinOpKind::And | BinOpKind::Or | BinOpKind::Eq | BinOpKind::Ne,
                Primitive::Bool,
                Primitive::Bool,
            ) => Ok(Primitive::Bool),
            (
                BinOpKind::Gt
                | BinOpKind::Lt
                | BinOpKind::Ge
                | BinOpKind::Le
                | BinOpKind::Eq
                | BinOpKind::Ne,
                Primitive::Int | Primitive::Float,
                Primitive::Int | Primitive::Float,
            ) => Ok(Primitive::Bool),
            (BinOpKind::Assign, Primitive::Int, Primitive::Int | Primitive::Float) => Ok(
                Primitive::Int,
            ),
            (BinOpKind::Assign, Primitive::Float, Primitive::Int | Primitive::Float) => Ok(
                Primitive::Float,
            ),
            (BinOpKind::Assign, Primitive::Bool, Primitive::Bool) => Ok(Primitive::Bool),
            (BinOpKind::Assign, _, _) => Err(
                CompilerError::TypeDeclarationError {
                    expected: left_type,
                    found: right_type,
                    span,
                },
            ),
            _ => Err(
                CompilerError::TypeBinOpError { op, left: left_type, right: right_type, span },
            ),
        }
    }

    /// The type of `op operand`, or the error for an operand that `op`
    /// does not take.
    pub fn infer_unaryop_type(op: UnaryOpKind, operand_type: Primitive, span: Span) -> (r: Result<
        Primitive,
        CompilerError,
    >)
        ensures
            match unaryop_type(op, operand_type, span) {
                Ok(result) => r == Ok::<Primitive, CompilerError>(result),
                Err(error) => r is Err && r->Err_0@ == error,
            },
    {
        match (op, operand_type) {
            (UnaryOpKind::Neg, Primitive::Int | Primitive::Float) => Ok(operand_type),
            (UnaryOpKind::Not, Primitive::Bool) => Ok(Primitive::Bool),
            _ => Err(CompilerError::TypeUnaryOpError { op, operand: operand_type, span }),
        }
    }

    /// The type of `expr` under `symbol_table`, or the first error in it.
    pub fn check_expr(expr: &Expr, symbol_table: &SymbolTable) -> (r: Result<
        Primitive,
        CompilerError,
    >)
        ensures
            match expr_type(expr@, symbol_table@) {
                Ok(result) => r == Ok::<Primitive, CompilerError>(result),
                Err(error) => r is Err && r->Err_0@ == error,
            },
        decreases expr,
    {
        match expr {
            Expr::Literal { primitive, .. } => Ok(*primitive),
            Expr::Identifier { name, span } => match symbol_table.get(name.as_str()) {
                Some(identifier) => Ok(identifier.primitive),
                None => Err(CompilerError::NameError { name: name.clone(), span: *span }),
            },
            Expr::BinOp { op, left, right, span } => {
                let left_type = match Self::check_expr(left, symbol_table) {
                    Ok(found) => found,
                    Err(error) => {
                        return Err(error);
                    },
                };
                let right_type = match Self::check_expr(right, symbol_table) {
                    Ok(found) => found,
                    Err(error) => {
                        return Err(error);
                    },
                };
                Self::infer_binop_type(*op, left_type, right_type, *span)
            },
            Expr::UnaryOp { op, operand, span } => {
                let operand_type = match Self::check_expr(operand, symbol_table) {
                    Ok(found) => found,
                    Err(error) => {
                        return Err(error);
                    },
                };
                Self::infer_unaryop_type(*op, operand_type, *span)
            },
        }
    }

    /// Checks that the value of `expr` may be stored in a binding of type
    /// `target`.
    fn check_stored(target: Primitive, expr: &Expr, symbol_table: &SymbolTable, span: Span) -> (r:
        Result<(), CompilerError>)
        ensures
            match stored(target, expr_type(expr@, symbol_table@), span) {
                None => r is Ok,
                Some(error) => r is Err && r->Err_0@ == error,
            },
    {
        let expr_type = match Self::check_expr(expr, symbol_table) {
            Ok(found) => found,
            Err(error) => {
                return Err(error);
            },
        };
        match Self::infer_binop_type(BinOpKind::Assign, target, expr_type, span) {
            Ok(_) => Ok(()),
            Err(error) => Err(error),
        }
    }

    /// Checks one statement, entering what it declares into
    /// `symbol_table`.
    pub fn check_stmt(stmt: &Stmt, symbol_table: &mut SymbolTable) -> (r: Result<
        (),
        CompilerError,
    >)
        ensures
            final(symbol_table)@ == stmt_check(stmt@, old(symbol_table)@).table,
            match stmt_check(stmt@, old(symbol_table)@).error {
                None => r is Ok,
                Some(error) => r is Err && r->Err_0@ == error,
            },
    {
        match stmt {
            Stmt::Declare { dtype, mutable, name, expr, span } => {
                symbol_table.insert(
                    name.clone(),
                    Identifier { primitive: *dtype, span: *span, mutable: *mutable },
                );
                Self::check_stored(*dtype, expr, symbol_table, *span)
            },
            Stmt::MutAssign { name, expr, span } => {
                let symbol = match symbol_table.get(name.as_str()) {
                    Some(identifier) => identifier,
                    None => {
                        return Err(CompilerError::NameError { name: name.clone(), span: *span });
                    },
                };
                if !symbol.mutable {
                    return Err(CompilerError::MutabilityError { name: name.clone(), span: *span });
                }
                Self::check_stored(symbol.primitive, expr, symbol_table, *span)
            },
            Stmt::Print { expr, .. } => {
                match Self::check_expr(expr, symbol_table) {
                    Ok(_) => Ok(()),
                    Err(error) => Err(error),
                }
            },
        }
    }

    /// Checks the statements of the program in order, each against the
    /// symbol table that the statements before it have left. The check
    /// stops at the first statement that is rejected.
    pub fn check(&mut self) -> (r: Result<(), CompilerError>)
        ensures
            final(self)@.ast == old(self)@.ast,
            final(self)@.table == check_from(old(self)@.ast, 0, old(self)@.table).table,
            match check_from(old(self)@.ast, 0, old(self)@.table).error {
                None => r is Ok,
                Some(error) => r is Err && r->Err_0@ == error,
            },
    {
        let ghost stmts = stmt_views(self.ast@);
        let ghost goal = check_from(stmts, 0, self.symbol_table@);
        let mut i: usize = 0;
        while i < self.ast.len()
            invariant
                self.ast == old(self).ast,
                stmts == stmt_views(self.ast@),
                i <= self.ast.len(),
                goal == check_from(stmts, 0, old(self).symbol_table@),
                goal == check_from(stmts, i as int, self.symbol_table@),
            decreases self.ast.len() - i,
        {
            match Self::check_stmt(&self.ast[i], &mut self.symbol_table) {
                Ok(_) => {},
                Err(error) => {
                    return Err(error);
                },
            }
            i = i + 1;
        }
        Ok(())
    }

    /// The symbol table as the checks so far have left it.
    pub fn get_symbol_table(&self) -> (r: &SymbolTable)
        ensures
            r@ == self@.table,
    {
        &self.symbol_table
    }
}

/// What analysing a whole program yields: its symbol table, or the first
/// error.
pub open spec fn analyze_spec(ast: Seq<StmtView>) -> Result<
    Map<Seq<char>, Identifier>,
    CompilerErrorView,
> {
    let run = check_from(ast, 0, Map::empty());
    match run.error {
        None => Ok(run.table),
        Some(error) => Err(error),
    }
}

/// Analyses `ast` with a symbol table that starts empty.
pub fn analyze(ast: Ast) -> (r: Result<SymbolTable, CompilerError>)
    ensures
        match analyze_spec(stmt_views(ast@)) {
            Ok(table) => r is Ok && r->Ok_0@ == table,
            Err(error) => r is Err && r->Err_0@ == error,
        },
{
    let mut analyser = SemanticAnalyser::new(ast);
    match analyser.check() {
        Ok(_) => Ok(analyser.symbol_table),
        Err(error) => Err(error),
    }
}

/// Whether `expr` refers to `name` at `span`.
pub open spec fn mentions(expr: ExprView, name: Seq<char>, span: Span) -> bool
    decreases expr,
{
    match expr {
        ExprView::Literal { .. } => false,
        ExprView::Identifier { name: n, span: s } => n == name && s == span,
        ExprView::BinOp { left, right, .. } => mentions(*left, name, span) || mentions(
            *right,
            name,
            span,
        ),
        ExprView::UnaryOp { operand, .. } => mentions(*operand, name, span),
    }
}

/// A reference to a name that is not declared is rejected with a name
/// error that carries exactly that name, and the place of the reference.
pub proof fn lemma_undeclared_reference(
    name: Seq<char>,
    span: Span,
    table: Map<Seq<char>, Identifier>,
)
    requires
        !table.contains_key(name),
    ensures
        expr_type(ExprView::Identifier { name, span }, table) == Err::<
            Primitive,
            CompilerErrorView,
        >(CompilerErrorView::NameError { name, span }),
{
}

/// A name error names a reference that stands in the expression, to a name
/// that is not declared.
pub proof fn lemma_name_error_is_exact(
    expr: ExprView,
    table: Map<Seq<char>, Identifier>,
    name: Seq<char>,
    span: Span,
)
    requires
        expr_type(expr, table) == Err::<Primitive, CompilerErrorView>(
            CompilerErrorView::NameError { name, span },
        ),
    ensures
        mentions(expr, name, span),
        !table.contains_key(name),
    decreases expr,
{
    match expr {
        ExprView::Literal { .. } => {},
        ExprView::Identifier { .. } => {},
        ExprView::BinOp { op, left, right, span: at } => {
            match expr_type(*left, table) {
                Err(_) => {
                    lemma_name_error_is_exact(*left, table, name, span);
                },
                Ok(left_type) => match expr_type(*right, table) {
                    Err(_) => {
                        lemma_name_error_is_exact(*right, table, name, span);
                    },
                    Ok(_) => {},
                },
            }
        },
        ExprView::UnaryOp { op, operand, span: at } => {
            match expr_type(*operand, table) {
                Err(_) => {
                    lemma_name_error_is_exact(*operand, table, name, span);
                },
                Ok(_) => {},
            }
        },
    }
}

/// An expression in which every name is declared is never rejected with a
/// name error.
pub proof fn lemma_declared_names_resolve(expr: ExprView, table: Map<Seq<char>, Identifier>)
    requires
        forall|name: Seq<char>, span: Span| #[trigger]
            mentions(expr, name, span) ==> table.contains_key(name),
    ensures
        !(expr_type(expr, table) matches Err(CompilerErrorView::NameError { .. })),
{
    if let Err(CompilerErrorView::NameError { name, span }) = expr_type(expr, table) {
        lemma_name_error_is_exact(expr, table, name, span);
    }
}

/// An assignment to a name that is not declared is rejected with a name
/// error that carries exactly that name; one to a name that is declared,
/// but not as mutable, with a mutability error.
pub proof fn lemma_assignment_target(
    name: Seq<char>,
    expr: ExprView,
    span: Span,
    table: Map<Seq<char>, Identifier>,
)
    ensures
        !table.contains_key(name) ==> stmt_check(
            StmtView::MutAssign { name, expr, span },
            table,
        ).error == Some(CompilerErrorView::NameError { name, span }),
        table.contains_key(name) && !table[name].mutable ==> stmt_check(
            StmtView::MutAssign { name, expr, span },
            table,
        ).error == Some(CompilerErrorView::MutabilityError { name, span }),
        stmt_check(StmtView::MutAssign { name, expr, span }, table).table == table,
{
}

/// The last declaration of `name` among the first `upto` statements, as
/// the symbol table records it.
pub open spec fn last_declaration(stmts: Seq<StmtView>, upto: int, name: Seq<char>) -> Option<
    Identifier,
>
    decreases upto,
{
    if upto <= 0 || upto > stmts.len() {
        None
    } else {
        match stmts[upto - 1] {
            StmtView::Declare { dtype, mutable, name: n, span, .. } => if n == name {
                Some(Identifier { primitive: dtype, span, mutable })
            } else {
                last_declaration(stmts, upto - 1, name)
            },
            _ => last_declaration(stmts, upto - 1, name),
        }
    }
}

/// How many of the statements from index `from` on are checked before the
/// check stops: all that are accepted, and the one that is rejected.
pub open spec fn checked_count(stmts: Seq<StmtView>, from: int, table: Map<Seq<char>, Identifier>)
    -> nat
    decreases stmts.len() - from,
{
    if 0 <= from < stmts.len() {
        let step = stmt_check(stmts[from], table);
        if step.error is Some {
            1
        } else {
            1 + checked_count(stmts, from + 1, step.table)
        }
    } else {
        0
    }
}

/// The induction behind [`lemma_analysis_records_declarations`]: a table
/// that records the last declarations among the first `from` statements
/// records, after the check, those among the statements checked.
proof fn lemma_table_records_last_declarations(
    stmts: Seq<StmtView>,
    from: int,
    table: Map<Seq<char>, Identifier>,
    name: Seq<char>,
)
    requires
        0 <= from <= stmts.len(),
        forall|n: Seq<char>| #[trigger]
            table.contains_key(n) <==> last_declaration(stmts, from, n) is Some,
        forall|n: Seq<char>| #[trigger]
            table.contains_key(n) ==> last_declaration(stmts, from, n) == Some(table[n]),
    ensures
        ({
            let end = from + checked_count(stmts, from, table);
            let after = check_from(stmts, from, table).table;
            &&& from <= end <= stmts.len()
            &&& after.contains_key(name) <==> last_declaration(stmts, end, name) is Some
            &&& after.contains_key(name) ==> last_declaration(stmts, end, name) == Some(
                after[name],
            )
        }),
    decreases stmts.len() - from,
{
    if from < stmts.len() {
        let step = stmt_check(stmts[from], table);
        assert forall|n: Seq<char>| #[trigger]
            step.table.contains_key(n) <==> last_declaration(stmts, from + 1, n) is Some by {
            assert(table.contains_key(n) <==> last_declaration(stmts, from, n) is Some);
        }
        assert forall|n: Seq<char>| #[trigger] step.table.contains_key(n) implies last_declaration(
            stmts,
            from + 1,
            n,
        ) == Some(step.table[n]) by {
            assert(table.contains_key(n) ==> last_declaration(stmts, from, n) == Some(table[n]));
        }
        if step.error is None {
            lemma_table_records_last_declarations(stmts, from + 1, step.table, name);
        }
    }
}

/// Analysing a program with a symbol table that starts empty leaves, for
/// every name, the last declaration of it among the statements that were
/// checked, and nothing else.
pub proof fn lemma_analysis_records_declarations(stmts: Seq<StmtView>, name: Seq<char>)
    ensures
        ({
            let end = checked_count(stmts, 0, Map::empty()) as int;
            let after = check_from(stmts, 0, Map::empty()).table;
            &&& end <= stmts.len()
            &&& after.contains_key(name) <==> last_declaration(stmts, end, name) is Some
            &&& after.contains_key(name) ==> last_declaration(stmts, end, name) == Some(
                after[name],
            )
        }),
{
    lemma_table_records_last_declarations(stmts, 0, Map::empty(), name);
}

/// Analysis has no memory: two programs with the same statements, each
/// analysed with a table that starts empty, end with the same table, or
/// with the same error.
pub proof fn lemma_analysis_is_repeatable(first: Seq<StmtView>, second: Seq<StmtView>)
    requires
        first =~= second,
    ensures
        analyze_spec(first) == analyze_spec(second),
        check_from(first, 0, Map::empty()) == check_from(second, 0, Map::empty()),
{
}

} // verus!
