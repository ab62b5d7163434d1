//! The diagnostics that the three stages report, and how they read.

use crate::schemas::{BinOpKind, Primitive, Span, UnaryOpKind};
use crate::text::{decimal, push_decimal};
use vstd::prelude::*;
use vstd::string::StringExecFns;

verus! {

/// Why a program was rejected. Every variant names the place in the source
/// that the complaint is about.
#[derive(Debug, PartialEq, Clone)]
pub enum CompilerError {
    /// The scanner or the parser met something that the grammar does not
    /// allow.
    SyntaxError { message: String, span: Span },
    /// An initializer or an assigned value does not fit the declared type.
    TypeDeclarationError { expected: Primitive, found: Primitive, span: Span },
    /// A binary operator does not take operands of these two types.
    TypeBinOpError { op: BinOpKind, left: Primitive, right: Primitive, span: Span },
    /// A unary operator does not take an operand of this type.
    TypeUnaryOpError { op: UnaryOpKind, operand: Primitive, span: Span },
    /// A name is used that no earlier statement declares.
    NameError { name: String, span: Span },
    /// A binding that was not declared `mut` is assigned again.
    MutabilityError { name: String, span: Span },
}

/// The value of a [`CompilerError`].
pub enum CompilerErrorView {
    SyntaxError { message: Seq<char>, span: Span },
    TypeDeclarationError { expected: Primitive, found: Primitive, span: Span },
    TypeBinOpError { op: BinOpKind, left: Primitive, right: Primitive, span: Span },
    TypeUnaryOpError { op: UnaryOpKind, operand: Primitive, span: Span },
    NameError { name: Seq<char>, span: Span },
    MutabilityError { name: Seq<char>, span: Span },
}

impl View for CompilerError {
    type V = CompilerErrorView;

    open spec fn view(&self) -> CompilerErrorView {
        match self {
            CompilerError::SyntaxError { message, span } => CompilerErrorView::SyntaxError {
                message: message@,
                span: *span,
            },
            CompilerError::TypeDeclarationError {
                expected,
                found,
                span,
            } => CompilerErrorView::TypeDeclarationError {
                expected: *expected,
                found: *found,
                span: *span,
            },
            CompilerError::TypeBinOpError { op, left, right, span } => CompilerErrorView::TypeBinOpError {
                op: *op,
                left: *left,
                right: *right,
                span: *span,
            },
            CompilerError::TypeUnaryOpError { op, operand, span } => CompilerErrorView::TypeUnaryOpError {
                op: *op,
                operand: *operand,
                span: *span,
            },
            CompilerError::NameError { name, span } => CompilerErrorView::NameError {
                name: name@,
                span: *span,
            },
            CompilerError::MutabilityError { name, span } => CompilerErrorView::MutabilityError {
                name: name@,
                span: *span,
            },
        }
    }
}

/// The heading of a rendered diagnostic: its family and its place.
pub open spec fn heading(family: Seq<char>, span: Span) -> Seq<char> {
    family + " (line "@ + decimal(span.line as nat) + ", position "@ + decimal(span.col as nat)
        + "): "@
}

impl CompilerErrorView {
    /// The place that the diagnostic points at.
    pub open spec fn span(self) -> Span {
        match self {
            CompilerErrorView::SyntaxError { span, .. } => span,
            CompilerErrorView::TypeDeclarationError { span, .. } => span,
            CompilerErrorView::TypeBinOpError { span, .. } => span,
            CompilerErrorView::TypeUnaryOpError { span, .. } => span,
            CompilerErrorView::NameError { span, .. } => span,
            CompilerErrorView::MutabilityError { span, .. } => span,
        }
    }

    /// The family that the heading of the rendered diagnostic names.
    pub open spec fn family(self) -> Seq<char> {
        match self {
            CompilerErrorView::SyntaxError { .. } => "SyntaxError"@,
            CompilerErrorView::TypeDeclarationError { .. } => "TypeError"@,
            CompilerErrorView::TypeBinOpError { .. } => "TypeError"@,
            CompilerErrorView::TypeUnaryOpError { .. } => "TypeError"@,
            CompilerErrorView::NameError { .. } => "NameError"@,
            CompilerErrorView::MutabilityError { .. } => "MutabilityError"@,
        }
    }

    /// What the rendered diagnostic says after its heading.
    pub open spec fn detail(self) -> Seq<char> {
        match self {
            CompilerErrorView::SyntaxError { message, .. } => message,
            CompilerErrorView::TypeDeclarationError { expected, found, .. } => "Expected '"@
                + expected.label() + "', found '"@ + found.label() + "'."@,
            CompilerErrorView::TypeBinOpError {
                op,
                left,
                right,
                ..
            } => "Cannot apply binary operation '"@ + op.label() + "' to '"@ + left.label()
                + "' and '"@ + right.label() + "'."@,
            CompilerErrorView::TypeUnaryOpError { op, operand, .. } =>
                "Cannot apply unary operation '"@ + op.label() + "' to '"@ + operand.label()
                    + "''."@,
            CompilerErrorView::NameError { name, .. } => "Cannot find identifier '"@ + name
                + "'."@,
            CompilerErrorView::MutabilityError { name, .. } =>
                "Cannot assign to immutable identifier '"@ + name + "'."@,
        }
    }

    /// The diagnostic as one line of text: family, place, then what is
    /// wrong.
    pub open spec fn rendered(self) -> Seq<char> {
        heading(self.family(), self.span()) + self.detail()
    }
}

impl CompilerError {
    /// The place that the diagnostic points at.
    pub fn span(&self) -> (r: Span)
        ensures
            r == self@.span(),
    {
        match self {
            CompilerError::SyntaxError { span, .. } => *span,
            CompilerError::TypeDeclarationError { span, .. } => *span,
            CompilerError::TypeBinOpError { span, .. } => *span,
            CompilerError::TypeUnaryOpError { span, .. } => *span,
            CompilerError::NameError { span, .. } => *span,
            CompilerError::MutabilityError { span, .. } => *span,
        }
    }

    fn family(&self) -> (r: &'static str)
        ensures
            r@ == self@.family(),
    {
        match self {
            CompilerError::SyntaxError { .. } => "SyntaxError",
            CompilerError::TypeDeclarationError { .. } => "TypeError",
            CompilerError::TypeBinOpError { .. } => "TypeError",
            CompilerError::TypeUnaryOpError { .. } => "TypeError",
            CompilerError::NameError { .. } => "NameError",
            CompilerError::MutabilityError { .. } => "MutabilityError",
        }
    }

    fn push_detail(&self, out: &mut String)
        ensures
            final(out)@ == old(out)@ + self@.detail(),
    {
        match self {
            CompilerError::SyntaxError { message, .. } => {
                out.append(message.as_str());
            },
            CompilerError::TypeDeclarationError { expected, found, .. } => {
                out.append("Expected '");
                out.append(expected.name());
                out.append("', found '");
                out.append(found.name());
                out.append("'.");
            },
            CompilerError::TypeBinOpError { op, left, right, .. } => {
                out.append("Cannot apply binary operation '");
                out.append(op.name());
                out.append("' to '");
                out.append(left.name());
                out.append("' and '");
                out.append(right.name());
                out.append("'.");
            },
            CompilerError::TypeUnaryOpError { op, operand, .. } => {
                out.append("Cannot apply unary operation '");
                out.append(op.name());
                out.append("' to '");
                out.append(operand.name());
                out.append("''.");
            },
            CompilerError::NameError { name, .. } => {
                out.append("Cannot find identifier '");
                out.append(name.as_str());
                out.append("'.");
            },
            CompilerError::MutabilityError { name, .. } => {
                out.append("Cannot assign to immutable identifier '");
                out.append(name.as_str());
                out.append("'.");
            },
        }
        assert(out@ =~= old(out)@ + self@.detail());
    }

    /// The diagnostic as one line of text, for the user to read.
    pub fn to_string(&self) -> (r: String)
        ensures
            r@ == self@.rendered(),
    {
        let span = self.span();
        let mut out = String::from_str(self.family());
        out.append(" (line ");
        push_decimal(&mut out, span.line);
        out.append(", position ");
        push_decimal(&mut out, span.col);
        out.append("): ");
        assert(out@ =~= heading(self@.family(), self@.span()));
        self.push_detail(&mut out);
        out
    }
}

} // verus!
