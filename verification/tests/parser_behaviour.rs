use lang_front::errors::CompilerError;
use lang_front::lexer::scan;
use lang_front::parser::{parse, Parser};
use lang_front::schemas::{
    Ast, BinOpKind, Expr, Literal, Primitive, Span, Stmt, Token, TokenKind, UnaryOpKind,
};

fn parse_text(input: &str) -> Result<Ast, CompilerError> {
    parse(scan(input)?)
}

fn failure(input: &str) -> (String, Span) {
    match parse_text(input) {
        Err(CompilerError::SyntaxError { message, span }) => (message, span),
        other => panic!("expected a syntax error, got {:?}", other),
    }
}

fn at(line: usize, col: usize) -> Span {
    Span { line, col }
}

fn number(text: &str, line: usize, col: usize) -> Expr {
    Expr::Literal {
        value: text.to_string(),
        primitive: Primitive::Int,
        span: at(line, col),
    }
}

fn name(text: &str, line: usize, col: usize) -> Expr {
    Expr::Identifier {
        name: text.to_string(),
        span: at(line, col),
    }
}

fn binary(op: BinOpKind, left: Expr, right: Expr, line: usize, col: usize) -> Expr {
    Expr::BinOp {
        op,
        left: Box::new(left),
        right: Box::new(right),
        span: at(line, col),
    }
}

fn unary(op: UnaryOpKind, operand: Expr, line: usize, col: usize) -> Expr {
    Expr::UnaryOp {
        op,
        operand: Box::new(operand),
        span: at(line, col),
    }
}

fn initializer(input: &str) -> Expr {
    match parse_text(input).unwrap().pop() {
        Some(Stmt::Declare { expr, .. }) => expr,
        other => panic!("expected a declaration, got {:?}", other),
    }
}

#[test]
fn nodes_carry_the_place_of_their_token() {
    let ast = parse_text("int a = 1 + b;\nprint(-a);\0").unwrap();
    assert_eq!(
        ast,
        vec![
            Stmt::Declare {
                dtype: Primitive::Int,
                mutable: false,
                name: "a".to_string(),
                expr: binary(
                    BinOpKind::Add,
                    number("1", 1, 9),
                    name("b", 1, 13),
                    1,
                    11
                ),
                span: at(1, 1),
            },
            Stmt::Print {
                expr: unary(UnaryOpKind::Neg, name("a", 2, 8), 2, 7),
                span: at(2, 1),
            },
        ]
    );
}

#[test]
fn operators_of_one_level_group_to_the_left() {
    assert_eq!(
        initializer("int a = 1 - 2 - 3;\0"),
        binary(
            BinOpKind::Sub,
            binary(BinOpKind::Sub, number("1", 1, 9), number("2", 1, 13), 1, 11),
            number("3", 1, 17),
            1,
            15
        )
    );
    assert_eq!(
        initializer("int a = 8 / 4 * 2;\0"),
        binary(
            BinOpKind::Mult,
            binary(BinOpKind::Div, number("8", 1, 9), number("4", 1, 13), 1, 11),
            number("2", 1, 17),
            1,
            15
        )
    );
}

#[test]
fn the_six_levels_bind_in_order() {
    // a || b && c == d < e + f * g
    assert_eq!(
        initializer("bool r = a || b && c == d < e + f * g;\0"),
        binary(
            BinOpKind::Or,
            name("a", 1, 10),
            binary(
                BinOpKind::And,
                name("b", 1, 15),
                binary(
                    BinOpKind::Eq,
                    name("c", 1, 20),
                    binary(
                        BinOpKind::Lt,
                        name("d", 1, 25),
                        binary(
                            BinOpKind::Add,
                            name("e", 1, 29),
                            binary(BinOpKind::Mult, name("f", 1, 33), name("g", 1, 37), 1, 35),
                            1,
                            31
                        ),
                        1,
                        27
                    ),
                    1,
                    22
                ),
                1,
                17
            ),
            1,
            12
        )
    );
}

#[test]
fn a_sign_after_an_operator_is_a_prefix() {
    assert_eq!(
        initializer("int a = 3 - -5;\0"),
        binary(
            BinOpKind::Sub,
            number("3", 1, 9),
            unary(UnaryOpKind::Neg, number("5", 1, 14), 1, 13),
            1,
            11
        )
    );
}

#[test]
fn a_prefix_binds_tighter_than_any_infix_operator() {
    assert_eq!(
        initializer("int a = -b * c;\0"),
        binary(
            BinOpKind::Mult,
            unary(UnaryOpKind::Neg, name("b", 1, 10), 1, 9),
            name("c", 1, 14),
            1,
            12
        )
    );
    assert_eq!(
        initializer("bool a = !b == c;\0"),
        binary(
            BinOpKind::Eq,
            unary(UnaryOpKind::Not, name("b", 1, 11), 1, 10),
            name("c", 1, 16),
            1,
            13
        )
    );
}

#[test]
fn unary_plus_leaves_no_node() {
    assert_eq!(initializer("int a = +3;\0"), number("3", 1, 10));
    assert_eq!(initializer("int a = + + b;\0"), name("b", 1, 13));
    assert_eq!(
        initializer("int a = +-b;\0"),
        unary(UnaryOpKind::Neg, name("b", 1, 11), 1, 10)
    );
}

#[test]
fn parentheses_leave_no_node() {
    assert_eq!(initializer("int a = ((7));\0"), number("7", 1, 11));
    assert_eq!(
        initializer("int a = 2 * (3 + 4);\0"),
        binary(
            BinOpKind::Mult,
            number("2", 1, 9),
            binary(BinOpKind::Add, number("3", 1, 14), number("4", 1, 18), 1, 16),
            1,
            11
        )
    );
}

#[test]
fn the_qualifier_may_stand_on_either_side_of_the_type() {
    let ast = parse_text("mut int a = 1;\nint mut b = 2;\nint c = 3;\0").unwrap();
    assert_eq!(
        ast,
        vec![
            Stmt::Declare {
                dtype: Primitive::Int,
                mutable: true,
                name: "a".to_string(),
                expr: number("1", 1, 13),
                span: at(1, 5),
            },
            Stmt::Declare {
                dtype: Primitive::Int,
                mutable: true,
                name: "b".to_string(),
                expr: number("2", 2, 13),
                span: at(2, 1),
            },
            Stmt::Declare {
                dtype: Primitive::Int,
                mutable: false,
                name: "c".to_string(),
                expr: number("3", 3, 9),
                span: at(3, 1),
            },
        ]
    );
}

#[test]
fn the_qualifier_is_taken_once() {
    let (message, span) = failure("mut int mut a = 1;\0");
    assert_eq!(message, "Unexpected token Mut.");
    assert_eq!(span, at(1, 9));

    let (message, span) = failure("mut a = 1;\0");
    assert_eq!(message, "Unexpected token Identifier(\"a\").");
    assert_eq!(span, at(1, 5));

    let (message, span) = failure("mut mut int a = 1;\0");
    assert_eq!(message, "Unexpected token Mut.");
    assert_eq!(span, at(1, 5));
}

#[test]
fn a_reassignment_is_a_name_and_a_value() {
    let ast = parse_text("a = b * 2;\0").unwrap();
    assert_eq!(
        ast,
        vec![Stmt::MutAssign {
            name: "a".to_string(),
            expr: binary(BinOpKind::Mult, name("b", 1, 5), number("2", 1, 9), 1, 7),
            span: at(1, 1),
        }]
    );
}

#[test]
fn a_name_without_a_value_begins_no_statement() {
    let (message, span) = failure("let a = 2;\0");
    assert_eq!(message, "Unexpected token of kind Identifier(\"let\").");
    assert_eq!(span, at(1, 1));

    let (message, span) = failure("a;\0");
    assert_eq!(message, "Unexpected token of kind Identifier(\"a\").");
    assert_eq!(span, at(1, 1));
}

#[test]
fn tokens_that_begin_no_statement() {
    let (message, span) = failure("  1 + 2;\0");
    assert_eq!(
        message,
        "Unexpected token of kind Literal(Literal { value: \"1\", primitive: Int })."
    );
    assert_eq!(span, at(1, 3));

    let (message, span) = failure(";\0");
    assert_eq!(message, "Unexpected token of kind EOS.");
    assert_eq!(span, at(1, 1));

    let (message, span) = failure("int a = 1;\n)\0");
    assert_eq!(message, "Unexpected token of kind RParen.");
    assert_eq!(span, at(2, 1));

    let (message, span) = failure("= 1;\0");
    assert_eq!(message, "Unexpected token of kind BinOp(Assign).");
    assert_eq!(span, at(1, 1));
}

#[test]
fn what_a_declaration_needs() {
    let (message, span) = failure("int = 2;\0");
    assert_eq!(message, "Unexpected token BinOp(Assign).");
    assert_eq!(span, at(1, 5));

    let (message, span) = failure("int a 2;\0");
    assert_eq!(message, "Expected '=' after declaration.");
    assert_eq!(span, at(1, 7));

    let (message, span) = failure("int a == 2;\0");
    assert_eq!(message, "Expected '=' after declaration.");
    assert_eq!(span, at(1, 7));

    let (message, span) = failure("int a = ;\0");
    assert_eq!(message, "Unexpected token EOS.");
    assert_eq!(span, at(1, 9));
}

#[test]
fn what_a_print_statement_needs() {
    let (message, span) = failure("print a + 2;\0");
    assert_eq!(message, "Expected opening '(' after 'print' keyword.");
    assert_eq!(span, at(1, 7));

    let (message, span) = failure("print(a + 2;\0");
    assert_eq!(message, "Expected closing ')'.");
    assert_eq!(span, at(1, 12));

    let (message, span) = failure("print();\0");
    assert_eq!(message, "Unexpected token RParen.");
    assert_eq!(span, at(1, 7));
}

#[test]
fn a_statement_ends_with_a_semicolon() {
    let (message, span) = failure("int a = 0 print(a);\0");
    assert_eq!(message, "Unexpected token Print.");
    assert_eq!(span, at(1, 11));

    let (message, span) = failure("int a = 0\0");
    assert_eq!(message, "Expected ';' at end of expression.");
    assert_eq!(span, at(1, 10));

    let (message, span) = failure("print(a) print(b);\0");
    assert_eq!(message, "Expected ';' at end of expression.");
    assert_eq!(span, at(1, 10));

    let (message, span) = failure("int a = 3;\nfloat b = a + 4) / 4;\0");
    assert_eq!(message, "Unmatched ')'.");
    assert_eq!(span, at(2, 16));
}

#[test]
fn an_opening_parenthesis_needs_its_closing_one() {
    let (message, span) = failure("int a = ((5 + 4) / 4;\0");
    assert_eq!(message, "Expected closing ')'.");
    assert_eq!(span, at(1, 21));

    let (message, span) = failure("int a = (1\0");
    assert_eq!(message, "Expected closing ')'.");
    assert_eq!(span, at(1, 11));
}

#[test]
fn operators_that_stand_between_no_operands() {
    let (message, span) = failure("int a = 5;\nbool b = (a => 6);\0");
    assert_eq!(message, "Unexpected token Assign.");
    assert_eq!(span, at(2, 13));

    let (message, span) = failure("bool b = a ! c;\0");
    assert_eq!(message, "Unexpected token Not.");
    assert_eq!(span, at(1, 12));

    let (message, span) = failure("int a = * 2;\0");
    assert_eq!(message, "Unexpected token BinOp(Mult).");
    assert_eq!(span, at(1, 9));
}

#[test]
fn two_operands_need_an_operator() {
    let (message, span) = failure("int a = 1 b;\0");
    assert_eq!(message, "Unexpected token Identifier(\"b\").");
    assert_eq!(span, at(1, 11));

    let (message, span) = failure("int a = b (1);\0");
    assert_eq!(message, "Unexpected token LParen.");
    assert_eq!(span, at(1, 11));

    let (message, span) = failure("int a = 1 int;\0");
    assert_eq!(message, "Unexpected token Declare(Int).");
    assert_eq!(span, at(1, 11));
}

#[test]
fn the_end_of_input_in_an_expression_is_an_unexpected_token() {
    let (message, span) = failure("int a = 1 +\0");
    assert_eq!(message, "Unexpected token EOF.");
    assert_eq!(span, at(1, 12));

    let (message, span) = failure("int a =\0");
    assert_eq!(message, "Unexpected token EOF.");
    assert_eq!(span, at(1, 8));
}

#[test]
fn tokens_that_run_out_are_read_as_the_end_of_input() {
    let tokens = vec![
        Token {
            kind: TokenKind::Declare(Primitive::Int),
            span: at(1, 1),
        },
        Token {
            kind: TokenKind::Identifier("a".to_string()),
            span: at(1, 5),
        },
        Token {
            kind: TokenKind::BinOp(BinOpKind::Assign),
            span: at(1, 7),
        },
    ];
    match parse(tokens) {
        Err(CompilerError::SyntaxError { message, span }) => {
            assert_eq!(message, "Unexpected token EOF.");
            assert_eq!(span, at(0, 0));
        }
        other => panic!("expected a syntax error, got {:?}", other),
    }
    assert_eq!(parse(Vec::new()).unwrap(), Vec::new());
}

#[test]
fn nothing_after_the_end_of_input_token_is_read() {
    let tokens = vec![
        Token {
            kind: TokenKind::Print,
            span: at(1, 1),
        },
        Token {
            kind: TokenKind::LParen,
            span: at(1, 6),
        },
        Token {
            kind: TokenKind::Literal(Literal {
                value: "1".to_string(),
                primitive: Primitive::Int,
            }),
            span: at(1, 7),
        },
        Token {
            kind: TokenKind::RParen,
            span: at(1, 8),
        },
        Token {
            kind: TokenKind::EOS,
            span: at(1, 9),
        },
        Token {
            kind: TokenKind::EOF,
            span: at(1, 10),
        },
        Token {
            kind: TokenKind::RParen,
            span: at(1, 11),
        },
    ];
    assert_eq!(
        parse(tokens).unwrap(),
        vec![Stmt::Print {
            expr: number("1", 1, 7),
            span: at(1, 1),
        }]
    );
}

#[test]
fn a_failed_parse_keeps_the_statements_before_the_error() {
    let tokens = scan("int a = 1;\nprint(a);\nint = 2;\nint b = 3;\0").unwrap();
    let mut parser = Parser::new(tokens);
    assert!(parser.parse().is_err());
    assert_eq!(
        parser.get_tree(),
        &vec![
            Stmt::Declare {
                dtype: Primitive::Int,
                mutable: false,
                name: "a".to_string(),
                expr: number("1", 1, 9),
                span: at(1, 1),
            },
            Stmt::Print {
                expr: name("a", 2, 7),
                span: at(2, 1),
            },
        ]
    );
}

#[test]
fn a_new_parser_has_no_statements() {
    let parser = Parser::new(scan("int a = 1;\0").unwrap());
    assert!(parser.get_tree().is_empty());
}

#[test]
fn parse_agrees_with_the_parser() {
    let program = "mut float x = (1 + 2) * -3;\nx = x / 2;\nprint(!(x > 1) || true);\0";
    let mut parser = Parser::new(scan(program).unwrap());
    parser.parse().unwrap();
    assert_eq!(&parse(scan(program).unwrap()).unwrap(), parser.get_tree());
    assert_eq!(parser.get_tree().len(), 3);
}

#[test]
fn a_finished_parser_stays_as_it_is() {
    let mut parser = Parser::new(scan("int a = 1;\0").unwrap());
    parser.parse().unwrap();
    let first = parser.get_tree().clone();
    parser.parse().unwrap();
    assert_eq!(parser.get_tree(), &first);
}

#[test]
fn a_copy_of_a_tree_equals_it() {
    let expr = initializer("bool r = !(a + 1.5 >= -b) && true;\0");
    assert_eq!(expr.duplicate(), expr);
    assert_eq!(expr.clone(), expr);
}
