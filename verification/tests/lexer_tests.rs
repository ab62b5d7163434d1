use lang_front::errors::CompilerError;
use lang_front::lexer::Lexer;
use lang_front::schemas::{BinOpKind, Literal, Primitive, Span, TokenKind};


fn tokenize(input: &str) -> Result<Vec<TokenKind>, CompilerError> {
    let mut lexer = Lexer::new(&(input.to_owned() + "\0"));
    lexer.tokenize()?;
    Ok(lexer.get_tokens().iter().map(|t| t.kind.clone()).collect())
}

fn get_token_spans(input: &str) -> Result<Vec<Span>, CompilerError> {
    let mut lexer = Lexer::new(&(input.to_owned() + "\0"));
    lexer.tokenize()?;
    Ok(lexer.get_tokens().iter().map(|t| t.span.clone()).collect())
}

#[test]
fn test_int_declaration() {
    let tokens = tokenize("int a = 42;").unwrap();
    assert_eq!(
        tokens,
        vec![
            TokenKind::Declare(Primitive::Int),
            TokenKind::Identifier("a".into()),
            TokenKind::BinOp(BinOpKind::Assign),
            TokenKind::Literal(Literal {
                value: "42".to_string(),
                primitive: Primitive::Int
            }),
            TokenKind::EOS,
            TokenKind::EOF,
        ]
    );
}

#[test]
fn test_float_declaration() {
    let tokens = tokenize("float pi = 3.14;").unwrap();
    assert_eq!(
        tokens,
        vec![
            TokenKind::Declare(Primitive::Float),
            TokenKind::Identifier("pi".into()),
            TokenKind::BinOp(BinOpKind::Assign),
            TokenKind::Literal(Literal {
                value: "3.14".to_string(),
                primitive: Primitive::Float
            }),
            TokenKind::EOS,
            TokenKind::EOF,
        ]
    );
}

#[test]
fn lexer_test_print_statement() {
    let tokens = tokenize("print(x);").unwrap();
    assert_eq!(
        tokens,
        vec![
            TokenKind::Print,
            TokenKind::LParen,
            TokenKind::Identifier("x".into()),
            TokenKind::RParen,
            TokenKind::EOS,
            TokenKind::EOF,
        ]
    );
}

#[test]
fn test_simple_expression() {
    let tokens = tokenize("int a = 3 + 5;").unwrap();
    assert_eq!(
        tokens,
        vec![
            TokenKind::Declare(Primitive::Int),
            TokenKind::Identifier("a".into()),
            TokenKind::BinOp(BinOpKind::Assign),
            TokenKind::Literal(Literal {
                value: "3".to_string(),
                primitive: Primitive::Int
            }),
            TokenKind::BinOp(BinOpKind::Add),
            TokenKind::Literal(Literal {
                value: "5".to_string(),
                primitive: Primitive::Int
            }),
            TokenKind::EOS,
            TokenKind::EOF,
        ]
    );
}

#[test]
fn test_expression_with_negation() {
    let tokens = tokenize("int a = 3 * (-5);").unwrap();
    assert_eq!(
        tokens,
        vec![
            TokenKind::Declare(Primitive::Int),
            TokenKind::Identifier("a".into()),
            TokenKind::BinOp(BinOpKind::Assign),
            TokenKind::Literal(Literal {
                value: "3".to_string(),
                primitive: Primitive::Int
            }),
            TokenKind::BinOp(BinOpKind::Mult),
            TokenKind::LParen,
            TokenKind::BinOp(BinOpKind::Sub),
            TokenKind::Literal(Literal {
                value: "5".to_string(),
                primitive: Primitive::Int
            }),
            TokenKind::RParen,
            TokenKind::EOS,
            TokenKind::EOF,
        ]
    );
}

#[test]
fn test_parentheses_and_mult_div() {
    let tokens = tokenize("(2 * 4) / .5;").unwrap();
    assert_eq!(
        tokens,
        vec![
            TokenKind::LParen,
            TokenKind::Literal(Literal {
                value: "2".to_string(),
                primitive: Primitive::Int
            }),
            TokenKind::BinOp(BinOpKind::Mult),
            TokenKind::Literal(Literal {
                value: "4".to_string(),
                primitive: Primitive::Int
            }),
            TokenKind::RParen,
            TokenKind::BinOp(BinOpKind::Div),
            TokenKind::Literal(Literal {
                value: ".5".to_string(),
                primitive: Primitive::Float
            }),
            TokenKind::EOS,
            TokenKind::EOF,
        ]
    );
}

#[test]
fn test_identifier_with_underscore() {
    let tokens = tokenize("int my_var = 1;").unwrap();
    assert_eq!(
        tokens,
        vec![
            TokenKind::Declare(Primitive::Int),
            TokenKind::Identifier("my_var".into()),
            TokenKind::BinOp(BinOpKind::Assign),
            TokenKind::Literal(Literal {
                value: "1".to_string(),
                primitive: Primitive::Int
            }),
            TokenKind::EOS,
            TokenKind::EOF,
        ]
    );
}

#[test]
fn test_boolean_expression() {
    let tokens = tokenize("bool b = true && false || true != false && true == false;").unwrap();
    assert_eq!(
        tokens,
        vec![
            TokenKind::Declare(Primitive::Bool),
            TokenKind::Identifier("b".into()),
            TokenKind::BinOp(BinOpKind::Assign),
            TokenKind::Literal(Literal {
                value: "true".to_string(),
                primitive: Primitive::Bool
            }),
            TokenKind::BinOp(BinOpKind::And),
            TokenKind::Literal(Literal {
                value: "false".to_string(),
                primitive: Primitive::Bool
            }),
            TokenKind::BinOp(BinOpKind::Or),
            TokenKind::Literal(Literal {
                value: "true".to_string(),
                primitive: Primitive::Bool
            }),
            TokenKind::BinOp(BinOpKind::Ne),
            TokenKind::Literal(Literal {
                value: "false".to_string(),
                primitive: Primitive::Bool
            }),
            TokenKind::BinOp(BinOpKind::And),
            TokenKind::Literal(Literal {
                value: "true".to_string(),
                primitive: Primitive::Bool
            }),
            TokenKind::BinOp(BinOpKind::Eq),
            TokenKind::Literal(Literal {
                value: "false".to_string(),
                primitive: Primitive::Bool
            }),
            TokenKind::EOS,
            TokenKind::EOF,
        ]
    );
}

#[test]
fn test_number_comparison() {
    let tokens = tokenize("int a = 1 > 1 && 2 < 2 && 3 >= 3 && 4 <= 4;").unwrap();
    assert_eq!(
        tokens,
        vec![
            TokenKind::Declare(Primitive::Int),
            TokenKind::Identifier("a".into()),
            TokenKind::BinOp(BinOpKind::Assign),
            TokenKind::Literal(Literal {
                value: "1".to_string(),
                primitive: Primitive::Int
            }),
            TokenKind::BinOp(BinOpKind::Gt),
            TokenKind::Literal(Literal {
                value: "1".to_string(),
                primitive: Primitive::Int
            }),
            TokenKind::BinOp(BinOpKind::And),
            TokenKind::Literal(Literal {
                value: "2".to_string(),
                primitive: Primitive::Int
            }),
            TokenKind::BinOp(BinOpKind::Lt),
            TokenKind::Literal(Literal {
                value: "2".to_string(),
                primitive: Primitive::Int
            }),
            TokenKind::BinOp(BinOpKind::And),
            TokenKind::Literal(Literal {
                value: "3".to_string(),
                primitive: Primitive::Int
            }),
            TokenKind::BinOp(BinOpKind::Ge),
            TokenKind::Literal(Literal {
                value: "3".to_string(),
                primitive: Primitive::Int
            }),
            TokenKind::BinOp(BinOpKind::And),
            TokenKind::Literal(Literal {
                value: "4".to_string(),
                primitive: Primitive::Int
            }),
            TokenKind::BinOp(BinOpKind::Le),
            TokenKind::Literal(Literal {
                value: "4".to_string(),
                primitive: Primitive::Int
            }),
            TokenKind::EOS,
            TokenKind::EOF,
        ]
    );
}

#[test]
fn test_invalid_character() {
    let result = tokenize("int a = 5 $ 2;");
    assert!(matches!(result, Err(CompilerError::SyntaxError { .. })));
}

#[test]
fn test_span_positions() {
    let spans = get_token_spans("int a = 5 - 0.2;\nbool b = !(a >= 17);").unwrap();
    assert_eq!(
        spans,
        vec![
            Span { line: 1, col: 1 },    // int
            Span { line: 1, col: 5 },    // a
            Span { line: 1, col: 7 },    // =
            Span { line: 1, col: 9 },    // 5
            Span { line: 1, col: 11 },   // -
            Span { line: 1, col: 13 },   // 0.2
            Span { line: 1, col: 16 },   // ;
            Span { line: 2, col: 1 },    // bool
            Span { line: 2, col: 6 },    // b
            Span { line: 2, col: 8 },    // =
            Span { line: 2, col: 10 },   // !
            Span { line: 2, col: 11 },   // (
            Span { line: 2, col: 12 },   // a
            Span { line: 2, col: 14 },   // >=
            Span { line: 2, col: 17 },   // 17
            Span { line: 2, col: 19 },   // )
            Span { line: 2, col: 20 },   // ;
            Span { line: 2, col: 21 },   // EOF
        ]
    );
}

#[test]
fn test_span_positions_no_whitespaces() {
    let spans = get_token_spans("int a=5-0.2;\nbool b=!(a>=17);").unwrap();
    assert_eq!(
        spans,
        vec![
            Span { line: 1, col: 1 },   // int
            Span { line: 1, col: 5 },   // a
            Span { line: 1, col: 6 },   // =
            Span { line: 1, col: 7 },   // 5
            Span { line: 1, col: 8 },   // -
            Span { line: 1, col: 9 },   // 0.2
            Span { line: 1, col: 12 },  // ;
            Span { line: 2, col: 1 },   // bool
            Span { line: 2, col: 6 },   // b
            Span { line: 2, col: 7 },   // =
            Span { line: 2, col: 8 },   // !
            Span { line: 2, col: 9 },   // (
            Span { line: 2, col: 10 },  // a
            Span { line: 2, col: 11 },  // >=
            Span { line: 2, col: 13 },  // 17
            Span { line: 2, col: 15 },  // )
            Span { line: 2, col: 16 },  // ;
            Span { line: 2, col: 17 },  // EOF
        ]
    );
}

#[test]
fn test_span_multi_line() {
    let spans = get_token_spans("int a = -5 +\n 7;\n\nbool \nb = false;").unwrap();
    assert_eq!(
        spans,
        vec![
            Span { line: 1, col: 1 },   // int
            Span { line: 1, col: 5 },   // a
            Span { line: 1, col: 7 },   // =
            Span { line: 1, col: 9 },   // -
            Span { line: 1, col: 10 },  // 5
            Span { line: 1, col: 12 },  // +
            Span { line: 2, col: 2 },   // 7
            Span { line: 2, col: 3 },   // ;
            Span { line: 4, col: 1 },   // bool
            Span { line: 5, col: 1 },   // b
            Span { line: 5, col: 3 },   // =
            Span { line: 5, col: 5 },   // false
            Span { line: 5, col: 10 },  // ;
            Span { line: 5, col: 11 },  // EOF
        ]
    );
}
