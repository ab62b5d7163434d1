use lang_front::errors::CompilerError;
use lang_front::lexer::{classify, scan, Lead, Lexer};
use lang_front::schemas::{BinOpKind, Literal, Primitive, Span, Token, TokenKind};

fn kinds(tokens: &[Token]) -> Vec<TokenKind> {
    tokens.iter().map(|t| t.kind.clone()).collect()
}

fn spans(tokens: &[Token]) -> Vec<Span> {
    tokens.iter().map(|t| t.span).collect()
}

fn int_literal(text: &str) -> TokenKind {
    TokenKind::Literal(Literal {
        value: text.to_string(),
        primitive: Primitive::Int,
    })
}

fn float_literal(text: &str) -> TokenKind {
    TokenKind::Literal(Literal {
        value: text.to_string(),
        primitive: Primitive::Float,
    })
}

fn bool_literal(text: &str) -> TokenKind {
    TokenKind::Literal(Literal {
        value: text.to_string(),
        primitive: Primitive::Bool,
    })
}

fn syntax_error(result: Result<Vec<Token>, CompilerError>) -> (String, Span) {
    match result {
        Err(CompilerError::SyntaxError { message, span }) => (message, span),
        other => panic!("expected a syntax error, got {:?}", other),
    }
}

#[test]
fn end_of_input_token_comes_once_and_last() {
    let programs = [
        "\0",
        "int a = 1;\0",
        "print(a + b);\nmut float c = .5;\0",
        "   \n\n  \0",
        "a b c d e f\0",
    ];
    for program in programs {
        let tokens = scan(program).unwrap();
        let count = tokens
            .iter()
            .filter(|t| t.kind == TokenKind::EOF)
            .count();
        assert_eq!(count, 1);
        assert_eq!(tokens.last().unwrap().kind, TokenKind::EOF);
    }
}

#[test]
fn empty_text_is_one_end_of_input_token() {
    let tokens = scan("").unwrap();
    assert_eq!(kinds(&tokens), vec![TokenKind::EOF]);
    assert_eq!(spans(&tokens), vec![Span { line: 1, col: 1 }]);
}

#[test]
fn text_without_sentinel_ends_where_it_stops() {
    let tokens = scan("int a").unwrap();
    assert_eq!(
        kinds(&tokens),
        vec![
            TokenKind::Declare(Primitive::Int),
            TokenKind::Identifier("a".to_string()),
            TokenKind::EOF,
        ]
    );
    assert_eq!(
        spans(&tokens),
        vec![
            Span { line: 1, col: 1 },
            Span { line: 1, col: 5 },
            Span { line: 1, col: 6 },
        ]
    );
}

#[test]
fn nothing_after_the_sentinel_is_read() {
    let tokens = scan("a\0 $ b").unwrap();
    assert_eq!(
        kinds(&tokens),
        vec![TokenKind::Identifier("a".to_string()), TokenKind::EOF]
    );
    assert_eq!(tokens[1].span, Span { line: 1, col: 2 });
}

#[test]
fn unexpected_character_is_reported_where_it_stands() {
    let (message, span) = syntax_error(scan("int a = 5 $ 2;\0"));
    assert_eq!(message, "Unexpected character '$'.");
    assert_eq!(span, Span { line: 1, col: 11 });

    let (message, span) = syntax_error(scan("int a = 1;\n  #\0"));
    assert_eq!(message, "Unexpected character '#'.");
    assert_eq!(span, Span { line: 2, col: 3 });

    let (message, span) = syntax_error(scan("x\n\ny@\0"));
    assert_eq!(message, "Unexpected character '@'.");
    assert_eq!(span, Span { line: 3, col: 2 });
}

#[test]
fn underscore_may_continue_a_word_but_not_begin_one() {
    let tokens = scan("a_1_\0").unwrap();
    assert_eq!(
        kinds(&tokens),
        vec![TokenKind::Identifier("a_1_".to_string()), TokenKind::EOF]
    );

    let (message, span) = syntax_error(scan(" _a\0"));
    assert_eq!(message, "Unexpected character '_'.");
    assert_eq!(span, Span { line: 1, col: 2 });
}

#[test]
fn lone_ampersand_and_pipe_are_rejected() {
    let (message, span) = syntax_error(scan("a & b\0"));
    assert_eq!(
        message,
        "Unexpected single character '&', did you mean '&&'?"
    );
    assert_eq!(span, Span { line: 1, col: 3 });

    let (message, span) = syntax_error(scan("a\n| b\0"));
    assert_eq!(
        message,
        "Unexpected single character '|', did you mean '||'?"
    );
    assert_eq!(span, Span { line: 2, col: 1 });

    let (message, span) = syntax_error(scan("a &\0"));
    assert_eq!(
        message,
        "Unexpected single character '&', did you mean '&&'?"
    );
    assert_eq!(span, Span { line: 1, col: 3 });

    let (_, span) = syntax_error(scan("a &&& b\0"));
    assert_eq!(span, Span { line: 1, col: 5 });
}

#[test]
fn one_and_two_character_operators() {
    let tokens = scan("= == < <= > >= ! != && ||\0").unwrap();
    assert_eq!(
        kinds(&tokens),
        vec![
            TokenKind::BinOp(BinOpKind::Assign),
            TokenKind::BinOp(BinOpKind::Eq),
            TokenKind::BinOp(BinOpKind::Lt),
            TokenKind::BinOp(BinOpKind::Le),
            TokenKind::BinOp(BinOpKind::Gt),
            TokenKind::BinOp(BinOpKind::Ge),
            TokenKind::BinOp(BinOpKind::Not),
            TokenKind::BinOp(BinOpKind::Ne),
            TokenKind::BinOp(BinOpKind::And),
            TokenKind::BinOp(BinOpKind::Or),
            TokenKind::EOF,
        ]
    );

    let tokens = scan("===\0").unwrap();
    assert_eq!(
        kinds(&tokens),
        vec![
            TokenKind::BinOp(BinOpKind::Eq),
            TokenKind::BinOp(BinOpKind::Assign),
            TokenKind::EOF,
        ]
    );

    let tokens = scan("=>\0").unwrap();
    assert_eq!(
        kinds(&tokens),
        vec![
            TokenKind::BinOp(BinOpKind::Assign),
            TokenKind::BinOp(BinOpKind::Gt),
            TokenKind::EOF,
        ]
    );
}

#[test]
fn single_character_tokens() {
    let tokens = scan("+-*/();\0").unwrap();
    assert_eq!(
        kinds(&tokens),
        vec![
            TokenKind::BinOp(BinOpKind::Add),
            TokenKind::BinOp(BinOpKind::Sub),
            TokenKind::BinOp(BinOpKind::Mult),
            TokenKind::BinOp(BinOpKind::Div),
            TokenKind::LParen,
            TokenKind::RParen,
            TokenKind::EOS,
            TokenKind::EOF,
        ]
    );
}

#[test]
fn keywords_and_identifiers() {
    let tokens = scan("int float bool print mut true false integer Int printx\0").unwrap();
    assert_eq!(
        kinds(&tokens),
        vec![
            TokenKind::Declare(Primitive::Int),
            TokenKind::Declare(Primitive::Float),
            TokenKind::Declare(Primitive::Bool),
            TokenKind::Print,
            TokenKind::Mut,
            bool_literal("true"),
            bool_literal("false"),
            TokenKind::Identifier("integer".to_string()),
            TokenKind::Identifier("Int".to_string()),
            TokenKind::Identifier("printx".to_string()),
            TokenKind::EOF,
        ]
    );
}

#[test]
fn numbers_keep_their_lexeme() {
    let tokens = scan("12 0.50 .5 7. 1.2.3 . 007\0").unwrap();
    assert_eq!(
        kinds(&tokens),
        vec![
            int_literal("12"),
            float_literal("0.50"),
            float_literal(".5"),
            float_literal("7."),
            float_literal("1.2.3"),
            float_literal("."),
            int_literal("007"),
            TokenKind::EOF,
        ]
    );
}

#[test]
fn a_word_may_follow_a_number_without_space() {
    let tokens = scan("12ab 3\0").unwrap();
    assert_eq!(
        kinds(&tokens),
        vec![
            int_literal("12"),
            TokenKind::Identifier("ab".to_string()),
            int_literal("3"),
            TokenKind::EOF,
        ]
    );
    assert_eq!(
        spans(&tokens),
        vec![
            Span { line: 1, col: 1 },
            Span { line: 1, col: 3 },
            Span { line: 1, col: 6 },
            Span { line: 1, col: 7 },
        ]
    );
}

#[test]
fn letters_digits_and_spaces_beyond_ascii() {
    let tokens = scan("int \u{e9}t\u{e9} = \u{663};\u{a0}\u{2003}x\0").unwrap();
    assert_eq!(
        kinds(&tokens),
        vec![
            TokenKind::Declare(Primitive::Int),
            TokenKind::Identifier("\u{e9}t\u{e9}".to_string()),
            TokenKind::BinOp(BinOpKind::Assign),
            int_literal("\u{663}"),
            TokenKind::EOS,
            TokenKind::Identifier("x".to_string()),
            TokenKind::EOF,
        ]
    );
    assert_eq!(tokens[5].span, Span { line: 1, col: 15 });
}

#[test]
fn tabs_and_carriage_returns_count_as_columns() {
    let tokens = scan("\ta\r\n\tb\0").unwrap();
    assert_eq!(
        spans(&tokens),
        vec![
            Span { line: 1, col: 2 },
            Span { line: 2, col: 2 },
            Span { line: 2, col: 3 },
        ]
    );
}

#[test]
fn a_finished_scanner_stays_as_it_is() {
    let mut lexer = Lexer::new("a b\0c");
    lexer.tokenize().unwrap();
    let first = lexer.get_tokens().to_vec();
    lexer.tokenize().unwrap();
    assert_eq!(lexer.get_tokens(), &first);
    assert_eq!(first.len(), 3);
}

#[test]
fn a_failed_scan_keeps_the_tokens_before_the_error() {
    let mut lexer = Lexer::new("int a $ b\0");
    assert!(lexer.tokenize().is_err());
    assert_eq!(
        kinds(lexer.get_tokens()),
        vec![
            TokenKind::Declare(Primitive::Int),
            TokenKind::Identifier("a".to_string()),
        ]
    );
    let again = lexer.tokenize();
    assert!(
        matches!(again, Err(CompilerError::SyntaxError { span, .. }) if span == Span { line: 1, col: 7 })
    );
}

#[test]
fn a_new_scanner_has_no_tokens() {
    let lexer = Lexer::new("int a = 1;\0");
    assert!(lexer.get_tokens().is_empty());
}

#[test]
fn scan_agrees_with_the_scanner() {
    let program = "mut int a = (1 + 2) * 3;\nprint(a >= .5);\0";
    let mut lexer = Lexer::new(program);
    lexer.tokenize().unwrap();
    assert_eq!(&scan(program).unwrap(), lexer.get_tokens());
}

#[test]
fn leads_are_decided_in_order() {
    assert_eq!(classify(' ', true, false, false), Lead::Blank);
    assert_eq!(classify('a', false, true, false), Lead::Word);
    assert_eq!(classify('7', false, false, true), Lead::Number);
    assert_eq!(classify('.', false, false, false), Lead::Number);
    for c in ['<', '>', '=', '&', '!', '|'] {
        assert_eq!(classify(c, false, false, false), Lead::Compound);
    }
    for c in ['+', '-', '*', '/', '(', ')', ';'] {
        assert_eq!(classify(c, false, false, false), Lead::Symbol);
    }
    assert_eq!(classify('\0', false, false, false), Lead::Sentinel);
    for c in ['$', '_', '#', '"', '\'', '{', ','] {
        assert_eq!(classify(c, false, false, false), Lead::Unknown);
    }
    assert_eq!(classify('+', true, true, true), Lead::Blank);
    assert_eq!(classify('+', false, true, true), Lead::Word);
    assert_eq!(classify('+', false, false, true), Lead::Number);
}
