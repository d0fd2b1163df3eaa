//! The scanning test suite: whole inputs against their full expected item
//! sequences, lexemes and byte spans included.

use jlox::Error;
use jlox::Lexer;
use jlox::SourceSpan;
use jlox::Token;
use jlox::TokenKind;
use jlox::TokenSpan;

/// One expected token: kind, lexeme, and byte span.
struct Expected(TokenKind, &'static str, (usize, usize));

fn assert_tokens(input: &str, expected: Vec<Expected>) {
    let lexer = Lexer::new(input.as_bytes());
    let tokens: Vec<Token> = lexer.tokens().into_iter().map(Result::unwrap).collect();
    assert_eq!(tokens.len(), expected.len() + 1, "token count for {input:?}");
    for (tok, Expected(kind, lexeme, (start, end))) in tokens.iter().zip(expected.iter()) {
        assert_eq!(tok.kind, *kind);
        assert_eq!(tok.span, TokenSpan::new(*start, *end));
        assert_eq!(tok.lexeme(input.as_bytes()), lexeme.as_bytes());
    }
    let last = tokens.last().unwrap();
    assert_eq!(last.kind, TokenKind::Eof);
    assert_eq!(last.span, TokenSpan::new(input.len(), input.len()));
}

fn assert_err(input: &str, expected: Error) {
    let lexer = Lexer::new(input.as_bytes());
    let items = lexer.tokens();
    assert_eq!(items, vec![Err(expected), Ok(Token::eof(input.len()))]);
}

// See:
// https://github.com/munificent/craftinginterpreters/blob/master/test/scanning/punctuators.lox
#[test]
fn punctuators() {
    let wrap = |kind: TokenKind, lexeme: &'static str, col: usize| {
        Expected(kind, lexeme, (col - 1, col - 1 + lexeme.len()))
    };

    assert_tokens(
        "(){};,+-*!===<=>=!=<>/.",
        vec![
            wrap(TokenKind::LeftParen, "(", 1),
            wrap(TokenKind::RightParen, ")", 2),
            wrap(TokenKind::LeftBrace, "{", 3),
            wrap(TokenKind::RightBrace, "}", 4),
            wrap(TokenKind::Semicolon, ";", 5),
            wrap(TokenKind::Comma, ",", 6),
            wrap(TokenKind::Plus, "+", 7),
            wrap(TokenKind::Minus, "-", 8),
            wrap(TokenKind::Star, "*", 9),
            wrap(TokenKind::BangEqual, "!=", 10),
            wrap(TokenKind::EqualEqual, "==", 12),
            wrap(TokenKind::LessEqual, "<=", 14),
            wrap(TokenKind::GreaterEqual, ">=", 16),
            wrap(TokenKind::BangEqual, "!=", 18),
            wrap(TokenKind::Less, "<", 20),
            wrap(TokenKind::Greater, ">", 21),
            wrap(TokenKind::Slash, "/", 22),
            wrap(TokenKind::Dot, ".", 23),
        ],
    );
}

// https://github.com/munificent/craftinginterpreters/blob/master/test/scanning/strings.lox
#[test]
fn strings() {
    let mut input = "\n\"\"\n\"string\"\n";
    assert_tokens(
        input,
        vec![
            Expected(TokenKind::String, "\"\"", (1, 3)),
            Expected(TokenKind::String, "\"string\"", (4, 12)),
        ],
    );

    input = r#""unterminated string"#;
    assert_err(
        input,
        Error::UnterminatedString {
            src: input.as_bytes().to_vec(),
            at: SourceSpan::new(0, 20),
        },
    );

    // The last character opens a string that never closes.
    input = "\n\n\"";
    assert_err(
        input,
        Error::UnterminatedString {
            src: input.as_bytes().to_vec(),
            at: SourceSpan::new(2, 1),
        },
    );
}

// https://github.com/munificent/craftinginterpreters/blob/master/test/scanning/numbers.lox
#[test]
fn numbers() {
    let input = "\n        123\n123.456\n.456\n123.";
    assert_tokens(
        input,
        vec![
            Expected(TokenKind::Number, "123", (9, 12)),
            Expected(TokenKind::Number, "123.456", (13, 20)),
            Expected(TokenKind::Dot, ".", (21, 22)),
            Expected(TokenKind::Number, "456", (22, 25)),
            Expected(TokenKind::Number, "123", (26, 29)),
            Expected(TokenKind::Dot, ".", (29, 30)),
        ],
    );
}

// https://github.com/munificent/craftinginterpreters/blob/master/test/scanning/identifiers.lox
#[test]
fn identifiers() {
    let input = "andy formless fo _ _123 _abc ab123\nabcdefghijklmnopqrstuvwxyzABCDEFGHIJKLMNOPQRSTUVWXYZ1234567890_";
    assert_tokens(
        input,
        vec![
            Expected(TokenKind::Identifier, "andy", (0, 4)),
            Expected(TokenKind::Identifier, "formless", (5, 13)),
            Expected(TokenKind::Identifier, "fo", (14, 16)),
            Expected(TokenKind::Identifier, "_", (17, 18)),
            Expected(TokenKind::Identifier, "_123", (19, 23)),
            Expected(TokenKind::Identifier, "_abc", (24, 28)),
            Expected(TokenKind::Identifier, "ab123", (29, 34)),
            Expected(
                TokenKind::Identifier,
                "abcdefghijklmnopqrstuvwxyzABCDEFGHIJKLMNOPQRSTUVWXYZ1234567890_",
                (35, 98),
            ),
        ],
    );
}

// https://github.com/munificent/craftinginterpreters/blob/master/test/scanning/keywords.lox
#[test]
fn keywords() {
    let input = "and class else false for fun if nil or return super this true var while";
    assert_tokens(
        input,
        vec![
            Expected(TokenKind::And, "and", (0, 3)),
            Expected(TokenKind::Class, "class", (4, 9)),
            Expected(TokenKind::Else, "else", (10, 14)),
            Expected(TokenKind::False, "false", (15, 20)),
            Expected(TokenKind::For, "for", (21, 24)),
            Expected(TokenKind::Fun, "fun", (25, 28)),
            Expected(TokenKind::If, "if", (29, 31)),
            Expected(TokenKind::Nil, "nil", (32, 35)),
            Expected(TokenKind::Or, "or", (36, 38)),
            Expected(TokenKind::Return, "return", (39, 45)),
            Expected(TokenKind::Super, "super", (46, 51)),
            Expected(TokenKind::This, "this", (52, 56)),
            Expected(TokenKind::True, "true", (57, 61)),
            Expected(TokenKind::Var, "var", (62, 65)),
            Expected(TokenKind::While, "while", (66, 71)),
        ],
    );
}

#[test]
fn whitespace() {
    let input = "space    tabs\t\t\t\tnewlines\n\n\n\n\nend";
    assert_tokens(
        input,
        vec![
            Expected(TokenKind::Identifier, "space", (0, 5)),
            Expected(TokenKind::Identifier, "tabs", (9, 13)),
            Expected(TokenKind::Identifier, "newlines", (17, 25)),
            Expected(TokenKind::Identifier, "end", (30, 33)),
        ],
    );
}

#[test]
fn block_comments() {
    let input = "\n        // single line comment\n        /* block comment */\n        /* nested /* block1 */ /* block 2 /* block 2.1*/ */ comment*/ ";
    assert_eq!(input.len(), 130);
    assert_tokens(input, vec![]);

    let input = "\n        /* unterminated block comment";
    assert_err(
        input,
        Error::UnterminatedBlockComment {
            src: input.as_bytes().to_vec(),
            at: SourceSpan::new(9, 29),
        },
    );
}
