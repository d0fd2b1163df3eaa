//! Scenario tests for the scanner's stated properties: greedy operator
//! matching, the number/dot boundary, terminal `Eof` behaviour, keyword
//! exactness, error reporting and recovery, and the token model's API.

use jlox::Error;
use jlox::Lexer;
use jlox::SourceSpan;
use jlox::Token;
use jlox::TokenKind;
use jlox::TokenSpan;

fn kinds_and_spans(input: &str) -> Vec<(TokenKind, usize, usize)> {
    Lexer::new(input.as_bytes())
        .tokens()
        .into_iter()
        .map(|item| {
            let tok = item.unwrap();
            (tok.kind, tok.span.start(), tok.span.end())
        })
        .collect()
}

#[test]
fn greedy_operator_match() {
    assert_eq!(
        kinds_and_spans("!==<=>=!=<>/."),
        vec![
            (TokenKind::BangEqual, 0, 2),
            (TokenKind::Equal, 2, 3),
            (TokenKind::LessEqual, 3, 5),
            (TokenKind::GreaterEqual, 5, 7),
            (TokenKind::BangEqual, 7, 9),
            (TokenKind::Less, 9, 10),
            (TokenKind::Greater, 10, 11),
            (TokenKind::Slash, 11, 12),
            (TokenKind::Dot, 12, 13),
            (TokenKind::Eof, 13, 13),
        ],
    );
}

#[test]
fn number_dot_boundary() {
    assert_eq!(
        kinds_and_spans("123."),
        vec![(TokenKind::Number, 0, 3), (TokenKind::Dot, 3, 4), (TokenKind::Eof, 4, 4)],
    );
    assert_eq!(
        kinds_and_spans(".456"),
        vec![(TokenKind::Dot, 0, 1), (TokenKind::Number, 1, 4), (TokenKind::Eof, 4, 4)],
    );
    assert_eq!(
        kinds_and_spans("123.456"),
        vec![(TokenKind::Number, 0, 7), (TokenKind::Eof, 7, 7)],
    );
}

#[test]
fn unterminated_string_then_eof() {
    let input = "\"unterminated string";
    assert_eq!(input.len(), 20);
    let items = Lexer::new(input.as_bytes()).tokens();
    assert_eq!(
        items,
        vec![
            Err(Error::UnterminatedString {
                src: input.as_bytes().to_vec(),
                at: SourceSpan::new(0, 20),
            }),
            Ok(Token::eof(20)),
        ],
    );
}

#[test]
fn nested_block_comments() {
    let input = "/* nested /* block1 */ /* block 2 /* block 2.1*/ */ comment*/";
    let items = Lexer::new(input.as_bytes()).tokens();
    assert_eq!(items, vec![Ok(Token::eof(input.len()))]);
}

#[test]
fn unterminated_block_comment_then_eof() {
    let input = "/* unterminated block comment";
    assert_eq!(input.len(), 29);
    let items = Lexer::new(input.as_bytes()).tokens();
    assert_eq!(
        items,
        vec![
            Err(Error::UnterminatedBlockComment {
                src: input.as_bytes().to_vec(),
                at: SourceSpan::new(0, 29),
            }),
            Ok(Token::eof(29)),
        ],
    );
}

#[test]
fn keyword_exactness() {
    // A keyword must equal the whole identifier lexeme, not a prefix of it.
    assert_eq!(
        kinds_and_spans("andy"),
        vec![(TokenKind::Identifier, 0, 4), (TokenKind::Eof, 4, 4)],
    );
    assert_eq!(kinds_and_spans("and"), vec![(TokenKind::And, 0, 3), (TokenKind::Eof, 3, 3)]);
    assert_eq!(
        kinds_and_spans("print"),
        vec![(TokenKind::Print, 0, 5), (TokenKind::Eof, 5, 5)],
    );
}

#[test]
fn empty_input_yields_one_eof() {
    let items = Lexer::new(b"").tokens();
    assert_eq!(items, vec![Ok(Token::eof(0))]);
}

#[test]
fn unexpected_character_is_recoverable() {
    // Scanning goes on after a bad character, so one pass can report
    // several errors.
    let input = "@ + #";
    let items = Lexer::new(input.as_bytes()).tokens();
    assert_eq!(items.len(), 4);
    assert_eq!(
        items[0],
        Err(Error::UnexpectedChar {
            c: '@',
            src: input.as_bytes().to_vec(),
            at: SourceSpan::new(0, 1),
        }),
    );
    let plus = items[1].as_ref().unwrap();
    assert_eq!(plus.kind, TokenKind::Plus);
    assert_eq!(plus.span, TokenSpan::new(2, 3));
    assert_eq!(
        items[2],
        Err(Error::UnexpectedChar {
            c: '#',
            src: input.as_bytes().to_vec(),
            at: SourceSpan::new(4, 1),
        }),
    );
    assert_eq!(items[3], Ok(Token::eof(5)));
}

#[test]
fn unexpected_character_multibyte() {
    // A two-byte character is reported once, spanning its whole encoding.
    let input = "\u{00B0}x";
    let items = Lexer::new(input.as_bytes()).tokens();
    assert_eq!(items.len(), 3);
    assert_eq!(
        items[0],
        Err(Error::UnexpectedChar {
            c: '\u{00B0}',
            src: input.as_bytes().to_vec(),
            at: SourceSpan::new(0, 2),
        }),
    );
    let ident = items[1].as_ref().unwrap();
    assert_eq!(ident.kind, TokenKind::Identifier);
    assert_eq!(ident.span, TokenSpan::new(2, 3));
    assert_eq!(items[2], Ok(Token::eof(3)));
}

#[test]
fn round_trip_lexemes() {
    // Every non-Eof token's lexeme is exactly the source bytes its span
    // covers.
    let input = "var answer = 42; // and a comment\nprint answer <= 43;";
    let src = input.as_bytes();
    let items = Lexer::new(src).tokens();
    let mut eof_count = 0;
    for item in &items {
        let tok = item.as_ref().unwrap();
        if tok.kind == TokenKind::Eof {
            eof_count += 1;
        } else {
            assert!(tok.span.start() < tok.span.end());
            assert!(tok.span.end() <= src.len());
            assert_eq!(tok.lexeme(src), &src[tok.span.start()..tok.span.end()]);
        }
    }
    assert_eq!(eof_count, 1);
    let last = items.last().unwrap().as_ref().unwrap();
    assert_eq!(last.kind, TokenKind::Eof);
}

#[test]
fn line_comment_runs_to_newline() {
    assert_eq!(
        kinds_and_spans("// hi\nx"),
        vec![(TokenKind::Identifier, 6, 7), (TokenKind::Eof, 7, 7)],
    );
    assert_eq!(kinds_and_spans("// hi"), vec![(TokenKind::Eof, 5, 5)]);
}

#[test]
fn slash_is_division_operator() {
    assert_eq!(
        kinds_and_spans("1/2"),
        vec![
            (TokenKind::Number, 0, 1),
            (TokenKind::Slash, 1, 2),
            (TokenKind::Number, 2, 3),
            (TokenKind::Eof, 3, 3),
        ],
    );
}

#[test]
fn string_may_contain_newlines() {
    let input = "\"a\nb\"";
    let items = Lexer::new(input.as_bytes()).tokens();
    assert_eq!(items.len(), 2);
    let tok = items[0].as_ref().unwrap();
    assert_eq!(tok.kind, TokenKind::String);
    assert_eq!(tok.span, TokenSpan::new(0, 5));
    assert_eq!(tok.lexeme(input.as_bytes()), input.as_bytes());
}

#[test]
fn next_token_pulls_lazily() {
    let input = "()";
    let mut lexer = Lexer::new(input.as_bytes());
    let first = lexer.next_token().unwrap().unwrap();
    assert_eq!(first.kind, TokenKind::LeftParen);
    let second = lexer.next_token().unwrap().unwrap();
    assert_eq!(second.kind, TokenKind::RightParen);
    assert!(lexer.next_token().is_none());
    assert!(lexer.next_token().is_none());
}

#[test]
fn from_keyword_exact_lookup() {
    assert_eq!(TokenKind::from_keyword(b"and"), Some(TokenKind::And));
    assert_eq!(TokenKind::from_keyword(b"class"), Some(TokenKind::Class));
    assert_eq!(TokenKind::from_keyword(b"print"), Some(TokenKind::Print));
    assert_eq!(TokenKind::from_keyword(b"return"), Some(TokenKind::Return));
    assert_eq!(TokenKind::from_keyword(b"if"), Some(TokenKind::If));
    assert_eq!(TokenKind::from_keyword(b"andy"), None);
    assert_eq!(TokenKind::from_keyword(b"an"), None);
    assert_eq!(TokenKind::from_keyword(b""), None);
    assert_eq!(TokenKind::from_keyword(b"And"), None);
}

#[test]
fn from_punctuation_total_lookup() {
    assert_eq!(TokenKind::from_punctuation(b'('), Some(TokenKind::LeftParen));
    assert_eq!(TokenKind::from_punctuation(b'*'), Some(TokenKind::Star));
    assert_eq!(TokenKind::from_punctuation(b'/'), None);
    assert_eq!(TokenKind::from_punctuation(b'@'), None);
}

#[test]
fn token_span_accessors() {
    let span = TokenSpan::new(3, 8);
    assert_eq!(span.start(), 3);
    assert_eq!(span.end(), 8);
    assert_eq!(span.length(), 5);
    assert_eq!(span.range(), 3..8);
    let eof = Token::eof(7);
    assert_eq!(eof.kind, TokenKind::Eof);
    assert_eq!(eof.span, TokenSpan::new(7, 7));
}

#[test]
fn token_kind_text() {
    assert_eq!(TokenKind::LeftParen.text(), "(");
    assert_eq!(TokenKind::BangEqual.text(), "!=");
    assert_eq!(TokenKind::And.text(), "and");
    assert_eq!(TokenKind::Identifier.text(), "identifier");
    assert_eq!(TokenKind::Eof.text(), "<EOF>");
}

#[test]
fn block_comment_opener_is_consumed() {
    // The opening delimiter is consumed whole: its star cannot also serve
    // as the star of a closing delimiter.
    let input = "/*/";
    let items = Lexer::new(input.as_bytes()).tokens();
    assert_eq!(
        items,
        vec![
            Err(Error::UnterminatedBlockComment {
                src: input.as_bytes().to_vec(),
                at: SourceSpan::new(0, 3),
            }),
            Ok(Token::eof(3)),
        ],
    );
}

#[test]
fn block_comment_separates_tokens() {
    let input = "a/* c */b";
    assert_eq!(
        kinds_and_spans(input),
        vec![
            (TokenKind::Identifier, 0, 1),
            (TokenKind::Identifier, 8, 9),
            (TokenKind::Eof, 9, 9),
        ],
    );
}
