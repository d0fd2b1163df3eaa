//! The token model: token kinds, byte spans, and tokens.

use vstd::prelude::*;
use vstd::slice::slice_subrange;
use vstd::slice::slice_index_get;

verus! {

/// Types of tokens that the lexer can produce.
#[derive(Debug, Clone, Copy, PartialEq, Eq, Structural)]
pub enum TokenKind {
    // Single-character tokens.
    LeftParen,
    RightParen,
    LeftBrace,
    RightBrace,
    Comma,
    Dot,
    Minus,
    Plus,
    Semicolon,
    Slash,
    Star,
    // One or two character tokens.
    Bang,
    BangEqual,
    Equal,
    EqualEqual,
    Greater,
    GreaterEqual,
    Less,
    LessEqual,
    // Literals.
    String,
    Identifier,
    Number,
    // Keywords.
    And,
    Class,
    Else,
    False,
    Fun,
    For,
    If,
    Nil,
    Or,
    Print,
    Return,
    Super,
    This,
    True,
    Var,
    While,
    // Special tokens.
    Eof,
}

/// The reserved-word kind for a given identifier lexeme, if the lexeme is
/// exactly equal to one of the language's keywords, byte for byte.
pub open spec fn keyword_kind(lex: Seq<u8>) -> Option<TokenKind> {
    if lex == seq![('a' as u8), ('n' as u8), ('d' as u8)] {
        Some(TokenKind::And)
    } else if lex == seq![('c' as u8), ('l' as u8), ('a' as u8), ('s' as u8), ('s' as u8)] {
        Some(TokenKind::Class)
    } else if lex == seq![('e' as u8), ('l' as u8), ('s' as u8), ('e' as u8)] {
        Some(TokenKind::Else)
    } else if lex == seq![('f' as u8), ('a' as u8), ('l' as u8), ('s' as u8), ('e' as u8)] {
        Some(TokenKind::False)
    } else if lex == seq![('f' as u8), ('o' as u8), ('r' as u8)] {
        Some(TokenKind::For)
    } else if lex == seq![('f' as u8), ('u' as u8), ('n' as u8)] {
        Some(TokenKind::Fun)
    } else if lex == seq![('i' as u8), ('f' as u8)] {
        Some(TokenKind::If)
    } else if lex == seq![('n' as u8), ('i' as u8), ('l' as u8)] {
        Some(TokenKind::Nil)
    } else if lex == seq![('o' as u8), ('r' as u8)] {
        Some(TokenKind::Or)
    } else if lex == seq![('p' as u8), ('r' as u8), ('i' as u8), ('n' as u8), ('t' as u8)] {
        Some(TokenKind::Print)
    } else if lex == seq![('r' as u8), ('e' as u8), ('t' as u8), ('u' as u8), ('r' as u8), ('n' as u8)] {
        Some(TokenKind::Return)
    } else if lex == seq![('s' as u8), ('u' as u8), ('p' as u8), ('e' as u8), ('r' as u8)] {
        Some(TokenKind::Super)
    } else if lex == seq![('t' as u8), ('h' as u8), ('i' as u8), ('s' as u8)] {
        Some(TokenKind::This)
    } else if lex == seq![('t' as u8), ('r' as u8), ('u' as u8), ('e' as u8)] {
        Some(TokenKind::True)
    } else if lex == seq![('v' as u8), ('a' as u8), ('r' as u8)] {
        Some(TokenKind::Var)
    } else if lex == seq![('w' as u8), ('h' as u8), ('i' as u8), ('l' as u8), ('e' as u8)] {
        Some(TokenKind::While)
    } else {
        None
    }
}

/// The surface text of a token kind: the characters an operator or keyword
/// is written with, a class name for the literal kinds, and a marker for
/// the terminal kind.
pub open spec fn kind_text(kind: TokenKind) -> Seq<char> {
    match kind {
        TokenKind::LeftParen => "("@,
        TokenKind::RightParen => ")"@,
        TokenKind::LeftBrace => "{"@,
        TokenKind::RightBrace => "}"@,
        TokenKind::Comma => ","@,
        TokenKind::Dot => "."@,
        TokenKind::Minus => "-"@,
        TokenKind::Plus => "+"@,
        TokenKind::Semicolon => ";"@,
        TokenKind::Slash => "/"@,
        TokenKind::Star => "*"@,
        TokenKind::Bang => "!"@,
        TokenKind::BangEqual => "!="@,
        TokenKind::Equal => "="@,
        TokenKind::EqualEqual => "=="@,
        TokenKind::Greater => ">"@,
        TokenKind::GreaterEqual => ">="@,
        TokenKind::Less => "<"@,
        TokenKind::LessEqual => "<="@,
        TokenKind::String => "string"@,
        TokenKind::Identifier => "identifier"@,
        TokenKind::Number => "number"@,
        TokenKind::And => "and"@,
        TokenKind::Class => "class"@,
        TokenKind::Else => "else"@,
        TokenKind::False => "false"@,
        TokenKind::Fun => "fun"@,
        TokenKind::For => "for"@,
        TokenKind::If => "if"@,
        TokenKind::Nil => "nil"@,
        TokenKind::Or => "or"@,
        TokenKind::Print => "print"@,
        TokenKind::Return => "return"@,
        TokenKind::Super => "super"@,
        TokenKind::This => "this"@,
        TokenKind::True => "true"@,
        TokenKind::Var => "var"@,
        TokenKind::While => "while"@,
        TokenKind::Eof => "<EOF>"@,
    }
}

/// The byte that stands for a single-character punctuation token, mapped to
/// its kind; `None` for every byte outside the punctuation set. The slash is
/// not in this set: it opens comments and is disambiguated separately.
pub open spec fn punctuation_kind(b: u8) -> Option<TokenKind> {
    if b == ('(' as u8) {
        Some(TokenKind::LeftParen)
    } else if b == (')' as u8) {
        Some(TokenKind::RightParen)
    } else if b == ('{' as u8) {
        Some(TokenKind::LeftBrace)
    } else if b == ('}' as u8) {
        Some(TokenKind::RightBrace)
    } else if b == (',' as u8) {
        Some(TokenKind::Comma)
    } else if b == ('.' as u8) {
        Some(TokenKind::Dot)
    } else if b == ('-' as u8) {
        Some(TokenKind::Minus)
    } else if b == ('+' as u8) {
        Some(TokenKind::Plus)
    } else if b == (';' as u8) {
        Some(TokenKind::Semicolon)
    } else if b == ('*' as u8) {
        Some(TokenKind::Star)
    } else {
        None
    }
}

impl TokenKind {
    /// Returns the token kind for a given lexeme if it is a reserved keyword.
    pub fn from_keyword(lexeme: &[u8]) -> (r: Option<TokenKind>)
        ensures
            r == keyword_kind(lexeme@),
    {
        let n = lexeme.len();
        if n < 2 || n > 6 {
            return None;
        }
        let b0 = *slice_index_get(lexeme, 0);
        let b1 = *slice_index_get(lexeme, 1);
        if n == 2 {
            if b0 == ('i' as u8) && b1 == ('f' as u8) {
                proof { assert(lexeme@ =~= seq![('i' as u8), ('f' as u8)]); }
                Some(TokenKind::If)
            } else if b0 == ('o' as u8) && b1 == ('r' as u8) {
                proof { assert(lexeme@ =~= seq![('o' as u8), ('r' as u8)]); }
                Some(TokenKind::Or)
            } else {
                None
            }
        } else if n == 3 {
            let b2 = *slice_index_get(lexeme, 2);
            if b0 == ('a' as u8) && b1 == ('n' as u8) && b2 == ('d' as u8) {
                proof { assert(lexeme@ =~= seq![('a' as u8), ('n' as u8), ('d' as u8)]); }
                Some(TokenKind::And)
            } else if b0 == ('f' as u8) && b1 == ('o' as u8) && b2 == ('r' as u8) {
                proof { assert(lexeme@ =~= seq![('f' as u8), ('o' as u8), ('r' as u8)]); }
                Some(TokenKind::For)
            } else if b0 == ('f' as u8) && b1 == ('u' as u8) && b2 == ('n' as u8) {
                proof { assert(lexeme@ =~= seq![('f' as u8), ('u' as u8), ('n' as u8)]); }
                Some(TokenKind::Fun)
            } else if b0 == ('n' as u8) && b1 == ('i' as u8) && b2 == ('l' as u8) {
                proof { assert(lexeme@ =~= seq![('n' as u8), ('i' as u8), ('l' as u8)]); }
                Some(TokenKind::Nil)
            } else if b0 == ('v' as u8) && b1 == ('a' as u8) && b2 == ('r' as u8) {
                proof { assert(lexeme@ =~= seq![('v' as u8), ('a' as u8), ('r' as u8)]); }
                Some(TokenKind::Var)
            } else {
                None
            }
        } else if n == 4 {
            let b2 = *slice_index_get(lexeme, 2);
            let b3 = *slice_index_get(lexeme, 3);
            if b0 == ('e' as u8) && b1 == ('l' as u8) && b2 == ('s' as u8) && b3 == ('e' as u8) {
                proof { assert(lexeme@ =~= seq![('e' as u8), ('l' as u8), ('s' as u8), ('e' as u8)]); }
                Some(TokenKind::Else)
            } else if b0 == ('t' as u8) && b1 == ('h' as u8) && b2 == ('i' as u8) && b3 == ('s' as u8) {
                proof { assert(lexeme@ =~= seq![('t' as u8), ('h' as u8), ('i' as u8), ('s' as u8)]); }
                Some(TokenKind::This)
            } else if b0 == ('t' as u8) && b1 == ('r' as u8) && b2 == ('u' as u8) && b3 == ('e' as u8) {
                proof { assert(lexeme@ =~= seq![('t' as u8), ('r' as u8), ('u' as u8), ('e' as u8)]); }
                Some(TokenKind::True)
            } else {
                None
            }
        } else if n == 5 {
            let b2 = *slice_index_get(lexeme, 2);
            let b3 = *slice_index_get(lexeme, 3);
            let b4 = *slice_index_get(lexeme, 4);
            if b0 == ('c' as u8) && b1 == ('l' as u8) && b2 == ('a' as u8) && b3 == ('s' as u8) && b4 == ('s' as u8) {
                proof { assert(lexeme@ =~= seq![('c' as u8), ('l' as u8), ('a' as u8), ('s' as u8), ('s' as u8)]); }
                Some(TokenKind::Class)
            } else if b0 == ('f' as u8) && b1 == ('a' as u8) && b2 == ('l' as u8) && b3 == ('s' as u8) && b4 == ('e' as u8) {
                proof { assert(lexeme@ =~= seq![('f' as u8), ('a' as u8), ('l' as u8), ('s' as u8), ('e' as u8)]); }
                Some(TokenKind::False)
            } else if b0 == ('p' as u8) && b1 == ('r' as u8) && b2 == ('i' as u8) && b3 == ('n' as u8) && b4 == ('t' as u8) {
                proof { assert(lexeme@ =~= seq![('p' as u8), ('r' as u8), ('i' as u8), ('n' as u8), ('t' as u8)]); }
                Some(TokenKind::Print)
            } else if b0 == ('s' as u8) && b1 == ('u' as u8) && b2 == ('p' as u8) && b3 == ('e' as u8) && b4 == ('r' as u8) {
                proof { assert(lexeme@ =~= seq![('s' as u8), ('u' as u8), ('p' as u8), ('e' as u8), ('r' as u8)]); }
                Some(TokenKind::Super)
            } else if b0 == ('w' as u8) && b1 == ('h' as u8) && b2 == ('i' as u8) && b3 == ('l' as u8) && b4 == ('e' as u8) {
                proof { assert(lexeme@ =~= seq![('w' as u8), ('h' as u8), ('i' as u8), ('l' as u8), ('e' as u8)]); }
                Some(TokenKind::While)
            } else {
                None
            }
        } else {
            let b2 = *slice_index_get(lexeme, 2);
            let b3 = *slice_index_get(lexeme, 3);
            let b4 = *slice_index_get(lexeme, 4);
            let b5 = *slice_index_get(lexeme, 5);
            if b0 == ('r' as u8) && b1 == ('e' as u8) && b2 == ('t' as u8) && b3 == ('u' as u8) && b4 == ('r' as u8) && b5 == ('n' as u8) {
                proof { assert(lexeme@ =~= seq![('r' as u8), ('e' as u8), ('t' as u8), ('u' as u8), ('r' as u8), ('n' as u8)]); }
                Some(TokenKind::Return)
            } else {
                None
            }
        }
    }

    /// The surface text of this token kind, for printing it.
    pub fn text(&self) -> (r: &'static str)
        ensures
            r@ == kind_text(*self),
    {
        match self {
            TokenKind::LeftParen => "(",
            TokenKind::RightParen => ")",
            TokenKind::LeftBrace => "{",
            TokenKind::RightBrace => "}",
            TokenKind::Comma => ",",
            TokenKind::Dot => ".",
            TokenKind::Minus => "-",
            TokenKind::Plus => "+",
            TokenKind::Semicolon => ";",
            TokenKind::Slash => "/",
            TokenKind::Star => "*",
            TokenKind::Bang => "!",
            TokenKind::BangEqual => "!=",
            TokenKind::Equal => "=",
            TokenKind::EqualEqual => "==",
            TokenKind::Greater => ">",
            TokenKind::GreaterEqual => ">=",
            TokenKind::Less => "<",
            TokenKind::LessEqual => "<=",
            TokenKind::String => "string",
            TokenKind::Identifier => "identifier",
            TokenKind::Number => "number",
            TokenKind::And => "and",
            TokenKind::Class => "class",
            TokenKind::Else => "else",
            TokenKind::False => "false",
            TokenKind::Fun => "fun",
            TokenKind::For => "for",
            TokenKind::If => "if",
            TokenKind::Nil => "nil",
            TokenKind::Or => "or",
            TokenKind::Print => "print",
            TokenKind::Return => "return",
            TokenKind::Super => "super",
            TokenKind::This => "this",
            TokenKind::True => "true",
            TokenKind::Var => "var",
            TokenKind::While => "while",
            TokenKind::Eof => "<EOF>",
        }
    }

    /// Returns the token kind for a single-character punctuation byte; `None`
    /// for every byte outside the punctuation set, so callers must have
    /// already established that the byte is punctuation.
    pub fn from_punctuation(b: u8) -> (r: Option<TokenKind>)
        ensures
            r == punctuation_kind(b),
    {
        if b == ('(' as u8) {
            Some(TokenKind::LeftParen)
        } else if b == (')' as u8) {
            Some(TokenKind::RightParen)
        } else if b == ('{' as u8) {
            Some(TokenKind::LeftBrace)
        } else if b == ('}' as u8) {
            Some(TokenKind::RightBrace)
        } else if b == (',' as u8) {
            Some(TokenKind::Comma)
        } else if b == ('.' as u8) {
            Some(TokenKind::Dot)
        } else if b == ('-' as u8) {
            Some(TokenKind::Minus)
        } else if b == ('+' as u8) {
            Some(TokenKind::Plus)
        } else if b == (';' as u8) {
            Some(TokenKind::Semicolon)
        } else if b == ('*' as u8) {
            Some(TokenKind::Star)
        } else {
            None
        }
    }
}

/// Represents a span of bytes in the source code: the half-open byte range
/// `[start, end)`.
#[derive(Debug, Clone, Copy, PartialEq, Eq, Structural)]
pub struct TokenSpan {
    pub start: usize,
    pub end: usize,
}

impl TokenSpan {
    /// A span is well formed when it does not end before it starts.
    pub open spec fn wf(&self) -> bool {
        self.start <= self.end
    }

    pub fn new(start: usize, end: usize) -> (r: TokenSpan)
        requires
            start <= end,
        ensures
            r.start == start,
            r.end == end,
    {
        TokenSpan { start, end }
    }

    pub fn start(&self) -> (r: usize)
        ensures
            r == self.start,
    {
        self.start
    }

    pub fn end(&self) -> (r: usize)
        ensures
            r == self.end,
    {
        self.end
    }

    pub fn length(&self) -> (r: usize)
        requires
            self.wf(),
        ensures
            r == self.end - self.start,
    {
        self.end - self.start
    }

    pub fn range(&self) -> (r: core::ops::Range<usize>)
        ensures
            r.start == self.start,
            r.end == self.end,
    {
        self.start..self.end
    }
}

/// Token is a lexeme's kind wrapped up with its exact byte span in the
/// source. The lexeme itself is not copied: it is recovered on demand as the
/// source bytes the span covers.
#[derive(Debug, Clone, Copy, PartialEq, Eq, Structural)]
pub struct Token {
    pub kind: TokenKind,
    pub span: TokenSpan,
}

impl Token {
    /// The terminal token marking successful end of a scan, positioned at the
    /// byte length of the input.
    pub fn eof(offset: usize) -> (r: Token)
        ensures
            r.kind == TokenKind::Eof,
            r.span.start == offset,
            r.span.end == offset,
    {
        Token { kind: TokenKind::Eof, span: TokenSpan::new(offset, offset) }
    }

    /// The exact bytes of source text this token was derived from.
    pub fn lexeme<'s>(&self, src: &'s [u8]) -> (r: &'s [u8])
        requires
            self.span.wf(),
            self.span.end <= src@.len(),
        ensures
            r@ == src@.subrange(self.span.start as int, self.span.end as int),
    {
        slice_subrange(src, self.span.start, self.span.end)
    }
}

} // verus!
