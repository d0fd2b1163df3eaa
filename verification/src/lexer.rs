//! The streaming lexer, proved to compute the scan model.

use vstd::prelude::*;
use vstd::slice::slice_index_get;
use vstd::slice::slice_subrange;
use vstd::slice::slice_to_vec;

use crate::decode::char_of_scalar;
use crate::decode::decode_scalar;
use crate::error::Error;
use crate::error::SourceSpan;
use crate::scan::ScanItem;
use crate::scan::block_comment_end;
use crate::scan::digits_end;
use crate::scan::eof_item;
use crate::scan::find_byte;
use crate::scan::identifier_end;
use crate::scan::identifier_kind;
use crate::scan::is_digit_byte;
use crate::scan::is_identifier_byte;
use crate::scan::lemma_block_comment_end_bounds;
use crate::scan::lemma_find_byte_bounds;
use crate::scan::lemma_next_item_props;
use crate::scan::next_item;
use crate::scan::number_end;
use crate::scan::scan_from;
use crate::scan::unexpected_char;
use crate::scan::unexpected_width;
use crate::token::Token;
use crate::token::TokenKind;
use crate::token::TokenSpan;

verus! {

/// The scan-model item that one yielded token stands for.
pub open spec fn token_item(t: Token) -> ScanItem {
    ScanItem::Lexeme { kind: t.kind, start: t.span.start as int, end: t.span.end as int }
}

/// The scan-model item that one yielded error stands for.
pub open spec fn error_item(e: Error) -> ScanItem {
    match e {
        Error::UnexpectedChar { c, at, .. } => ScanItem::UnexpectedChar {
            c,
            offset: at.offset as int,
            len: at.len as int,
        },
        Error::UnterminatedString { at, .. } => ScanItem::UnterminatedString {
            offset: at.offset as int,
            len: at.len as int,
        },
        Error::UnterminatedBlockComment { at, .. } => ScanItem::UnterminatedBlockComment {
            offset: at.offset as int,
            len: at.len as int,
        },
    }
}

/// The scan-model item that one yielded item stands for.
pub open spec fn item_view(r: Result<Token, Error>) -> ScanItem {
    match r {
        Ok(t) => token_item(t),
        Err(e) => error_item(e),
    }
}

/// Streaming lexer that produces tokens from the input source.
pub struct Lexer<'a> {
    /// Reference to input source code.
    src: &'a [u8],
    /// Absolute position starting from the beginning of input code.
    pos: usize,
}

impl<'a> Lexer<'a> {
    /// The source bytes this lexer scans.
    pub closed spec fn src_view(&self) -> Seq<u8> {
        self.src@
    }

    /// The lexer's cursor: the absolute byte position scanning resumes at.
    pub closed spec fn cursor(&self) -> int {
        self.pos as int
    }

    /// The cursor never leaves the source buffer.
    pub open spec fn wf(&self) -> bool {
        self.cursor() <= self.src_view().len()
    }

    /// Creates a new lexer instance from the input source code.
    pub fn new(input: &'a [u8]) -> (r: Lexer<'a>)
        ensures
            r.wf(),
            r.src_view() == input@,
            r.cursor() == 0,
    {
        Lexer { src: input, pos: 0 }
    }

    /// Wrap the current lexeme into a token.
    fn wrap(&self, kind: TokenKind, start: usize, end: usize) -> (t: Token)
        requires
            start <= end,
        ensures
            t.kind == kind,
            t.span.start == start,
            t.span.end == end,
    {
        Token { kind, span: TokenSpan::new(start, end) }
    }

    /// Process an operator that can be followed by an equal sign: the
    /// two-character form wins whenever an equal sign follows.
    fn op_with_eq(&mut self, op_eq: TokenKind, op: TokenKind) -> (t: Token)
        requires
            old(self).wf(),
            old(self).cursor() < old(self).src_view().len(),
        ensures
            final(self).wf(),
            final(self).src_view() == old(self).src_view(),
            ({
                let s = old(self).src_view();
                let p = old(self).cursor();
                if p + 1 < s.len() && s[p + 1] == ('=' as u8) {
                    &&& t.kind == op_eq
                    &&& t.span.start == p
                    &&& t.span.end == p + 2
                    &&& final(self).cursor() == p + 2
                } else {
                    &&& t.kind == op
                    &&& t.span.start == p
                    &&& t.span.end == p + 1
                    &&& final(self).cursor() == p + 1
                }
            }),
    {
        let start = self.pos;
        let n = self.src.len();
        if n - start >= 2 && *slice_index_get(self.src, start + 1) == ('=' as u8) {
            self.pos = start + 2;
            self.wrap(op_eq, start, start + 2)
        } else {
            self.pos = start + 1;
            self.wrap(op, start, start + 1)
        }
    }

    /// Skip a line comment: everything up to, and not including, the next
    /// newline or the end of input.
    #[verifier::loop_isolation(false)]
    fn line_comment(&mut self)
        requires
            old(self).wf(),
        ensures
            final(self).wf(),
            final(self).src_view() == old(self).src_view(),
            final(self).cursor() == find_byte(
                old(self).src_view(),
                old(self).cursor(),
                ('\n' as u8),
            ),
    {
        let ghost s = self.src@;
        let n = self.src.len();
        loop
            invariant
                old(self).cursor() <= self.pos <= n,
                self.src@ == s,
                find_byte(s, old(self).cursor(), ('\n' as u8)) == find_byte(
                    s,
                    self.pos as int,
                    ('\n' as u8),
                ),
            decreases n - self.pos,
        {
            if self.pos >= n {
                return ;
            }
            if *slice_index_get(self.src, self.pos) == ('\n' as u8) {
                return ;
            }
            self.pos = self.pos + 1;
        }
    }

    /// Skip a block comment opened at `start`, whose opening delimiter the
    /// caller already consumed, allowing nested ones; report the comment as
    /// unterminated when the input ends before the nesting closes.
    #[verifier::loop_isolation(false)]
    fn block_comment(&mut self, start: usize) -> (r: Option<Error>)
        requires
            old(self).wf(),
            old(self).cursor() == start + 2,
        ensures
            final(self).wf(),
            final(self).src_view() == old(self).src_view(),
            ({
                let s = old(self).src_view();
                match block_comment_end(s, start + 2, 1) {
                    Some(close) => r is None && final(self).cursor() == close,
                    None => {
                        &&& r matches Some(e)
                        &&& e matches Error::UnterminatedBlockComment { src: esrc, at }
                        &&& esrc@ == s
                        &&& at.offset == start
                        &&& at.len == s.len() - start
                        &&& final(self).cursor() == s.len()
                    },
                }
            }),
    {
        let ghost s = self.src@;
        let n = self.src.len();
        let mut depth: usize = 1;
        loop
            invariant
                start + 2 <= self.pos <= n,
                self.src@ == s,
                1 <= depth <= self.pos,
                block_comment_end(s, start + 2, 1) == block_comment_end(
                    s,
                    self.pos as int,
                    depth as nat,
                ),
            decreases n - self.pos,
        {
            if self.pos >= n {
                return Some(
                    Error::UnterminatedBlockComment {
                        src: slice_to_vec(self.src),
                        at: SourceSpan { offset: start, len: n - start },
                    },
                );
            }
            let b = *slice_index_get(self.src, self.pos);
            if b == ('/' as u8) && n - self.pos >= 2 && *slice_index_get(self.src, self.pos + 1)
                == ('*' as u8) {
                self.pos = self.pos + 2;
                depth = depth + 1;
            } else if b == ('*' as u8) && n - self.pos >= 2 && *slice_index_get(
                self.src,
                self.pos + 1,
            ) == ('/' as u8) {
                if depth == 1 {
                    self.pos = self.pos + 2;
                    return None;
                }
                self.pos = self.pos + 2;
                depth = depth - 1;
            } else {
                self.pos = self.pos + 1;
            }
        }
    }

    /// Process a string literal, whose opening quote stands at the cursor.
    /// The literal's characters are taken verbatim, newlines included, up to
    /// the closing quote; a literal still open at the end of input is an
    /// error spanning from the opening quote to the end.
    #[verifier::loop_isolation(false)]
    fn string_literal(&mut self) -> (r: Result<Token, Error>)
        requires
            old(self).wf(),
            old(self).cursor() < old(self).src_view().len(),
        ensures
            final(self).wf(),
            final(self).src_view() == old(self).src_view(),
            ({
                let s = old(self).src_view();
                let p = old(self).cursor();
                let close = find_byte(s, p + 1, ('"' as u8));
                if close < s.len() {
                    &&& r matches Ok(t)
                    &&& t.kind == TokenKind::String
                    &&& t.span.start == p
                    &&& t.span.end == close + 1
                    &&& final(self).cursor() == close + 1
                } else {
                    &&& r matches Err(e)
                    &&& e matches Error::UnterminatedString { src: esrc, at }
                    &&& esrc@ == s
                    &&& at.offset == p
                    &&& at.len == s.len() - p
                    &&& final(self).cursor() == s.len()
                }
            }),
    {
        let ghost s = self.src@;
        let start = self.pos;
        let n = self.src.len();
        self.pos = start + 1;
        loop
            invariant
                start + 1 <= self.pos <= n,
                self.src@ == s,
                find_byte(s, start + 1, ('"' as u8)) == find_byte(s, self.pos as int, ('"' as u8)),
            decreases n - self.pos,
        {
            if self.pos >= n {
                return Err(
                    Error::UnterminatedString {
                        src: slice_to_vec(self.src),
                        at: SourceSpan { offset: start, len: n - start },
                    },
                );
            }
            if *slice_index_get(self.src, self.pos) == ('"' as u8) {
                let end = self.pos + 1;
                self.pos = end;
                return Ok(self.wrap(TokenKind::String, start, end));
            }
            self.pos = self.pos + 1;
        }
    }

    /// Advance the cursor past the maximal run of digits standing at it.
    #[verifier::loop_isolation(false)]
    fn skip_digits(&mut self)
        requires
            old(self).wf(),
        ensures
            final(self).wf(),
            final(self).src_view() == old(self).src_view(),
            final(self).cursor() == digits_end(old(self).src_view(), old(self).cursor()),
    {
        let ghost s = self.src@;
        let n = self.src.len();
        loop
            invariant
                old(self).cursor() <= self.pos <= n,
                self.src@ == s,
                digits_end(s, old(self).cursor()) == digits_end(s, self.pos as int),
            decreases n - self.pos,
        {
            if self.pos >= n {
                return ;
            }
            let b = *slice_index_get(self.src, self.pos);
            if !(('0' as u8) <= b && b <= ('9' as u8)) {
                return ;
            }
            self.pos = self.pos + 1;
        }
    }

    /// Process a number literal, whose first digit stands at the cursor.
    /// A dot is consumed only when a digit follows it, so a trailing dot is
    /// left for the next lexeme.
    fn number_literal(&mut self) -> (t: Token)
        requires
            old(self).wf(),
            old(self).cursor() < old(self).src_view().len(),
            is_digit_byte(old(self).src_view()[old(self).cursor()]),
        ensures
            final(self).wf(),
            final(self).src_view() == old(self).src_view(),
            ({
                let s = old(self).src_view();
                let p = old(self).cursor();
                &&& t.kind == TokenKind::Number
                &&& t.span.start == p
                &&& t.span.end == number_end(s, p)
                &&& final(self).cursor() == number_end(s, p)
            }),
    {
        let ghost s = self.src@;
        let start = self.pos;
        proof {
            crate::scan::lemma_digits_end_bounds(s, start as int);
        }
        self.skip_digits();
        let n = self.src.len();
        if n - self.pos >= 2 && *slice_index_get(self.src, self.pos) == ('.' as u8) {
            let d = *slice_index_get(self.src, self.pos + 1);
            if ('0' as u8) <= d && d <= ('9' as u8) {
                self.pos = self.pos + 1;
                proof {
                    crate::scan::lemma_digits_end_bounds(s, self.pos as int);
                }
                self.skip_digits();
            }
        }
        self.wrap(TokenKind::Number, start, self.pos)
    }

    /// Process an identifier, whose first character stands at the cursor:
    /// the maximal run of ASCII alphanumerics and underscores, emitted as a
    /// reserved word only when the whole lexeme equals a keyword exactly.
    #[verifier::loop_isolation(false)]
    fn identifier(&mut self, start: usize) -> (t: Token)
        requires
            old(self).wf(),
            old(self).cursor() == start,
            start < old(self).src_view().len(),
        ensures
            final(self).wf(),
            final(self).src_view() == old(self).src_view(),
            ({
                let s = old(self).src_view();
                let end = identifier_end(s, start as int);
                &&& t.kind == identifier_kind(s.subrange(start as int, end))
                &&& t.span.start == start
                &&& t.span.end == end
                &&& final(self).cursor() == end
            }),
    {
        let ghost s = self.src@;
        let n = self.src.len();
        loop
            invariant
                start <= self.pos <= n,
                self.src@ == s,
                identifier_end(s, start as int) == identifier_end(s, self.pos as int),
            decreases n - self.pos,
        {
            if self.pos >= n {
                break ;
            }
            if !is_alphanumeric(*slice_index_get(self.src, self.pos)) {
                break ;
            }
            self.pos = self.pos + 1;
        }
        let lex = slice_subrange(self.src, start, self.pos);
        match TokenKind::from_keyword(lex) {
            Some(keyword) => self.wrap(keyword, start, self.pos),
            None => self.wrap(TokenKind::Identifier, start, self.pos),
        }
    }

    /// Report the character standing at the cursor as unexpected, advancing
    /// the cursor past it so that scanning can go on with the next one.
    fn unexpected_character(&mut self) -> (e: Error)
        requires
            old(self).wf(),
            old(self).cursor() < old(self).src_view().len(),
        ensures
            final(self).wf(),
            final(self).src_view() == old(self).src_view(),
            ({
                let s = old(self).src_view();
                let p = old(self).cursor();
                &&& e matches Error::UnexpectedChar { c, src: esrc, at }
                &&& c == unexpected_char(s, p)
                &&& esrc@ == s
                &&& at.offset == p
                &&& at.len == unexpected_width(s, p)
                &&& final(self).cursor() == p + unexpected_width(s, p)
            }),
    {
        let ghost s = self.src@;
        let ghost p = self.pos as int;
        let n = self.src.len();
        let (scalar, width) = decode_scalar(self.src, self.pos);
        proof {
            assert(self.pos + width <= n);
        }
        let c = char_of_scalar(scalar);
        proof {
            vstd::utf8::char_u32_cast(c, scalar);
        }
        let e = Error::UnexpectedChar {
            c,
            src: slice_to_vec(self.src),
            at: SourceSpan { offset: self.pos, len: width },
        };
        self.pos = self.pos + width;
        e
    }

    /// Process the next token from the source code: `None` once only
    /// whitespace and comments remain before the end of input.
    #[verifier::loop_isolation(false)]
    pub fn next_token(&mut self) -> (r: Option<Result<Token, Error>>)
        requires
            old(self).wf(),
        ensures
            final(self).wf(),
            final(self).src_view() == old(self).src_view(),
            match next_item(old(self).src_view(), old(self).cursor()) {
                None => r is None && next_item(old(self).src_view(), final(self).cursor())
                    is None,
                Some((item, next)) => {
                    &&& r matches Some(x)
                    &&& item_view(x) == item
                    &&& (x matches Err(e) ==> e.source_view() == old(self).src_view())
                    &&& final(self).cursor() == next
                },
            },
    {
        let ghost s = self.src@;
        let ghost p0 = self.pos as int;
        let n = self.src.len();
        loop
            invariant
                self.pos <= n,
                self.src@ == s,
                next_item(s, self.pos as int) == next_item(s, p0),
            decreases n - self.pos,
        {
            if self.pos >= n {
                return None;
            }
            let start = self.pos;
            let b = *slice_index_get(self.src, start);
            if b == (' ' as u8) || b == ('\t' as u8) || b == ('\r' as u8) || b == ('\n' as u8) {
                self.pos = start + 1;
            } else {
                match TokenKind::from_punctuation(b) {
                    Some(kind) => {
                        self.pos = start + 1;
                        return Some(Ok(self.wrap(kind, start, start + 1)));
                    },
                    None => {},
                }
                if b == ('!' as u8) {
                    return Some(Ok(self.op_with_eq(TokenKind::BangEqual, TokenKind::Bang)));
                } else if b == ('=' as u8) {
                    return Some(Ok(self.op_with_eq(TokenKind::EqualEqual, TokenKind::Equal)));
                } else if b == ('>' as u8) {
                    return Some(Ok(self.op_with_eq(TokenKind::GreaterEqual, TokenKind::Greater)));
                } else if b == ('<' as u8) {
                    return Some(Ok(self.op_with_eq(TokenKind::LessEqual, TokenKind::Less)));
                } else if b == ('/' as u8) {
                    if n - start >= 2 && *slice_index_get(self.src, start + 1) == ('/' as u8) {
                        self.pos = start + 2;
                        proof {
                            lemma_find_byte_bounds(s, start + 2, ('\n' as u8));
                        }
                        self.line_comment();
                    } else if n - start >= 2 && *slice_index_get(self.src, start + 1) == (
                    '*' as u8) {
                        self.pos = start + 2;
                        proof {
                            lemma_block_comment_end_bounds(s, start + 2, 1);
                        }
                        match self.block_comment(start) {
                            Some(e) => {
                                return Some(Err(e));
                            },
                            None => {},
                        }
                    } else {
                        self.pos = start + 1;
                        return Some(Ok(self.wrap(TokenKind::Slash, start, start + 1)));
                    }
                } else if b == ('"' as u8) {
                    proof {
                        lemma_find_byte_bounds(s, start + 1, ('"' as u8));
                    }
                    return Some(self.string_literal());
                } else if ('0' as u8) <= b && b <= ('9' as u8) {
                    proof {
                        lemma_next_item_props(s, self.pos as int);
                    }
                    return Some(Ok(self.number_literal()));
                } else if is_alphanumeric(b) {
                    proof {
                        lemma_next_item_props(s, self.pos as int);
                    }
                    return Some(Ok(self.identifier(start)));
                } else {
                    return Some(Err(self.unexpected_character()));
                }
            }
        }
    }

    /// Returns all items the scan still yields, in order, closed by the one
    /// terminal `Eof` token.
    pub fn tokens(self) -> (r: Vec<Result<Token, Error>>)
        requires
            self.wf(),
        ensures
            r@.map_values(|it: Result<Token, Error>| item_view(it)) == scan_from(
                self.src_view(),
                self.cursor(),
            ),
            forall|i: int|
                0 <= i < r@.len() ==> ((#[trigger] r@[i]) matches Err(e) ==> e.source_view()
                    == self.src_view()),
    {
        let ghost s = self.src@;
        let ghost p0 = self.pos as int;
        let mut lexer = self;
        let mut items: Vec<Result<Token, Error>> = Vec::new();
        loop
            invariant
                lexer.wf(),
                lexer.src@ == s,
                items@.map_values(|it: Result<Token, Error>| item_view(it)) + scan_from(
                    s,
                    lexer.cursor(),
                ) == scan_from(s, p0),
                forall|i: int|
                    0 <= i < items@.len() ==> ((#[trigger] items@[i]) matches Err(e)
                        ==> e.source_view() == s),
            ensures
                next_item(s, lexer.cursor()) is None,
                lexer.src@ == s,
            decreases s.len() - lexer.cursor(),
        {
            proof {
                lemma_next_item_props(s, lexer.cursor());
            }
            let ghost items_before = items@;
            match lexer.next_token() {
                None => {
                    break ;
                },
                Some(item) => {
                    items.push(item);
                    proof {
                        assert(items@.map_values(|it: Result<Token, Error>| item_view(it))
                            =~= items_before.map_values(|it: Result<Token, Error>| item_view(it))
                            + seq![item_view(item)]);
                    }
                },
            }
        }
        let offset = lexer.src.len();
        let ghost items_before = items@;
        items.push(Ok(Token::eof(offset)));
        proof {
            assert(items@.map_values(|it: Result<Token, Error>| item_view(it)) =~=
            items_before.map_values(|it: Result<Token, Error>| item_view(it)) + seq![
                eof_item(s.len() as int),
            ]);
            assert(scan_from(s, lexer.cursor()) == seq![eof_item(s.len() as int)]);
        }
        items
    }
}

/// True for the characters that may continue an identifier: ASCII
/// alphanumerics and the underscore.
fn is_alphanumeric(b: u8) -> (r: bool)
    ensures
        r == is_identifier_byte(b),
{
    (('a' as u8) <= b && b <= ('z' as u8)) || (('A' as u8) <= b && b <= ('Z' as u8)) || (('0' as u8)
        <= b && b <= ('9' as u8)) || b == ('_' as u8)
}

} // verus!
