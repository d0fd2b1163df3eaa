//! The mathematical model of a scan.
//!
//! These spec functions say, for every byte position of a source buffer,
//! which item the scanner yields there and where the next lexeme begins, and
//! from that the full item sequence of a scan. The executable scanner in
//! [`crate::lexer`] is proved to compute exactly this model.

use vstd::prelude::*;
use vstd::utf8::decode_first_scalar;
use vstd::utf8::length_of_first_scalar;
use vstd::utf8::valid_first_scalar;

use crate::token::TokenKind;
use crate::token::keyword_kind;
use crate::token::punctuation_kind;

verus! {

/// One item of a scan: a token's kind and byte span, or one of the three
/// lexical errors with its labeled byte range (offset and length).
pub enum ScanItem {
    Lexeme { kind: TokenKind, start: int, end: int },
    UnexpectedChar { c: char, offset: int, len: int },
    UnterminatedString { offset: int, len: int },
    UnterminatedBlockComment { offset: int, len: int },
}

/// Whitespace bytes are skipped between lexemes.
pub open spec fn is_whitespace_byte(b: u8) -> bool {
    b == (' ' as u8) || b == ('\t' as u8) || b == ('\r' as u8) || b == ('\n' as u8)
}

/// ASCII decimal digits.
pub open spec fn is_digit_byte(b: u8) -> bool {
    ('0' as u8) <= b <= ('9' as u8)
}

/// Bytes that may continue an identifier: ASCII alphanumerics and the
/// underscore. An identifier starts with any of these except a digit.
pub open spec fn is_identifier_byte(b: u8) -> bool {
    ||| ('a' as u8) <= b <= ('z' as u8)
    ||| ('A' as u8) <= b <= ('Z' as u8)
    ||| is_digit_byte(b)
    ||| b == ('_' as u8)
}

/// The four operator bytes that may pair with a following equals sign.
pub open spec fn is_operator_byte(b: u8) -> bool {
    b == ('!' as u8) || b == ('=' as u8) || b == ('>' as u8) || b == ('<' as u8)
}

/// The one-character kind of an operator byte, emitted when no equals sign
/// follows.
pub open spec fn operator_kind(b: u8) -> TokenKind
    recommends
        is_operator_byte(b),
{
    if b == ('!' as u8) {
        TokenKind::Bang
    } else if b == ('=' as u8) {
        TokenKind::Equal
    } else if b == ('>' as u8) {
        TokenKind::Greater
    } else {
        TokenKind::Less
    }
}

/// The two-character kind of an operator byte, emitted when an equals sign
/// follows: the greedy longest match always wins.
pub open spec fn operator_equal_kind(b: u8) -> TokenKind
    recommends
        is_operator_byte(b),
{
    if b == ('!' as u8) {
        TokenKind::BangEqual
    } else if b == ('=' as u8) {
        TokenKind::EqualEqual
    } else if b == ('>' as u8) {
        TokenKind::GreaterEqual
    } else {
        TokenKind::LessEqual
    }
}

/// The kind of an identifier lexeme: a reserved-word kind when the lexeme
/// equals a keyword exactly, and `Identifier` otherwise.
pub open spec fn identifier_kind(lex: Seq<u8>) -> TokenKind {
    match keyword_kind(lex) {
        Some(k) => k,
        None => TokenKind::Identifier,
    }
}

/// The position of the first occurrence of `b` at or after `pos`, or the
/// length of `s` when `b` does not occur there.
pub open spec fn find_byte(s: Seq<u8>, pos: int, b: u8) -> int
    decreases s.len() - pos,
{
    if pos < 0 || pos >= s.len() {
        s.len() as int
    } else if s[pos] == b {
        pos
    } else {
        find_byte(s, pos + 1, b)
    }
}

pub proof fn lemma_find_byte_bounds(s: Seq<u8>, pos: int, b: u8)
    requires
        0 <= pos <= s.len(),
    ensures
        pos <= find_byte(s, pos, b) <= s.len(),
        find_byte(s, pos, b) < s.len() ==> s[find_byte(s, pos, b)] == b,
    decreases s.len() - pos,
{
    if pos < s.len() && s[pos] != b {
        lemma_find_byte_bounds(s, pos + 1, b);
    }
}

/// The end of the maximal run of digit bytes beginning at `pos`.
pub open spec fn digits_end(s: Seq<u8>, pos: int) -> int
    decreases s.len() - pos,
{
    if pos < 0 || pos >= s.len() || !is_digit_byte(s[pos]) {
        pos
    } else {
        digits_end(s, pos + 1)
    }
}

pub proof fn lemma_digits_end_bounds(s: Seq<u8>, pos: int)
    requires
        0 <= pos <= s.len(),
    ensures
        pos <= digits_end(s, pos) <= s.len(),
    decreases s.len() - pos,
{
    if pos < s.len() && is_digit_byte(s[pos]) {
        lemma_digits_end_bounds(s, pos + 1);
    }
}

/// The end of the maximal run of identifier bytes beginning at `pos`.
pub open spec fn identifier_end(s: Seq<u8>, pos: int) -> int
    decreases s.len() - pos,
{
    if pos < 0 || pos >= s.len() || !is_identifier_byte(s[pos]) {
        pos
    } else {
        identifier_end(s, pos + 1)
    }
}

pub proof fn lemma_identifier_end_bounds(s: Seq<u8>, pos: int)
    requires
        0 <= pos <= s.len(),
    ensures
        pos <= identifier_end(s, pos) <= s.len(),
    decreases s.len() - pos,
{
    if pos < s.len() && is_identifier_byte(s[pos]) {
        lemma_identifier_end_bounds(s, pos + 1);
    }
}

/// The end of the number lexeme whose first digit stands at `start`: the
/// maximal digit run, extended across a dot only when a digit follows the
/// dot. A trailing dot is left for the next lexeme.
pub open spec fn number_end(s: Seq<u8>, start: int) -> int {
    let integer_end = digits_end(s, start);
    if integer_end + 1 < s.len() && s[integer_end] == ('.' as u8) && is_digit_byte(
        s[integer_end + 1],
    ) {
        digits_end(s, integer_end + 1)
    } else {
        integer_end
    }
}

pub proof fn lemma_number_end_bounds(s: Seq<u8>, start: int)
    requires
        0 <= start < s.len(),
        is_digit_byte(s[start]),
    ensures
        start < number_end(s, start) <= s.len(),
{
    lemma_digits_end_bounds(s, start + 1);
    let integer_end = digits_end(s, start);
    if integer_end + 1 < s.len() && s[integer_end] == ('.' as u8) && is_digit_byte(
        s[integer_end + 1],
    ) {
        lemma_digits_end_bounds(s, integer_end + 1);
    }
}

/// The position just past the closing of a block comment scanned from `pos`
/// at the given nesting depth, or `None` when the input ends before the
/// nesting returns to depth zero. Every further `/*` deepens the nesting by
/// one and every `*/` closes one level.
pub open spec fn block_comment_end(s: Seq<u8>, pos: int, depth: nat) -> Option<int>
    decreases s.len() - pos,
{
    if pos < 0 || pos >= s.len() {
        None
    } else if s[pos] == ('/' as u8) && pos + 1 < s.len() && s[pos + 1] == ('*' as u8) {
        block_comment_end(s, pos + 2, depth + 1)
    } else if s[pos] == ('*' as u8) && pos + 1 < s.len() && s[pos + 1] == ('/' as u8) {
        if depth <= 1 {
            Some(pos + 2)
        } else {
            block_comment_end(s, pos + 2, (depth - 1) as nat)
        }
    } else {
        block_comment_end(s, pos + 1, depth)
    }
}

pub proof fn lemma_block_comment_end_bounds(s: Seq<u8>, pos: int, depth: nat)
    requires
        0 <= pos,
    ensures
        block_comment_end(s, pos, depth) matches Some(close) ==> pos + 2 <= close <= s.len(),
    decreases s.len() - pos,
{
    if pos < s.len() {
        if s[pos] == ('/' as u8) && pos + 1 < s.len() && s[pos + 1] == ('*' as u8) {
            lemma_block_comment_end_bounds(s, pos + 2, depth + 1);
        } else if s[pos] == ('*' as u8) && pos + 1 < s.len() && s[pos + 1] == ('/' as u8) {
            if depth > 1 {
                lemma_block_comment_end_bounds(s, pos + 2, (depth - 1) as nat);
            }
        } else {
            lemma_block_comment_end_bounds(s, pos + 1, depth);
        }
    }
}

/// The byte width charged to an unexpected character at `pos`: the width of
/// the UTF-8 scalar encoded there, or one byte when no valid scalar starts
/// there.
pub open spec fn unexpected_width(s: Seq<u8>, pos: int) -> int {
    if valid_first_scalar(s.skip(pos)) {
        length_of_first_scalar(s.skip(pos))
    } else {
        1
    }
}

/// The character reported for an unexpected character at `pos`: the UTF-8
/// scalar encoded there, or the replacement character when no valid scalar
/// starts there.
pub open spec fn unexpected_char(s: Seq<u8>, pos: int) -> char {
    if valid_first_scalar(s.skip(pos)) {
        decode_first_scalar(s.skip(pos)) as char
    } else {
        '\u{FFFD}'
    }
}

pub proof fn lemma_first_scalar_width(bytes: Seq<u8>)
    requires
        valid_first_scalar(bytes),
    ensures
        1 <= length_of_first_scalar(bytes) <= bytes.len(),
{
}

/// The item the scanner yields when resumed at `pos`, paired with the cursor
/// position after it; `None` when only whitespace and comments remain. The
/// recursion steps over skipped trivia: whitespace, line comments, and
/// closed block comments.
pub open spec fn next_item(s: Seq<u8>, pos: int) -> Option<(ScanItem, int)>
    decreases s.len() - pos,
    via next_item_decreases
{
    if pos < 0 || pos >= s.len() {
        None
    } else {
        let b = s[pos];
        if is_whitespace_byte(b) {
            next_item(s, pos + 1)
        } else {
            match punctuation_kind(b) {
                Some(kind) => Some(
                    (ScanItem::Lexeme { kind, start: pos, end: pos + 1 }, pos + 1),
                ),
                None => if is_operator_byte(b) {
                    if pos + 1 < s.len() && s[pos + 1] == ('=' as u8) {
                        Some(
                            (
                                ScanItem::Lexeme {
                                    kind: operator_equal_kind(b),
                                    start: pos,
                                    end: pos + 2,
                                },
                                pos + 2,
                            ),
                        )
                    } else {
                        Some(
                            (
                                ScanItem::Lexeme { kind: operator_kind(b), start: pos, end: pos + 1 },
                                pos + 1,
                            ),
                        )
                    }
                } else if b == ('/' as u8) {
                    if pos + 1 < s.len() && s[pos + 1] == ('/' as u8) {
                        next_item(s, find_byte(s, pos + 2, ('\n' as u8)))
                    } else if pos + 1 < s.len() && s[pos + 1] == ('*' as u8) {
                        match block_comment_end(s, pos + 2, 1) {
                            Some(close) => next_item(s, close),
                            None => Some(
                                (
                                    ScanItem::UnterminatedBlockComment {
                                        offset: pos,
                                        len: s.len() - pos,
                                    },
                                    s.len() as int,
                                ),
                            ),
                        }
                    } else {
                        Some(
                            (
                                ScanItem::Lexeme { kind: TokenKind::Slash, start: pos, end: pos + 1 },
                                pos + 1,
                            ),
                        )
                    }
                } else if b == ('"' as u8) {
                    let close = find_byte(s, pos + 1, ('"' as u8));
                    if close < s.len() {
                        Some(
                            (
                                ScanItem::Lexeme { kind: TokenKind::String, start: pos, end: close + 1 },
                                close + 1,
                            ),
                        )
                    } else {
                        Some(
                            (
                                ScanItem::UnterminatedString { offset: pos, len: s.len() - pos },
                                s.len() as int,
                            ),
                        )
                    }
                } else if is_digit_byte(b) {
                    let end = number_end(s, pos);
                    Some((ScanItem::Lexeme { kind: TokenKind::Number, start: pos, end }, end))
                } else if is_identifier_byte(b) {
                    let end = identifier_end(s, pos);
                    Some(
                        (
                            ScanItem::Lexeme {
                                kind: identifier_kind(s.subrange(pos, end)),
                                start: pos,
                                end,
                            },
                            end,
                        ),
                    )
                } else {
                    let width = unexpected_width(s, pos);
                    Some(
                        (
                            ScanItem::UnexpectedChar {
                                c: unexpected_char(s, pos),
                                offset: pos,
                                len: width,
                            },
                            pos + width,
                        ),
                    )
                },
            }
        }
    }
}

#[via_fn]
proof fn next_item_decreases(s: Seq<u8>, pos: int) {
    if 0 <= pos < s.len() {
        let b = s[pos];
        if b == ('/' as u8) {
            if pos + 1 < s.len() && s[pos + 1] == ('/' as u8) {
                lemma_find_byte_bounds(s, pos + 2, ('\n' as u8));
            } else if pos + 1 < s.len() && s[pos + 1] == ('*' as u8) {
                lemma_block_comment_end_bounds(s, pos + 2, 1);
            }
        }
    }
}

/// The terminal item of every scan: the `Eof` token positioned at the byte
/// length of the input.
pub open spec fn eof_item(len: int) -> ScanItem {
    ScanItem::Lexeme { kind: TokenKind::Eof, start: len, end: len }
}

/// Every item a scanner resumed at `pos` still yields, the terminal `Eof`
/// token included.
pub open spec fn scan_from(s: Seq<u8>, pos: int) -> Seq<ScanItem>
    decreases s.len() - pos,
    via scan_from_decreases
{
    match next_item(s, pos) {
        None => seq![eof_item(s.len() as int)],
        Some((item, next)) => seq![item] + scan_from(s, next),
    }
}

#[via_fn]
proof fn scan_from_decreases(s: Seq<u8>, pos: int) {
    lemma_next_item_props(s, pos);
}

/// The full item sequence of a scan of `s`.
pub open spec fn scan(s: Seq<u8>) -> Seq<ScanItem> {
    scan_from(s, 0)
}

/// Well-formedness of one non-terminal scan item of a source of `len`
/// bytes: its byte range lies inside the source and is never empty, and a
/// token is never a second `Eof`.
pub open spec fn item_wf(item: ScanItem, len: int) -> bool {
    match item {
        ScanItem::Lexeme { kind, start, end } => 0 <= start < end <= len && kind
            != TokenKind::Eof,
        ScanItem::UnexpectedChar { c, offset, len: l } => 0 <= offset && 1 <= l && offset + l
            <= len,
        ScanItem::UnterminatedString { offset, len: l } => 0 <= offset && 1 <= l && offset + l
            <= len,
        ScanItem::UnterminatedBlockComment { offset, len: l } => 0 <= offset && 1 <= l && offset
            + l <= len,
    }
}

/// Each yielded item advances the cursor, stays inside the source, and is
/// well formed.
pub proof fn lemma_next_item_props(s: Seq<u8>, pos: int)
    ensures
        next_item(s, pos) matches Some((item, next)) ==> {
            &&& 0 <= pos < next <= s.len()
            &&& item_wf(item, s.len() as int)
        },
    decreases s.len() - pos,
{
    if 0 <= pos < s.len() {
        let b = s[pos];
        if is_whitespace_byte(b) {
            lemma_next_item_props(s, pos + 1);
        } else if punctuation_kind(b) is Some {
        } else if is_operator_byte(b) {
        } else if b == ('/' as u8) {
            if pos + 1 < s.len() && s[pos + 1] == ('/' as u8) {
                lemma_find_byte_bounds(s, pos + 2, ('\n' as u8));
                lemma_next_item_props(s, find_byte(s, pos + 2, ('\n' as u8)));
            } else if pos + 1 < s.len() && s[pos + 1] == ('*' as u8) {
                lemma_block_comment_end_bounds(s, pos + 2, 1);
                match block_comment_end(s, pos + 2, 1) {
                    Some(close) => lemma_next_item_props(s, close),
                    None => (),
                }
            }
        } else if b == ('"' as u8) {
            lemma_find_byte_bounds(s, pos + 1, ('"' as u8));
        } else if is_digit_byte(b) {
            lemma_number_end_bounds(s, pos);
        } else if is_identifier_byte(b) {
            lemma_identifier_end_bounds(s, pos + 1);
        } else {
            if valid_first_scalar(s.skip(pos)) {
                lemma_first_scalar_width(s.skip(pos));
            }
        }
    }
}

/// A scan resumed anywhere yields at least the terminal `Eof` token, that
/// token is the last item and stands at the byte length of the input, and
/// every item before it is well formed.
pub proof fn lemma_scan_from_props(s: Seq<u8>, pos: int)
    ensures
        scan_from(s, pos).len() >= 1,
        scan_from(s, pos).last() == eof_item(s.len() as int),
        forall|i: int|
            0 <= i < scan_from(s, pos).len() - 1 ==> item_wf(
                #[trigger] scan_from(s, pos)[i],
                s.len() as int,
            ),
    decreases s.len() - pos,
{
    lemma_next_item_props(s, pos);
    match next_item(s, pos) {
        None => (),
        Some((item, next)) => {
            lemma_scan_from_props(s, next);
            let items = scan_from(s, pos);
            let rest = scan_from(s, next);
            assert(items.last() == rest.last());
            assert forall|i: int| 0 <= i < items.len() - 1 implies item_wf(
                items[i],
                s.len() as int,
            ) by {
                if i > 0 {
                    assert(items[i] == rest[i - 1]);
                }
            }
        },
    }
}

} // verus!
