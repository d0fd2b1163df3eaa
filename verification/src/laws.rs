//! Laws of the scanner, stated over the scan model and proved once for all
//! inputs. The contract of [`crate::lexer::Lexer::tokens`] carries each law
//! over to the items the executable scanner actually returns.

use vstd::prelude::*;

use crate::error::Error;
use crate::lexer::item_view;
use crate::scan::ScanItem;
use crate::scan::identifier_end;
use crate::scan::identifier_kind;
use crate::scan::is_digit_byte;
use crate::scan::is_identifier_byte;
use crate::scan::is_operator_byte;
use crate::scan::lemma_identifier_end_bounds;
use crate::scan::lemma_scan_from_props;
use crate::scan::next_item;
use crate::scan::operator_equal_kind;
use crate::scan::scan;
use crate::token::Token;
use crate::token::TokenKind;

verus! {

/// Round-trip law: every token among the items a scan of `s` returns,
/// except the terminal `Eof`, carries a well-formed, non-empty byte range
/// lying inside `s`. [`Token::lexeme`] therefore recovers for it exactly the
/// bytes `s[span.start .. span.end]` the token was derived from.
pub proof fn lemma_token_round_trip(s: Seq<u8>, items: Seq<Result<Token, Error>>, i: int)
    requires
        items.map_values(|it: Result<Token, Error>| item_view(it)) == scan(s),
        0 <= i < items.len() - 1,
    ensures
        items[i] matches Ok(t) ==> {
            &&& t.span.wf()
            &&& t.span.start < t.span.end
            &&& t.span.end <= s.len()
        },
{
    lemma_scan_from_props(s, 0);
    assert(item_view(items[i]) == scan(s)[i]);
}

/// Terminal invariant: a scan of any input, the empty one included, returns
/// at least one item; the last item is a successful `Eof` token spanning
/// `(s.len(), s.len())`, and no other item is an `Eof` token.
pub proof fn lemma_terminal_eof(s: Seq<u8>, items: Seq<Result<Token, Error>>)
    requires
        items.map_values(|it: Result<Token, Error>| item_view(it)) == scan(s),
    ensures
        items.len() >= 1,
        items.last() matches Ok(t) && t.kind == TokenKind::Eof && t.span.start == s.len()
            && t.span.end == s.len(),
        forall|i: int|
            0 <= i < items.len() - 1 ==> !((#[trigger] items[i]) matches Ok(t) && t.kind
                == TokenKind::Eof),
{
    lemma_scan_from_props(s, 0);
    assert(item_view(items.last()) == scan(s).last());
    assert forall|i: int|
        0 <= i < items.len() - 1 implies !((#[trigger] items[i]) matches Ok(t) && t.kind
        == TokenKind::Eof) by {
        assert(item_view(items[i]) == scan(s)[i]);
    }
}

/// Greedy operator match: whenever one of the bytes `! = > <` stands at
/// `pos` and an equal sign follows it, the scanner resumed at `pos` yields
/// the two-character operator token spanning both bytes; the one-character
/// form never wins there.
pub proof fn lemma_greedy_operator(s: Seq<u8>, pos: int)
    requires
        0 <= pos,
        pos + 1 < s.len(),
        is_operator_byte(s[pos]),
        s[pos + 1] == ('=' as u8),
    ensures
        next_item(s, pos) == Some(
            (
                ScanItem::Lexeme { kind: operator_equal_kind(s[pos]), start: pos, end: pos + 2 },
                pos + 2,
            ),
        ),
{
}

/// Every byte of an identifier run is an identifier byte, and the run is
/// maximal: the byte after it, if any, is not an identifier byte.
pub proof fn lemma_identifier_end_maximal(s: Seq<u8>, pos: int)
    requires
        0 <= pos <= s.len(),
    ensures
        forall|j: int| pos <= j < identifier_end(s, pos) ==> is_identifier_byte(#[trigger] s[j]),
        identifier_end(s, pos) < s.len() ==> !is_identifier_byte(s[identifier_end(s, pos)]),
    decreases s.len() - pos,
{
    if pos < s.len() && is_identifier_byte(s[pos]) {
        lemma_identifier_end_maximal(s, pos + 1);
    }
}

/// Keyword exactness: an identifier opening at `pos` spans the whole
/// maximal run of identifier bytes from `pos`, and it is emitted as a
/// reserved word exactly when that full lexeme equals a keyword — never
/// because a keyword is merely its prefix.
pub proof fn lemma_keyword_exact(s: Seq<u8>, pos: int)
    requires
        0 <= pos < s.len(),
        is_identifier_byte(s[pos]),
        !is_digit_byte(s[pos]),
    ensures
        ({
            let end = identifier_end(s, pos);
            &&& next_item(s, pos) == Some(
                (
                    ScanItem::Lexeme {
                        kind: identifier_kind(s.subrange(pos, end)),
                        start: pos,
                        end,
                    },
                    end,
                ),
            )
            &&& end < s.len() ==> !is_identifier_byte(s[end])
        }),
{
    lemma_identifier_end_bounds(s, pos);
    lemma_identifier_end_maximal(s, pos);
}

} // verus!
