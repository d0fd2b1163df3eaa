//! Reading one UTF-8 scalar out of the source buffer.
//!
//! The scanner needs this only to report an unexpected character: it decodes
//! the character standing at the offending position, so the error can carry
//! the character itself and the exact byte width of its encoding. The
//! decoder is total: where no valid scalar starts, it charges one byte and
//! yields the replacement character.

use vstd::prelude::*;
use vstd::slice::slice_index_get;
use vstd::utf8::codepoint_width_1;
use vstd::utf8::codepoint_width_2;
use vstd::utf8::codepoint_width_3;
use vstd::utf8::codepoint_width_4;
use vstd::utf8::decode_first_scalar;
use vstd::utf8::is_scalar;
use vstd::utf8::length_of_first_scalar;
use vstd::utf8::valid_first_scalar;

verus! {

/// Relies on char::from_u32: it returns the character with the given scalar
/// value exactly when the value is a Unicode scalar value, that is, at most
/// 0x10FFFF and outside the surrogate range.
pub assume_specification[ char::from_u32 ](v: u32) -> (r: Option<char>)
    ensures
        r is Some <==> is_scalar(v),
        r matches Some(c) ==> c as u32 == v,
;

/// The character with the given Unicode scalar value.
pub(crate) fn char_of_scalar(v: u32) -> (c: char)
    requires
        is_scalar(v),
    ensures
        c as u32 == v,
{
    match char::from_u32(v) {
        Some(c) => c,
        None => {
            proof {
                assert(false);
            }
            '\u{FFFD}'
        },
    }
}

/// The scalar value encoded at byte `pos` of `src` and the width of its
/// encoding; the replacement character's value, charged one byte, when no
/// valid scalar starts there.
pub(crate) fn decode_scalar(src: &[u8], pos: usize) -> (r: (u32, usize))
    requires
        pos < src@.len(),
    ensures
        ({
            let rest = src@.skip(pos as int);
            &&& valid_first_scalar(rest) ==> r.0 == decode_first_scalar(rest) && r.1
                == length_of_first_scalar(rest)
            &&& !valid_first_scalar(rest) ==> r.0 == 0xFFFD && r.1 == 1
            &&& is_scalar(r.0)
            &&& 1 <= r.1 <= src@.len() - pos
        }),
{
    let ghost rest = src@.skip(pos as int);
    proof {
        assert(rest.len() == src@.len() - pos);
        assert(rest[0] == src@[pos as int]);
    }
    let n = src.len();
    let b0 = *slice_index_get(src, pos);
    if b0 < 0x80 {
        proof {
            assert(b0 & 0x7F == b0) by (bit_vector)
                requires
                    b0 < 0x80,
            ;
            assert(codepoint_width_1(b0) == b0 as u32);
            assert(valid_first_scalar(rest));
        }
        (b0 as u32, 1)
    } else if b0 < 0xC0 {
        // A continuation byte cannot lead an encoding.
        proof {
            assert(!valid_first_scalar(rest));
        }
        (0xFFFD, 1)
    } else if b0 < 0xE0 {
        if pos + 1 < n {
            let b1 = *slice_index_get(src, pos + 1);
            proof {
                assert(rest[1] == src@[pos as int + 1]);
            }
            if 0x80 <= b1 && b1 < 0xC0 {
                let cp: u32 = (((b0 & 0x1F) as u32) << 6u32) | ((b1 & 0x3F) as u32);
                proof {
                    assert(cp == codepoint_width_2(b0, b1));
                    assert((((b0 & 0x1F) as u32) << 6u32) | ((b1 & 0x3F) as u32) <= 0x7FF)
                        by (bit_vector);
                }
                if cp >= 0x80 {
                    proof {
                        assert(valid_first_scalar(rest));
                    }
                    (cp, 2)
                } else {
                    // Overlong two-byte encoding.
                    proof {
                        assert(!valid_first_scalar(rest));
                    }
                    (0xFFFD, 1)
                }
            } else {
                proof {
                    assert(!valid_first_scalar(rest));
                }
                (0xFFFD, 1)
            }
        } else {
            proof {
                assert(!valid_first_scalar(rest));
            }
            (0xFFFD, 1)
        }
    } else if b0 < 0xF0 {
        if n - pos >= 3 {
            let b1 = *slice_index_get(src, pos + 1);
            let b2 = *slice_index_get(src, pos + 2);
            proof {
                assert(rest[1] == src@[pos as int + 1]);
                assert(rest[2] == src@[pos as int + 2]);
            }
            if 0x80 <= b1 && b1 < 0xC0 && 0x80 <= b2 && b2 < 0xC0 {
                let cp: u32 = (((b0 & 0x0F) as u32) << 12u32) | (((b1 & 0x3F) as u32) << 6u32) | (
                (b2 & 0x3F) as u32);
                proof {
                    assert(cp == codepoint_width_3(b0, b1, b2));
                    assert((((b0 & 0x0F) as u32) << 12u32) | (((b1 & 0x3F) as u32) << 6u32) | ((b2
                        & 0x3F) as u32) <= 0xFFFF) by (bit_vector);
                }
                if cp >= 0x800 && !(0xD800 <= cp && cp <= 0xDFFF) {
                    proof {
                        assert(valid_first_scalar(rest));
                    }
                    (cp, 3)
                } else {
                    // Overlong three-byte encoding, or a surrogate value.
                    proof {
                        assert(!valid_first_scalar(rest));
                    }
                    (0xFFFD, 1)
                }
            } else {
                proof {
                    assert(!valid_first_scalar(rest));
                }
                (0xFFFD, 1)
            }
        } else {
            proof {
                assert(!valid_first_scalar(rest));
            }
            (0xFFFD, 1)
        }
    } else if b0 < 0xF8 {
        if n - pos >= 4 {
            let b1 = *slice_index_get(src, pos + 1);
            let b2 = *slice_index_get(src, pos + 2);
            let b3 = *slice_index_get(src, pos + 3);
            proof {
                assert(rest[1] == src@[pos as int + 1]);
                assert(rest[2] == src@[pos as int + 2]);
                assert(rest[3] == src@[pos as int + 3]);
            }
            if 0x80 <= b1 && b1 < 0xC0 && 0x80 <= b2 && b2 < 0xC0 && 0x80 <= b3 && b3 < 0xC0 {
                let cp: u32 = (((b0 & 0x07) as u32) << 18u32) | (((b1 & 0x3F) as u32) << 12u32) | (
                ((b2 & 0x3F) as u32) << 6u32) | ((b3 & 0x3F) as u32);
                proof {
                    assert(cp == codepoint_width_4(b0, b1, b2, b3));
                }
                if 0x10000 <= cp && cp <= 0x10FFFF {
                    proof {
                        assert(valid_first_scalar(rest));
                    }
                    (cp, 4)
                } else {
                    // Overlong four-byte encoding, or a value past the last
                    // scalar.
                    proof {
                        assert(!valid_first_scalar(rest));
                    }
                    (0xFFFD, 1)
                }
            } else {
                proof {
                    assert(!valid_first_scalar(rest));
                }
                (0xFFFD, 1)
            }
        } else {
            proof {
                assert(!valid_first_scalar(rest));
            }
            (0xFFFD, 1)
        }
    } else {
        // No encoding leads with 0xF8 or above.
        proof {
            assert(!valid_first_scalar(rest));
        }
        (0xFFFD, 1)
    }
}

} // verus!
