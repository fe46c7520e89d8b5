//! Positions given in bytes of the text that is shown.

use crate::cut::{bound_of, cut_text, cut_tokens};
use crate::laws::law_plain_text_is_sliced;
use crate::token::{
    ansi_tokens, has_no_escape, lemma_unstyled_tokens, models, plain, strip_tokens, tokenize,
    unstyled_tokens, Token, TokenView,
};
use vstd::pervasive::unreached;
use vstd::prelude::*;
use vstd::utf8::{
    decode_utf8, decode_utf8_encode_utf8, decode_utf8_split, encode_scalar, encode_utf8,
    encode_utf8_decode_utf8, encode_utf8_first_scalar, encode_utf8_valid_utf8,
    is_char_boundary, is_char_boundary_iff_is_leading_byte, is_char_boundary_start_end_of_seq,
    valid_utf8_split,
};

verus! {

/// Why a range cannot be cut out.
#[derive(Debug, Clone, Copy, PartialEq, Eq)]
pub enum CutError {
    /// The range starts behind its end, starts at an excluded bound, or
    /// includes an end that no position follows.
    InvalidRange,
    /// A bound lies inside the bytes of one character.
    NotCharBoundary,
}

/// The number of bytes that a text takes up.
pub open spec fn byte_len(text: Seq<char>) -> int {
    encode_utf8(text).len() as int
}

/// A text can be cut at a byte offset where a character starts, and anywhere
/// from its end on.
pub open spec fn is_cut_point(text: Seq<char>, offset: int) -> bool {
    offset >= byte_len(text) || is_char_boundary(encode_utf8(text), offset)
}

/// The number of characters in front of a byte offset; all of them from the
/// end of the text on.
pub open spec fn chars_before(text: Seq<char>, offset: int) -> int {
    if offset >= byte_len(text) {
        text.len() as int
    } else {
        decode_utf8(encode_utf8(text).subrange(0, offset)).len() as int
    }
}

/// An upper bound in bytes as one in characters.
pub open spec fn upper_chars_before(text: Seq<char>, upper: Option<int>) -> Option<int> {
    match upper {
        Some(u) => Some(chars_before(text, u)),
        None => None,
    }
}

/// Both bounds are offsets at which the text can be cut.
pub open spec fn are_cut_points(text: Seq<char>, lower: int, upper: Option<int>) -> bool {
    is_cut_point(text, lower) && (upper matches Some(u) ==> is_cut_point(text, u))
}

/// Up to a cut point there are no more characters than up to a later one, and
/// never more than the text has.
pub proof fn lemma_chars_before_grows(text: Seq<char>, a: int, b: int)
    requires
        0 <= a <= b,
        is_cut_point(text, a),
        is_cut_point(text, b),
    ensures
        0 <= chars_before(text, a) <= chars_before(text, b) <= text.len(),
{
    let bytes = encode_utf8(text);
    encode_utf8_valid_utf8(text);
    encode_utf8_decode_utf8(text);
    is_char_boundary_start_end_of_seq(bytes);
    assert(bytes.subrange(0, bytes.len() as int) =~= bytes);
    // From the end on, an offset stands for the end.
    let a2 = if a >= bytes.len() {
        bytes.len() as int
    } else {
        a
    };
    let b2 = if b >= bytes.len() {
        bytes.len() as int
    } else {
        b
    };
    assert(chars_before(text, a) == decode_utf8(bytes.subrange(0, a2)).len());
    assert(chars_before(text, b) == decode_utf8(bytes.subrange(0, b2)).len());
    let front = bytes.subrange(0, b2);
    valid_utf8_split(bytes, b2);
    decode_utf8_split(bytes, b2);
    assert(is_char_boundary(front, a2)) by {
        if a2 == 0 {
        } else if a2 == b2 {
            is_char_boundary_start_end_of_seq(front);
        } else {
            is_char_boundary_iff_is_leading_byte(bytes, a2);
            is_char_boundary_iff_is_leading_byte(front, a2);
        }
    }
    decode_utf8_split(front, a2);
    assert(front.subrange(0, a2) =~= bytes.subrange(0, a2));
}

/// The bytes of two texts, one after the other, are the bytes of the whole.
pub proof fn lemma_bytes_concat(a: Seq<char>, b: Seq<char>)
    ensures
        encode_utf8(a + b) == encode_utf8(a) + encode_utf8(b),
    decreases a.len(),
{
    if a.len() == 0 {
        assert(a + b =~= b);
        assert(encode_utf8(a) + encode_utf8(b) =~= encode_utf8(b));
    } else {
        lemma_bytes_concat(a.drop_first(), b);
        assert((a + b).drop_first() =~= a.drop_first() + b);
        assert(encode_scalar(a[0] as u32) + (encode_utf8(a.drop_first()) + encode_utf8(b))
            =~= encode_scalar(a[0] as u32) + encode_utf8(a.drop_first()) + encode_utf8(b));
    }
}

/// A text can be cut where each of its characters starts and at its end:
/// behind its first `k` characters, for every `k` up to its length. The
/// offset of that place is the number of bytes of those characters, and the
/// characters in front of it are those `k`.
pub proof fn law_characters_start_at_cut_points(text: Seq<char>, k: int)
    requires
        0 <= k <= text.len(),
    ensures
        is_cut_point(text, byte_len(text.take(k))),
        chars_before(text, byte_len(text.take(k))) == k,
{
    let bytes = encode_utf8(text);
    let head = encode_utf8(text.take(k));
    let tail = encode_utf8(text.skip(k));
    assert(text =~= text.take(k) + text.skip(k));
    lemma_bytes_concat(text.take(k), text.skip(k));
    encode_utf8_valid_utf8(text);
    encode_utf8_valid_utf8(text.skip(k));
    encode_utf8_decode_utf8(text.take(k));
    if k < text.len() {
        encode_utf8_first_scalar(text.skip(k));
        assert(tail.len() > 0);
        assert(bytes[head.len() as int] == tail[0]);
        is_char_boundary_iff_is_leading_byte(tail, 0);
        is_char_boundary_iff_is_leading_byte(bytes, head.len() as int);
        assert(bytes.subrange(0, head.len() as int) =~= head);
    } else {
        assert(text.take(k) =~= text);
    }
}

/// A place at which a text can be cut, in front of its end, is the start of
/// one of its characters: the characters in front of it take up the bytes in
/// front of it.
pub proof fn law_cut_points_are_character_starts(text: Seq<char>, offset: int)
    requires
        0 <= offset < byte_len(text),
        is_cut_point(text, offset),
    ensures
        0 <= chars_before(text, offset) < text.len(),
        byte_len(text.take(chars_before(text, offset))) == offset,
{
    let bytes = encode_utf8(text);
    let front = bytes.subrange(0, offset);
    let back = bytes.subrange(offset, bytes.len() as int);
    encode_utf8_valid_utf8(text);
    encode_utf8_decode_utf8(text);
    valid_utf8_split(bytes, offset);
    decode_utf8_split(bytes, offset);
    decode_utf8_encode_utf8(front);
    decode_utf8_encode_utf8(back);
    let k = decode_utf8(front).len() as int;
    assert(text.take(k) =~= decode_utf8(front));
    assert(decode_utf8(back).len() > 0) by {
        if decode_utf8(back).len() == 0 {
            assert(decode_utf8(back) =~= Seq::<char>::empty());
            assert(encode_utf8(decode_utf8(back)) =~= Seq::<u8>::empty());
        }
    }
}

/// The character position that a byte offset stands for, or `None` where the
/// text cannot be cut there.
pub fn char_position(text: &str, offset: usize) -> (position: Option<usize>)
    ensures
        position is Some <==> is_cut_point(text@, offset as int),
        position matches Some(p) ==> p == chars_before(text@, offset as int),
{
    if offset >= text.as_bytes().len() {
        Some(text.unicode_len())
    } else if text.is_char_boundary(offset) {
        let (head, _) = text.split_at(offset);
        proof {
            encode_utf8_decode_utf8(head@);
            assert(encode_utf8(head@) == encode_utf8(text@).subrange(0, offset as int));
        }
        Some(head.unicode_len())
    } else {
        None
    }
}

/// The characters of a text between two byte offsets at which it can be cut.
pub open spec fn sliced_at_bytes(text: Seq<char>, lower: int, upper: Option<int>) -> Seq<char> {
    text.subrange(
        chars_before(text, lower),
        match upper {
            Some(u) => chars_before(text, u),
            None => text.len() as int,
        },
    )
}

/// A text without escape sequences is cut at bytes as a plain string is.
pub proof fn lemma_plain_text_at_bytes(text: Seq<char>, lower: int, upper: Option<int>)
    requires
        0 <= lower,
        byte_range_ok(unstyled_tokens(text), lower, upper),
    ensures
        cut_bytes_text(unstyled_tokens(text), lower, upper) == sliced_at_bytes(text, lower, upper),
{
    lemma_unstyled_tokens(text);
    let lo = chars_before(text, lower);
    lemma_chars_before_grows(text, lower, lower);
    match upper {
        Some(u) => {
            lemma_chars_before_grows(text, lower, u);
        },
        None => {},
    }
    law_plain_text_is_sliced(text, lo, upper_chars_before(text, upper));
}

/// A range in bytes of the text that `tokens` show can be cut out: it does not
/// start behind its end, and the text can be cut at both bounds.
pub open spec fn byte_range_ok(tokens: Seq<TokenView>, lower: int, upper: Option<int>) -> bool {
    (upper matches Some(u) ==> lower <= u) && are_cut_points(plain(tokens), lower, upper)
}

/// The string of a cut whose bounds are given in bytes of the shown text.
pub open spec fn cut_bytes_text(tokens: Seq<TokenView>, lower: int, upper: Option<int>) -> Seq<
    char,
> {
    let shown = plain(tokens);
    cut_text(tokens, chars_before(shown, lower), upper_chars_before(shown, upper))
}

/// A range given in bytes of the text that `tokens` show, as a range in
/// characters.
pub fn char_range(tokens: &[Token], lower: usize, upper: Option<usize>) -> (range: Result<
    (usize, Option<usize>),
    CutError,
>)
    ensures
        match range {
            Ok((lo, hi)) => {
                let shown = plain(models(tokens@));
                &&& byte_range_ok(models(tokens@), lower as int, bound_of(upper))
                &&& lo == chars_before(shown, lower as int)
                &&& bound_of(hi) == upper_chars_before(shown, bound_of(upper))
                &&& hi matches Some(h) ==> lo <= h
            },
            Err(CutError::InvalidRange) => upper matches Some(u) && u < lower,
            Err(CutError::NotCharBoundary) => {
                &&& upper matches Some(u) ==> lower <= u
                &&& !are_cut_points(plain(models(tokens@)), lower as int, bound_of(upper))
            },
        },
{
    match upper {
        Some(u) => {
            if u < lower {
                return Err(CutError::InvalidRange);
            }
        },
        None => {},
    }
    let shown = strip_tokens(tokens);
    let lo = match char_position(shown.as_str(), lower) {
        Some(lo) => lo,
        None => {
            return Err(CutError::NotCharBoundary);
        },
    };
    match upper {
        Some(u) => match char_position(shown.as_str(), u) {
            Some(hi) => {
                proof {
                    lemma_chars_before_grows(shown@, lower as int, u as int);
                }
                Ok((lo, Some(hi)))
            },
            None => Err(CutError::NotCharBoundary),
        },
        None => Ok((lo, None)),
    }
}

/// Cuts `tokens` at a range given in bytes of the text that they show.
pub fn cut_tokens_at_bytes(tokens: &[Token], lower: usize, upper: Option<usize>) -> (result: Result<
    String,
    CutError,
>)
    ensures
        match result {
            Ok(text) => {
                &&& byte_range_ok(models(tokens@), lower as int, bound_of(upper))
                &&& text@ == cut_bytes_text(models(tokens@), lower as int, bound_of(upper))
            },
            Err(CutError::InvalidRange) => upper matches Some(u) && u < lower,
            Err(CutError::NotCharBoundary) => {
                &&& upper matches Some(u) ==> lower <= u
                &&& !are_cut_points(plain(models(tokens@)), lower as int, bound_of(upper))
            },
        },
{
    match char_range(tokens, lower, upper) {
        Ok((lo, hi)) => Ok(cut_tokens(tokens, lo, hi)),
        Err(error) => Err(error),
    }
}

/// Cuts `string` at a range given in bytes of the text that it shows. A
/// bound beyond the end of that text counts as its end.
pub fn cut_str(string: &str, lower_bound: usize, upper_bound: Option<usize>) -> (result: String)
    requires
        byte_range_ok(ansi_tokens(string@), lower_bound as int, bound_of(upper_bound)),
    ensures
        result@ == cut_bytes_text(ansi_tokens(string@), lower_bound as int, bound_of(upper_bound)),
        has_no_escape(string@) ==> result@ == sliced_at_bytes(
            string@,
            lower_bound as int,
            bound_of(upper_bound),
        ),
{
    let tokens = tokenize(string);
    proof {
        if has_no_escape(string@) {
            lemma_plain_text_at_bytes(string@, lower_bound as int, bound_of(upper_bound));
        }
    }
    match cut_tokens_at_bytes(tokens.as_slice(), lower_bound, upper_bound) {
        Ok(text) => text,
        Err(_) => unreached(),
    }
}

} // verus!
