//! What holds of every cut.

use crate::bytes::{byte_len, byte_range_ok, chars_before, cut_bytes_text, upper_chars_before};
use crate::chunks::{chunk_models, chunk_models_from};
use crate::closed::{
    law_closers_close, lemma_closers_are_closers, lemma_nothing_to_close,
    lemma_state_after_closing,
};
use crate::closers::{closer_codes, sgr_join, CLOSER_RULES};
use crate::cut::{
    closing, closing_token, cut_model, cut_text, end_in, ends_within, forwarded, in_order, least,
    lemma_render_closing, window,
};
use crate::state::AnsiState;
use crate::token::{
    lemma_plain_concat, lemma_render_concat, lemma_single_token, lemma_state_concat,
    lemma_unstyled_tokens, plain, render, state_after, unstyled_tokens, TokenView,
};
use vstd::prelude::*;
use vstd::utf8::{
    decode_utf8, encode_utf8, encode_utf8_decode_utf8, encode_utf8_valid_utf8,
    is_char_boundary_start_end_of_seq,
};

verus! {

/// What the walk hands on shows the window of what the tokens show.
pub proof fn lemma_forwarded_shows_window(
    tokens: Seq<TokenView>,
    lower: int,
    upper: Option<int>,
    pos: int,
)
    requires
        upper matches Some(u) ==> lower <= u,
    ensures
        plain(forwarded(tokens, lower, upper, pos)) == window(plain(tokens), lower, upper, pos),
    decreases tokens.len(),
{
    if tokens.len() == 0 {
        assert(plain(tokens) =~= Seq::empty());
        assert(window(plain(tokens), lower, upper, pos) =~= Seq::empty());
    } else {
        let first = tokens[0];
        let rest = tokens.drop_first();
        assert(tokens =~= seq![first] + rest);
        lemma_plain_concat(seq![first], rest);
        lemma_single_token(AnsiState::unstyled(), first);
        match first {
            TokenView::Escape { .. } => {
                let ahead = forwarded(rest, lower, upper, pos);
                lemma_forwarded_shows_window(rest, lower, upper, pos);
                lemma_plain_concat(seq![first], ahead);
                assert(plain(tokens) =~= plain(rest));
                assert(plain(seq![first] + ahead) =~= plain(ahead));
            },
            TokenView::TextBlock(text) => {
                let piece = TokenView::TextBlock(window(text, lower, upper, pos));
                lemma_single_token(AnsiState::unstyled(), piece);
                if ends_within(text.len() as int, upper, pos) {
                    assert(window(text, lower, upper, pos) =~= window(
                        text + plain(rest),
                        lower,
                        upper,
                        pos,
                    ));
                } else {
                    let ahead = forwarded(rest, lower, upper, pos + text.len());
                    lemma_forwarded_shows_window(rest, lower, upper, pos + text.len());
                    lemma_plain_concat(seq![piece], ahead);
                    assert(window(text, lower, upper, pos) + window(
                        plain(rest),
                        lower,
                        upper,
                        pos + text.len(),
                    ) =~= window(text + plain(rest), lower, upper, pos));
                }
            },
        }
    }
}

/// The closing sequences show nothing.
pub proof fn lemma_closing_shows_nothing(codes: Seq<u8>)
    ensures
        plain(codes.map_values(|code: u8| closing_token(code))) == Seq::<char>::empty(),
    decreases codes.len(),
{
    let tokens = codes.map_values(|code: u8| closing_token(code));
    if codes.len() > 0 {
        lemma_closing_shows_nothing(codes.drop_last());
        assert(tokens.drop_last() =~= codes.drop_last().map_values(
            |code: u8| closing_token(code),
        ));
        assert(plain(tokens) =~= Seq::<char>::empty());
    }
}

/// A cut shows the characters of the range, and no others: those of the text
/// from the lower bound up to the upper bound, both counted as the end of the
/// text where they lie beyond it.
pub proof fn law_cut_shows_the_range(tokens: Seq<TokenView>, lower: int, upper: Option<int>)
    requires
        in_order(lower, upper),
    ensures
        plain(cut_model(tokens, lower, upper)) == plain(tokens).subrange(
            least(lower, plain(tokens).len() as int),
            end_in(upper, plain(tokens).len() as int),
        ),
        plain(cut_model(tokens, lower, upper)).len() == end_in(upper, plain(tokens).len() as int)
            - least(lower, plain(tokens).len() as int),
{
    let kept = forwarded(tokens, lower, upper, 0);
    let tail = closing(state_after(AnsiState::unstyled(), kept));
    lemma_forwarded_shows_window(tokens, lower, upper, 0);
    lemma_plain_concat(kept, tail);
    lemma_closing_shows_nothing(closer_codes(state_after(AnsiState::unstyled(), kept)));
    assert(plain(kept) + plain(tail) =~= plain(kept));
}

/// A range that takes in all that the tokens show hands every token on as it
/// is.
pub proof fn lemma_forwarded_keeps_all(tokens: Seq<TokenView>, lower: int, upper: Option<int>, pos: int)
    requires
        lower <= pos,
        upper matches Some(u) ==> pos + plain(tokens).len() <= u,
    ensures
        forwarded(tokens, lower, upper, pos) == tokens,
    decreases tokens.len(),
{
    if tokens.len() > 0 {
        let first = tokens[0];
        let rest = tokens.drop_first();
        assert(tokens =~= seq![first] + rest);
        lemma_plain_concat(seq![first], rest);
        lemma_single_token(AnsiState::unstyled(), first);
        match first {
            TokenView::Escape { .. } => {
                lemma_forwarded_keeps_all(rest, lower, upper, pos);
            },
            TokenView::TextBlock(text) => {
                assert(window(text, lower, upper, pos) =~= text);
                lemma_forwarded_keeps_all(rest, lower, upper, pos + text.len());
            },
        }
    } else {
        assert(tokens =~= Seq::empty());
    }
}

/// A cut at a range that takes in all that the tokens show is the tokens
/// themselves, with what closes the styling that they leave on.
pub proof fn law_full_range_keeps_all(tokens: Seq<TokenView>, upper: Option<int>)
    requires
        upper matches Some(u) ==> plain(tokens).len() <= u,
    ensures
        cut_model(tokens, 0, upper) == tokens + closing(
            state_after(AnsiState::unstyled(), tokens),
        ),
        cut_text(tokens, 0, upper) == render(tokens) + sgr_join(
            closer_codes(state_after(AnsiState::unstyled(), tokens)),
        ),
{
    lemma_forwarded_keeps_all(tokens, 0, upper, 0);
    let tail = closing(state_after(AnsiState::unstyled(), tokens));
    lemma_render_concat(tokens, tail);
    lemma_render_closing(closer_codes(state_after(AnsiState::unstyled(), tokens)));
}

/// Cutting at the full range gives the text back, where the text is the one
/// that its tokens are written as and leaves no styling on at its end.
pub proof fn law_round_trip(text: Seq<char>, tokens: Seq<TokenView>, upper: Option<int>)
    requires
        render(tokens) == text,
        closer_codes(state_after(AnsiState::unstyled(), tokens)).len() == 0,
        upper matches Some(u) ==> plain(tokens).len() <= u,
    ensures
        cut_text(tokens, 0, upper) == text,
{
    law_full_range_keeps_all(tokens, upper);
    let codes = closer_codes(state_after(AnsiState::unstyled(), tokens));
    assert(codes =~= Seq::empty());
    assert(render(tokens) + sgr_join(codes) =~= render(tokens));
}

/// A cut is self-contained: after its tokens, taken from a state with
/// nothing on, no closing rule has anything left to close.
pub proof fn law_cut_is_self_contained(tokens: Seq<TokenView>, lower: int, upper: Option<int>)
    ensures
        closer_codes(state_after(AnsiState::unstyled(), cut_model(tokens, lower, upper)))
            == Seq::<u8>::empty(),
{
    let kept = forwarded(tokens, lower, upper, 0);
    let open = state_after(AnsiState::unstyled(), kept);
    lemma_state_concat(AnsiState::unstyled(), kept, closing(open));
    lemma_closers_are_closers(open, CLOSER_RULES as nat);
    lemma_state_after_closing(open, closer_codes(open));
    law_closers_close(open);
}

/// What runs of tokens show, one run after the other.
pub open spec fn shown_together(models: Seq<Seq<TokenView>>) -> Seq<char>
    decreases models.len(),
{
    if models.len() == 0 {
        Seq::empty()
    } else {
        plain(models[0]) + shown_together(models.drop_first())
    }
}

/// The chunks from a position on show the text from there on, and each of
/// them shows at least one character and at most `size`.
pub proof fn lemma_chunks_from(tokens: Seq<TokenView>, size: int, start: int)
    requires
        size > 0,
        0 <= start <= plain(tokens).len(),
    ensures
        shown_together(chunk_models_from(tokens, size, start)) == plain(tokens).subrange(
            start,
            plain(tokens).len() as int,
        ),
        forall|k: int|
            0 <= k < chunk_models_from(tokens, size, start).len() ==> 1 <= plain(
                #[trigger] chunk_models_from(tokens, size, start)[k],
            ).len() <= size,
    decreases plain(tokens).len() - start,
{
    let len = plain(tokens).len() as int;
    let chunks = chunk_models_from(tokens, size, start);
    if start < len {
        let end = least(start + size, len);
        let first = cut_model(tokens, start, Some(end));
        let ahead = chunk_models_from(tokens, size, end);
        law_cut_shows_the_range(tokens, start, Some(end));
        lemma_chunks_from(tokens, size, end);
        assert(chunks.drop_first() =~= ahead);
        assert(plain(tokens).subrange(start, end) + plain(tokens).subrange(end, len)
            =~= plain(tokens).subrange(start, len));
        assert forall|k: int| 0 <= k < chunks.len() implies 1 <= plain(#[trigger] chunks[k]).len()
            <= size by {
            if k > 0 {
                assert(chunks[k] == ahead[k - 1]);
            }
        }
    } else {
        assert(plain(tokens).subrange(start, len) =~= Seq::empty());
    }
}

/// The chunks of a text cover it: what they show, one after the other, is
/// what the text shows. No chunk shows nothing, and none shows more than
/// `size` characters.
pub proof fn law_chunks_cover(tokens: Seq<TokenView>, size: int)
    requires
        size > 0,
    ensures
        shown_together(chunk_models(tokens, size)) == plain(tokens),
        forall|k: int|
            0 <= k < chunk_models(tokens, size).len() ==> 1 <= plain(
                #[trigger] chunk_models(tokens, size)[k],
            ).len() <= size,
{
    lemma_chunks_from(tokens, size, 0);
    assert(plain(tokens).subrange(0, plain(tokens).len() as int) =~= plain(tokens));
}

/// A text in which no escape sequence starts is cut as a plain string is:
/// the cut is the characters of the range and nothing else.
pub proof fn law_plain_text_is_sliced(text: Seq<char>, lower: int, upper: Option<int>)
    requires
        in_order(lower, upper),
    ensures
        cut_text(unstyled_tokens(text), lower, upper) == text.subrange(
            least(lower, text.len() as int),
            end_in(upper, text.len() as int),
        ),
{
    let tokens = unstyled_tokens(text);
    let kept = forwarded(tokens, lower, upper, 0);
    lemma_unstyled_tokens(text);
    lemma_forwarded_shows_window(tokens, lower, upper, 0);
    lemma_unstyled_cut(text, lower, upper);
}

/// The walk over a text without escape sequences hands on text blocks only:
/// it is written as what it shows, and it leaves no styling on.
proof fn lemma_unstyled_cut(text: Seq<char>, lower: int, upper: Option<int>)
    ensures
        render(forwarded(unstyled_tokens(text), lower, upper, 0)) == plain(
            forwarded(unstyled_tokens(text), lower, upper, 0),
        ),
        state_after(AnsiState::unstyled(), forwarded(unstyled_tokens(text), lower, upper, 0))
            == AnsiState::unstyled(),
        cut_text(unstyled_tokens(text), lower, upper) == render(
            forwarded(unstyled_tokens(text), lower, upper, 0),
        ),
{
    let tokens = unstyled_tokens(text);
    let kept = forwarded(tokens, lower, upper, 0);
    reveal_with_fuel(forwarded, 2);
    if text.len() > 0 {
        let piece = TokenView::TextBlock(window(text, lower, upper, 0));
        assert(tokens.drop_first() =~= Seq::empty());
        assert(kept =~= seq![piece]);
        lemma_single_token(AnsiState::unstyled(), piece);
    } else {
        assert(kept =~= Seq::empty());
    }
    let open = state_after(AnsiState::unstyled(), kept);
    assert(open == AnsiState::unstyled());
    lemma_nothing_to_close(open, CLOSER_RULES as nat);
    assert(closing(open) =~= Seq::empty());
    assert(kept + closing(open) =~= kept);
}

/// Cutting at the full range gives the text back when the bounds count
/// bytes, too: from the first byte on, with no end or with one at or beyond
/// the last byte.
pub proof fn law_round_trip_in_bytes(text: Seq<char>, tokens: Seq<TokenView>, upper: Option<int>)
    requires
        render(tokens) == text,
        closer_codes(state_after(AnsiState::unstyled(), tokens)).len() == 0,
        upper matches Some(u) ==> byte_len(plain(tokens)) <= u,
    ensures
        byte_range_ok(tokens, 0, upper),
        cut_bytes_text(tokens, 0, upper) == text,
{
    let shown = plain(tokens);
    encode_utf8_valid_utf8(shown);
    encode_utf8_decode_utf8(shown);
    is_char_boundary_start_end_of_seq(encode_utf8(shown));
    assert(chars_before(shown, 0) == 0) by {
        if byte_len(shown) > 0 {
            assert(encode_utf8(shown).subrange(0, 0) =~= Seq::<u8>::empty());
            reveal_with_fuel(decode_utf8, 1);
        } else {
            assert(encode_utf8(shown) =~= Seq::<u8>::empty());
            reveal_with_fuel(decode_utf8, 1);
        }
    }
    law_round_trip(text, tokens, upper_chars_before(shown, upper));
}

} // verus!
