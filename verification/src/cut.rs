//! Cutting a styled text at a range of the characters it shows.

use crate::closers::{closer_codes, complete_ansi_sequences, sgr_join, sgr_text};
use crate::laws::law_plain_text_is_sliced;
use crate::state::{update_ansi_state, AnsiState};
use crate::token::{
    ansi_tokens, has_no_escape, lemma_render_concat, models, render, state_after, tokenize,
    EscapeKind, Token, TokenView,
};
use vstd::prelude::*;

verus! {

/// `x` brought into `0 ..= len`.
pub open spec fn clip(x: int, len: int) -> int {
    if x < 0 {
        0
    } else if x > len {
        len
    } else {
        x
    }
}

/// The smaller of two numbers.
pub open spec fn least(a: int, b: int) -> int {
    if a <= b {
        a
    } else {
        b
    }
}

/// The end of a range in a text of `len` characters: its upper bound, or the
/// end of the text where it has none or one beyond that end.
pub open spec fn end_in(upper: Option<int>, len: int) -> int {
    match upper {
        Some(u) => least(u, len),
        None => len,
    }
}

/// A range is in order: it starts at a position and does not end before it
/// starts.
pub open spec fn in_order(lower: int, upper: Option<int>) -> bool {
    0 <= lower && (upper matches Some(u) ==> lower <= u)
}

/// An upper bound as contracts speak of it.
pub open spec fn bound_of(upper: Option<usize>) -> Option<int> {
    match upper {
        Some(u) => Some(u as int),
        None => None,
    }
}

/// The characters of a text block that lie in the range. The block's first
/// character has the position `pos` in the text that is shown; no upper bound
/// means that the range has no end.
pub open spec fn window(text: Seq<char>, lower: int, upper: Option<int>, pos: int) -> Seq<char> {
    let from = clip(lower - pos, text.len() as int);
    let to = match upper {
        Some(u) => clip(u - pos, text.len() as int),
        None => text.len() as int,
    };
    text.subrange(from, to)
}

/// The range ends before the end of a block of `len` characters that starts
/// at `pos`: the walk stops there.
pub open spec fn ends_within(len: int, upper: Option<int>, pos: int) -> bool {
    upper matches Some(u) && u < pos + len
}

/// What the walk over `tokens` hands on, where the first of them starts at
/// the position `pos`. Every text block is cut down to its window. Escape
/// sequences are handed on as they are, those in front of the range too, up
/// to the first block that reaches beyond the range; what follows that block
/// is dropped.
pub open spec fn forwarded(tokens: Seq<TokenView>, lower: int, upper: Option<int>, pos: int) -> Seq<
    TokenView,
>
    decreases tokens.len(),
{
    if tokens.len() == 0 {
        Seq::empty()
    } else {
        match tokens[0] {
            TokenView::Escape { .. } => seq![tokens[0]] + forwarded(
                tokens.drop_first(),
                lower,
                upper,
                pos,
            ),
            TokenView::TextBlock(text) => {
                let piece = TokenView::TextBlock(window(text, lower, upper, pos));
                if ends_within(text.len() as int, upper, pos) {
                    seq![piece]
                } else {
                    seq![piece] + forwarded(
                        tokens.drop_first(),
                        lower,
                        upper,
                        pos + text.len(),
                    )
                }
            },
        }
    }
}

/// The escape sequence that closes with one parameter.
pub open spec fn closing_token(code: u8) -> TokenView {
    TokenView::Escape { raw: sgr_text(code), params: Some(seq![code]) }
}

/// The escape sequences that close what `state` has left on.
pub open spec fn closing(state: AnsiState) -> Seq<TokenView> {
    closer_codes(state).map_values(|code: u8| closing_token(code))
}

/// The tokens of a cut: what the walk hands on, and behind it the sequences
/// that close what those tokens have left on.
pub open spec fn cut_model(tokens: Seq<TokenView>, lower: int, upper: Option<int>) -> Seq<
    TokenView,
> {
    let kept = forwarded(tokens, lower, upper, 0);
    kept + closing(state_after(AnsiState::unstyled(), kept))
}

/// The string of a cut.
pub open spec fn cut_text(tokens: Seq<TokenView>, lower: int, upper: Option<int>) -> Seq<char> {
    render(cut_model(tokens, lower, upper))
}

/// The closing tokens of some parameters are written as the escape sequences
/// of those parameters.
pub proof fn lemma_render_closing(codes: Seq<u8>)
    ensures
        render(codes.map_values(|code: u8| closing_token(code))) == sgr_join(codes),
    decreases codes.len(),
{
    let tokens = codes.map_values(|code: u8| closing_token(code));
    if codes.len() > 0 {
        lemma_render_closing(codes.drop_last());
        assert(tokens.drop_last() =~= codes.drop_last().map_values(
            |code: u8| closing_token(code),
        ));
    }
}

/// Cuts `tokens` down to the characters whose position in the shown text is
/// at least `lower` and below `upper`, and closes what is left on at the end.
/// A range that takes in no character still hands on the escape sequences in
/// front of it, and closes what they switch on.
pub fn cut_tokens(tokens: &[Token], lower: usize, upper: Option<usize>) -> (result: String)
    requires
        upper matches Some(u) ==> lower <= u,
    ensures
        result@ == cut_text(models(tokens@), lower as int, bound_of(upper)),
{
    let mut state = AnsiState::default();
    let mut buf = String::new();
    let mut pos: usize = 0;
    let mut i: usize = 0;
    let mut done = false;
    let ghost all = models(tokens@);
    let ghost lo = lower as int;
    let ghost hi = bound_of(upper);
    let ghost kept: Seq<TokenView> = Seq::empty();
    let ghost at: int = 0;
    assert(all.skip(0) =~= all);
    assert(kept + forwarded(all, lo, hi, 0) =~= forwarded(all, lo, hi, 0));
    while i < tokens.len() && !done
        invariant
            i <= tokens.len(),
            all == models(tokens@),
            lo == lower,
            hi == bound_of(upper),
            upper matches Some(u) ==> lower <= u,
            0 <= at,
            pos == if at <= usize::MAX {
                at
            } else {
                usize::MAX as int
            },
            !done ==> (hi matches Some(u) ==> at <= u),
            buf@ == render(kept),
            state == state_after(AnsiState::unstyled(), kept),
            !done ==> forwarded(all, lo, hi, 0) == kept + forwarded(all.skip(i as int), lo, hi, at),
            done ==> forwarded(all, lo, hi, 0) == kept,
        decreases tokens.len() - i,
    {
        let ghost rest = all.skip(i as int);
        assert(rest[0] == tokens[i as int]@);
        assert(rest.drop_first() =~= all.skip(i + 1));
        match &tokens[i] {
            Token::TextBlock(text) => {
                let len = text.as_str().unicode_len();
                let from = if lower > pos {
                    if lower - pos < len {
                        lower - pos
                    } else {
                        len
                    }
                } else {
                    0
                };
                let mut to = len;
                match upper {
                    Some(u) => {
                        if u - pos < len {
                            to = u - pos;
                            done = true;
                        }
                    },
                    None => {},
                }
                let part = text.as_str().substring_char(from, to);
                buf.append(part);
                let ghost piece = TokenView::TextBlock(part@);
                assert(part@ == window(text@, lo, hi, at));
                proof {
                    assert(kept.push(piece).drop_last() =~= kept);
                    if done {
                        assert(kept + seq![piece] =~= kept.push(piece));
                    } else {
                        assert(kept + (seq![piece] + forwarded(
                            all.skip(i + 1),
                            lo,
                            hi,
                            at + len,
                        )) =~= kept.push(piece) + forwarded(all.skip(i + 1), lo, hi, at + len));
                    }
                    kept = kept.push(piece);
                    at = at + len;
                }
                pos = if len > usize::MAX - pos {
                    usize::MAX
                } else {
                    pos + len
                };
            },
            Token::Escape { raw, kind } => {
                buf.append(raw.as_str());
                match kind {
                    EscapeKind::GraphicsMode(params) => {
                        update_ansi_state(&mut state, params.as_slice());
                    },
                    EscapeKind::Other => {},
                }
                proof {
                    let token = rest[0];
                    assert(kept.push(token).drop_last() =~= kept);
                    assert(kept + (seq![token] + forwarded(all.skip(i + 1), lo, hi, at))
                        =~= kept.push(token) + forwarded(all.skip(i + 1), lo, hi, at));
                    kept = kept.push(token);
                }
            },
        }
        i = i + 1;
    }
    proof {
        if !done {
            assert(all.skip(i as int) =~= Seq::empty());
            assert(kept + Seq::<TokenView>::empty() =~= kept);
        }
        lemma_render_concat(kept, closing(state));
        lemma_render_closing(closer_codes(state));
    }
    complete_ansi_sequences(&state, &mut buf);
    buf
}

/// Cuts `string` down to the characters whose position in the text that it
/// shows is at least `lower` and below `upper`. A bound beyond the end of the
/// text counts as the end.
pub fn cut_chars(string: &str, lower: usize, upper: Option<usize>) -> (result: String)
    requires
        upper matches Some(u) ==> lower <= u,
    ensures
        result@ == cut_text(ansi_tokens(string@), lower as int, bound_of(upper)),
        has_no_escape(string@) ==> result@ == string@.subrange(
            least(lower as int, string@.len() as int),
            end_in(bound_of(upper), string@.len() as int),
        ),
{
    let tokens = tokenize(string);
    proof {
        if has_no_escape(string@) {
            law_plain_text_is_sliced(string@, lower as int, bound_of(upper));
        }
    }
    cut_tokens(tokens.as_slice(), lower, upper)
}

} // verus!
