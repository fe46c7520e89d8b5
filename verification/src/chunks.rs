//! Splitting a styled text into pieces that show the same number of
//! characters.

use crate::cut::{cut_model, cut_tokens, least};
use crate::token::{
    ansi_tokens, models, plain, render, strip_tokens, tokenize, Token, TokenView,
};
use vstd::pervasive::unreached;
use vstd::prelude::*;

verus! {

/// The strings as contracts speak of them.
pub open spec fn texts(strings: Seq<String>) -> Seq<Seq<char>> {
    strings.map_values(|s: String| s@)
}

/// The chunks of the text from the position `start` on, as tokens: each is
/// the cut of the next `size` characters that are shown, the last one of what
/// is left. There is none where nothing is left to show.
pub open spec fn chunk_models_from(tokens: Seq<TokenView>, size: int, start: int) -> Seq<
    Seq<TokenView>,
>
    decreases plain(tokens).len() - start,
{
    let len = plain(tokens).len() as int;
    if 0 <= start < len && size > 0 {
        let end = least(start + size, len);
        seq![cut_model(tokens, start, Some(end))] + chunk_models_from(tokens, size, end)
    } else {
        Seq::empty()
    }
}

/// The chunks of a text, as tokens.
pub open spec fn chunk_models(tokens: Seq<TokenView>, size: int) -> Seq<Seq<TokenView>> {
    chunk_models_from(tokens, size, 0)
}

/// The strings that runs of tokens are written as.
pub open spec fn rendered(models: Seq<Seq<TokenView>>) -> Seq<Seq<char>> {
    models.map_values(|m: Seq<TokenView>| render(m))
}

/// The chunks of a text, as strings.
pub open spec fn chunk_texts(tokens: Seq<TokenView>, size: int) -> Seq<Seq<char>> {
    rendered(chunk_models(tokens, size))
}

/// Cuts `tokens` into chunks that show `chunk_size` characters each, but for
/// the last one, which shows what is left.
pub fn chunk_tokens(tokens: &[Token], chunk_size: usize) -> (chunks: Vec<String>)
    requires
        chunk_size > 0,
    ensures
        texts(chunks@) == chunk_texts(models(tokens@), chunk_size as int),
{
    if chunk_size == 0 {
        // Callers that no verifier has read stop here.
        unreached()
    }
    let shown = strip_tokens(tokens);
    let count = shown.as_str().unicode_len();
    let mut chunks: Vec<String> = Vec::new();
    let mut start: usize = 0;
    let ghost all = models(tokens@);
    let ghost size = chunk_size as int;
    assert(texts(chunks@) + rendered(chunk_models_from(all, size, 0)) =~= rendered(
        chunk_models_from(all, size, 0),
    ));
    while start < count
        invariant
            chunk_size > 0,
            all == models(tokens@),
            count == plain(all).len(),
            start <= count,
            size == chunk_size,
            chunk_texts(all, size) == texts(chunks@) + rendered(
                chunk_models_from(all, size, start as int),
            ),
        decreases count - start,
    {
        let end = if chunk_size >= count - start {
            count
        } else {
            start + chunk_size
        };
        let part = cut_tokens(tokens, start, Some(end));
        proof {
            let model = cut_model(all, start as int, Some(end as int));
            let ahead = chunk_models_from(all, size, end as int);
            assert(rendered(seq![model] + ahead) =~= seq![part@] + rendered(ahead));
            assert(texts(chunks@.push(part)) =~= texts(chunks@).push(part@));
            assert(texts(chunks@) + (seq![part@] + rendered(ahead)) =~= texts(chunks@).push(part@)
                + rendered(ahead));
        }
        chunks.push(part);
        start = end;
    }
    assert(texts(chunks@) + Seq::<Seq<char>>::empty() =~= texts(chunks@));
    chunks
}

/// Cuts `s` into chunks that show `chunk_size` characters each, but for the
/// last one, which shows what is left. The chunks do not overlap, and each
/// keeps the styling of its characters. A text that shows nothing has no
/// chunk.
pub fn chunks(s: &str, chunk_size: usize) -> (chunks: Vec<String>)
    requires
        chunk_size > 0,
    ensures
        texts(chunks@) == chunk_texts(ansi_tokens(s@), chunk_size as int),
{
    let tokens = tokenize(s);
    chunk_tokens(tokens.as_slice(), chunk_size)
}

} // verus!
