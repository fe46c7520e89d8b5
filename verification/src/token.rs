//! A styled text as a sequence of text blocks and escape sequences.

use crate::state::{apply_params, AnsiState};
use ansi_parser::{AnsiParser, AnsiSequence, Output};
use vstd::prelude::*;

verus! {

/// What an escape sequence is for.
#[derive(Debug, PartialEq, Eq)]
pub enum EscapeKind {
    /// It sets the graphics mode, with these parameters.
    GraphicsMode(Vec<u8>),
    /// Anything else. It is carried along and never looked into.
    Other,
}

/// One piece of a styled text.
#[derive(Debug, PartialEq, Eq)]
pub enum Token {
    /// A run of characters that are shown as they are.
    TextBlock(String),
    /// An escape sequence, with the text that stands for it in a string.
    Escape { raw: String, kind: EscapeKind },
}

/// A token as contracts speak of it.
pub enum TokenView {
    TextBlock(Seq<char>),
    /// `params` holds the parameters of a sequence that sets the graphics
    /// mode and is `None` for any other sequence.
    Escape { raw: Seq<char>, params: Option<Seq<u8>> },
}

impl View for Token {
    type V = TokenView;

    open spec fn view(&self) -> TokenView {
        match self {
            Token::TextBlock(text) => TokenView::TextBlock(text@),
            Token::Escape { raw, kind } => TokenView::Escape {
                raw: raw@,
                params: match kind {
                    EscapeKind::GraphicsMode(params) => Some(params@),
                    EscapeKind::Other => None,
                },
            },
        }
    }
}

/// The tokens of a slice as contracts speak of them.
pub open spec fn models(tokens: Seq<Token>) -> Seq<TokenView> {
    tokens.map_values(|t: Token| t@)
}

/// The text that stands for a token in a string.
pub open spec fn raw_text(token: TokenView) -> Seq<char> {
    match token {
        TokenView::TextBlock(text) => text,
        TokenView::Escape { raw, .. } => raw,
    }
}

/// The characters that a token shows: its own for a text block, none for an
/// escape sequence.
pub open spec fn shown_text(token: TokenView) -> Seq<char> {
    match token {
        TokenView::TextBlock(text) => text,
        TokenView::Escape { .. } => Seq::empty(),
    }
}

/// The state after a token: an escape sequence that sets the graphics mode
/// feeds its parameters to the state, any other token leaves it alone.
pub open spec fn state_after_token(state: AnsiState, token: TokenView) -> AnsiState {
    match token {
        TokenView::Escape { params: Some(params), .. } => apply_params(state, params),
        _ => state,
    }
}

/// The string that the tokens stand for: their texts, one after the other.
pub open spec fn render(tokens: Seq<TokenView>) -> Seq<char>
    decreases tokens.len(),
{
    if tokens.len() == 0 {
        Seq::empty()
    } else {
        render(tokens.drop_last()) + raw_text(tokens.last())
    }
}

/// The text without its styling: what the text blocks hold, one after the
/// other.
pub open spec fn plain(tokens: Seq<TokenView>) -> Seq<char>
    decreases tokens.len(),
{
    if tokens.len() == 0 {
        Seq::empty()
    } else {
        plain(tokens.drop_last()) + shown_text(tokens.last())
    }
}

/// The state that the tokens lead to from `state`. The text blocks have no
/// part in it.
pub open spec fn state_after(state: AnsiState, tokens: Seq<TokenView>) -> AnsiState
    decreases tokens.len(),
{
    if tokens.len() == 0 {
        state
    } else {
        state_after_token(state_after(state, tokens.drop_last()), tokens.last())
    }
}

/// The character that starts every escape sequence.
pub const ESC: char = '\u{1b}';

/// No escape sequence can start in a text without this character.
pub open spec fn has_no_escape(text: Seq<char>) -> bool {
    !text.contains(ESC)
}

/// The tokens of a text in which no escape sequence starts: the text as one
/// block, or nothing where the text is empty.
pub open spec fn unstyled_tokens(text: Seq<char>) -> Seq<TokenView> {
    if text.len() == 0 {
        Seq::empty()
    } else {
        seq![TokenView::TextBlock(text)]
    }
}

/// The tokens that the parser of the `ansi-parser` crate finds in a text,
/// each escape sequence with the text that the crate writes for it.
pub uninterp spec fn ansi_tokens(text: Seq<char>) -> Seq<TokenView>;

/// Splits a string into its tokens with `AnsiParser::ansi_parse`, and writes
/// each escape sequence back into text with the `Display` of `AnsiSequence`.
///
/// Believed, not proved: the outcome depends on the text alone, and a text
/// without the escape character comes back as one text block (as nothing
/// where it is empty). What the parser takes for an escape sequence, and
/// whether the text written back for one is the text it was read from, is
/// left open.
#[verifier::external_body]
pub(crate) fn tokenize(string: &str) -> (tokens: Vec<Token>)
    ensures
        models(tokens@) == ansi_tokens(string@),
        has_no_escape(string@) ==> models(tokens@) == unstyled_tokens(string@),
{
    string.ansi_parse().map(
        |output| match output {
            Output::TextBlock(text) => Token::TextBlock(text.to_string()),
            Output::Escape(seq) => Token::Escape {
                raw: seq.to_string(),
                kind: match seq {
                    AnsiSequence::SetGraphicsMode(params) => EscapeKind::GraphicsMode(
                        params.to_vec(),
                    ),
                    _ => EscapeKind::Other,
                },
            },
        },
    ).collect()
}

/// What is shown of `tokens`: the contents of the text blocks in their order.
pub fn strip_tokens(tokens: &[Token]) -> (text: String)
    ensures
        text@ == plain(models(tokens@)),
{
    let mut buf = String::new();
    let mut i: usize = 0;
    let ghost all = models(tokens@);
    assert(all.take(0) =~= Seq::empty());
    while i < tokens.len()
        invariant
            i <= tokens.len(),
            all == models(tokens@),
            buf@ == plain(all.take(i as int)),
        decreases tokens.len() - i,
    {
        assert(all.take(i + 1).drop_last() =~= all.take(i as int));
        assert(all.take(i + 1).last() == tokens[i as int]@);
        match &tokens[i] {
            Token::TextBlock(text) => {
                buf.append(text.as_str());
            },
            Token::Escape { .. } => {
                assert(buf@ + Seq::<char>::empty() =~= buf@);
            },
        }
        i = i + 1;
    }
    assert(all.take(i as int) =~= all);
    buf
}

/// The text of `string` without its escape sequences.
pub fn srip_ansi_sequences(string: &str) -> (text: String)
    ensures
        text@ == plain(ansi_tokens(string@)),
        has_no_escape(string@) ==> text@ == string@,
{
    let tokens = tokenize(string);
    proof {
        if has_no_escape(string@) {
            lemma_unstyled_tokens(string@);
        }
    }
    strip_tokens(tokens.as_slice())
}

/// A text without escape sequences is all there is to its tokens.
pub proof fn lemma_unstyled_tokens(text: Seq<char>)
    ensures
        plain(unstyled_tokens(text)) == text,
        render(unstyled_tokens(text)) == text,
        state_after(AnsiState::unstyled(), unstyled_tokens(text)) == AnsiState::unstyled(),
{
    let tokens = unstyled_tokens(text);
    reveal_with_fuel(plain, 2);
    reveal_with_fuel(render, 2);
    reveal_with_fuel(state_after, 2);
    if text.len() > 0 {
        assert(tokens.drop_last() =~= Seq::empty());
        assert(plain(tokens) =~= text);
        assert(render(tokens) =~= text);
    } else {
        assert(text =~= Seq::empty());
    }
}

/// The texts of two runs of tokens, one after the other, are the text of the
/// whole.
pub proof fn lemma_render_concat(a: Seq<TokenView>, b: Seq<TokenView>)
    ensures
        render(a + b) == render(a) + render(b),
    decreases b.len(),
{
    if b.len() == 0 {
        assert(a + b =~= a);
        assert(render(a) + render(b) =~= render(a));
    } else {
        lemma_render_concat(a, b.drop_last());
        assert((a + b).drop_last() =~= a + b.drop_last());
        assert((a + b).last() == b.last());
        assert(render(a) + render(b.drop_last()) + raw_text(b.last()) =~= render(a) + (render(
            b.drop_last(),
        ) + raw_text(b.last())));
    }
}

/// What two runs of tokens show, one after the other, is what the whole shows.
pub proof fn lemma_plain_concat(a: Seq<TokenView>, b: Seq<TokenView>)
    ensures
        plain(a + b) == plain(a) + plain(b),
    decreases b.len(),
{
    if b.len() == 0 {
        assert(a + b =~= a);
        assert(plain(a) + plain(b) =~= plain(a));
    } else {
        lemma_plain_concat(a, b.drop_last());
        assert((a + b).drop_last() =~= a + b.drop_last());
        assert((a + b).last() == b.last());
        assert(plain(a) + plain(b.drop_last()) + shown_text(b.last()) =~= plain(a) + (plain(
            b.drop_last(),
        ) + shown_text(b.last())));
    }
}

/// The state after two runs of tokens is the state after the second, taken
/// from the state after the first.
pub proof fn lemma_state_concat(state: AnsiState, a: Seq<TokenView>, b: Seq<TokenView>)
    ensures
        state_after(state, a + b) == state_after(state_after(state, a), b),
    decreases b.len(),
{
    if b.len() == 0 {
        assert(a + b =~= a);
    } else {
        lemma_state_concat(state, a, b.drop_last());
        assert((a + b).drop_last() =~= a + b.drop_last());
        assert((a + b).last() == b.last());
    }
}

/// One token shows its own text, is written as its own text, and changes the
/// state as it does alone.
pub proof fn lemma_single_token(state: AnsiState, token: TokenView)
    ensures
        plain(seq![token]) == shown_text(token),
        render(seq![token]) == raw_text(token),
        state_after(state, seq![token]) == state_after_token(state, token),
{
    reveal_with_fuel(plain, 2);
    reveal_with_fuel(render, 2);
    reveal_with_fuel(state_after, 2);
    let one = seq![token];
    assert(one.drop_last() =~= Seq::empty());
    assert(plain(one) =~= shown_text(token));
    assert(render(one) =~= raw_text(token));
}

} // verus!
