//! Cutting strings at ranges of bytes of the text that they show.

use crate::bounds::{bounds_ok, bounds_to_usize, checked_bounds, lower_of, upper_of};
use crate::bytes::{
    are_cut_points, byte_range_ok, char_range, cut_bytes_text, cut_str, sliced_at_bytes, CutError,
};
use crate::token::{ansi_tokens, has_no_escape, plain, tokenize};
use std::ops::Bound;
use vstd::prelude::*;

verus! {

/// The range that the bounds stand for can be cut out of `text`.
pub open spec fn can_cut(text: Seq<char>, start: Bound<&usize>, end: Bound<&usize>) -> bool {
    bounds_ok(start, end) && byte_range_ok(ansi_tokens(text), lower_of(start), upper_of(end))
}

/// The string that is left of `text` when it is cut at the bounds.
pub open spec fn cut_of(text: Seq<char>, start: Bound<&usize>, end: Bound<&usize>) -> Seq<char> {
    cut_bytes_text(ansi_tokens(text), lower_of(start), upper_of(end))
}

/// What cutting `text` at the bounds comes to: the cut, or the reason why
/// there is none.
pub open spec fn cut_outcome(text: Seq<char>, start: Bound<&usize>, end: Bound<&usize>) -> Result<
    Seq<char>,
    CutError,
> {
    if !bounds_ok(start, end) || (upper_of(end) matches Some(u) && u < lower_of(start)) {
        Err(CutError::InvalidRange)
    } else if !are_cut_points(plain(ansi_tokens(text)), lower_of(start), upper_of(end)) {
        Err(CutError::NotCharBoundary)
    } else {
        Ok(cut_of(text, start, end))
    }
}

/// An outcome as contracts speak of it.
pub open spec fn outcome_view(outcome: Result<String, CutError>) -> Result<Seq<char>, CutError> {
    match outcome {
        Ok(text) => Ok(text@),
        Err(error) => Err(error),
    }
}

/// Cuts `string` from the start of the range to its end and keeps its
/// styling. The bounds count bytes of the text without its escape sequences;
/// an end beyond that text is its end.
pub fn cut(string: &str, start: Bound<&usize>, end: Bound<&usize>) -> (result: String)
    requires
        can_cut(string@, start, end),
    ensures
        result@ == cut_of(string@, start, end),
        has_no_escape(string@) ==> result@ == sliced_at_bytes(
            string@,
            lower_of(start),
            upper_of(end),
        ),
{
    let (lower, upper) = bounds_to_usize(start, end);
    cut_str(string, lower, upper)
}

/// Tells whether the range that the bounds stand for can be cut out of
/// `string`, and why where it cannot.
pub fn check_cut(string: &str, start: Bound<&usize>, end: Bound<&usize>) -> (result: Result<
    (),
    CutError,
>)
    ensures
        result is Ok <==> can_cut(string@, start, end),
        result matches Err(error) ==> cut_outcome(string@, start, end) == Err::<
            Seq<char>,
            CutError,
        >(error),
{
    match checked_bounds(start, end) {
        Some((lower, upper)) => {
            let tokens = tokenize(string);
            match char_range(tokens.as_slice(), lower, upper) {
                Ok(_) => Ok(()),
                Err(error) => Err(error),
            }
        },
        None => Err(CutError::InvalidRange),
    }
}

/// Cuts `string` as `cut` does, where the range can be cut out, and says why
/// where it cannot.
pub fn try_cut(string: &str, start: Bound<&usize>, end: Bound<&usize>) -> (result: Result<
    String,
    CutError,
>)
    ensures
        outcome_view(result) == cut_outcome(string@, start, end),
{
    match check_cut(string, start, end) {
        Ok(()) => Ok(cut(string, start, end)),
        Err(error) => Err(error),
    }
}

/// Cutting a string while keeping what its ANSI control sequences say of its
/// colors and attributes.
pub trait AnsiCut {
    /// The text that is cut.
    spec fn text(&self) -> Seq<char>;

    /// Cuts the text from the start of the range to its end and keeps its
    /// styling. The bounds count bytes of the text without its escape
    /// sequences; an end beyond that text is its end.
    fn cut(&self, start: Bound<&usize>, end: Bound<&usize>) -> (result: String)
        requires
            can_cut(self.text(), start, end),
        ensures
            result@ == cut_of(self.text(), start, end),
            has_no_escape(self.text()) ==> result@ == sliced_at_bytes(
                self.text(),
                lower_of(start),
                upper_of(end),
            ),
    ;

    /// Cuts the text where the range can be cut out, and says why where it
    /// cannot.
    fn try_cut(&self, start: Bound<&usize>, end: Bound<&usize>) -> (result: Result<String, CutError>)
        ensures
            outcome_view(result) == cut_outcome(self.text(), start, end),
    ;
}

impl AnsiCut for &str {
    open spec fn text(&self) -> Seq<char> {
        self@
    }

    fn cut(&self, start: Bound<&usize>, end: Bound<&usize>) -> (result: String) {
        crate::api::cut(self, start, end)
    }

    fn try_cut(&self, start: Bound<&usize>, end: Bound<&usize>) -> (result: Result<
        String,
        CutError,
    >) {
        match check_cut(self, start, end) {
            Ok(()) => Ok(self.cut(start, end)),
            Err(error) => Err(error),
        }
    }
}

impl AnsiCut for String {
    open spec fn text(&self) -> Seq<char> {
        self@
    }

    fn cut(&self, start: Bound<&usize>, end: Bound<&usize>) -> (result: String) {
        crate::api::cut(self.as_str(), start, end)
    }

    fn try_cut(&self, start: Bound<&usize>, end: Bound<&usize>) -> (result: Result<
        String,
        CutError,
    >) {
        match check_cut(self.as_str(), start, end) {
            Ok(()) => Ok(self.cut(start, end)),
            Err(error) => Err(error),
        }
    }
}

} // verus!
