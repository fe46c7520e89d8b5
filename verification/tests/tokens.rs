use ansi_cut::{
    bounds_to_usize, char_position, char_range, checked_bounds, chunk_tokens, cut_str,
    cut_tokens, cut_tokens_at_bytes, strip_tokens, CutError, EscapeKind, Token,
};
use std::ops::Bound;

fn text(content: &str) -> Token {
    Token::TextBlock(content.to_string())
}

fn graphics(raw: &str, params: &[u8]) -> Token {
    Token::Escape { raw: raw.to_string(), kind: EscapeKind::GraphicsMode(params.to_vec()) }
}

fn other(raw: &str) -> Token {
    Token::Escape { raw: raw.to_string(), kind: EscapeKind::Other }
}

fn colored() -> Vec<Token> {
    vec![
        text("zxc_"),
        graphics("\u{1b}[31;40m", &[31, 40]),
        text("TEXT"),
        graphics("\u{1b}[0m", &[0]),
        text("_qwe"),
    ]
}

#[test]
fn tokens_are_cut_at_characters() {
    let tokens = colored();
    assert_eq!("zxc", cut_tokens(&tokens, 0, Some(3)));
    assert_eq!("zxc_\u{1b}[31;40mT\u{1b}[39m\u{1b}[49m", cut_tokens(&tokens, 0, Some(5)));
    assert_eq!("\u{1b}[31;40mEXT\u{1b}[0m_q", cut_tokens(&tokens, 5, Some(10)));
    assert_eq!("\u{1b}[31;40m\u{1b}[0m", cut_tokens(&tokens, 12, None));
    assert_eq!("zxc_\u{1b}[31;40mTEXT\u{1b}[0m_qwe", cut_tokens(&tokens, 0, None));
    assert_eq!("zxc_\u{1b}[31;40mTEXT\u{1b}[0m_qwe", cut_tokens(&tokens, 0, Some(12)));
    assert_eq!("zxc_\u{1b}[31;40mTEXT\u{1b}[0m", cut_tokens(&tokens, 0, Some(8)));
    assert_eq!("zxc_\u{1b}[31;40m\u{1b}[39m\u{1b}[49m", cut_tokens(&tokens, 0, Some(4)));
    assert_eq!("", cut_tokens(&tokens, 0, Some(0)));
    assert_eq!("", cut_tokens(&[], 0, None));
}

#[test]
fn the_state_follows_the_parameters_and_not_the_raw_text() {
    // The tracker reads the parameters that a token carries.
    let tokens = vec![graphics("<on>", &[1]), text("ab"), graphics("<off>", &[22]), text("cd")];
    assert_eq!("<on>a\u{1b}[22m", cut_tokens(&tokens, 0, Some(1)));
    assert_eq!("<on>ab<off>c", cut_tokens(&tokens, 0, Some(3)));
    // A sequence of another kind is forwarded and changes nothing.
    let tokens = vec![other("\u{1b}[2J"), text("ab"), other("\u{1b}[s"), text("cd")];
    assert_eq!("\u{1b}[2Ja", cut_tokens(&tokens, 0, Some(1)));
    assert_eq!("\u{1b}[2Jb\u{1b}[sc", cut_tokens(&tokens, 1, Some(3)));
}

#[test]
fn positions_far_beyond_the_text_are_its_end() {
    let tokens = colored();
    assert_eq!("\u{1b}[31;40m\u{1b}[0m", cut_tokens(&tokens, usize::MAX, None));
    assert_eq!("\u{1b}[31;40m\u{1b}[0m", cut_tokens(&tokens, usize::MAX, Some(usize::MAX)));
    assert_eq!(
        "\u{1b}[31;40m\u{1b}[0mwe",
        cut_tokens(&tokens, 10, Some(usize::MAX))
    );
}

#[test]
fn tokens_are_stripped_of_their_escape_sequences() {
    assert_eq!("zxc_TEXT_qwe", strip_tokens(&colored()));
    assert_eq!("", strip_tokens(&[]));
    assert_eq!("", strip_tokens(&[other("\u{1b}[2J"), graphics("\u{1b}[1m", &[1])]));
}

#[test]
fn tokens_are_cut_into_chunks() {
    let tokens = colored();
    assert_eq!(
        vec![
            "zxc_\u{1b}[31;40mT\u{1b}[39m\u{1b}[49m".to_string(),
            "\u{1b}[31;40mEXT\u{1b}[0m_q".to_string(),
            "\u{1b}[31;40m\u{1b}[0mwe".to_string(),
        ],
        chunk_tokens(&tokens, 5)
    );
    assert_eq!(
        vec!["zxc_\u{1b}[31;40mTEXT\u{1b}[0m_qwe".to_string()],
        chunk_tokens(&tokens, 12)
    );
    assert_eq!(
        vec!["zxc_\u{1b}[31;40mTEXT\u{1b}[0m_qwe".to_string()],
        chunk_tokens(&tokens, usize::MAX)
    );
    assert_eq!(12, chunk_tokens(&tokens, 1).len());
    assert_eq!(Vec::<String>::new(), chunk_tokens(&[], 4));
}

#[test]
fn byte_offsets_stand_for_character_positions() {
    let s = "a😀é";
    assert_eq!(Some(0), char_position(s, 0));
    assert_eq!(Some(1), char_position(s, 1));
    assert_eq!(None, char_position(s, 2));
    assert_eq!(None, char_position(s, 3));
    assert_eq!(None, char_position(s, 4));
    assert_eq!(Some(2), char_position(s, 5));
    assert_eq!(None, char_position(s, 6));
    assert_eq!(Some(3), char_position(s, 7));
    assert_eq!(Some(3), char_position(s, 8));
    assert_eq!(Some(3), char_position(s, usize::MAX));
    assert_eq!(Some(0), char_position("", 0));
    assert_eq!(Some(0), char_position("", 5));
}

#[test]
fn byte_ranges_become_character_ranges() {
    let tokens = vec![text("a😀"), graphics("\u{1b}[1m", &[1]), text("é!")];
    assert_eq!(Ok((0, None)), char_range(&tokens, 0, None));
    assert_eq!(Ok((1, Some(2))), char_range(&tokens, 1, Some(5)));
    assert_eq!(Ok((2, Some(3))), char_range(&tokens, 5, Some(7)));
    assert_eq!(Ok((2, Some(4))), char_range(&tokens, 5, Some(8)));
    assert_eq!(Ok((4, Some(4))), char_range(&tokens, 9, Some(90)));
    assert_eq!(Err(CutError::NotCharBoundary), char_range(&tokens, 2, Some(5)));
    assert_eq!(Err(CutError::NotCharBoundary), char_range(&tokens, 1, Some(6)));
    assert_eq!(Err(CutError::NotCharBoundary), char_range(&tokens, 6, None));
    assert_eq!(Err(CutError::InvalidRange), char_range(&tokens, 5, Some(1)));
    assert_eq!(Err(CutError::InvalidRange), char_range(&tokens, 6, Some(2)));
}

#[test]
fn tokens_are_cut_at_bytes() {
    let tokens = vec![text("a😀"), graphics("\u{1b}[1m", &[1]), text("é!")];
    assert_eq!(Ok("😀\u{1b}[1m\u{1b}[22m".to_string()), cut_tokens_at_bytes(&tokens, 1, Some(5)));
    assert_eq!(Ok("\u{1b}[1mé\u{1b}[22m".to_string()), cut_tokens_at_bytes(&tokens, 5, Some(7)));
    assert_eq!(Ok("a😀\u{1b}[1mé!\u{1b}[22m".to_string()), cut_tokens_at_bytes(&tokens, 0, None));
    assert_eq!(Err(CutError::NotCharBoundary), cut_tokens_at_bytes(&tokens, 3, None));
    assert_eq!(Err(CutError::InvalidRange), cut_tokens_at_bytes(&tokens, 3, Some(2)));
}

#[test]
fn strings_are_cut_at_bytes() {
    let emojes = "😀😃😄😁😆😅😂🤣🥲😊";
    assert_eq!("😀", cut_str(emojes, 0, Some(4)));
    assert_eq!("😃😄", cut_str(emojes, 4, Some(12)));
    assert_eq!("🤣🥲😊", cut_str(emojes, 28, None));
    assert_eq!("", cut_str(emojes, 40, Some(41)));
    assert_eq!(
        "\u{1b}[31mé\u{1b}[39m",
        cut_str("\u{1b}[31maé!\u{1b}[39m", 1, Some(3))
    );
}

#[test]
fn bounds_become_positions() {
    assert_eq!((1, Some(3)), bounds_to_usize(Bound::Included(&1), Bound::Excluded(&3)));
    assert_eq!((1, Some(4)), bounds_to_usize(Bound::Included(&1), Bound::Included(&3)));
    assert_eq!((1, None), bounds_to_usize(Bound::Included(&1), Bound::Unbounded));
    assert_eq!((0, None), bounds_to_usize(Bound::Unbounded, Bound::Unbounded));
    assert_eq!((0, Some(4)), bounds_to_usize(Bound::Unbounded, Bound::Included(&3)));
    assert_eq!((0, Some(3)), bounds_to_usize(Bound::Unbounded, Bound::Excluded(&3)));
    assert_eq!(
        (usize::MAX, Some(usize::MAX)),
        bounds_to_usize(Bound::Included(&usize::MAX), Bound::Included(&(usize::MAX - 1)))
    );
}

#[test]
fn bounds_that_stand_for_no_range_are_refused() {
    assert_eq!(Some((1, Some(3))), checked_bounds(Bound::Included(&1), Bound::Excluded(&3)));
    assert_eq!(Some((0, Some(1))), checked_bounds(Bound::Unbounded, Bound::Included(&0)));
    assert_eq!(Some((5, Some(2))), checked_bounds(Bound::Included(&5), Bound::Excluded(&2)));
    assert_eq!(None, checked_bounds(Bound::Excluded(&1), Bound::Excluded(&3)));
    assert_eq!(None, checked_bounds(Bound::Excluded(&1), Bound::Unbounded));
    assert_eq!(None, checked_bounds(Bound::Included(&1), Bound::Included(&usize::MAX)));
    assert_eq!(None, checked_bounds(Bound::Unbounded, Bound::Included(&usize::MAX)));
}
