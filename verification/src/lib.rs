//! Cutting a string at a range of the text that it shows, while keeping the
//! ANSI styling that is active inside that range.
//!
//! A styled string is a sequence of text blocks and escape sequences
//! ([`token`]). A cut walks over them, keeps the characters of the range,
//! hands the escape sequences on, follows what they switch on ([`state`]),
//! and at the end writes the sequences that switch it off again
//! ([`closers`]), so that a cut never styles what is written behind it.
//!
//! * [`cut`] holds the walk, with positions counted in characters.
//! * [`bytes`] and [`api`] take positions counted in bytes, as string indices
//!   are, and refuse those that lie inside a character.
//! * [`chunks`] cuts a text into pieces of one size.
//! * [`laws`] and [`closed`] state what holds of every cut.

pub mod api;
pub mod bounds;
pub mod bytes;
pub mod chunks;
pub mod closed;
pub mod closers;
pub mod color;
pub mod cut;
pub mod laws;
pub mod state;
pub mod token;

pub use api::{check_cut, cut, try_cut, AnsiCut};
pub use bounds::{bounds_to_usize, checked_bounds};
pub use bytes::{char_position, char_range, cut_str, cut_tokens_at_bytes, CutError};
pub use chunks::{chunk_tokens, chunks};
pub use closers::complete_ansi_sequences;
pub use color::{parse_ansi_color, AnsiColor};
pub use cut::{cut_chars, cut_tokens};
pub use state::{update_ansi_state, AnsiState, IdeogramAttrs, LayoutAttrs, TextAttrs};
pub use token::{srip_ansi_sequences, strip_tokens, EscapeKind, Token};
