//! Colors of the three colored channels (foreground, background, underline)
//! and the parser of an extended color sub-sequence.

use vstd::prelude::*;

verus! {

/// A color as an SGR sequence can select it.
#[derive(Debug, Clone, Copy, PartialEq, Eq, Structural)]
pub enum AnsiColor {
    /// One of the sixteen classic colors, named by the code that selects it.
    Bit4 { index: u8 },
    /// An entry of the 256-color palette.
    Bit8 { index: u8 },
    /// A color given by its red, green and blue components.
    Bit24 { r: u8, g: u8, b: u8 },
}

/// The slot value that introduces a palette color: the character `2`.
pub const PALETTE_MARK: u8 = 50;

/// The slot value that introduces a color given by components: the
/// character `5`.
pub const COMPONENTS_MARK: u8 = 53;

/// The slot value that separates the parts of a color sub-sequence: the
/// character `;`.
pub const SEPARATOR: u8 = 59;

/// The color that a sub-sequence of parameter slots denotes, with the number
/// of slots it takes up, or `None` where the slots are cut short or do not
/// have the shape of a color.
pub open spec fn parsed_color(buf: Seq<u8>) -> Option<(AnsiColor, usize)> {
    if buf.len() >= 3 && buf[0] == PALETTE_MARK && buf[1] == SEPARATOR {
        Some((AnsiColor::Bit8 { index: buf[2] }, 3usize))
    } else if buf.len() >= 7 && buf[0] == COMPONENTS_MARK && buf[1] == SEPARATOR && buf[3]
        == SEPARATOR && buf[5] == SEPARATOR {
        Some((AnsiColor::Bit24 { r: buf[2], g: buf[4], b: buf[6] }, 7usize))
    } else {
        None
    }
}

/// Reads a color sub-sequence from the front of `buf`.
pub fn parse_ansi_color(buf: &[u8]) -> (result: Option<(AnsiColor, usize)>)
    ensures
        result == parsed_color(buf@),
{
    if buf.len() >= 3 && buf[0] == PALETTE_MARK && buf[1] == SEPARATOR {
        Some((AnsiColor::Bit8 { index: buf[2] }, 3))
    } else if buf.len() >= 7 && buf[0] == COMPONENTS_MARK && buf[1] == SEPARATOR && buf[3]
        == SEPARATOR && buf[5] == SEPARATOR {
        Some((AnsiColor::Bit24 { r: buf[2], g: buf[4], b: buf[6] }, 7))
    } else {
        None
    }
}

} // verus!
