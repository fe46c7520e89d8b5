//! The sequences that switch off what a state has left on.

use crate::state::AnsiState;
use vstd::prelude::*;

verus! {

/// The character of one decimal digit.
pub open spec fn digit_char(d: nat) -> char
    recommends
        d < 10,
{
    if d == 0 {
        '0'
    } else if d == 1 {
        '1'
    } else if d == 2 {
        '2'
    } else if d == 3 {
        '3'
    } else if d == 4 {
        '4'
    } else if d == 5 {
        '5'
    } else if d == 6 {
        '6'
    } else if d == 7 {
        '7'
    } else if d == 8 {
        '8'
    } else {
        '9'
    }
}

/// A number written in decimal, without leading zeros.
pub open spec fn decimal(n: nat) -> Seq<char>
    decreases n,
{
    if n < 10 {
        seq![digit_char(n)]
    } else {
        decimal(n / 10).push(digit_char(n % 10))
    }
}

/// The escape sequence that sets the graphics mode to one parameter.
pub open spec fn sgr_text(code: u8) -> Seq<char> {
    seq!['\u{1b}', '['] + decimal(code as nat) + seq!['m']
}

/// The escape sequences of `codes`, one after the other.
pub open spec fn sgr_join(codes: Seq<u8>) -> Seq<char>
    decreases codes.len(),
{
    if codes.len() == 0 {
        Seq::empty()
    } else {
        sgr_join(codes.drop_last()) + sgr_text(codes.last())
    }
}

/// The number of closing rules. They are tried in the order of their rank.
pub const CLOSER_RULES: usize = 17;

/// The parameter that the rule of one rank writes for `state`, if it writes
/// one. Attributes that one parameter clears share a rule.
pub open spec fn closer_at(state: AnsiState, rank: int) -> Option<u8> {
    if rank == 0 {
        // a full reset, where an unknown parameter came after a full reset
        if state.unknown && state.reset {
            Some(0u8)
        } else {
            None
        }
    } else if rank == 1 {
        // the default font
        if state.font is Some {
            Some(10u8)
        } else {
            None
        }
    } else if rank == 2 {
        // normal intensity
        if state.text.bold || state.text.faint {
            Some(22u8)
        } else {
            None
        }
    } else if rank == 3 {
        // not italic
        if state.text.italic {
            Some(23u8)
        } else {
            None
        }
    } else if rank == 4 {
        // not underlined
        if state.text.underline || state.text.double_underline {
            Some(24u8)
        } else {
            None
        }
    } else if rank == 5 {
        // not blinking
        if state.text.slow_blink || state.text.rapid_blink {
            Some(25u8)
        } else {
            None
        }
    } else if rank == 6 {
        // not inverse
        if state.text.inverse {
            Some(28u8)
        } else {
            None
        }
    } else if rank == 7 {
        // not crossed out
        if state.text.crossedout {
            Some(29u8)
        } else {
            None
        }
    } else if rank == 8 {
        // the default foreground
        if state.fg_color is Some {
            Some(39u8)
        } else {
            None
        }
    } else if rank == 9 {
        // the default background
        if state.bg_color is Some {
            Some(49u8)
        } else {
            None
        }
    } else if rank == 10 {
        // fixed spacing
        if state.layout.proportional_spacing {
            Some(50u8)
        } else {
            None
        }
    } else if rank == 11 {
        // neither framed nor encircled
        if state.layout.encircled || state.layout.framed {
            Some(54u8)
        } else {
            None
        }
    } else if rank == 12 {
        // not overlined
        if state.layout.overlined {
            Some(55u8)
        } else {
            None
        }
    } else if rank == 13 {
        // no ideogram decoration
        if state.igrm.underline || state.igrm.double_underline || state.igrm.overline
            || state.igrm.double_overline || state.igrm.stress_marking {
            Some(65u8)
        } else {
            None
        }
    } else if rank == 14 {
        // the default underline color
        if state.undr_color is Some {
            Some(59u8)
        } else {
            None
        }
    } else if rank == 15 {
        // neither superscript nor subscript
        if state.layout.subscript || state.layout.superscript {
            Some(75u8)
        } else {
            None
        }
    } else if rank == 16 {
        // a full reset, where an unknown parameter was seen
        if state.unknown {
            Some(0u8)
        } else {
            None
        }
    } else {
        None
    }
}

/// What the rules below `rank` write for `state`, in their order.
pub open spec fn closers_before(state: AnsiState, rank: nat) -> Seq<u8>
    decreases rank,
{
    if rank == 0 {
        Seq::empty()
    } else {
        let head = closers_before(state, (rank - 1) as nat);
        match closer_at(state, rank - 1) {
            Some(code) => head.push(code),
            None => head,
        }
    }
}

/// The parameters that close what `state` has left on, in the order in which
/// they are written.
pub open spec fn closer_codes(state: AnsiState) -> Seq<u8> {
    closers_before(state, CLOSER_RULES as nat)
}

/// The parameters that can close something.
pub open spec fn is_closer(code: u8) -> bool {
    code == 0 || code == 10 || code == 22 || code == 23 || code == 24 || code == 25 || code == 28
        || code == 29 || code == 39 || code == 49 || code == 50 || code == 54 || code == 55
        || code == 59 || code == 65 || code == 75
}

/// The parameter that the rule of one rank writes for `state`.
fn closing_code(state: &AnsiState, rank: usize) -> (code: Option<u8>)
    ensures
        code == closer_at(*state, rank as int),
        code matches Some(c) ==> is_closer(c),
{
    match rank {
        0 => if state.unknown && state.reset {
            Some(0)
        } else {
            None
        },
        1 => if state.font.is_some() {
            Some(10)
        } else {
            None
        },
        2 => if state.text.bold || state.text.faint {
            Some(22)
        } else {
            None
        },
        3 => if state.text.italic {
            Some(23)
        } else {
            None
        },
        4 => if state.text.underline || state.text.double_underline {
            Some(24)
        } else {
            None
        },
        5 => if state.text.slow_blink || state.text.rapid_blink {
            Some(25)
        } else {
            None
        },
        6 => if state.text.inverse {
            Some(28)
        } else {
            None
        },
        7 => if state.text.crossedout {
            Some(29)
        } else {
            None
        },
        8 => if state.fg_color.is_some() {
            Some(39)
        } else {
            None
        },
        9 => if state.bg_color.is_some() {
            Some(49)
        } else {
            None
        },
        10 => if state.layout.proportional_spacing {
            Some(50)
        } else {
            None
        },
        11 => if state.layout.encircled || state.layout.framed {
            Some(54)
        } else {
            None
        },
        12 => if state.layout.overlined {
            Some(55)
        } else {
            None
        },
        13 => if state.igrm.underline || state.igrm.double_underline || state.igrm.overline
            || state.igrm.double_overline || state.igrm.stress_marking {
            Some(65)
        } else {
            None
        },
        14 => if state.undr_color.is_some() {
            Some(59)
        } else {
            None
        },
        15 => if state.layout.subscript || state.layout.superscript {
            Some(75)
        } else {
            None
        },
        16 => if state.unknown {
            Some(0)
        } else {
            None
        },
        _ => None,
    }
}

/// The escape sequence of one closing parameter.
fn closing_text(code: u8) -> (text: &'static str)
    requires
        is_closer(code),
    ensures
        text@ == sgr_text(code),
{
    let text = match code {
        0 => "\u{1b}[0m",
        10 => "\u{1b}[10m",
        22 => "\u{1b}[22m",
        23 => "\u{1b}[23m",
        24 => "\u{1b}[24m",
        25 => "\u{1b}[25m",
        28 => "\u{1b}[28m",
        29 => "\u{1b}[29m",
        39 => "\u{1b}[39m",
        49 => "\u{1b}[49m",
        50 => "\u{1b}[50m",
        54 => "\u{1b}[54m",
        55 => "\u{1b}[55m",
        59 => "\u{1b}[59m",
        65 => "\u{1b}[65m",
        _ => "\u{1b}[75m",
    };
    proof {
        reveal_strlit("\u{1b}[0m");
        reveal_strlit("\u{1b}[10m");
        reveal_strlit("\u{1b}[22m");
        reveal_strlit("\u{1b}[23m");
        reveal_strlit("\u{1b}[24m");
        reveal_strlit("\u{1b}[25m");
        reveal_strlit("\u{1b}[28m");
        reveal_strlit("\u{1b}[29m");
        reveal_strlit("\u{1b}[39m");
        reveal_strlit("\u{1b}[49m");
        reveal_strlit("\u{1b}[50m");
        reveal_strlit("\u{1b}[54m");
        reveal_strlit("\u{1b}[55m");
        reveal_strlit("\u{1b}[59m");
        reveal_strlit("\u{1b}[65m");
        reveal_strlit("\u{1b}[75m");
        reveal_with_fuel(decimal, 2);
        assert(text@ =~= sgr_text(code));
    }
    text
}

/// Appends to `buf` the sequences that close what `state` has left on.
pub fn complete_ansi_sequences(state: &AnsiState, buf: &mut String)
    ensures
        final(buf)@ == old(buf)@ + sgr_join(closer_codes(*state)),
{
    let mut rank: usize = 0;
    assert(buf@ =~= old(buf)@ + sgr_join(closers_before(*state, 0)));
    while rank < CLOSER_RULES
        invariant
            rank <= CLOSER_RULES,
            buf@ == old(buf)@ + sgr_join(closers_before(*state, rank as nat)),
        decreases CLOSER_RULES - rank,
    {
        let ghost head = closers_before(*state, rank as nat);
        if let Some(code) = closing_code(state, rank) {
            buf.append(closing_text(code));
            assert(head.push(code).drop_last() =~= head);
            assert(old(buf)@ + sgr_join(head) + sgr_text(code) =~= old(buf)@ + (sgr_join(head)
                + sgr_text(code)));
        }
        rank = rank + 1;
    }
}

} // verus!
