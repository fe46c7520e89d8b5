//! The styling that a run of SGR parameters leaves switched on.

use crate::color::{parse_ansi_color, parsed_color, AnsiColor};
use vstd::prelude::*;
use vstd::slice::slice_subrange;

verus! {

/// How the characters themselves are drawn.
#[derive(Debug, Clone, Copy, PartialEq, Eq)]
pub struct TextAttrs {
    pub bold: bool,
    pub faint: bool,
    pub italic: bool,
    pub underline: bool,
    pub double_underline: bool,
    pub slow_blink: bool,
    pub rapid_blink: bool,
    pub inverse: bool,
    pub hide: bool,
    pub crossedout: bool,
}

/// What is drawn around the characters and where they sit.
#[derive(Debug, Clone, Copy, PartialEq, Eq)]
pub struct LayoutAttrs {
    pub fraktur: bool,
    pub proportional_spacing: bool,
    pub framed: bool,
    pub encircled: bool,
    pub overlined: bool,
    pub superscript: bool,
    pub subscript: bool,
}

/// The decorations of ideograms.
#[derive(Debug, Clone, Copy, PartialEq, Eq)]
pub struct IdeogramAttrs {
    pub underline: bool,
    pub double_underline: bool,
    pub overline: bool,
    pub double_overline: bool,
    pub stress_marking: bool,
}

/// What is switched on at one point of a styled text. Every field is an axis
/// of its own; the parameters seen so far decide each of them.
#[derive(Debug, Clone, Copy, PartialEq, Eq)]
pub struct AnsiState {
    pub fg_color: Option<AnsiColor>,
    pub bg_color: Option<AnsiColor>,
    pub undr_color: Option<AnsiColor>,
    /// The alternative font in use, named by the parameter that selected it.
    pub font: Option<u8>,
    pub text: TextAttrs,
    pub layout: LayoutAttrs,
    pub igrm: IdeogramAttrs,
    /// A full reset was seen.
    pub reset: bool,
    /// A parameter outside the known set was seen since the last full reset.
    pub unknown: bool,
}

impl TextAttrs {
    /// No attribute is on.
    pub open spec fn plain() -> TextAttrs {
        TextAttrs {
            bold: false,
            faint: false,
            italic: false,
            underline: false,
            double_underline: false,
            slow_blink: false,
            rapid_blink: false,
            inverse: false,
            hide: false,
            crossedout: false,
        }
    }
}

impl LayoutAttrs {
    /// No attribute is on.
    pub open spec fn plain() -> LayoutAttrs {
        LayoutAttrs {
            fraktur: false,
            proportional_spacing: false,
            framed: false,
            encircled: false,
            overlined: false,
            superscript: false,
            subscript: false,
        }
    }
}

impl IdeogramAttrs {
    /// No decoration is on.
    pub open spec fn plain() -> IdeogramAttrs {
        IdeogramAttrs {
            underline: false,
            double_underline: false,
            overline: false,
            double_overline: false,
            stress_marking: false,
        }
    }
}

impl AnsiState {
    /// The state in which nothing is switched on.
    pub open spec fn unstyled() -> AnsiState {
        AnsiState {
            fg_color: None,
            bg_color: None,
            undr_color: None,
            font: None,
            text: TextAttrs::plain(),
            layout: LayoutAttrs::plain(),
            igrm: IdeogramAttrs::plain(),
            reset: false,
            unknown: false,
        }
    }
}

impl Default for AnsiState {
    fn default() -> (state: AnsiState)
        ensures
            state == AnsiState::unstyled(),
    {
        AnsiState {
            fg_color: None,
            bg_color: None,
            undr_color: None,
            font: None,
            text: TextAttrs {
                bold: false,
                faint: false,
                italic: false,
                underline: false,
                double_underline: false,
                slow_blink: false,
                rapid_blink: false,
                inverse: false,
                hide: false,
                crossedout: false,
            },
            layout: LayoutAttrs {
                fraktur: false,
                proportional_spacing: false,
                framed: false,
                encircled: false,
                overlined: false,
                superscript: false,
                subscript: false,
            },
            igrm: IdeogramAttrs {
                underline: false,
                double_underline: false,
                overline: false,
                double_overline: false,
                stress_marking: false,
            },
            reset: false,
            unknown: false,
        }
    }
}

/// The parameters that announce a color sub-sequence: for the foreground,
/// the background and the underline.
pub open spec fn is_color_intro(code: u8) -> bool {
    code == 38 || code == 48 || code == 58
}

/// The state after a parameter that stands for itself, by the parameter.
/// A full reset clears everything and is remembered; a parameter outside the
/// known set is remembered and changes nothing else; an announcement of a
/// color with no color behind it changes nothing.
pub open spec fn apply_code(now: AnsiState, code: u8) -> AnsiState {
    let text = now.text;
    let layout = now.layout;
    let igrm = now.igrm;
    if code == 0 {
        AnsiState { reset: true, ..AnsiState::unstyled() }
    } else if code == 1 {
        AnsiState { text: TextAttrs { bold: true, ..text }, ..now }
    } else if code == 2 {
        AnsiState { text: TextAttrs { faint: true, ..text }, ..now }
    } else if code == 3 {
        AnsiState { text: TextAttrs { italic: true, ..text }, ..now }
    } else if code == 4 {
        AnsiState { text: TextAttrs { underline: true, ..text }, ..now }
    } else if code == 5 {
        AnsiState { text: TextAttrs { slow_blink: true, ..text }, ..now }
    } else if code == 6 {
        AnsiState { text: TextAttrs { rapid_blink: true, ..text }, ..now }
    } else if code == 7 {
        AnsiState { text: TextAttrs { inverse: true, ..text }, ..now }
    } else if code == 8 {
        AnsiState { text: TextAttrs { hide: true, ..text }, ..now }
    } else if code == 9 {
        AnsiState { text: TextAttrs { crossedout: true, ..text }, ..now }
    } else if code == 10 {
        AnsiState { font: None, ..now }
    } else if 11 <= code <= 19 {
        AnsiState { font: Some(code), ..now }
    } else if code == 20 {
        AnsiState { layout: LayoutAttrs { fraktur: true, ..layout }, ..now }
    } else if code == 21 {
        AnsiState { text: TextAttrs { double_underline: true, ..text }, ..now }
    } else if code == 22 {
        AnsiState { text: TextAttrs { faint: false, bold: false, ..text }, ..now }
    } else if code == 23 {
        AnsiState { text: TextAttrs { italic: false, ..text }, ..now }
    } else if code == 24 {
        AnsiState {
            text: TextAttrs { underline: false, double_underline: false, ..text },
            ..now
        }
    } else if code == 25 {
        AnsiState {
            text: TextAttrs { slow_blink: false, rapid_blink: false, ..text },
            ..now
        }
    } else if code == 26 {
        AnsiState {
            layout: LayoutAttrs { proportional_spacing: true, ..layout },
            ..now
        }
    } else if code == 28 {
        AnsiState { text: TextAttrs { inverse: false, ..text }, ..now }
    } else if code == 29 {
        AnsiState { text: TextAttrs { crossedout: false, ..text }, ..now }
    } else if 30 <= code <= 37 || 90 <= code <= 97 {
        AnsiState {
            fg_color: Some(AnsiColor::Bit4 { index: code }),
            ..now
        }
    } else if is_color_intro(code) {
        now
    } else if code == 39 {
        AnsiState { fg_color: None, ..now }
    } else if 40 <= code <= 47 || 100 <= code <= 107 {
        AnsiState {
            bg_color: Some(AnsiColor::Bit4 { index: code }),
            ..now
        }
    } else if code == 49 {
        AnsiState { bg_color: None, ..now }
    } else if code == 50 {
        AnsiState {
            layout: LayoutAttrs { proportional_spacing: false, ..layout },
            ..now
        }
    } else if code == 51 {
        AnsiState { layout: LayoutAttrs { framed: true, ..layout }, ..now }
    } else if code == 52 {
        AnsiState { layout: LayoutAttrs { encircled: true, ..layout }, ..now }
    } else if code == 53 {
        AnsiState { layout: LayoutAttrs { overlined: true, ..layout }, ..now }
    } else if code == 54 {
        AnsiState {
            layout: LayoutAttrs { encircled: false, framed: false, ..layout },
            ..now
        }
    } else if code == 55 {
        AnsiState { layout: LayoutAttrs { overlined: false, ..layout }, ..now }
    } else if code == 59 {
        AnsiState { undr_color: None, ..now }
    } else if code == 60 {
        AnsiState { igrm: IdeogramAttrs { underline: true, ..igrm }, ..now }
    } else if code == 61 {
        AnsiState { igrm: IdeogramAttrs { double_underline: true, ..igrm }, ..now }
    } else if code == 62 {
        AnsiState { igrm: IdeogramAttrs { overline: true, ..igrm }, ..now }
    } else if code == 63 {
        AnsiState { igrm: IdeogramAttrs { double_overline: true, ..igrm }, ..now }
    } else if code == 64 {
        AnsiState { igrm: IdeogramAttrs { stress_marking: true, ..igrm }, ..now }
    } else if code == 65 {
        AnsiState {
            igrm: IdeogramAttrs {
                underline: false,
                double_underline: false,
                overline: false,
                double_overline: false,
                stress_marking: false,
            },
            ..now
        }
    } else if code == 73 {
        AnsiState { layout: LayoutAttrs { superscript: true, ..layout }, ..now }
    } else if code == 74 {
        AnsiState { layout: LayoutAttrs { subscript: true, ..layout }, ..now }
    } else if code == 75 {
        AnsiState {
            layout: LayoutAttrs { subscript: false, superscript: false, ..layout },
            ..now
        }
    } else {
        AnsiState { unknown: true, ..now }
    }
}

/// The state after a color sub-sequence that `intro` announced.
pub open spec fn with_color(state: AnsiState, intro: u8, color: AnsiColor) -> AnsiState {
    if intro == 38 {
        AnsiState { fg_color: Some(color), ..state }
    } else if intro == 48 {
        AnsiState { bg_color: Some(color), ..state }
    } else {
        AnsiState { undr_color: Some(color), ..state }
    }
}

/// The color sub-sequence that the first parameter announces and the
/// parameters after it spell out, if there is one.
pub open spec fn leading_color(params: Seq<u8>) -> Option<(AnsiColor, usize)> {
    if params.len() > 0 && is_color_intro(params[0]) {
        parsed_color(params.skip(1))
    } else {
        None
    }
}

/// The number of parameters that the first group takes up: a parameter alone,
/// or an announcement with the color sub-sequence behind it.
pub open spec fn front_width(params: Seq<u8>) -> int {
    match leading_color(params) {
        Some((_, n)) => n + 1,
        None => 1,
    }
}

/// The state after the first group of `params`.
pub open spec fn apply_front(state: AnsiState, params: Seq<u8>) -> AnsiState {
    match leading_color(params) {
        Some((color, _)) => with_color(state, params[0], color),
        None => apply_code(state, params[0]),
    }
}

/// The state after all of `params`, group by group from the left. An
/// announcement that no well-formed color follows changes nothing and takes
/// up one parameter, so that what follows it is read as parameters of their own.
pub open spec fn apply_params(state: AnsiState, params: Seq<u8>) -> AnsiState
    decreases params.len(),
{
    if params.len() == 0 {
        state
    } else {
        apply_params(apply_front(state, params), params.skip(front_width(params)))
    }
}

/// Feeds the parameters of one graphics-mode sequence to the state.
pub fn update_ansi_state(state: &mut AnsiState, mode: &[u8])
    ensures
        *final(state) == apply_params(*old(state), mode@),
{
    let mut i: usize = 0;
    assert(mode@.skip(0) == mode@);
    while i < mode.len()
        invariant
            i <= mode.len(),
            apply_params(*state, mode@.skip(i as int)) == apply_params(*old(state), mode@),
        decreases mode.len() - i,
    {
        let tag = mode[i];
        let ghost rest = mode@.skip(i as int);
        let now = *state;
        let text = now.text;
        let layout = now.layout;
        let igrm = now.igrm;
        let mut width: usize = 1;
        let next = match tag {
            0 => AnsiState { reset: true, ..AnsiState::default() },
            1 => AnsiState { text: TextAttrs { bold: true, ..text }, ..now },
            2 => AnsiState { text: TextAttrs { faint: true, ..text }, ..now },
            3 => AnsiState { text: TextAttrs { italic: true, ..text }, ..now },
            4 => AnsiState { text: TextAttrs { underline: true, ..text }, ..now },
            5 => AnsiState { text: TextAttrs { slow_blink: true, ..text }, ..now },
            6 => AnsiState { text: TextAttrs { rapid_blink: true, ..text }, ..now },
            7 => AnsiState { text: TextAttrs { inverse: true, ..text }, ..now },
            8 => AnsiState { text: TextAttrs { hide: true, ..text }, ..now },
            9 => AnsiState { text: TextAttrs { crossedout: true, ..text }, ..now },
            10 => AnsiState { font: None, ..now },
            11..=19 => AnsiState { font: Some(tag), ..now },
            20 => AnsiState { layout: LayoutAttrs { fraktur: true, ..layout }, ..now },
            21 => AnsiState { text: TextAttrs { double_underline: true, ..text }, ..now },
            22 => AnsiState { text: TextAttrs { faint: false, bold: false, ..text }, ..now },
            23 => AnsiState { text: TextAttrs { italic: false, ..text }, ..now },
            24 => AnsiState {
                text: TextAttrs { underline: false, double_underline: false, ..text },
                ..now
            },
            25 => AnsiState {
                text: TextAttrs { slow_blink: false, rapid_blink: false, ..text },
                ..now
            },
            26 => AnsiState {
                layout: LayoutAttrs { proportional_spacing: true, ..layout },
                ..now
            },
            28 => AnsiState { text: TextAttrs { inverse: false, ..text }, ..now },
            29 => AnsiState { text: TextAttrs { crossedout: false, ..text }, ..now },
            30..=37 | 90..=97 => AnsiState {
                fg_color: Some(AnsiColor::Bit4 { index: tag }),
                ..now
            },
            38 | 48 | 58 => {
                let after = slice_subrange(mode, i + 1, mode.len());
                assert(after@ == rest.skip(1));
                match parse_ansi_color(after) {
                    Some((color, n)) => {
                        width = n + 1;
                        if tag == 38 {
                            AnsiState { fg_color: Some(color), ..now }
                        } else if tag == 48 {
                            AnsiState { bg_color: Some(color), ..now }
                        } else {
                            AnsiState { undr_color: Some(color), ..now }
                        }
                    },
                    None => now,
                }
            },
            39 => AnsiState { fg_color: None, ..now },
            40..=47 | 100..=107 => AnsiState {
                bg_color: Some(AnsiColor::Bit4 { index: tag }),
                ..now
            },
            49 => AnsiState { bg_color: None, ..now },
            50 => AnsiState {
                layout: LayoutAttrs { proportional_spacing: false, ..layout },
                ..now
            },
            51 => AnsiState { layout: LayoutAttrs { framed: true, ..layout }, ..now },
            52 => AnsiState { layout: LayoutAttrs { encircled: true, ..layout }, ..now },
            53 => AnsiState { layout: LayoutAttrs { overlined: true, ..layout }, ..now },
            54 => AnsiState {
                layout: LayoutAttrs { encircled: false, framed: false, ..layout },
                ..now
            },
            55 => AnsiState { layout: LayoutAttrs { overlined: false, ..layout }, ..now },
            59 => AnsiState { undr_color: None, ..now },
            60 => AnsiState { igrm: IdeogramAttrs { underline: true, ..igrm }, ..now },
            61 => AnsiState { igrm: IdeogramAttrs { double_underline: true, ..igrm }, ..now },
            62 => AnsiState { igrm: IdeogramAttrs { overline: true, ..igrm }, ..now },
            63 => AnsiState { igrm: IdeogramAttrs { double_overline: true, ..igrm }, ..now },
            64 => AnsiState { igrm: IdeogramAttrs { stress_marking: true, ..igrm }, ..now },
            65 => AnsiState {
                igrm: IdeogramAttrs {
                    underline: false,
                    double_underline: false,
                    overline: false,
                    double_overline: false,
                    stress_marking: false,
                },
                ..now
            },
            73 => AnsiState { layout: LayoutAttrs { superscript: true, ..layout }, ..now },
            74 => AnsiState { layout: LayoutAttrs { subscript: true, ..layout }, ..now },
            75 => AnsiState {
                layout: LayoutAttrs { subscript: false, superscript: false, ..layout },
                ..now
            },
            _ => AnsiState { unknown: true, ..now },
        };
        assert(rest[0] == tag);
        assert(next == apply_front(now, rest));
        assert(width == front_width(rest));
        assert(rest.skip(width as int) == mode@.skip(i + width));
        *state = next;
        i = i + width;
    }
    assert(mode@.skip(i as int).len() == 0);
}

} // verus!
