use ansi_cut::{
    complete_ansi_sequences, parse_ansi_color, update_ansi_state, AnsiColor, AnsiState,
    IdeogramAttrs, LayoutAttrs, TextAttrs,
};

fn after(mode: &[u8]) -> AnsiState {
    let mut state = AnsiState::default();
    update_ansi_state(&mut state, mode);
    state
}

fn closers(state: &AnsiState) -> String {
    let mut buf = String::new();
    complete_ansi_sequences(state, &mut buf);
    buf
}

fn sgr(codes: &[u8]) -> String {
    let mut text = String::new();
    for code in codes {
        text.push_str(&format!("\u{1b}[{}m", code));
    }
    text
}

#[test]
fn the_default_state_has_nothing_on() {
    let state = AnsiState::default();
    assert_eq!(None, state.fg_color);
    assert_eq!(None, state.bg_color);
    assert_eq!(None, state.undr_color);
    assert_eq!(None, state.font);
    assert!(!state.reset);
    assert!(!state.unknown);
    assert_eq!(state, after(&[]));
    assert_eq!("", closers(&state));
}

#[test]
fn each_parameter_switches_its_attribute() {
    let plain = AnsiState::default();
    let text = plain.text;
    let layout = plain.layout;
    let igrm = plain.igrm;
    assert_eq!(AnsiState { text: TextAttrs { bold: true, ..text }, ..plain }, after(&[1]));
    assert_eq!(AnsiState { text: TextAttrs { faint: true, ..text }, ..plain }, after(&[2]));
    assert_eq!(AnsiState { text: TextAttrs { italic: true, ..text }, ..plain }, after(&[3]));
    assert_eq!(AnsiState { text: TextAttrs { underline: true, ..text }, ..plain }, after(&[4]));
    assert_eq!(AnsiState { text: TextAttrs { slow_blink: true, ..text }, ..plain }, after(&[5]));
    assert_eq!(AnsiState { text: TextAttrs { rapid_blink: true, ..text }, ..plain }, after(&[6]));
    assert_eq!(AnsiState { text: TextAttrs { inverse: true, ..text }, ..plain }, after(&[7]));
    assert_eq!(AnsiState { text: TextAttrs { hide: true, ..text }, ..plain }, after(&[8]));
    assert_eq!(AnsiState { text: TextAttrs { crossedout: true, ..text }, ..plain }, after(&[9]));
    assert_eq!(
        AnsiState { text: TextAttrs { double_underline: true, ..text }, ..plain },
        after(&[21])
    );
    assert_eq!(AnsiState { layout: LayoutAttrs { fraktur: true, ..layout }, ..plain }, after(&[20]));
    assert_eq!(
        AnsiState { layout: LayoutAttrs { proportional_spacing: true, ..layout }, ..plain },
        after(&[26])
    );
    assert_eq!(AnsiState { layout: LayoutAttrs { framed: true, ..layout }, ..plain }, after(&[51]));
    assert_eq!(AnsiState { layout: LayoutAttrs { encircled: true, ..layout }, ..plain }, after(&[52]));
    assert_eq!(AnsiState { layout: LayoutAttrs { overlined: true, ..layout }, ..plain }, after(&[53]));
    assert_eq!(AnsiState { layout: LayoutAttrs { superscript: true, ..layout }, ..plain }, after(&[73]));
    assert_eq!(AnsiState { layout: LayoutAttrs { subscript: true, ..layout }, ..plain }, after(&[74]));
    assert_eq!(AnsiState { igrm: IdeogramAttrs { underline: true, ..igrm }, ..plain }, after(&[60]));
    assert_eq!(
        AnsiState { igrm: IdeogramAttrs { double_underline: true, ..igrm }, ..plain },
        after(&[61])
    );
    assert_eq!(AnsiState { igrm: IdeogramAttrs { overline: true, ..igrm }, ..plain }, after(&[62]));
    assert_eq!(
        AnsiState { igrm: IdeogramAttrs { double_overline: true, ..igrm }, ..plain },
        after(&[63])
    );
    assert_eq!(
        AnsiState { igrm: IdeogramAttrs { stress_marking: true, ..igrm }, ..plain },
        after(&[64])
    );
}

#[test]
fn fonts_and_classic_colors_are_named_by_their_parameter() {
    let plain = AnsiState::default();
    for code in 11..=19u8 {
        assert_eq!(AnsiState { font: Some(code), ..plain }, after(&[code]));
        assert_eq!(plain, after(&[code, 10]));
    }
    for code in (30..=37u8).chain(90..=97) {
        let color = Some(AnsiColor::Bit4 { index: code });
        assert_eq!(AnsiState { fg_color: color, ..plain }, after(&[code]));
        assert_eq!(plain, after(&[code, 39]));
    }
    for code in (40..=47u8).chain(100..=107) {
        let color = Some(AnsiColor::Bit4 { index: code });
        assert_eq!(AnsiState { bg_color: color, ..plain }, after(&[code]));
        assert_eq!(plain, after(&[code, 49]));
    }
}

#[test]
fn clearing_parameters_clear_their_family() {
    let plain = AnsiState::default();
    assert_eq!(plain, after(&[1, 2, 22]));
    assert_eq!(plain, after(&[3, 23]));
    assert_eq!(plain, after(&[4, 21, 24]));
    assert_eq!(plain, after(&[5, 6, 25]));
    assert_eq!(plain, after(&[7, 28]));
    assert_eq!(plain, after(&[9, 29]));
    assert_eq!(plain, after(&[26, 50]));
    assert_eq!(plain, after(&[51, 52, 54]));
    assert_eq!(plain, after(&[53, 55]));
    assert_eq!(plain, after(&[60, 61, 62, 63, 64, 65]));
    assert_eq!(plain, after(&[73, 74, 75]));
    // Nothing but a full reset clears these two.
    assert!(after(&[8, 22, 23, 24, 25, 28, 29]).text.hide);
    assert!(after(&[20, 50, 54, 55, 75]).layout.fraktur);
    // One family leaves the others alone.
    assert_eq!(after(&[3]), after(&[1, 3, 22]));
    assert_eq!(after(&[31]), after(&[31, 44, 49]));
}

#[test]
fn a_full_reset_clears_all_and_is_remembered() {
    let plain = AnsiState::default();
    let reset = AnsiState { reset: true, ..plain };
    assert_eq!(reset, after(&[0]));
    assert_eq!(reset, after(&[1, 3, 8, 20, 31, 44, 15, 60, 73, 200, 0]));
    assert_eq!(AnsiState { unknown: true, ..reset }, after(&[0, 200]));
    assert_eq!(AnsiState { text: TextAttrs { bold: true, ..plain.text }, ..reset }, after(&[0, 1]));
}

#[test]
fn unknown_parameters_are_remembered() {
    let plain = AnsiState::default();
    let unknown = AnsiState { unknown: true, ..plain };
    for code in [27u8, 56, 57, 66, 72, 76, 89, 98, 99, 108, 200, 255] {
        assert_eq!(unknown, after(&[code]));
    }
    assert_eq!(AnsiState { text: TextAttrs { bold: true, ..plain.text }, ..unknown }, after(&[1, 27]));
}

#[test]
fn a_color_follows_its_announcement() {
    let plain = AnsiState::default();
    let palette = AnsiColor::Bit8 { index: 200 };
    let components = AnsiColor::Bit24 { r: 1, g: 2, b: 3 };
    assert_eq!(AnsiState { fg_color: Some(palette), ..plain }, after(&[38, b'2', b';', 200]));
    assert_eq!(AnsiState { bg_color: Some(palette), ..plain }, after(&[48, b'2', b';', 200]));
    assert_eq!(AnsiState { undr_color: Some(palette), ..plain }, after(&[58, b'2', b';', 200]));
    assert_eq!(
        AnsiState { fg_color: Some(components), ..plain },
        after(&[38, b'5', b';', 1, b';', 2, b';', 3])
    );
    assert_eq!(
        AnsiState { bg_color: Some(components), ..plain },
        after(&[48, b'5', b';', 1, b';', 2, b';', 3])
    );
    // What stands behind the color is read on.
    assert_eq!(
        AnsiState {
            fg_color: Some(palette),
            text: TextAttrs { bold: true, ..plain.text },
            ..plain
        },
        after(&[38, b'2', b';', 200, 1])
    );
    assert_eq!(AnsiState { fg_color: None, ..plain }, after(&[38, b'2', b';', 200, 39]));
    assert_eq!(plain, after(&[58, b'2', b';', 200, 59]));
}

#[test]
fn an_announcement_without_a_color_changes_nothing() {
    let plain = AnsiState::default();
    assert_eq!(plain, after(&[38]));
    assert_eq!(plain, after(&[48]));
    assert_eq!(plain, after(&[58]));
    // The parameters behind it are read as parameters of their own.
    assert_eq!(after(&[5, 200]), after(&[38, 5, 200]));
    assert_eq!(after(&[2, 1, 2, 3]), after(&[48, 2, 1, 2, 3]));
    assert_eq!(after(&[b'2', b';']), after(&[38, b'2', b';']));
    assert_eq!(after(&[b'5', b';', 1, b';', 2, b';']), after(&[38, b'5', b';', 1, b';', 2, b';']));
    assert!(after(&[38, 5, 200]).text.slow_blink);
    assert!(after(&[38, 5, 200]).unknown);
    assert_eq!(None, after(&[38, 5, 200]).fg_color);
}

#[test]
fn color_sub_sequences_are_parsed() {
    assert_eq!(
        Some((AnsiColor::Bit8 { index: 200 }, 3)),
        parse_ansi_color(&[b'2', b';', 200])
    );
    assert_eq!(
        Some((AnsiColor::Bit8 { index: 7 }, 3)),
        parse_ansi_color(&[b'2', b';', 7, 9, 9])
    );
    assert_eq!(
        Some((AnsiColor::Bit24 { r: 100, g: 123, b: 39 }, 7)),
        parse_ansi_color(&[b'5', b';', 100, b';', 123, b';', 39])
    );
    assert_eq!(
        Some((AnsiColor::Bit24 { r: 100, g: 123, b: 39 }, 7)),
        parse_ansi_color(&[b'5', b';', 100, b';', 123, b';', 39, 4])
    );
    assert_eq!(None, parse_ansi_color(&[]));
    assert_eq!(None, parse_ansi_color(&[b'2']));
    assert_eq!(None, parse_ansi_color(&[b'2', b';']));
    assert_eq!(None, parse_ansi_color(&[b'2', 1, 200]));
    assert_eq!(None, parse_ansi_color(&[2, b';', 200]));
    assert_eq!(None, parse_ansi_color(&[b'5', b';', 100, b';', 123, b';']));
    assert_eq!(None, parse_ansi_color(&[b'5', b';', 100, 1, 123, b';', 39]));
    assert_eq!(None, parse_ansi_color(&[b'5', b';', 100, b';', 123, 1, 39]));
    assert_eq!(None, parse_ansi_color(&[b'7', b';', 100]));
}

#[test]
fn each_family_has_its_closer() {
    assert_eq!(sgr(&[22]), closers(&after(&[1])));
    assert_eq!(sgr(&[22]), closers(&after(&[2])));
    assert_eq!(sgr(&[22]), closers(&after(&[1, 2])));
    assert_eq!(sgr(&[23]), closers(&after(&[3])));
    assert_eq!(sgr(&[24]), closers(&after(&[4])));
    assert_eq!(sgr(&[24]), closers(&after(&[21])));
    assert_eq!(sgr(&[25]), closers(&after(&[5])));
    assert_eq!(sgr(&[25]), closers(&after(&[6])));
    assert_eq!(sgr(&[28]), closers(&after(&[7])));
    assert_eq!(sgr(&[29]), closers(&after(&[9])));
    assert_eq!(sgr(&[10]), closers(&after(&[13])));
    assert_eq!(sgr(&[39]), closers(&after(&[35])));
    assert_eq!(sgr(&[39]), closers(&after(&[38, b'2', b';', 200])));
    assert_eq!(sgr(&[49]), closers(&after(&[104])));
    assert_eq!(sgr(&[50]), closers(&after(&[26])));
    assert_eq!(sgr(&[54]), closers(&after(&[51])));
    assert_eq!(sgr(&[54]), closers(&after(&[52])));
    assert_eq!(sgr(&[55]), closers(&after(&[53])));
    for code in 60..=64u8 {
        assert_eq!(sgr(&[65]), closers(&after(&[code])));
    }
    assert_eq!(sgr(&[59]), closers(&after(&[58, b'2', b';', 200])));
    assert_eq!(sgr(&[75]), closers(&after(&[73])));
    assert_eq!(sgr(&[75]), closers(&after(&[74])));
    // These two have no closer.
    assert_eq!("", closers(&after(&[8])));
    assert_eq!("", closers(&after(&[20])));
}

#[test]
fn closers_come_in_their_order() {
    let all = after(&[
        1, 2, 3, 4, 5, 6, 7, 9, 12, 21, 26, 31, 41, 51, 52, 53, 60, 61, 62, 63, 64, 73, 74, 58,
        b'2', b';', 9,
    ]);
    assert_eq!(
        sgr(&[10, 22, 23, 24, 25, 28, 29, 39, 49, 50, 54, 55, 65, 59, 75]),
        closers(&all)
    );
    assert_eq!(
        "\u{1b}[10m\u{1b}[22m\u{1b}[23m\u{1b}[24m\u{1b}[25m\u{1b}[28m\u{1b}[29m\u{1b}[39m\u{1b}[49m\u{1b}[50m\u{1b}[54m\u{1b}[55m\u{1b}[65m\u{1b}[59m\u{1b}[75m",
        closers(&all)
    );
}

#[test]
fn an_unknown_parameter_asks_for_a_full_reset() {
    assert_eq!(sgr(&[0]), closers(&after(&[200])));
    assert_eq!(sgr(&[22, 0]), closers(&after(&[1, 200])));
    // Behind a full reset it asks for one in front as well.
    assert_eq!(sgr(&[0, 0]), closers(&after(&[0, 200])));
    assert_eq!(sgr(&[0, 39, 0]), closers(&after(&[0, 31, 200])));
    assert_eq!("", closers(&after(&[200, 0])));
}

#[test]
fn closers_are_appended_to_what_the_buffer_holds() {
    let mut buf = String::from("text");
    complete_ansi_sequences(&after(&[1, 31]), &mut buf);
    assert_eq!("text\u{1b}[22m\u{1b}[39m", buf);
    complete_ansi_sequences(&AnsiState::default(), &mut buf);
    assert_eq!("text\u{1b}[22m\u{1b}[39m", buf);
}

#[test]
fn closers_close_what_they_are_written_for() {
    let modes: [&[u8]; 8] = [
        &[1, 3, 31],
        &[0, 200],
        &[200, 4, 44],
        &[13, 21, 26, 52, 53, 62, 74],
        &[58, b'2', b';', 1, 6, 7, 9],
        &[8, 20],
        &[0],
        &[],
    ];
    let codes: [u8; 16] = [0, 10, 22, 23, 24, 25, 28, 29, 39, 49, 50, 54, 55, 65, 59, 75];
    for mode in modes {
        let open = after(mode);
        // Replay what is written for the state, one parameter at a time.
        let mut closed = open;
        let written = closers(&open);
        let mut rest = written.as_str();
        while !rest.is_empty() {
            let code = codes
                .iter()
                .find(|code| rest.starts_with(&sgr(&[**code])))
                .copied()
                .unwrap();
            update_ansi_state(&mut closed, &[code]);
            rest = &rest[sgr(&[code]).len()..];
        }
        assert_eq!("", closers(&closed));
    }
}
