use gnvim::color::{Color, HlDefs, HlGroup, Highlight};
use gnvim::value::Number;

fn hl(fg: Option<Color>, bg: Option<Color>) -> Highlight {
    Highlight {
        foreground: fg,
        background: bg,
        special: None,
        reverse: false,
        italic: false,
        bold: false,
        underline: false,
        undercurl: false,
        blend: Number::Integer(0),
    }
}

#[test]
fn color_from_u64() {
    assert_eq!(Color::from_u64(0x123456), Color { r: 0x12, g: 0x34, b: 0x56 });
    // Bits above the low 24 are ignored.
    assert_eq!(Color::from_u64(0xff123456), Color { r: 0x12, g: 0x34, b: 0x56 });
    assert_eq!(Color::from_u64(u64::MAX), Color { r: 255, g: 255, b: 255 });
}

#[test]
fn color_to_hex() {
    assert_eq!(Color { r: 0x0a, g: 0xff, b: 0x00 }.to_hex(), "0aff00");
    assert_eq!(Color::from_u64(0).to_hex(), "000000");
}

#[test]
fn color_hex_round_trip() {
    for c in [Color { r: 0, g: 0, b: 0 }, Color { r: 1, g: 128, b: 255 }, Color { r: 0xde, g: 0xad, b: 0xbe }] {
        assert_eq!(Color::from_hex_string(c.to_hex()), Ok(c));
    }
}

#[test]
fn color_from_hex_string() {
    assert_eq!(Color::from_hex_string("#0Aff00".to_string()), Ok(Color { r: 0x0a, g: 0xff, b: 0 }));
    assert_eq!(Color::from_hex_string("A0ff00".to_string()), Ok(Color { r: 0xa0, g: 0xff, b: 0 }));
    assert_eq!(
        Color::from_hex_string("#0ff".to_string()),
        Err("hex string has invalid length".to_string())
    );
    assert_eq!(
        Color::from_hex_string("#zzzzzz".to_string()),
        Err("Failed to parse hex string 'zzzzzz': Some(ParseIntError { kind: InvalidDigit })"
            .to_string())
    );
}

#[test]
fn hl_defs_read_after_write() {
    let mut defs = HlDefs::default();
    assert!(defs.get(&3).is_none());
    let a = hl(Some(Color::from_u64(1)), None);
    let b = hl(None, Some(Color::from_u64(2)));
    assert_eq!(defs.insert(3, a), None);
    assert_eq!(defs.get(&3), Some(&a));
    assert_eq!(defs.insert(3, b), Some(a));
    assert_eq!(defs.get(&3), Some(&b));
    assert!(defs.get(&4).is_none());
}

#[test]
fn hl_groups() {
    let mut defs = HlDefs::default();
    let a = hl(Some(Color::from_u64(1)), None);
    defs.insert(7, a);
    assert!(defs.get_hl_group(&HlGroup::Pmenu).is_none());
    assert_eq!(defs.set_hl_group(HlGroup::Pmenu, 7), None);
    assert_eq!(defs.get_hl_group(&HlGroup::Pmenu), Some(&a));
    assert_eq!(defs.set_hl_group(HlGroup::Pmenu, 8), Some(7));
    // The group points at an id without a definition.
    assert!(defs.get_hl_group(&HlGroup::Pmenu).is_none());
    assert!(defs.get_hl_group(&HlGroup::Tabline).is_none());
}

#[test]
fn hl_group_set_by_name() {
    let mut defs = HlDefs::default();
    let a = hl(Some(Color::from_u64(1)), None);
    let c = hl(None, Some(Color::from_u64(9)));
    defs.insert(5, a);
    defs.insert(6, c);
    defs.hl_group_set("Pmenu", 5);
    assert_eq!(defs.get_hl_group(&HlGroup::Pmenu), Some(&a));
    assert_eq!(defs.get_hl_group(&HlGroup::Wildmenu), Some(&a));
    defs.hl_group_set("TabLineSel", 6);
    assert_eq!(defs.get_hl_group(&HlGroup::TablineSel), Some(&c));
    assert_eq!(defs.get_hl_group(&HlGroup::CmdlineBorder), Some(&c));
    defs.hl_group_set("Normal", 5);
    assert_eq!(defs.get_hl_group(&HlGroup::Cmdline), Some(&a));
    defs.hl_group_set("Search", 6);
    assert!(defs.get_hl_group(&HlGroup::MsgSeparator).is_none());
    assert!(defs.get_hl_group(&HlGroup::PmenuSel).is_none());
}

#[test]
fn default_colors_set_updates_hl_zero() {
    let mut defs = HlDefs::default();
    let mut zero = hl(None, None);
    zero.bold = true;
    defs.insert(0, zero);
    let (fg, bg, sp) = (Color::from_u64(1), Color::from_u64(2), Color::from_u64(3));
    defs.default_colors_set(fg, bg, sp);
    assert_eq!(defs.default_fg, fg);
    assert_eq!(defs.default_bg, bg);
    assert_eq!(defs.default_sp, sp);
    let h = *defs.get(&0).unwrap();
    assert_eq!(h.foreground, Some(fg));
    assert_eq!(h.background, Some(bg));
    assert_eq!(h.special, Some(sp));
    assert!(h.bold);
}

#[test]
fn cell_colors_reverse() {
    let (dfg, dbg, dsp) = (Color::from_u64(1), Color::from_u64(2), Color::from_u64(3));
    let mut h = hl(Some(Color::from_u64(10)), None);
    assert_eq!(h.cell_colors(&dfg, &dbg, &dsp), (Color::from_u64(10), dbg, dsp));
    h.reverse = true;
    assert_eq!(h.cell_colors(&dfg, &dbg, &dsp), (dbg, Color::from_u64(10), dsp));
}

#[test]
fn pango_markup_span() {
    let (dfg, dbg, dsp) = (Color::from_u64(0x010203), Color::from_u64(0x040506), Color::from_u64(0x070809));
    let mut h = hl(Some(Color::from_u64(0xff0000)), None);
    h.bold = true;
    h.undercurl = true;
    h.underline = true;
    let m = h.pango_markup("a &amp; b", &dfg, &dbg, &dsp);
    assert_eq!(
        m,
        "<span
            foreground=\"#ff0000\"
            background=\"#040506\"
            underline_color=\"#070809\"
            weight=\"bold\"
            font_style=\"normal\"
            underline=\"error\">a &amp; b</span>"
    );
    let plain = hl(None, None).pango_markup("x", &dfg, &dbg, &dsp);
    assert!(plain.contains("weight=\"normal\""));
    assert!(plain.contains("underline=\"none\""));
    assert!(plain.contains("foreground=\"#010203\""));
}

#[test]
fn color_to_hex_six_low_digits() {
    for v in [0u64, 0xabcdef, 0x0a0b0c, 0xff_00ff_0102, u64::MAX, 0x123] {
        assert_eq!(Color::from_u64(v).to_hex(), format!("{:06x}", v & 0xffffff));
    }
}

#[test]
fn color_hex_string_round_trip_lowercases() {
    for s in ["AbCdEf", "000000", "FFFFFF", "1a2B3c"] {
        assert_eq!(Color::from_hex_string(s.to_string()).unwrap().to_hex(), s.to_lowercase());
    }
}
