use gnvim::cmdline::CmdlineInput;
use gnvim::color::{Color, HlDefs, HlGroup, Highlight};
use gnvim::common::Rectangle;
use gnvim::nvim_bridge::CmdlineShow;
use gnvim::value::{Number, Value};
use gnvim::widgets::{
    info_label_visible, info_text, popupmenu_activate_keys, popupmenu_placement, selection_move, tabline_page,
    wildmenu_activate_key, wildmenu_colors, wildmenu_height, TablineColors,
};

fn hl(fg: Option<Color>, bg: Option<Color>) -> Highlight {
    Highlight {
        foreground: fg,
        background: bg,
        special: None,
        reverse: false,
        italic: false,
        bold: false,
        underline: false,
        undercurl: false,
        blend: Number::Integer(0),
    }
}

fn tab(handle: i8, name: &str) -> (Value, String) {
    (Value::Ext(2, vec![handle as u8]), name.to_string())
}

fn defs() -> HlDefs {
    let mut d = HlDefs::default();
    d.default_fg = Color { r: 1, g: 1, b: 1 };
    d.default_bg = Color { r: 2, g: 2, b: 2 };
    d
}

#[test]
fn tabline_hidden_below_two_tabs() {
    let cur = Value::Ext(2, vec![1]);
    assert_eq!(tabline_page(&cur, &vec![]), None);
    assert_eq!(tabline_page(&cur, &vec![tab(1, "a")]), None);
}

#[test]
fn tabline_selects_current_tab() {
    let cur = Value::Ext(2, vec![3]);
    let tabs = vec![tab(1, "a"), tab(2, "b"), tab(3, "c")];
    assert_eq!(tabline_page(&cur, &tabs), Some(2));
    let tabs = vec![tab(3, "a"), tab(2, "b")];
    assert_eq!(tabline_page(&cur, &tabs), Some(0));
}

#[test]
fn tabline_unknown_current_is_first_page() {
    let cur = Value::Ext(2, vec![9]);
    let tabs = vec![tab(1, "a"), tab(2, "b")];
    assert_eq!(tabline_page(&cur, &tabs), Some(0));
}

#[test]
fn tabline_last_match_wins() {
    let cur = Value::Ext(2, vec![1]);
    let tabs = vec![tab(1, "a"), tab(2, "b"), tab(1, "c")];
    assert_eq!(tabline_page(&cur, &tabs), Some(2));
}

#[test]
fn tabline_colors_from_groups() {
    let mut d = defs();
    let red = Color { r: 255, g: 0, b: 0 };
    let blue = Color { r: 0, g: 0, b: 255 };
    d.insert(10, hl(Some(red), None));
    d.insert(11, hl(None, Some(blue)));
    d.set_hl_group(HlGroup::Tabline, 10);
    d.set_hl_group(HlGroup::TablineSel, 11);
    // A group whose id has no definition gives no colors.
    d.set_hl_group(HlGroup::TablineFill, 99);

    let c = TablineColors::from_hl_defs(&d);
    assert_eq!(c.fg, Some(red));
    assert_eq!(c.bg, None);
    assert_eq!(c.sel_fg, None);
    assert_eq!(c.sel_bg, Some(blue));
    assert_eq!(c.fill_fg, None);
    assert_eq!(c.fill_bg, None);

    let (fg, bg, sel_fg, sel_bg) = c.style_colors(&d);
    assert_eq!(fg, red);
    assert_eq!(bg, d.default_bg);
    assert_eq!(sel_fg, d.default_fg);
    assert_eq!(sel_bg, blue);
}

#[test]
fn tabline_colors_default_is_empty() {
    let c = TablineColors::default();
    let d = defs();
    assert_eq!(c.style_colors(&d), (d.default_fg, d.default_bg, d.default_fg, d.default_bg));
}

#[test]
fn wildmenu_colors_fall_back_to_defaults() {
    let mut d = defs();
    let green = Color { r: 0, g: 200, b: 0 };
    assert_eq!(wildmenu_colors(&d), (d.default_fg, d.default_bg, d.default_fg, d.default_bg));
    d.insert(5, hl(Some(green), Some(green)));
    d.set_hl_group(HlGroup::WildmenuSel, 5);
    assert_eq!(wildmenu_colors(&d), (d.default_fg, d.default_bg, green, green));
}

#[test]
fn selection_moves() {
    assert_eq!(selection_move(-1, 2), (true, 3));
    assert_eq!(selection_move(4, 1), (false, 3));
    assert_eq!(selection_move(2, 2), (false, 0));
    assert_eq!(selection_move(i32::MIN, i32::MAX), (true, u32::MAX));
}

#[test]
fn popupmenu_keys() {
    assert_eq!(popupmenu_activate_keys(-1, 1), "<C-n><C-n>");
    assert_eq!(popupmenu_activate_keys(3, 1), "<C-p><C-p>");
    assert_eq!(popupmenu_activate_keys(3, 3), "");
}

#[test]
fn wildmenu_keys() {
    assert_eq!(wildmenu_activate_key(0, 3), ("<Tab>".to_string(), 3));
    assert_eq!(wildmenu_activate_key(5, 4), ("<S-Tab>".to_string(), 1));
}

#[test]
fn wildmenu_heights() {
    assert_eq!(wildmenu_height(None, 3), 48);
    assert_eq!(wildmenu_height(Some(20), 10), 200);
    assert_eq!(wildmenu_height(Some(20), 30), 500);
    assert_eq!(wildmenu_height(Some(30), 0), 0);
}

#[test]
fn popupmenu_info_text() {
    assert_eq!(info_text("menu", "info"), "menu\ninfo");
    assert_eq!(info_text("", "info"), "info");
    assert_eq!(info_text("menu", ""), "menu");
    assert_eq!(info_text("", ""), "");
    assert!(info_label_visible(true, "m", ""));
    assert!(!info_label_visible(true, "", ""));
    assert!(!info_label_visible(false, "m", "i"));
}

fn show(content: Vec<(u64, &str)>, pos: u64, firstc: &str, prompt: &str, indent: u64, level: u64) -> CmdlineShow {
    CmdlineShow {
        content: content.into_iter().map(|(h, s)| (h, s.to_string())).collect(),
        pos,
        firstc: firstc.to_string(),
        prompt: prompt.to_string(),
        indent,
        level,
    }
}

#[test]
fn cmdline_prompt_and_cursor() {
    let mut c = CmdlineInput::new();
    let (prompt, offset) = c.set_text(&show(vec![(0, "ec"), (1, "ho")], 3, ":", "", 2, 1));
    assert_eq!(prompt, ":  ");
    assert_eq!(c.prompt_len, 3);
    assert_eq!(c.content, "echo");
    assert_eq!(offset, 6);
}

#[test]
fn cmdline_cursor_counts_characters() {
    let mut c = CmdlineInput::new();
    // "ä" takes two bytes: the cursor after it is at byte 2, character 1.
    let (prompt, offset) = c.set_text(&show(vec![(0, "äb")], 2, "/", "x", 0, 1));
    assert_eq!(prompt, "/x");
    assert_eq!(offset, 3);
    assert_eq!(c.set_cursor(3, 1), Some(4));
    assert_eq!(c.cursor_pos, 3);
    assert_eq!(c.set_cursor(0, 1), Some(2));
}

#[test]
fn cmdline_cursor_other_level_ignored() {
    let mut c = CmdlineInput::new();
    c.set_text(&show(vec![(0, "abc")], 1, ":", "", 0, 2));
    assert_eq!(c.set_cursor(2, 1), None);
    assert_eq!(c.cursor_pos, 1);
    assert_eq!(c.cursor_offset(), 2);
}

fn rect(x: i32, y: i32, width: i32, height: i32) -> Rectangle {
    Rectangle { x, y, width, height }
}

#[test]
fn popupmenu_above_anchor_capped_height() {
    let area = rect(0, 0, 800, 600);
    let (r, above) = popupmenu_placement(&area, &rect(100, 500, 10, 20), 430, 700);
    assert_eq!(r, rect(100, 0, 430, 500));
    assert!(above);
}

#[test]
fn popupmenu_below_anchor_when_no_room_above() {
    let area = rect(0, 0, 800, 600);
    let (r, above) = popupmenu_placement(&area, &rect(100, 100, 10, 20), 430, 200);
    assert_eq!(r, rect(100, 120, 430, 200));
    assert!(!above);
}

#[test]
fn popupmenu_moves_left_at_right_edge() {
    let area = rect(0, 0, 800, 600);
    let (r, above) = popupmenu_placement(&area, &rect(700, 300, 10, 20), 430, 100);
    assert_eq!(r, rect(370, 200, 430, 100));
    assert!(above);
}
