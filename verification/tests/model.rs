use gnvim::color::{Color, HlGroup, Highlight};
use gnvim::nvim_bridge::{
    Cell, CmdlinePos, CmdlineShow, CursorShape, DefaultColorsSet, GridCursorGoto, GridLineSegment,
    GridResize, HlAttrDefine, ModeChange, ModeInfo, ModeInfoSet, OptionSet, RedrawEvent,
};
use gnvim::ui_model::UiModel;
use gnvim::value::Number;

fn plain() -> Highlight {
    Highlight {
        foreground: None,
        background: None,
        special: None,
        reverse: false,
        italic: false,
        bold: false,
        underline: false,
        undercurl: false,
        blend: Number::Integer(0),
    }
}

fn texts(m: &UiModel, grid: usize) -> Vec<String> {
    m.grids[grid].rows.iter().map(|r| r.text()).collect()
}

#[test]
fn model_grid_events() {
    let mut m = UiModel::new();
    assert_eq!(m.find_grid(1), Some(0));
    assert_eq!(m.find_grid(2), None);
    m.grid_resize(1, 4, 2);
    assert_eq!(texts(&m, 0), vec!["    ", "    "]);
    let line = GridLineSegment {
        grid: 1,
        row: 1,
        col_start: 1,
        cells: vec![Cell { text: "x".into(), hl_id: 2, repeat: 2, double_width: false }],
    };
    m.grid_line(&line);
    assert_eq!(texts(&m, 0), vec!["    ", " xx "]);
    m.grid_scroll(1, [0, 2, 0, 4], 1);
    assert_eq!(texts(&m, 0), vec![" xx ", "    "]);
    m.grid_cursor_goto(1, 0, 2);
    assert_eq!(m.grids[0].cursor, (0, 2));
    assert_eq!(m.current_grid, 1);
    m.grid_clear(1);
    assert_eq!(texts(&m, 0), vec!["    ", "    "]);
}

#[test]
fn model_highlights() {
    let mut m = UiModel::new();
    let mut h = plain();
    h.bold = true;
    m.hl_attr_define(0, plain());
    m.hl_attr_define(3, h);
    m.hl_group_set("PmenuSel", 3);
    assert!(m.hl_groups_changed);
    assert_eq!(m.hl_defs.get_hl_group(&HlGroup::WildmenuSel), Some(&h));
    m.default_colors_set(Color::from_u64(1), Color::from_u64(2), Color::from_u64(3));
    assert_eq!(m.hl_defs.get(&0).unwrap().background, Some(Color::from_u64(2)));
    assert_eq!(m.flush(), (false, true));
    assert!(!m.hl_groups_changed);
}

#[test]
fn model_font_and_modes() {
    let mut m = UiModel::new();
    m.set_line_space(3);
    m.set_guifont("Hack:h12");
    assert_eq!(m.font.name, "Monospace");
    assert_eq!(m.flush(), (true, false));
    assert_eq!(m.font.name, "Hack");
    assert_eq!(m.font.height, 12);
    assert_eq!(m.line_space, 3);
    m.set_guifont("bad:h");
    m.flush();
    assert_eq!(m.font.name, "Monospace");
    assert_eq!(m.font.height, 14);
    assert_eq!(m.line_space, 3);

    let a = ModeInfo { blink_on: 0, cursor_shape: CursorShape::Block, cell_percentage: 100 };
    let b = ModeInfo { blink_on: 5, cursor_shape: CursorShape::Vertical, cell_percentage: 25 };
    m.mode_info_set(vec![a, b]);
    m.mode_change(1);
    assert_eq!(m.mode, Some(b));
}

#[test]
fn model_event_sequence_keeps_earlier_effects() {
    let mut m = UiModel::new();
    m.grids.push(gnvim::ui_model::GridModel { id: 2, rows: vec![], cursor: (0, 0), active: false });
    let mut h = plain();
    h.italic = true;
    m.hl_attr_define(0, plain());
    m.hl_attr_define(7, h);
    let modes = vec![ModeInfo { blink_on: 5, cursor_shape: CursorShape::Vertical, cell_percentage: 25 }];
    m.mode_info_set(modes.clone());
    m.default_colors_set(Color::from_u64(1), Color::from_u64(2), Color::from_u64(3));
    m.grid_cursor_goto(2, 3, 4);
    assert_eq!(m.hl_defs.get(&7), Some(&h));
    assert_eq!(m.mode_infos, modes);
    assert_eq!(m.hl_defs.default_fg, Color::from_u64(1));
    assert_eq!(m.hl_defs.get(&0).unwrap().foreground, Some(Color::from_u64(1)));
    assert_eq!(m.hl_defs.get(&0).unwrap().special, Some(Color::from_u64(3)));
    assert_eq!(m.current_grid, 2);
    assert!(m.grids[1].active && !m.grids[0].active);
    assert_eq!(m.grids[1].cursor, (3, 4));
}

#[test]
fn model_apply_events() {
    let mut m = UiModel::new();
    let grid_resize = RedrawEvent::GridResize(vec![GridResize { grid: 1, width: 3, height: 2 }]);
    assert_eq!(m.apply(&grid_resize), Ok((false, false)));
    assert_eq!(texts(&m, 0), vec!["   ", "   "]);
    let line = GridLineSegment {
        grid: 1,
        row: 0,
        col_start: 1,
        cells: vec![Cell { text: "y".into(), hl_id: 1, repeat: 2, double_width: false }],
    };
    assert_eq!(m.apply(&RedrawEvent::GridLine(vec![line])), Ok((false, false)));
    assert_eq!(texts(&m, 0), vec![" yy", "   "]);
    let mut h = plain();
    h.bold = true;
    let defs = RedrawEvent::HlAttrDefine(vec![HlAttrDefine { id: 0, hl: plain() }, HlAttrDefine { id: 4, hl: h }]);
    assert_eq!(m.apply(&defs), Ok((false, false)));
    let modes = vec![ModeInfo { blink_on: 0, cursor_shape: CursorShape::Block, cell_percentage: 100 }];
    let mis = RedrawEvent::ModeInfoSet(vec![ModeInfoSet { cursor_shape_enabled: true, mode_info: modes.clone() }]);
    assert_eq!(m.apply(&mis), Ok((false, false)));
    let colors = RedrawEvent::DefaultColorsSet(vec![DefaultColorsSet {
        fg: Color::from_u64(7),
        bg: Color::from_u64(8),
        sp: Color::from_u64(9),
    }]);
    assert_eq!(m.apply(&colors), Ok((false, false)));
    assert_eq!(m.apply(&RedrawEvent::ModeChange(vec![ModeChange { name: "normal".into(), index: 0 }])), Ok((false, false)));
    assert_eq!(m.apply(&RedrawEvent::GridCursorGoto(vec![GridCursorGoto { grid: 1, row: 1, col: 2 }])), Ok((false, false)));
    assert_eq!(m.hl_defs.get(&4), Some(&h));
    assert_eq!(m.mode_infos, modes);
    assert_eq!(m.mode, Some(modes[0]));
    assert_eq!(m.hl_defs.get(&0).unwrap().background, Some(Color::from_u64(8)));
    assert_eq!(m.grids[0].cursor, (1, 2));
    assert_eq!(m.apply(&RedrawEvent::SetTitle(vec!["a".into(), "b".into()])), Ok((false, false)));
    assert_eq!(m.title, "b");
    assert_eq!(m.apply(&RedrawEvent::SetBusy(true)), Ok((false, false)));
    assert!(m.busy);
    let opts = RedrawEvent::OptionSet(vec![OptionSet::LineSpace(4), OptionSet::ExtCmdline(false)]);
    assert_eq!(m.apply(&opts), Ok((false, false)));
    assert!(!m.widgets.ext_cmdline);
    m.hl_group_set("TabLine", 4);
    assert_eq!(m.apply(&RedrawEvent::Flush()), Ok((true, true)));
    assert_eq!(m.line_space, 4);
    assert_eq!(m.widgets.tabline_colors.fg, None);
    assert!(m.widgets.wildmenu_colors.is_some());
    let show = CmdlineShow {
        content: vec![(0, "ab".into())],
        pos: 1,
        firstc: ":".into(),
        prompt: "".into(),
        indent: 0,
        level: 1,
    };
    assert_eq!(m.apply(&RedrawEvent::CmdlineShow(vec![show])), Ok((false, false)));
    assert_eq!(m.widgets.cmdline_prompt, Some(":".to_string()));
    assert_eq!(m.widgets.cmdline_cursor, 2);
    assert_eq!(m.apply(&RedrawEvent::CmdlinePos(vec![CmdlinePos { pos: 2, level: 1 }])), Ok((false, false)));
    assert_eq!(m.widgets.cmdline_cursor, 3);
    assert_eq!(m.apply(&RedrawEvent::CmdlineHide()), Ok((false, false)));
    assert_eq!(m.widgets.cmdline_prompt, None);
    assert_eq!(m.apply(&RedrawEvent::PopupmenuHide()), Ok((false, false)));
}

#[test]
fn model_apply_stops_at_failing_call() {
    let mut m = UiModel::new();
    // The second goto names a grid that does not exist: the first is made.
    let gotos = RedrawEvent::GridCursorGoto(vec![
        GridCursorGoto { grid: 1, row: 2, col: 3 },
        GridCursorGoto { grid: 5, row: 0, col: 0 },
    ]);
    assert_eq!(m.apply(&gotos), Err(1));
    assert_eq!(m.grids[0].cursor, (2, 3));
    assert_eq!(m.current_grid, 1);
    assert_eq!(m.apply(&RedrawEvent::ModeChange(vec![ModeChange { name: "n".into(), index: 0 }])), Err(0));
    let mut d = m.hl_defs.get(&0).is_none();
    assert!(d);
    d = m.apply(&RedrawEvent::DefaultColorsSet(vec![DefaultColorsSet {
        fg: Color::from_u64(1),
        bg: Color::from_u64(1),
        sp: Color::from_u64(1),
    }])) == Err(0);
    assert!(d);
}
