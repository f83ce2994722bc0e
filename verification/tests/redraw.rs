use gnvim::color::{Color, Highlight};
use gnvim::grid::GridScrollRegion;
use gnvim::nvim_bridge::{
    parse_gnvim_event, parse_redraw_event, Cell, CmdlineBlockAppend, CmdlinePos, CmdlineShow,
    CmdlineSpecialChar, CompletionItem, CompletionItemKind, CursorShape, DefaultColorsSet,
    GnvimEvent, GridCursorGoto, GridLineSegment, GridResize, GridScroll, HlAttrDefine, ModeChange,
    ModeInfo, ModeInfoSet, OptionSet, PopupmenuShow, RedrawEvent, TablineUpdate,
};
use gnvim::value::{Number, Value};

fn s(x: &str) -> Value {
    Value::String(x.to_string())
}

fn i(n: i128) -> Value {
    Value::Integer(n)
}

fn b(x: bool) -> Value {
    Value::Boolean(x)
}

fn arr(v: Vec<Value>) -> Value {
    Value::Array(v)
}

fn map(v: Vec<(&str, Value)>) -> Value {
    Value::Dict(v.into_iter().map(|(k, x)| (s(k), x)).collect())
}

/// A redraw notification with one entry: the event name, then its calls.
fn args(v: Vec<Value>) -> Vec<Value> {
    vec![Value::Array(v)]
}

#[test]
fn set_title() {
    let expected = vec![RedrawEvent::SetTitle(vec!["my title".to_string()])];

    let res = parse_redraw_event(args(vec![s("set_title"), arr(vec![s("my title")])]));

    assert_eq!(expected, res);
}

#[test]
fn grid_line() {
    let expected = vec![RedrawEvent::GridLine(vec![
        GridLineSegment {
            grid: 1,
            row: 1,
            col_start: 4,
            cells: vec![
                Cell { hl_id: 1, repeat: 4, text: " ".to_owned(), double_width: false },
                Cell { hl_id: 4, repeat: 1, text: "3".to_owned(), double_width: false },
                Cell { hl_id: 4, repeat: 1, text: "3".to_owned(), double_width: true },
                Cell { hl_id: 1, repeat: 1, text: "".to_owned(), double_width: false },
            ],
        },
        GridLineSegment {
            grid: 2,
            row: 4,
            col_start: 1,
            cells: vec![
                Cell { hl_id: 3, repeat: 2, text: "i".to_owned(), double_width: false },
                Cell { hl_id: 1, repeat: 1, text: "2".to_owned(), double_width: false },
            ],
        },
    ])];

    let res = parse_redraw_event(args(vec![
        s("grid_line"),
        arr(vec![
            i(1),
            i(1),
            i(4),
            arr(vec![
                arr(vec![s(" "), i(1), i(4)]),
                arr(vec![s("3"), i(4)]),
                arr(vec![s("3")]),
                arr(vec![s(""), i(1)]),
            ]),
        ]),
        arr(vec![
            i(2),
            i(4),
            i(1),
            arr(vec![arr(vec![s("i"), i(3), i(2)]), arr(vec![s("2"), i(1)])]),
        ]),
    ]));

    assert_eq!(expected, res);
}

#[test]
fn grid_cursor_goto() {
    let expected =
        vec![RedrawEvent::GridCursorGoto(vec![GridCursorGoto { grid: 123, row: 321, col: 2 }])];

    let res = parse_redraw_event(args(vec![
        s("grid_cursor_goto"),
        arr(vec![i(123), i(321), i(2)]),
    ]));

    assert_eq!(expected, res);
}

#[test]
fn grid_resize() {
    let expected = vec![RedrawEvent::GridResize(vec![GridResize { grid: 2, width: 32, height: 12 }])];

    let res = parse_redraw_event(args(vec![s("grid_resize"), arr(vec![i(2), i(32), i(12)])]));

    assert_eq!(expected, res);
}

#[test]
fn grid_clear() {
    let expected = vec![RedrawEvent::GridClear(vec![32])];

    let res = parse_redraw_event(args(vec![s("grid_clear"), arr(vec![i(32)])]));

    assert_eq!(expected, res);
}

#[test]
fn grid_scroll() {
    let expected = vec![RedrawEvent::GridScroll(vec![GridScroll {
        grid: 1,
        reg: GridScrollRegion([132, 321, 2, 51]),
        rows: 12,
        cols: 32,
    }])];

    let res = parse_redraw_event(args(vec![
        s("grid_scroll"),
        arr(vec![i(1), i(132), i(321), i(2), i(51), i(12), i(32)]),
    ]));

    assert_eq!(expected, res);
}

#[test]
fn default_colors_set() {
    let expected = vec![RedrawEvent::DefaultColorsSet(vec![DefaultColorsSet {
        fg: Color::from_u64(321921),
        bg: Color::from_u64(94921),
        sp: Color::from_u64(983821232),
    }])];

    let res = parse_redraw_event(args(vec![
        s("default_colors_set"),
        arr(vec![i(321921), i(94921), i(983821232)]),
    ]));

    assert_eq!(expected, res);
}

/// Test default values.
#[test]
fn default_colors_set2() {
    let expected = vec![RedrawEvent::DefaultColorsSet(vec![DefaultColorsSet {
        fg: Color::from_u64(0),
        bg: Color::from_u64(std::u64::MAX),
        sp: Color::from_u64(16711680),
    }])];

    let res = parse_redraw_event(args(vec![
        s("default_colors_set"),
        arr(vec![i(-1), i(-1), i(-1)]),
    ]));

    assert_eq!(expected, res);
}

#[test]
fn hl_attr_define() {
    let expected = vec![RedrawEvent::HlAttrDefine(vec![
        HlAttrDefine {
            id: 1,
            hl: Highlight {
                foreground: Some(Color::from_u64(3215)),
                background: Some(Color::from_u64(214)),
                special: Some(Color::from_u64(2019092)),
                reverse: false,
                italic: true,
                bold: true,
                underline: true,
                undercurl: false,
                blend: Number::Integer(0),
            },
        },
        HlAttrDefine {
            id: 42,
            hl: Highlight {
                foreground: Some(Color::from_u64(3215)),
                background: None,
                special: Some(Color::from_u64(2019092)),
                reverse: true,
                italic: false,
                bold: true,
                underline: false,
                undercurl: true,
                blend: Number::Integer(0),
            },
        },
        HlAttrDefine {
            id: 32,
            hl: Highlight {
                foreground: Some(Color::from_u64(215)),
                background: Some(Color::from_u64(315)),
                special: Some(Color::from_u64(19092)),
                reverse: true,
                italic: true,
                bold: true,
                underline: false,
                undercurl: true,
                blend: Number::Integer(0),
            },
        },
        HlAttrDefine {
            id: 3,
            hl: Highlight {
                foreground: None,
                background: None,
                special: None,
                reverse: false,
                italic: false,
                bold: false,
                underline: false,
                undercurl: false,
                blend: Number::Integer(0),
            },
        },
    ])];

    let res = parse_redraw_event(args(vec![
        s("hl_attr_define"),
        arr(vec![
            i(1),
            map(vec![
                ("foreground", i(3215)),
                ("background", i(214)),
                ("special", i(2019092)),
                ("reverse", b(false)),
                ("italic", b(true)),
                ("bold", b(true)),
                ("underline", b(true)),
            ]),
        ]),
        arr(vec![
            i(42),
            map(vec![
                ("foreground", i(3215)),
                ("special", i(2019092)),
                ("reverse", b(true)),
                ("bold", b(true)),
                ("undercurl", b(true)),
            ]),
        ]),
        arr(vec![
            i(32),
            map(vec![
                ("foreground", i(215)),
                ("background", i(315)),
                ("special", i(19092)),
                ("reverse", b(true)),
                ("italic", b(true)),
                ("bold", b(true)),
                ("undercurl", b(true)),
            ]),
        ]),
        arr(vec![i(3), map(vec![])]),
    ]));

    assert_eq!(expected, res);
}

#[test]
fn option_set() {
    let expected = vec![RedrawEvent::OptionSet(vec![
        OptionSet::GuiFont("my awesome font:h32".into()),
        OptionSet::LineSpace(32),
    ])];

    let res = parse_redraw_event(args(vec![
        s("option_set"),
        arr(vec![s("guifont"), s("my awesome font:h32")]),
        arr(vec![s("linespace"), i(32)]),
    ]));

    assert_eq!(expected, res);
}

#[test]
fn mode_info_set() {
    // The cell percentage is kept as the percentage Neovim sends.
    let expected = vec![RedrawEvent::ModeInfoSet(vec![ModeInfoSet {
        cursor_shape_enabled: true,
        mode_info: vec![
            ModeInfo { blink_on: 32, cursor_shape: CursorShape::Horizontal, cell_percentage: 32 },
            ModeInfo { blink_on: 1, cursor_shape: CursorShape::Block, cell_percentage: 100 },
        ],
    }])];

    let res = parse_redraw_event(args(vec![
        s("mode_info_set"),
        arr(vec![
            b(true),
            arr(vec![
                map(vec![
                    ("blinkon", i(32)),
                    ("cursor_shape", s("horizontal")),
                    ("cell_percentage", i(32)),
                ]),
                map(vec![
                    ("blinkon", i(1)),
                    ("cursor_shape", s("block")),
                    ("cell_percentage", i(100)),
                ]),
            ]),
        ]),
    ]));

    assert_eq!(expected, res);
}

#[test]
fn mode_change() {
    let expected = vec![RedrawEvent::ModeChange(vec![ModeChange { name: "foo".into(), index: 32 }])];

    let res = parse_redraw_event(args(vec![s("mode_change"), arr(vec![s("foo"), i(32)])]));

    assert_eq!(expected, res);
}

#[test]
fn busy_start() {
    let expected = vec![RedrawEvent::SetBusy(true)];

    let res = parse_redraw_event(args(vec![s("busy_start")]));

    assert_eq!(expected, res);
}

#[test]
fn busy_stop() {
    let expected = vec![RedrawEvent::SetBusy(false)];

    let res = parse_redraw_event(args(vec![s("busy_stop")]));

    assert_eq!(expected, res);
}

#[test]
fn flush() {
    let expected = vec![RedrawEvent::Flush()];

    let res = parse_redraw_event(args(vec![s("flush")]));

    assert_eq!(expected, res);
}

#[test]
fn popupmenu_show() {
    let expected = vec![RedrawEvent::PopupmenuShow(vec![PopupmenuShow {
        selected: 4,
        row: 3,
        col: 6,
        grid: None,
        items: vec![
            CompletionItem {
                word: "foo".to_owned(),
                kind: CompletionItemKind::Class,
                kind_raw: "class".to_owned(),
                menu: "bar".to_owned(),
                info: "foobar321".to_owned(),
            },
            CompletionItem {
                word: "drow".to_owned(),
                kind: CompletionItemKind::Unknown,
                kind_raw: "".to_owned(),
                menu: "unem".to_owned(),
                info: "ofni".to_owned(),
            },
        ],
    }])];

    let res = parse_redraw_event(args(vec![
        s("popupmenu_show"),
        arr(vec![
            arr(vec![
                arr(vec![s("foo"), s("class"), s("bar"), s("foobar321")]),
                arr(vec![s("drow"), s(""), s("unem"), s("ofni")]),
            ]),
            i(4),
            i(3),
            i(6),
        ]),
    ]));

    assert_eq!(expected, res);
}

#[test]
fn popupmenu_show_with_grid() {
    let expected = vec![RedrawEvent::PopupmenuShow(vec![PopupmenuShow {
        selected: 4,
        row: 3,
        col: 6,
        grid: Some(1),
        items: vec![
            CompletionItem {
                word: "foo".to_owned(),
                kind: CompletionItemKind::Class,
                kind_raw: "class".to_owned(),
                menu: "bar".to_owned(),
                info: "foobar321".to_owned(),
            },
            CompletionItem {
                word: "drow".to_owned(),
                kind: CompletionItemKind::Unknown,
                kind_raw: "".to_owned(),
                menu: "unem".to_owned(),
                info: "ofni".to_owned(),
            },
        ],
    }])];

    let res = parse_redraw_event(args(vec![
        s("popupmenu_show"),
        arr(vec![
            arr(vec![
                arr(vec![s("foo"), s("class"), s("bar"), s("foobar321")]),
                arr(vec![s("drow"), s(""), s("unem"), s("ofni")]),
            ]),
            i(4),
            i(3),
            i(6),
            i(1),
        ]),
    ]));

    assert_eq!(expected, res);
}

#[test]
fn popupmenu_hide() {
    let expected = vec![RedrawEvent::PopupmenuHide()];

    let res = parse_redraw_event(args(vec![s("popupmenu_hide")]));

    assert_eq!(expected, res);
}

#[test]
fn popupmenu_select() {
    let expected = vec![RedrawEvent::PopupmenuSelect(vec![32])];

    let res = parse_redraw_event(args(vec![s("popupmenu_select"), arr(vec![i(32)])]));

    assert_eq!(expected, res);
}

#[test]
fn tabline_update() {
    let expected = vec![RedrawEvent::TablineUpdate(vec![TablineUpdate {
        current: s("foo"),
        tabs: vec![(s("bar"), "bar_name".into()), (s("ugh"), "ugh_name".into())],
    }])];

    let res = parse_redraw_event(args(vec![
        s("tabline_update"),
        arr(vec![
            s("foo"),
            arr(vec![
                map(vec![("tab", s("bar")), ("name", s("bar_name"))]),
                map(vec![("tab", s("ugh")), ("name", s("ugh_name"))]),
            ]),
        ]),
    ]));

    assert_eq!(expected, res);
}

#[test]
fn cmdline_show() {
    let expected = vec![RedrawEvent::CmdlineShow(vec![CmdlineShow {
        content: vec![(91, "foo".to_owned()), (33, "bar".to_owned())],
        pos: 32,
        firstc: "f".to_owned(),
        prompt: "p".to_owned(),
        indent: 2,
        level: 4,
    }])];

    let res = parse_redraw_event(args(vec![
        s("cmdline_show"),
        arr(vec![
            arr(vec![arr(vec![i(91), s("foo")]), arr(vec![i(33), s("bar")])]),
            i(32),
            s("f"),
            s("p"),
            i(2),
            i(4),
        ]),
    ]));

    assert_eq!(expected, res);
}

#[test]
fn cmdline_hide() {
    let expected = vec![RedrawEvent::CmdlineHide()];

    let res = parse_redraw_event(args(vec![s("cmdline_hide")]));

    assert_eq!(expected, res);
}

#[test]
fn cmdline_pos() {
    let expected = vec![RedrawEvent::CmdlinePos(vec![CmdlinePos { pos: 3, level: 9 }])];

    let res = parse_redraw_event(args(vec![s("cmdline_pos"), arr(vec![i(3), i(9)])]));

    assert_eq!(expected, res);
}

#[test]
fn cmdline_special_char() {
    let expected = vec![RedrawEvent::CmdlineSpecialChar(vec![CmdlineSpecialChar {
        character: "^V".to_string(),
        shift: false,
        level: 1,
    }])];

    let res = parse_redraw_event(args(vec![
        s("cmdline_special_char"),
        arr(vec![s("^V"), b(false), i(1)]),
    ]));

    assert_eq!(expected, res);
}

#[test]
fn cmdline_block_append() {
    let expected = vec![RedrawEvent::CmdlineBlockAppend(vec![CmdlineBlockAppend {
        line: vec![(2, "foobar".to_string()), (1, "bar".to_string())],
    }])];

    let res = parse_redraw_event(args(vec![
        s("cmdline_block_append"),
        arr(vec![arr(vec![arr(vec![i(2), s("foobar")]), arr(vec![i(1), s("bar")])])]),
    ]));

    assert_eq!(expected, res);
}

#[test]
fn cmdline_block_hide() {
    let expected = vec![RedrawEvent::CmdlineBlockHide()];

    let res = parse_redraw_event(args(vec![s("cmdline_block_hide")]));

    assert_eq!(expected, res);
}

#[test]
fn mouse_on() {
    let expected = vec![RedrawEvent::Ignored("mouse_on".to_owned())];

    let res = parse_redraw_event(args(vec![s("mouse_on")]));

    assert_eq!(expected, res);
}

#[test]
fn mouse_off() {
    let expected = vec![RedrawEvent::Ignored("mouse_off".to_owned())];

    let res = parse_redraw_event(args(vec![s("mouse_off")]));

    assert_eq!(expected, res);
}

#[test]
fn completion_menu_toggle_info() {
    let expected: Result<GnvimEvent, String> = Ok(GnvimEvent::CompletionMenuToggleInfo);

    let res = parse_gnvim_event(vec![s("CompletionMenuToggleInfo")]);

    assert_eq!(expected, res);
}

#[test]
fn popupmenu_set_width() {
    let expected: Result<GnvimEvent, String> = Ok(GnvimEvent::PopupmenuWidth(432));

    let res = parse_gnvim_event(vec![s("PopupmenuSetWidth"), i(432)]);

    assert_eq!(expected, res);
}

#[test]
fn popupmenu_set_width_details() {
    let expected: Result<GnvimEvent, String> = Ok(GnvimEvent::PopupmenuWidthDetails(929));

    let res = parse_gnvim_event(vec![s("PopupmenuSetWidthDetails"), i(929)]);

    assert_eq!(expected, res);
}
