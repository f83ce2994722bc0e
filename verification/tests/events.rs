use gnvim::grid::GridScrollRegion;
use gnvim::nvim_bridge::{
    icon_for_kind, parse_gnvim_event, parse_notify, parse_redraw_event, parse_request,
    shorten_info, Anchor, CompletionItemKind, GnvimEvent, MsgSetPos, Notify, OptionSet,
    RedrawEvent, WindowExternalPos, WindowFloatPos, WindowPos,
};
use gnvim::value::{Number, Value};

fn s(x: &str) -> Value {
    Value::String(x.to_string())
}

fn i(n: i128) -> Value {
    Value::Integer(n)
}

fn arr(v: Vec<Value>) -> Value {
    Value::Array(v)
}

#[test]
fn gnvim_errors() {
    assert_eq!(parse_gnvim_event(vec![]), Err("No command given".to_string()));
    assert_eq!(parse_gnvim_event(vec![i(1)]), Err("Value is not an str: cmd".to_string()));
    assert_eq!(parse_gnvim_event(vec![s("PopupmenuSetWidth")]), Err("width missing".to_string()));
    assert_eq!(
        parse_gnvim_event(vec![s("PopupmenuSetWidthDetails"), s("x")]),
        Err("Value is not an u64: pmenu width".to_string())
    );
    assert_eq!(
        parse_gnvim_event(vec![s("PopupmenuShowMenuOnAllItems")]),
        Err("bool missing".to_string())
    );
    assert_eq!(
        parse_gnvim_event(vec![s("EnableExtTabline"), i(-1)]),
        Err("Value is not an u64: failed to parse enable ext tabline argument".to_string())
    );
    assert_eq!(
        parse_gnvim_event(vec![s("EnableCursorAnimations")]),
        Err("argument missing".to_string())
    );
}

#[test]
fn gnvim_flags() {
    assert_eq!(
        parse_gnvim_event(vec![s("PopupmenuShowMenuOnAllItems"), i(2)]),
        Ok(GnvimEvent::PopupmenuShowMenuOnAllItems(true))
    );
    assert_eq!(
        parse_gnvim_event(vec![s("PopupmenuShowMenuOnAllItems"), i(0)]),
        Ok(GnvimEvent::PopupmenuShowMenuOnAllItems(false))
    );
    assert_eq!(
        parse_gnvim_event(vec![s("EnableCursorAnimations"), i(1)]),
        Ok(GnvimEvent::EnableCursorAnimations(true))
    );
    assert_eq!(
        parse_gnvim_event(vec![s("EnableExtCmdline"), i(2)]),
        Ok(GnvimEvent::EnableExtCmdline(false))
    );
    assert_eq!(
        parse_gnvim_event(vec![s("EnableExtPopupmenu"), i(1)]),
        Ok(GnvimEvent::EnableExtPopupmenu(true))
    );
    assert_eq!(parse_gnvim_event(vec![s("Whatever")]), Ok(GnvimEvent::Unknown("Whatever".into())));
}

#[test]
fn notify_names() {
    assert_eq!(
        parse_notify("redraw", vec![arr(vec![s("flush")])]),
        Some(Notify::RedrawEvent(vec![RedrawEvent::Flush()]))
    );
    assert_eq!(
        parse_notify("Gnvim", vec![]),
        Some(Notify::GnvimEvent(Err("No command given".to_string())))
    );
    assert_eq!(parse_notify("other", vec![]), None);
    assert!(parse_request(vec![s("x")]).is_err());
}

#[test]
fn unknown_event_and_options() {
    let res = parse_redraw_event(vec![
        arr(vec![s("hl_group_set"), arr(vec![s("Pmenu"), i(4)])]),
        arr(vec![s("no_such_event"), i(1), s("x")]),
        arr(vec![
            s("option_set"),
            arr(vec![s("ext_tabline"), Value::Boolean(true)]),
            arr(vec![s("ext_cmdline"), Value::Boolean(false)]),
            arr(vec![s("ext_popupmenu"), Value::Boolean(true)]),
            arr(vec![s("mousemodel"), s("popup")]),
        ]),
        arr(vec![s("grid_destroy"), arr(vec![i(3)])]),
        arr(vec![s("win_close"), arr(vec![i(4)]), arr(vec![i(5)])]),
        arr(vec![s("win_hide"), arr(vec![i(6)])]),
    ]);
    assert_eq!(res.len(), 6);
    assert_eq!(res[1], RedrawEvent::Unknown("no_such_event".to_string()));
    assert_eq!(
        res[2],
        RedrawEvent::OptionSet(vec![
            OptionSet::ExtTabline(true),
            OptionSet::ExtCmdline(false),
            OptionSet::ExtPopupmenu(true),
            OptionSet::NotSupported("mousemodel".to_string()),
        ])
    );
    assert_eq!(res[3], RedrawEvent::GridDestroy(vec![3]));
    assert_eq!(res[4], RedrawEvent::WindowClose(vec![4, 5]));
    assert_eq!(res[5], RedrawEvent::WindowHide(vec![6]));
}

#[test]
fn window_events() {
    let res = parse_redraw_event(vec![
        arr(vec![s("win_pos"), arr(vec![i(2), s("w"), i(1), i(2), i(3), i(4)])]),
        arr(vec![
            s("win_float_pos"),
            arr(vec![i(3), i(7), s("SE"), i(1), i(5), Value::F64(0x4000000000000000), Value::Boolean(true)]),
        ]),
        arr(vec![s("win_external_pos"), arr(vec![i(4), i(9)])]),
        arr(vec![s("msg_set_pos"), arr(vec![i(1), i(20), Value::Boolean(false), s("-")])]),
    ]);
    assert_eq!(
        res[0],
        RedrawEvent::WindowPos(vec![WindowPos {
            grid: 2,
            win: s("w"),
            start_row: 1,
            start_col: 2,
            width: 3,
            height: 4,
        }])
    );
    assert_eq!(
        res[1],
        RedrawEvent::WindowFloatPos(vec![WindowFloatPos {
            grid: 3,
            win: i(7),
            anchor: Anchor::SE,
            anchor_grid: 1,
            anchor_row: Number::Integer(5),
            anchor_col: Number::F64(0x4000000000000000),
            focusable: true,
        }])
    );
    assert_eq!(res[2], RedrawEvent::WindowExternalPos(vec![WindowExternalPos { grid: 4, win: i(9) }]));
    assert_eq!(
        res[3],
        RedrawEvent::MsgSetPos(vec![MsgSetPos { grid: 1, row: 20, scrolled: false, sep_char: "-".into() }])
    );
    assert!(Anchor::SE.is_west() == false && Anchor::SW.is_west() && Anchor::NE.is_north());
}

#[test]
fn completion_kinds() {
    assert_eq!(CompletionItemKind::from("C"), CompletionItemKind::Class);
    assert_eq!(CompletionItemKind::from("Enum Member"), CompletionItemKind::EnumMember);
    assert_eq!(CompletionItemKind::from("k"), CompletionItemKind::Keyword);
    assert_eq!(CompletionItemKind::from("Key"), CompletionItemKind::Keyword);
    assert_eq!(CompletionItemKind::from("keyword"), CompletionItemKind::Keyword);
    assert_eq!(CompletionItemKind::from("v"), CompletionItemKind::Variable);
    assert_eq!(CompletionItemKind::from("Type Parameter"), CompletionItemKind::TypeParameter);
    assert!(CompletionItemKind::from("Keyword").is_unknown());
    assert!(!CompletionItemKind::from("text").is_unknown());
}

#[test]
fn kind_icons_and_info() {
    assert_eq!(icon_for_kind("method"), Some("box"));
    assert_eq!(icon_for_kind("enum"), Some("database"));
    assert_eq!(icon_for_kind("Method"), None);
    assert_eq!(shorten_info("first line\nsecond"), "first line");
    assert_eq!(shorten_info(""), "");
}

#[test]
fn scroll_region_area() {
    let reg = GridScrollRegion([2, 10, 0, 80]);
    let up = reg.calc_area(3);
    assert_eq!((up.src_top, up.src_bot, up.dst_top, up.dst_bot, up.clr_top, up.clr_bot), (5, 10, 2, 7, 7, 10));
    let down = reg.calc_area(-3);
    assert_eq!(
        (down.src_top, down.src_bot, down.dst_top, down.dst_bot, down.clr_top, down.clr_bot),
        (2, 7, 5, 10, 2, 5)
    );
}

#[test]
fn scroll_region_area_huge_bound() {
    // A bound above `i64::MAX` is kept as it is where the region gives it
    // unchanged, and read as an `i64` where it is moved by the count.
    let reg = GridScrollRegion([2, u64::MAX, 0, 80]);
    let up = reg.calc_area(3);
    assert_eq!(
        (up.src_top, up.src_bot, up.dst_top, up.dst_bot, up.clr_top, up.clr_bot),
        (5, u64::MAX as i128, 2, -4, -4, u64::MAX as i128)
    );
    let down = reg.calc_area(-3);
    assert_eq!(
        (down.src_top, down.src_bot, down.dst_top, down.dst_bot, down.clr_top, down.clr_bot),
        (2, -4, 5, u64::MAX as i128, 2, 5)
    );
}

#[test]
fn event_names() {
    assert_eq!(RedrawEvent::Flush().name(), "Flush");
    assert_eq!(RedrawEvent::GridClear(vec![1]).name(), "GridClear");
    assert_eq!(RedrawEvent::Unknown("foo".into()).name(), "Unknown(foo)");
}
