//! The decisions of the tab line, the popup menu and the wildmenu: which
//! tab is current, which keys move a selection, which colors a widget takes
//! and how tall a list grows.

use vstd::prelude::*;

use crate::color::{Color, HlDefs, HlGroup};
use crate::common::{
    get_preferred_horizontal_position, get_preferred_vertical_position, horizontal_fits,
    horizontal_position, min_int, vertical_fits, vertical_position, Rectangle,
};
use crate::text::{repeat_seq, repeat_str, to_string};
use crate::value::Value;

verus! {

/// The tallest the popup menu and the wildmenu grow, in pixels.
pub const MAX_HEIGHT: i32 = 500;

/// The height of a wildmenu row before there is a row to measure.
pub const DEFAULT_ROW_HEIGHT: i32 = 16;

/// `c`, or `d` where `c` is absent.
pub open spec fn or_default(c: Option<Color>, d: Color) -> Color {
    match c {
        Some(c) => c,
        None => d,
    }
}

/// The foreground of `group`'s highlight, if the group has one and it sets
/// a foreground.
pub open spec fn group_fg(hl_defs: &HlDefs, group: HlGroup) -> Option<Color> {
    match hl_defs.group_highlight(group) {
        Some(h) => h.foreground,
        None => None,
    }
}

/// The background of `group`'s highlight, if the group has one and it sets
/// a background.
pub open spec fn group_bg(hl_defs: &HlDefs, group: HlGroup) -> Option<Color> {
    match hl_defs.group_highlight(group) {
        Some(h) => h.background,
        None => None,
    }
}

/// The foreground and background of `group`'s highlight.
fn group_colors(hl_defs: &HlDefs, group: HlGroup) -> (r: (Option<Color>, Option<Color>))
    ensures
        r == (group_fg(hl_defs, group), group_bg(hl_defs, group)),
{
    match hl_defs.get_hl_group(&group) {
        Some(h) => (h.foreground, h.background),
        None => (None, None),
    }
}

/// The colors of the tab line, as its highlight groups give them.
#[derive(Clone, Copy, PartialEq, Eq, Structural, Debug)]
pub struct TablineColors {
    pub fg: Option<Color>,
    pub bg: Option<Color>,
    pub fill_fg: Option<Color>,
    pub fill_bg: Option<Color>,
    pub sel_bg: Option<Color>,
    pub sel_fg: Option<Color>,
}

impl Default for TablineColors {
    fn default() -> (c: TablineColors)
        ensures
            c == (TablineColors {
                fg: None,
                bg: None,
                fill_fg: None,
                fill_bg: None,
                sel_bg: None,
                sel_fg: None,
            }),
    {
        TablineColors { fg: None, bg: None, fill_fg: None, fill_bg: None, sel_bg: None, sel_fg: None }
    }
}

impl TablineColors {
    /// The colors of the `Tabline`, `TablineFill` and `TablineSel` groups.
    pub fn from_hl_defs(hl_defs: &HlDefs) -> (c: TablineColors)
        ensures
            c.fg == group_fg(hl_defs, HlGroup::Tabline),
            c.bg == group_bg(hl_defs, HlGroup::Tabline),
            c.fill_fg == group_fg(hl_defs, HlGroup::TablineFill),
            c.fill_bg == group_bg(hl_defs, HlGroup::TablineFill),
            c.sel_fg == group_fg(hl_defs, HlGroup::TablineSel),
            c.sel_bg == group_bg(hl_defs, HlGroup::TablineSel),
    {
        let (fg, bg) = group_colors(hl_defs, HlGroup::Tabline);
        let (fill_fg, fill_bg) = group_colors(hl_defs, HlGroup::TablineFill);
        let (sel_fg, sel_bg) = group_colors(hl_defs, HlGroup::TablineSel);
        TablineColors { fg, bg, fill_fg, fill_bg, sel_bg, sel_fg }
    }

    /// The colors the tab line is drawn with: the normal foreground and
    /// background, then the selected tab's foreground and background, each
    /// falling back to the default colors.
    pub fn style_colors(&self, hl_defs: &HlDefs) -> (r: (Color, Color, Color, Color))
        ensures
            r == (
                or_default(self.fg, hl_defs.default_fg),
                or_default(self.bg, hl_defs.default_bg),
                or_default(self.sel_fg, hl_defs.default_fg),
                or_default(self.sel_bg, hl_defs.default_bg),
            ),
    {
        (
            self.fg.unwrap_or(hl_defs.default_fg),
            self.bg.unwrap_or(hl_defs.default_bg),
            self.sel_fg.unwrap_or(hl_defs.default_fg),
            self.sel_bg.unwrap_or(hl_defs.default_bg),
        )
    }
}

/// The colors the wildmenu is drawn with: the foreground and background of
/// the `Wildmenu` group, then those of the `WildmenuSel` group, each falling
/// back to the default colors.
pub fn wildmenu_colors(hl_defs: &HlDefs) -> (r: (Color, Color, Color, Color))
    ensures
        r == (
            or_default(group_fg(hl_defs, HlGroup::Wildmenu), hl_defs.default_fg),
            or_default(group_bg(hl_defs, HlGroup::Wildmenu), hl_defs.default_bg),
            or_default(group_fg(hl_defs, HlGroup::WildmenuSel), hl_defs.default_fg),
            or_default(group_bg(hl_defs, HlGroup::WildmenuSel), hl_defs.default_bg),
        ),
{
    let (fg, bg) = group_colors(hl_defs, HlGroup::Wildmenu);
    let (sel_fg, sel_bg) = group_colors(hl_defs, HlGroup::WildmenuSel);
    (
        fg.unwrap_or(hl_defs.default_fg),
        bg.unwrap_or(hl_defs.default_bg),
        sel_fg.unwrap_or(hl_defs.default_fg),
        sel_bg.unwrap_or(hl_defs.default_bg),
    )
}

/// `r` is the page the tab line shows for `tabs` when `current` is the
/// current tab page: `None` when there are fewer than two tabs (the tab line is
/// hidden); otherwise the last tab whose handle is `current`, or the first
/// tab when none is.
pub open spec fn is_tabline_page(r: Option<usize>, current: Value, tabs: Seq<(Value, String)>) -> bool {
    &&& r is None <==> tabs.len() < 2
    &&& r matches Some(p) ==> p < tabs.len() && (forall|j: int|
        p < j < tabs.len() ==> (#[trigger] tabs[j]).0@ != current@) && (tabs[p as int].0@
        == current@ || (p == 0 && forall|j: int|
        0 <= j < tabs.len() ==> (#[trigger] tabs[j]).0@ != current@))
}

/// The page the tab line shows (see [`is_tabline_page`]).
pub fn tabline_page(current: &Value, tabs: &Vec<(Value, String)>) -> (r: Option<usize>)
    ensures
        is_tabline_page(r, *current, tabs@),
{
    if tabs.len() < 2 {
        return None;
    }
    let mut page: usize = 0;
    let ghost mut found = false;
    let mut i: usize = 0;
    while i < tabs.len()
        invariant
            0 <= i <= tabs@.len(),
            page < tabs@.len(),
            found ==> page < i && tabs@[page as int].0@ == current@ && forall|j: int|
                page < j < i ==> (#[trigger] tabs@[j]).0@ != current@,
            !found ==> page == 0 && forall|j: int| 0 <= j < i ==> (#[trigger] tabs@[j]).0@ != current@,
        decreases tabs@.len() - i,
    {
        if tabs[i].0.same_as(current) {
            page = i;
            proof {
                found = true;
            }
        }
        i += 1;
    }
    Some(page)
}

/// The distance between two rows.
pub open spec fn row_distance(from: int, to: int) -> nat {
    if to >= from {
        (to - from) as nat
    } else {
        (from - to) as nat
    }
}

/// How a selection moves from row `from` to row `to`: down (`true`) or up,
/// and by how many rows.
pub fn selection_move(from: i32, to: i32) -> (r: (bool, u32))
    ensures
        r.0 == (to > from),
        r.1 == row_distance(from as int, to as int),
{
    let d: i64 = to as i64 - from as i64;
    if d > 0 {
        (true, d as u32)
    } else {
        (false, (0 - d) as u32)
    }
}

/// The input that moves the popup menu's selection from `selected` to the
/// activated row `row`: `<C-n>` once per row down, `<C-p>` once per row up.
pub fn popupmenu_activate_keys(selected: i32, row: i32) -> (keys: String)
    ensures
        keys@ == repeat_seq(
            if row > selected {
                "<C-n>"@
            } else {
                "<C-p>"@
            },
            row_distance(selected as int, row as int),
        ),
{
    let (down, n) = selection_move(selected, row);
    let op = if down {
        "<C-n>"
    } else {
        "<C-p>"
    };
    repeat_str(op, n as usize)
}

/// The key the wildmenu sends, and how many times, to move its selection
/// from `prev` to the activated row `row`: `<Tab>` per row down, `<S-Tab>`
/// per row up.
pub fn wildmenu_activate_key(prev: i32, row: i32) -> (r: (String, u32))
    ensures
        r.0@ == (if row > prev {
            "<Tab>"@
        } else {
            "<S-Tab>"@
        }),
        r.1 == row_distance(prev as int, row as int),
{
    let (down, n) = selection_move(prev, row);
    let op = if down {
        to_string("<Tab>")
    } else {
        to_string("<S-Tab>")
    };
    (op, n)
}

/// The height of the wildmenu for `rows` rows: the height of a row (that of
/// the first row when there is one, else the default) times the number of
/// rows, at most [`MAX_HEIGHT`].
pub fn wildmenu_height(row_height: Option<i32>, rows: i32) -> (h: i32)
    requires
        i32::MIN <= (match row_height {
            Some(x) => x as int,
            None => DEFAULT_ROW_HEIGHT as int,
        }) * rows <= i32::MAX,
    ensures
        ({
            let total = (match row_height {
                Some(x) => x as int,
                None => DEFAULT_ROW_HEIGHT as int,
            }) * rows;
            h == if total < MAX_HEIGHT {
                total
            } else {
                MAX_HEIGHT as int
            }
        }),
{
    let rh: i32 = match row_height {
        Some(x) => x,
        None => DEFAULT_ROW_HEIGHT,
    };
    let total: i32 = rh * rows;
    if total < MAX_HEIGHT {
        total
    } else {
        MAX_HEIGHT
    }
}

/// Where the popup menu stands in `area` next to the anchor cell `anchor`,
/// for its width and the height its contents ask for (at most
/// [`MAX_HEIGHT`]): the rectangle it takes, and whether it stands above the
/// anchor (its contents are then aligned to its bottom).
pub fn popupmenu_placement(area: &Rectangle, anchor: &Rectangle, width: i32, height: i32) -> (r: (
    Rectangle,
    bool,
))
    requires
        horizontal_fits(*area, *anchor, width),
        vertical_fits(*area, *anchor, min_int(height as int, MAX_HEIGHT as int) as i32),
    ensures
        (r.0.x as int, r.0.width as int) == horizontal_position(*area, *anchor, width),
        (r.0.y as int, r.0.height as int) == vertical_position(
            *area,
            *anchor,
            min_int(height as int, MAX_HEIGHT as int) as i32,
        ),
        r.1 == (r.0.y < anchor.y),
{
    let h = if height < MAX_HEIGHT {
        height
    } else {
        MAX_HEIGHT
    };
    let (x, w) = get_preferred_horizontal_position(area, anchor, width);
    let (y, h) = get_preferred_vertical_position(area, anchor, h);
    (Rectangle { x, y, width: w, height: h }, y < anchor.y)
}

/// The text of the popup menu's details label for an item: its `menu`, a
/// line break when both parts are present, then its `info`.
pub fn info_text(menu: &str, info: &str) -> (r: String)
    ensures
        r@ == menu@ + (if menu@.len() > 0 && info@.len() > 0 {
            seq!['\n']
        } else {
            Seq::<char>::empty()
        }) + info@,
{
    let mut r = to_string(menu);
    if menu.unicode_len() > 0 && info.unicode_len() > 0 {
        r.append("\n");
        proof {
            reveal_strlit("\n");
        }
    }
    r.append(info);
    r
}

/// The details label is shown when the details are toggled on and the item
/// has a `menu` or an `info`.
pub fn info_label_visible(info_shown: bool, menu: &str, info: &str) -> (r: bool)
    ensures
        r == (info_shown && (menu@.len() > 0 || info@.len() > 0)),
{
    info_shown && (menu.unicode_len() > 0 || info.unicode_len() > 0)
}

} // verus!
