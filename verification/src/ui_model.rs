//! The state of the UI that the redraw events change: the rows and cursor
//! of each grid, the highlights, the modes, the font and line space, and
//! what the widgets show. Each call of an event is a transition of this
//! state, stated by a pair of spec functions (`*_pre`, what the call needs,
//! and `*_post`, how the state after it relates to the state before);
//! [`UiModel::apply`] applies the calls of a redraw event in order.

use vstd::prelude::*;

use vstd::utf8::*;
use vstd::string::*;

use crate::cmdline::{prompt_text, segments_text, CmdlineInput};
use crate::color::{named_groups, set_groups, Color, HlDefs, HlGroup, Highlight};
use crate::font::{opts_height, same_font, Font};
use crate::grid::{can_scroll, clear, resize, scroll, scroll_ok};
use crate::nvim_bridge::{
    CmdlinePos, CmdlineShow, DefaultColorsSet, GridCursorGoto, GridLineSegment, GridResize,
    GridScroll, HlAttrDefine, HlGroupSet, ModeChange, ModeInfo, ModeInfoSet, OptionSet,
    RedrawEvent, TablineUpdate,
};
use crate::row::{cells_fit, cells_hl, cells_text, zeros, Row};
use crate::text::{blanks, char_count, split_seq, strings_view, to_string};
use crate::value::Value;
use crate::widgets::{
    group_bg, group_fg, is_tabline_page, or_default, tabline_page, wildmenu_colors, TablineColors,
};

verus! {

/// The text model of one grid.
pub struct GridModel {
    pub id: i64,
    pub rows: Vec<Row>,
    /// Row and column of the cursor.
    pub cursor: (u64, u64),
    pub active: bool,
}

/// A font and line space that take effect on the next flush.
pub struct PendingResize {
    pub font: Font,
    pub line_space: i64,
}

/// What the widgets show: the `ext_*` options, the tab line, the colors
/// of the tab line and the wildmenu, and the command line.
pub struct WidgetState {
    pub ext_tabline: bool,
    pub ext_cmdline: bool,
    pub ext_popupmenu: bool,
    /// The page the tab line shows; `None` while it is hidden.
    pub tabline_page: Option<usize>,
    /// The names of the tabs.
    pub tab_names: Vec<String>,
    pub tabline_colors: TablineColors,
    /// Foreground, background, selected foreground, selected background.
    pub wildmenu_colors: Option<(Color, Color, Color, Color)>,
    pub cmdline: CmdlineInput,
    /// The prompt of the command line shown; `None` while it is hidden.
    pub cmdline_prompt: Option<String>,
    /// The cursor's place in characters from the start of the command line.
    pub cmdline_cursor: usize,
}

/// The state of the UI.
pub struct UiModel {
    pub grids: Vec<GridModel>,
    pub hl_defs: HlDefs,
    pub mode_infos: Vec<ModeInfo>,
    pub mode: Option<ModeInfo>,
    pub current_grid: i64,
    pub title: String,
    pub busy: bool,
    pub font: Font,
    pub line_space: i64,
    pub resize_on_flush: Option<PendingResize>,
    pub hl_groups_changed: bool,
    pub widgets: WidgetState,
}

/// The grid `id` exists.
pub open spec fn has_grid(gs: Seq<GridModel>, id: i64) -> bool {
    exists|i: int| 0 <= i < gs.len() && (#[trigger] gs[i]).id == id
}

/// The position of the grid `id`: the first grid with that id.
pub open spec fn grid_index(gs: Seq<GridModel>, id: i64) -> int {
    choose|i: int|
        0 <= i < gs.len() && (#[trigger] gs[i]).id == id && forall|k: int|
            0 <= k < i ==> (#[trigger] gs[k]).id != id
}

/// `b` is `a` with the grid at `i` replaced by `g`: every other grid is
/// unchanged.
pub open spec fn only_grid_changed(a: Seq<GridModel>, b: Seq<GridModel>, i: int, g: GridModel) -> bool {
    &&& b.len() == a.len()
    &&& b[i] == g
    &&& forall|j: int| 0 <= j < a.len() && j != i ==> #[trigger] b[j] == a[j]
}

/// The rows of a grid after `Row::update` wrote `line` to row `r`: the
/// row reads the cells' characters and highlights from `col_start` on
/// and stays as wide; the other rows are unchanged.
pub open spec fn line_written(old_rows: Seq<Row>, new_rows: Seq<Row>, r: int, line: GridLineSegment) -> bool {
    let old_row = old_rows[r];
    let new_row = new_rows[r];
    let c = line.col_start as int;
    let e = c + cells_text(line.cells@).len();
    &&& new_rows.len() == old_rows.len()
    &&& new_row.wf()
    &&& new_row.width() == old_row.width()
    &&& new_row.text_seq() == old_row.text_seq().take(c) + cells_text(line.cells@)
        + old_row.text_seq().skip(e)
    &&& new_row.hl_seq() == old_row.hl_seq().take(c) + cells_hl(line.cells@)
        + old_row.hl_seq().skip(e)
    &&& forall|k: int| 0 <= k < old_rows.len() && k != r ==> #[trigger] new_rows[k] == old_rows[k]
}

/// The font that the `guifont` value `f` sets: the parsed font, or the
/// default font when the value is invalid.
pub open spec fn guifont_font(f: Seq<char>, font: Font) -> bool {
    match opts_height(split_seq(f, ':').drop_first()) {
        Some(h) => font.name@ == split_seq(f, ':')[0] && font.height == h,
        None => font.name@ == "Monospace"@ && font.height == crate::font::DEFAULT_HEIGHT,
    }
}


/// `grid_line`: the row exists, is well formed and not empty, and the
/// cells fit in it from their first column.
pub open spec fn grid_line_pre(m: UiModel, line: GridLineSegment) -> bool {
    &&& has_grid(m.grids@, line.grid)
    &&& {
        let g = m.grids@[grid_index(m.grids@, line.grid)];
        &&& line.row < g.rows@.len()
        &&& g.rows@[line.row as int].wf()
        &&& g.rows@[line.row as int].width() > 0
        &&& cells_fit(line.cells@)
        &&& line.col_start + cells_text(line.cells@).len() <= g.rows@[line.row as int].width()
    }
}

/// `grid_line`: the cells are written to the row; nothing else changes.
pub open spec fn grid_line_post(a: UiModel, b: UiModel, line: GridLineSegment) -> bool {
    &&& {
        let i = grid_index(a.grids@, line.grid);
        let g = a.grids@[i];
        let ng = b.grids@[i];
        &&& only_grid_changed(a.grids@, b.grids@, i, ng)
        &&& ng.id == g.id && ng.cursor == g.cursor && ng.active == g.active
        &&& line_written(g.rows@, ng.rows@, line.row as int, line)
    }
    &&& b == UiModel { grids: b.grids, ..a }
}

/// `grid_resize`: the grid exists and the width fits in memory.
pub open spec fn grid_resize_pre(m: UiModel, grid: i64, width: u64) -> bool {
    has_grid(m.grids@, grid) && width <= usize::MAX
}

/// `grid_resize`: the grid gets `height` blank rows of `width` columns;
/// nothing else changes.
pub open spec fn grid_resize_post(a: UiModel, b: UiModel, grid: i64, width: u64, height: u64) -> bool {
    &&& {
        let i = grid_index(a.grids@, grid);
        let g = a.grids@[i];
        let ng = b.grids@[i];
        &&& only_grid_changed(a.grids@, b.grids@, i, ng)
        &&& ng.id == g.id && ng.cursor == g.cursor && ng.active == g.active
        &&& ng.rows@.len() == height
        &&& forall|k: int|
            0 <= k < height ==> (#[trigger] ng.rows@[k]).wf() && ng.rows@[k].width() == width
                && ng.rows@[k].text_seq() == blanks(width as nat) && ng.rows@[k].hl_seq() == zeros(
                width as nat,
            )
    }
    &&& b == UiModel { grids: b.grids, ..a }
}

/// `grid_clear`: every row of the grid is blanked; nothing else changes.
pub open spec fn grid_clear_post(a: UiModel, b: UiModel, grid: i64) -> bool {
    &&& {
        let i = grid_index(a.grids@, grid);
        let g = a.grids@[i];
        let ng = b.grids@[i];
        &&& only_grid_changed(a.grids@, b.grids@, i, ng)
        &&& ng.id == g.id && ng.cursor == g.cursor && ng.active == g.active
        &&& ng.rows@.len() == g.rows@.len()
        &&& forall|k: int|
            0 <= k < g.rows@.len() ==> (#[trigger] ng.rows@[k]).wf() && ng.rows@[k].width()
                == g.rows@[k].width() && ng.rows@[k].text_seq() == blanks(g.rows@[k].width())
                && ng.rows@[k].hl_seq() == zeros(g.rows@[k].width())
    }
    &&& b == UiModel { grids: b.grids, ..a }
}

/// `grid_scroll`: the grid exists and the scroll stays within its rows.
pub open spec fn grid_scroll_pre(m: UiModel, grid: i64, reg: [u64; 4], count: i64) -> bool {
    &&& has_grid(m.grids@, grid)
    &&& scroll_ok(m.grids@[grid_index(m.grids@, grid)].rows@, reg, count)
}

/// `grid_scroll`: the region is scrolled (see [`crate::grid::scrolled`]);
/// nothing else changes.
pub open spec fn grid_scroll_post(a: UiModel, b: UiModel, grid: i64, reg: [u64; 4], count: i64) -> bool {
    &&& {
        let i = grid_index(a.grids@, grid);
        let g = a.grids@[i];
        let ng = b.grids@[i];
        &&& only_grid_changed(a.grids@, b.grids@, i, ng)
        &&& ng.id == g.id && ng.cursor == g.cursor && ng.active == g.active
        &&& crate::grid::scrolled(g.rows@, ng.rows@, reg, count)
    }
    &&& b == UiModel { grids: b.grids, ..a }
}

/// `grid_cursor_goto`: the grid exists, and so does the current grid when
/// the cursor leaves it.
pub open spec fn grid_cursor_goto_pre(m: UiModel, grid: i64) -> bool {
    &&& has_grid(m.grids@, grid)
    &&& grid != m.current_grid ==> has_grid(m.grids@, m.current_grid)
}

/// `grid_cursor_goto`: the cursor moves to `row`, `col` of the grid, which
/// becomes the current grid; when it was not, the previous current grid
/// becomes inactive and this one active. Nothing else changes.
pub open spec fn grid_cursor_goto_post(a: UiModel, b: UiModel, grid: i64, row: u64, col: u64) -> bool {
    &&& b.current_grid == grid
    &&& b.grids@.len() == a.grids@.len()
    &&& {
        let i = grid_index(a.grids@, grid);
        let c = grid_index(a.grids@, a.current_grid);
        let changed = grid != a.current_grid;
        forall|j: int|
            #![trigger b.grids@[j]]
            0 <= j < a.grids@.len() ==> {
                let g = a.grids@[j];
                let ng = b.grids@[j];
                &&& ng.id == g.id
                &&& ng.rows == g.rows
                &&& ng.cursor == (if j == i {
                    (row, col)
                } else {
                    g.cursor
                })
                &&& ng.active == (if changed && j == i {
                    true
                } else if changed && j == c {
                    false
                } else {
                    g.active
                })
            }
    }
    &&& b == UiModel { grids: b.grids, current_grid: b.current_grid, ..a }
}

/// `default_colors_set`: the highlight 0 is defined.
pub open spec fn default_colors_set_pre(m: UiModel) -> bool {
    m.hl_defs.hl_defs@.contains_key(0)
}

/// `default_colors_set`: the default colors become `fg`, `bg`, `sp`, and
/// so do the colors of the highlight 0; nothing else changes.
pub open spec fn default_colors_set_post(a: UiModel, b: UiModel, fg: Color, bg: Color, sp: Color) -> bool {
    &&& b.hl_defs.default_fg == fg
    &&& b.hl_defs.default_bg == bg
    &&& b.hl_defs.default_sp == sp
    &&& b.hl_defs.hl_defs@ == a.hl_defs.hl_defs@.insert(
        0,
        Highlight { foreground: Some(fg), background: Some(bg), special: Some(sp), ..a.hl_defs.hl_defs@[0] },
    )
    &&& b.hl_defs.hl_groups@ == a.hl_defs.hl_groups@
    &&& b == UiModel { hl_defs: b.hl_defs, ..a }
}

/// `hl_attr_define`: the highlight `id` is defined as `hl`; nothing else
/// changes.
pub open spec fn hl_attr_define_post(a: UiModel, b: UiModel, id: u64, hl: Highlight) -> bool {
    &&& b.hl_defs.hl_defs@ == a.hl_defs.hl_defs@.insert(id, hl)
    &&& b.hl_defs.hl_groups@ == a.hl_defs.hl_groups@
    &&& b.hl_defs.default_fg == a.hl_defs.default_fg
    &&& b.hl_defs.default_bg == a.hl_defs.default_bg
    &&& b.hl_defs.default_sp == a.hl_defs.default_sp
    &&& b == UiModel { hl_defs: b.hl_defs, ..a }
}

/// `hl_group_set`: the widget groups that follow the Neovim group `name`
/// take the highlight `hl_id`, and the widget colors are to be updated on
/// the next flush; nothing else changes.
pub open spec fn hl_group_set_post(a: UiModel, b: UiModel, name: Seq<char>, hl_id: u64) -> bool {
    &&& b.hl_defs.hl_groups@ == set_groups(a.hl_defs.hl_groups@, named_groups(name), hl_id)
    &&& b.hl_defs.hl_defs@ == a.hl_defs.hl_defs@
    &&& b.hl_defs.default_fg == a.hl_defs.default_fg
    &&& b.hl_defs.default_bg == a.hl_defs.default_bg
    &&& b.hl_defs.default_sp == a.hl_defs.default_sp
    &&& b.hl_groups_changed
    &&& b == UiModel { hl_defs: b.hl_defs, hl_groups_changed: b.hl_groups_changed, ..a }
}

/// `option_set` of `guifont`: the font the value names (the default font
/// when it is invalid) is pending for the next flush, with the line space
/// that is pending or current; nothing else changes.
pub open spec fn set_guifont_post(a: UiModel, b: UiModel, guifont: Seq<char>) -> bool {
    &&& b.resize_on_flush matches Some(p) && guifont_font(guifont, p.font) && p.line_space
        == match a.resize_on_flush {
        Some(q) => q.line_space,
        None => a.line_space,
    }
    &&& b == UiModel { resize_on_flush: b.resize_on_flush, ..a }
}

/// `option_set` of `linespace`: the line space is pending for the next
/// flush, with the font that is pending or current; nothing else changes.
pub open spec fn set_line_space_post(a: UiModel, b: UiModel, line_space: i64) -> bool {
    &&& b.resize_on_flush matches Some(p) && p.line_space == line_space && same_font(
        p.font,
        match a.resize_on_flush {
            Some(q) => q.font,
            None => a.font,
        },
    )
    &&& b == UiModel { resize_on_flush: b.resize_on_flush, ..a }
}

/// `option_set`: the font, the line space, or one of the `ext_*` flags;
/// an option this UI does not handle changes nothing.
pub open spec fn option_set_post(a: UiModel, b: UiModel, opt: OptionSet) -> bool {
    match opt {
        OptionSet::GuiFont(f) => set_guifont_post(a, b, f@),
        OptionSet::LineSpace(v) => set_line_space_post(a, b, v),
        OptionSet::ExtTabline(v) => b == UiModel {
            widgets: WidgetState { ext_tabline: v, ..a.widgets },
            ..a
        },
        OptionSet::ExtCmdline(v) => b == UiModel {
            widgets: WidgetState { ext_cmdline: v, ..a.widgets },
            ..a
        },
        OptionSet::ExtPopupmenu(v) => b == UiModel {
            widgets: WidgetState { ext_popupmenu: v, ..a.widgets },
            ..a
        },
        OptionSet::NotSupported(_) => b == a,
    }
}

/// `flush`: a pending font and line space take effect; when the widget
/// groups changed, the tab line and wildmenu colors are taken from them
/// again. Nothing else changes.
pub open spec fn flush_post(a: UiModel, b: UiModel) -> bool {
    &&& b.resize_on_flush is None
    &&& !b.hl_groups_changed
    &&& match a.resize_on_flush {
        Some(p) => b.font == p.font && b.line_space == p.line_space,
        None => b.font == a.font && b.line_space == a.line_space,
    }
    &&& if a.hl_groups_changed {
        &&& b.widgets.tabline_colors == (TablineColors {
            fg: group_fg(&a.hl_defs, HlGroup::Tabline),
            bg: group_bg(&a.hl_defs, HlGroup::Tabline),
            fill_fg: group_fg(&a.hl_defs, HlGroup::TablineFill),
            fill_bg: group_bg(&a.hl_defs, HlGroup::TablineFill),
            sel_bg: group_bg(&a.hl_defs, HlGroup::TablineSel),
            sel_fg: group_fg(&a.hl_defs, HlGroup::TablineSel),
        })
        &&& b.widgets.wildmenu_colors == Some((
            or_default(group_fg(&a.hl_defs, HlGroup::Wildmenu), a.hl_defs.default_fg),
            or_default(group_bg(&a.hl_defs, HlGroup::Wildmenu), a.hl_defs.default_bg),
            or_default(group_fg(&a.hl_defs, HlGroup::WildmenuSel), a.hl_defs.default_fg),
            or_default(group_bg(&a.hl_defs, HlGroup::WildmenuSel), a.hl_defs.default_bg),
        ))
        &&& b.widgets == WidgetState {
            tabline_colors: b.widgets.tabline_colors,
            wildmenu_colors: b.widgets.wildmenu_colors,
            ..a.widgets
        }
    } else {
        b.widgets == a.widgets
    }
    &&& b == UiModel {
        resize_on_flush: b.resize_on_flush,
        hl_groups_changed: b.hl_groups_changed,
        font: b.font,
        line_space: b.line_space,
        widgets: b.widgets,
        ..a
    }
}

/// `mode_info_set`: the modes that `mode_change` picks from; nothing else
/// changes.
pub open spec fn mode_info_set_post(a: UiModel, b: UiModel, modes: Seq<ModeInfo>) -> bool {
    &&& b.mode_infos@ == modes
    &&& b == UiModel { mode_infos: b.mode_infos, ..a }
}

/// `mode_change`: the mode exists.
pub open spec fn mode_change_pre(m: UiModel, index: u64) -> bool {
    index < m.mode_infos@.len()
}

/// `mode_change`: the mode at `index` becomes the current mode; nothing
/// else changes.
pub open spec fn mode_change_post(a: UiModel, b: UiModel, index: u64) -> bool {
    b == UiModel { mode: Some(a.mode_infos@[index as int]), ..a }
}

/// `set_title`: the title; nothing else changes.
pub open spec fn set_title_post(a: UiModel, b: UiModel, title: Seq<char>) -> bool {
    &&& b.title@ == title
    &&& b == UiModel { title: b.title, ..a }
}

/// `tabline_update`: the tab line's page (see
/// [`crate::widgets::is_tabline_page`]) and the names of the tabs; nothing
/// else changes.
pub open spec fn tabline_update_post(a: UiModel, b: UiModel, u: TablineUpdate) -> bool {
    &&& is_tabline_page(b.widgets.tabline_page, u.current, u.tabs@)
    &&& strings_view(b.widgets.tab_names@) == u.tabs@.map_values(|t: (Value, String)| t.1@)
    &&& b == UiModel {
        widgets: WidgetState {
            tabline_page: b.widgets.tabline_page,
            tab_names: b.widgets.tab_names,
            ..a.widgets
        },
        ..a
    }
}

/// `cmdline_show`: the cursor stands on a character boundary of the
/// content, and the prompt and content together have a length.
pub open spec fn cmdline_show_pre(show: CmdlineShow) -> bool {
    &&& is_char_boundary(encode_utf8(segments_text(show.content@)), (show.pos as usize) as int)
    &&& prompt_text(&show).len() + segments_text(show.content@).len() <= usize::MAX
}

/// `cmdline_show`: the command line shows the prompt, the content, its
/// level and cursor (see [`CmdlineInput::set_text`]); nothing else changes.
pub open spec fn cmdline_show_post(a: UiModel, b: UiModel, show: CmdlineShow) -> bool {
    let c = b.widgets.cmdline;
    &&& c.prompt_len == prompt_text(&show).len()
    &&& c.content@ == segments_text(show.content@)
    &&& c.current_level == show.level
    &&& c.cursor_pos == show.pos as usize
    &&& b.widgets.cmdline_prompt matches Some(p) && p@ == prompt_text(&show)
    &&& b.widgets.cmdline_cursor == c.spec_cursor_offset()
    &&& b == UiModel {
        widgets: WidgetState {
            cmdline: b.widgets.cmdline,
            cmdline_prompt: b.widgets.cmdline_prompt,
            cmdline_cursor: b.widgets.cmdline_cursor,
            ..a.widgets
        },
        ..a
    }
}

/// `cmdline_pos`: at the level shown, the cursor stands on a character
/// boundary of the content, and the prompt and content together have a
/// length.
pub open spec fn cmdline_pos_pre(m: UiModel, p: CmdlinePos) -> bool {
    let c = m.widgets.cmdline;
    p.level == c.current_level ==> is_char_boundary(encode_utf8(c.content@), (p.pos as usize) as int)
        && c.prompt_len + c.content@.len() <= usize::MAX
}

/// `cmdline_pos`: at the level shown, the cursor moves to the byte `pos`;
/// at another level nothing changes.
pub open spec fn cmdline_pos_post(a: UiModel, b: UiModel, p: CmdlinePos) -> bool {
    let c = a.widgets.cmdline;
    if p.level == c.current_level {
        &&& b.widgets.cmdline == CmdlineInput { cursor_pos: p.pos as usize, ..c }
        &&& b.widgets.cmdline_cursor == b.widgets.cmdline.spec_cursor_offset()
        &&& b == UiModel {
            widgets: WidgetState {
                cmdline: b.widgets.cmdline,
                cmdline_cursor: b.widgets.cmdline_cursor,
                ..a.widgets
            },
            ..a
        }
    } else {
        b == a
    }
}

/// `st` are the states that the calls `cs` of a `GridLine` event pass
/// through, one `grid_line` after another: the first `st.len() - 1` calls were
/// made, each from a state in which it could be; with `failed`, the call after them could
/// not be made in the last state.
pub open spec fn grid_lines_applied(st: Seq<UiModel>, cs: Seq<GridLineSegment>, failed: Option<usize>) -> bool {
    let n = match failed {
        Some(k) => k as int,
        None => cs.len() as int,
    };
    &&& n <= cs.len()
    &&& st.len() == n + 1
    &&& forall|i: int| #![trigger cs[i]] 0 <= i < n ==> grid_line_pre(st[i], cs[i]) && grid_line_post(st[i], st[i + 1], cs[i])
    &&& failed matches Some(k) ==> !grid_line_pre(st[k as int], cs[k as int])
}

/// `st` are the states that the calls `cs` of a `GridResize` event pass
/// through, one `grid_resize` after another: the first `st.len() - 1` calls were
/// made, each from a state in which it could be; with `failed`, the call after them could
/// not be made in the last state.
pub open spec fn grid_resizes_applied(st: Seq<UiModel>, cs: Seq<GridResize>, failed: Option<usize>) -> bool {
    let n = match failed {
        Some(k) => k as int,
        None => cs.len() as int,
    };
    &&& n <= cs.len()
    &&& st.len() == n + 1
    &&& forall|i: int| #![trigger cs[i]] 0 <= i < n ==> grid_resize_pre(st[i], cs[i].grid, cs[i].width) && grid_resize_post(st[i], st[i + 1], cs[i].grid, cs[i].width, cs[i].height)
    &&& failed matches Some(k) ==> !grid_resize_pre(st[k as int], cs[k as int].grid, cs[k as int].width)
}

/// `st` are the states that the calls `cs` of a `GridClear` event pass
/// through, one `grid_clear` after another: the first `st.len() - 1` calls were
/// made, each from a state in which it could be; with `failed`, the call after them could
/// not be made in the last state.
pub open spec fn grid_clears_applied(st: Seq<UiModel>, cs: Seq<i64>, failed: Option<usize>) -> bool {
    let n = match failed {
        Some(k) => k as int,
        None => cs.len() as int,
    };
    &&& n <= cs.len()
    &&& st.len() == n + 1
    &&& forall|i: int| #![trigger cs[i]] 0 <= i < n ==> has_grid(st[i].grids@, cs[i]) && grid_clear_post(st[i], st[i + 1], cs[i])
    &&& failed matches Some(k) ==> !has_grid(st[k as int].grids@, cs[k as int])
}

/// `st` are the states that the calls `cs` of a `GridScroll` event pass
/// through, one `grid_scroll` after another: the first `st.len() - 1` calls were
/// made, each from a state in which it could be; with `failed`, the call after them could
/// not be made in the last state.
pub open spec fn grid_scrolls_applied(st: Seq<UiModel>, cs: Seq<GridScroll>, failed: Option<usize>) -> bool {
    let n = match failed {
        Some(k) => k as int,
        None => cs.len() as int,
    };
    &&& n <= cs.len()
    &&& st.len() == n + 1
    &&& forall|i: int| #![trigger cs[i]] 0 <= i < n ==> grid_scroll_pre(st[i], cs[i].grid, cs[i].reg.0, cs[i].rows) && grid_scroll_post(st[i], st[i + 1], cs[i].grid, cs[i].reg.0, cs[i].rows)
    &&& failed matches Some(k) ==> !grid_scroll_pre(st[k as int], cs[k as int].grid, cs[k as int].reg.0, cs[k as int].rows)
}

/// `st` are the states that the calls `cs` of a `GridCursorGoto` event pass
/// through, one `grid_cursor_goto` after another: the first `st.len() - 1` calls were
/// made, each from a state in which it could be; with `failed`, the call after them could
/// not be made in the last state.
pub open spec fn cursor_gotos_applied(st: Seq<UiModel>, cs: Seq<GridCursorGoto>, failed: Option<usize>) -> bool {
    let n = match failed {
        Some(k) => k as int,
        None => cs.len() as int,
    };
    &&& n <= cs.len()
    &&& st.len() == n + 1
    &&& forall|i: int| #![trigger cs[i]] 0 <= i < n ==> grid_cursor_goto_pre(st[i], cs[i].grid) && grid_cursor_goto_post(st[i], st[i + 1], cs[i].grid, cs[i].row, cs[i].col)
    &&& failed matches Some(k) ==> !grid_cursor_goto_pre(st[k as int], cs[k as int].grid)
}

/// `st` are the states that the calls `cs` of a `DefaultColorsSet` event pass
/// through, one `default_colors_set` after another: the first `st.len() - 1` calls were
/// made, each from a state in which it could be; with `failed`, the call after them could
/// not be made in the last state.
pub open spec fn default_colors_applied(st: Seq<UiModel>, cs: Seq<DefaultColorsSet>, failed: Option<usize>) -> bool {
    let n = match failed {
        Some(k) => k as int,
        None => cs.len() as int,
    };
    &&& n <= cs.len()
    &&& st.len() == n + 1
    &&& forall|i: int| 0 <= i < n ==> #[trigger] default_colors_set_pre(st[i]) && default_colors_set_post(st[i], st[i + 1], cs[i].fg, cs[i].bg, cs[i].sp)
    &&& failed matches Some(k) ==> !default_colors_set_pre(st[k as int])
}

/// `st` are the states that the calls `cs` of a `HlAttrDefine` event pass
/// through, one `hl_attr_define` after another: the first `st.len() - 1` calls were
/// made; with `failed`, the call after them could
/// not be made in the last state.
pub open spec fn hl_attrs_applied(st: Seq<UiModel>, cs: Seq<HlAttrDefine>, failed: Option<usize>) -> bool {
    let n = match failed {
        Some(k) => k as int,
        None => cs.len() as int,
    };
    &&& n <= cs.len()
    &&& st.len() == n + 1
    &&& forall|i: int| #![trigger cs[i]] 0 <= i < n ==> hl_attr_define_post(st[i], st[i + 1], cs[i].id, cs[i].hl)
    &&& failed is None
}

/// `st` are the states that the calls `cs` of a `HlGroupSet` event pass
/// through, one `hl_group_set` after another: the first `st.len() - 1` calls were
/// made; with `failed`, the call after them could
/// not be made in the last state.
pub open spec fn hl_groups_applied(st: Seq<UiModel>, cs: Seq<HlGroupSet>, failed: Option<usize>) -> bool {
    let n = match failed {
        Some(k) => k as int,
        None => cs.len() as int,
    };
    &&& n <= cs.len()
    &&& st.len() == n + 1
    &&& forall|i: int| #![trigger cs[i]] 0 <= i < n ==> hl_group_set_post(st[i], st[i + 1], cs[i].name@, cs[i].hl_id)
    &&& failed is None
}

/// `st` are the states that the calls `cs` of a `OptionSet` event pass
/// through, one `option_set` after another: the first `st.len() - 1` calls were
/// made; with `failed`, the call after them could
/// not be made in the last state.
pub open spec fn options_applied(st: Seq<UiModel>, cs: Seq<OptionSet>, failed: Option<usize>) -> bool {
    let n = match failed {
        Some(k) => k as int,
        None => cs.len() as int,
    };
    &&& n <= cs.len()
    &&& st.len() == n + 1
    &&& forall|i: int| #![trigger cs[i]] 0 <= i < n ==> option_set_post(st[i], st[i + 1], cs[i])
    &&& failed is None
}

/// `st` are the states that the calls `cs` of a `ModeInfoSet` event pass
/// through, one `mode_info_set` after another: the first `st.len() - 1` calls were
/// made; with `failed`, the call after them could
/// not be made in the last state.
pub open spec fn mode_info_sets_applied(st: Seq<UiModel>, cs: Seq<ModeInfoSet>, failed: Option<usize>) -> bool {
    let n = match failed {
        Some(k) => k as int,
        None => cs.len() as int,
    };
    &&& n <= cs.len()
    &&& st.len() == n + 1
    &&& forall|i: int| #![trigger cs[i]] 0 <= i < n ==> mode_info_set_post(st[i], st[i + 1], cs[i].mode_info@)
    &&& failed is None
}

/// `st` are the states that the calls `cs` of a `ModeChange` event pass
/// through, one `mode_change` after another: the first `st.len() - 1` calls were
/// made, each from a state in which it could be; with `failed`, the call after them could
/// not be made in the last state.
pub open spec fn mode_changes_applied(st: Seq<UiModel>, cs: Seq<ModeChange>, failed: Option<usize>) -> bool {
    let n = match failed {
        Some(k) => k as int,
        None => cs.len() as int,
    };
    &&& n <= cs.len()
    &&& st.len() == n + 1
    &&& forall|i: int| #![trigger cs[i]] 0 <= i < n ==> mode_change_pre(st[i], cs[i].index) && mode_change_post(st[i], st[i + 1], cs[i].index)
    &&& failed matches Some(k) ==> !mode_change_pre(st[k as int], cs[k as int].index)
}

/// `st` are the states that the calls `cs` of a `SetTitle` event pass
/// through, one `set_title` after another: the first `st.len() - 1` calls were
/// made; with `failed`, the call after them could
/// not be made in the last state.
pub open spec fn titles_applied(st: Seq<UiModel>, cs: Seq<String>, failed: Option<usize>) -> bool {
    let n = match failed {
        Some(k) => k as int,
        None => cs.len() as int,
    };
    &&& n <= cs.len()
    &&& st.len() == n + 1
    &&& forall|i: int| #![trigger cs[i]] 0 <= i < n ==> set_title_post(st[i], st[i + 1], cs[i]@)
    &&& failed is None
}

/// `st` are the states that the calls `cs` of a `TablineUpdate` event pass
/// through, one `tabline_update` after another: the first `st.len() - 1` calls were
/// made; with `failed`, the call after them could
/// not be made in the last state.
pub open spec fn tabline_updates_applied(st: Seq<UiModel>, cs: Seq<TablineUpdate>, failed: Option<usize>) -> bool {
    let n = match failed {
        Some(k) => k as int,
        None => cs.len() as int,
    };
    &&& n <= cs.len()
    &&& st.len() == n + 1
    &&& forall|i: int| #![trigger cs[i]] 0 <= i < n ==> tabline_update_post(st[i], st[i + 1], cs[i])
    &&& failed is None
}

/// `st` are the states that the calls `cs` of a `CmdlineShow` event pass
/// through, one `cmdline_show` after another: the first `st.len() - 1` calls were
/// made, each from a state in which it could be; with `failed`, the call after them could
/// not be made in the last state.
pub open spec fn cmdline_shows_applied(st: Seq<UiModel>, cs: Seq<CmdlineShow>, failed: Option<usize>) -> bool {
    let n = match failed {
        Some(k) => k as int,
        None => cs.len() as int,
    };
    &&& n <= cs.len()
    &&& st.len() == n + 1
    &&& forall|i: int| #![trigger cs[i]] 0 <= i < n ==> cmdline_show_pre(cs[i]) && cmdline_show_post(st[i], st[i + 1], cs[i])
    &&& failed matches Some(k) ==> !cmdline_show_pre(cs[k as int])
}

/// `st` are the states that the calls `cs` of a `CmdlinePos` event pass
/// through, one `cmdline_pos` after another: the first `st.len() - 1` calls were
/// made, each from a state in which it could be; with `failed`, the call after them could
/// not be made in the last state.
pub open spec fn cmdline_poss_applied(st: Seq<UiModel>, cs: Seq<CmdlinePos>, failed: Option<usize>) -> bool {
    let n = match failed {
        Some(k) => k as int,
        None => cs.len() as int,
    };
    &&& n <= cs.len()
    &&& st.len() == n + 1
    &&& forall|i: int| #![trigger cs[i]] 0 <= i < n ==> cmdline_pos_pre(st[i], cs[i]) && cmdline_pos_post(st[i], st[i + 1], cs[i])
    &&& failed matches Some(k) ==> !cmdline_pos_pre(st[k as int], cs[k as int])
}

impl UiModel {
    /// The state before the first event: grid 1, current and empty; the
    /// popup menu, tab line and command line drawn by the UI.
    pub fn new() -> (m: UiModel)
        ensures
            m.grids@.len() == 1,
            m.grids@[0].id == 1,
            m.grids@[0].rows@.len() == 0,
            m.grids@[0].active,
            m.current_grid == 1,
            m.mode_infos@.len() == 0,
            m.mode is None,
            m.resize_on_flush is None,
            !m.busy,
            !m.hl_groups_changed,
            m.line_space == 0,
            m.widgets.ext_tabline && m.widgets.ext_cmdline && m.widgets.ext_popupmenu,
            m.widgets.tabline_page is None,
            m.widgets.cmdline_prompt is None,
    {
        let mut grids: Vec<GridModel> = Vec::new();
        grids.push(GridModel { id: 1, rows: Vec::new(), cursor: (0, 0), active: true });
        UiModel {
            grids,
            hl_defs: HlDefs::default(),
            mode_infos: Vec::new(),
            mode: None,
            current_grid: 1,
            title: String::new(),
            busy: false,
            font: Font::default(),
            line_space: 0,
            resize_on_flush: None,
            hl_groups_changed: false,
            widgets: WidgetState {
                ext_tabline: true,
                ext_cmdline: true,
                ext_popupmenu: true,
                tabline_page: None,
                tab_names: Vec::new(),
                tabline_colors: TablineColors::default(),
                wildmenu_colors: None,
                cmdline: CmdlineInput::new(),
                cmdline_prompt: None,
                cmdline_cursor: 0,
            },
        }
    }

    /// The position of the grid `id`, if it exists.
    pub fn find_grid(&self, id: i64) -> (r: Option<usize>)
        ensures
            r is Some <==> has_grid(self.grids@, id),
            r matches Some(i) ==> i < self.grids@.len() && i == grid_index(self.grids@, id)
                && self.grids@[i as int].id == id,
    {
        let mut i: usize = 0;
        while i < self.grids.len()
            invariant
                0 <= i <= self.grids@.len(),
                forall|k: int| 0 <= k < i ==> (#[trigger] self.grids@[k]).id != id,
            decreases self.grids@.len() - i,
        {
            if self.grids[i].id == id {
                proof {
                    let j = grid_index(self.grids@, id);
                    assert(self.grids@[i as int].id == id);
                    assert(j == i as int) by {
                        if j < i as int {
                            assert(self.grids@[j].id == id);
                        } else if j > i as int {
                            assert(self.grids@[i as int].id != id);
                        }
                    }
                }
                return Some(i);
            }
            i = i + 1;
        }
        None
    }

    /// `grid_line`: writes the cells of `line` to its row.
    pub fn grid_line(&mut self, line: &GridLineSegment)
        requires
            grid_line_pre(*old(self), *line),
        ensures
            grid_line_post(*old(self), *final(self), *line),
    {
        let gi = self.find_grid(line.grid).unwrap();
        let n = self.grids[gi].rows.len();
        assert(line.row < n);
        let r = line.row as usize;
        let mut row = self.grids[gi].rows[r].clone();
        row.update(line);
        self.grids[gi].rows.set(r, row);
    }

    /// Whether `grid_line` can write `line`: what it requires.
    pub fn can_grid_line(&self, line: &GridLineSegment) -> (b: bool)
        ensures
            b == grid_line_pre(*self, *line),
    {
        match self.find_grid(line.grid) {
            Some(gi) => {
                let rows = &self.grids[gi].rows;
                line.row < rows.len() as u64 && rows[line.row as usize].can_update(line)
            },
            None => false,
        }
    }

    /// `grid_resize`: the grid gets `height` blank rows of `width` columns.
    pub fn grid_resize(&mut self, grid: i64, width: u64, height: u64)
        requires
            grid_resize_pre(*old(self), grid, width),
        ensures
            grid_resize_post(*old(self), *final(self), grid, width, height),
    {
        let gi = self.find_grid(grid).unwrap();
        resize(&mut self.grids[gi].rows, width, height);
    }

    /// `grid_clear`: blanks every row of the grid.
    pub fn grid_clear(&mut self, grid: i64)
        requires
            has_grid(old(self).grids@, grid),
        ensures
            grid_clear_post(*old(self), *final(self), grid),
    {
        let gi = self.find_grid(grid).unwrap();
        clear(&mut self.grids[gi].rows);
    }

    /// `grid_scroll`: scrolls the region `reg` of the grid by `count` rows
    /// (see [`crate::grid::scroll`]).
    pub fn grid_scroll(&mut self, grid: i64, reg: [u64; 4], count: i64)
        requires
            grid_scroll_pre(*old(self), grid, reg, count),
        ensures
            grid_scroll_post(*old(self), *final(self), grid, reg, count),
    {
        let gi = self.find_grid(grid).unwrap();
        scroll(&mut self.grids[gi].rows, reg, count);
    }

    /// `grid_cursor_goto`: the cursor moves to `row`, `col` of the grid,
    /// which becomes the current grid.
    #[verifier::rlimit(40)]
    pub fn grid_cursor_goto(&mut self, grid: i64, row: u64, col: u64)
        requires
            grid_cursor_goto_pre(*old(self), grid),
        ensures
            grid_cursor_goto_post(*old(self), *final(self), grid, row, col),
    {
        let gi = self.find_grid(grid).unwrap();
        if grid != self.current_grid {
            let ci = self.find_grid(self.current_grid).unwrap();
            self.grids[ci].active = false;
            self.current_grid = grid;
            self.grids[gi].active = true;
        }
        self.grids[gi].cursor = (row, col);
    }

    /// `default_colors_set`: the default colors, and the colors of the
    /// highlight 0, which must be defined.
    pub fn default_colors_set(&mut self, fg: Color, bg: Color, sp: Color)
        requires
            default_colors_set_pre(*old(self)),
        ensures
            default_colors_set_post(*old(self), *final(self), fg, bg, sp),
    {
        self.hl_defs.default_colors_set(fg, bg, sp);
    }

    /// `hl_attr_define`: defines the highlight `id`.
    pub fn hl_attr_define(&mut self, id: u64, hl: Highlight)
        ensures
            hl_attr_define_post(*old(self), *final(self), id, hl),
    {
        self.hl_defs.insert(id, hl);
    }

    /// `hl_group_set`: the widgets that follow the Neovim highlight group
    /// `name` take the highlight `hl_id`, and their colors are to be
    /// updated on the next flush.
    pub fn hl_group_set(&mut self, name: &str, hl_id: u64)
        ensures
            hl_group_set_post(*old(self), *final(self), name@, hl_id),
    {
        self.hl_defs.hl_group_set(name, hl_id);
        self.hl_groups_changed = true;
    }

    /// `option_set` of `guifont`: the font the value names (the default
    /// font when it is invalid) takes effect on the next flush, with the
    /// line space that is pending or current.
    pub fn set_guifont(&mut self, guifont: &str)
        ensures
            set_guifont_post(*old(self), *final(self), guifont@),
    {
        let font = match Font::from_guifont(guifont) {
            Ok(f) => f,
            Err(_) => Font::default(),
        };
        let line_space = match &self.resize_on_flush {
            Some(p) => p.line_space,
            None => self.line_space,
        };
        self.resize_on_flush = Some(PendingResize { font, line_space });
    }

    /// `option_set` of `linespace`: the line space takes effect on the next
    /// flush, with the font that is pending or current.
    pub fn set_line_space(&mut self, line_space: i64)
        ensures
            set_line_space_post(*old(self), *final(self), line_space),
    {
        let pending = self.resize_on_flush.take();
        let font = match pending {
            Some(p) => p.font,
            None => crate::font::copy_font(&self.font),
        };
        self.resize_on_flush = Some(PendingResize { font, line_space });
    }

    /// `option_set`: sets the font, the line space or an `ext_*` flag.
    pub fn option_set(&mut self, opt: &OptionSet)
        ensures
            option_set_post(*old(self), *final(self), *opt),
    {
        match opt {
            OptionSet::GuiFont(f) => self.set_guifont(f.as_str()),
            OptionSet::LineSpace(v) => self.set_line_space(*v),
            OptionSet::ExtTabline(v) => self.widgets.ext_tabline = *v,
            OptionSet::ExtCmdline(v) => self.widgets.ext_cmdline = *v,
            OptionSet::ExtPopupmenu(v) => self.widgets.ext_popupmenu = *v,
            OptionSet::NotSupported(_) => {},
        }
    }

    /// `flush`: a pending font and line space take effect, and the widget
    /// colors are brought up to date. Returns whether the font or line
    /// space changed and whether the widget colors changed.
    pub fn flush(&mut self) -> (r: (bool, bool))
        ensures
            r.0 == old(self).resize_on_flush is Some,
            r.1 == old(self).hl_groups_changed,
            flush_post(*old(self), *final(self)),
    {
        let resized = match self.resize_on_flush.take() {
            Some(p) => {
                self.font = p.font;
                self.line_space = p.line_space;
                true
            },
            None => false,
        };
        let colors = self.hl_groups_changed;
        if colors {
            self.widgets.tabline_colors = TablineColors::from_hl_defs(&self.hl_defs);
            self.widgets.wildmenu_colors = Some(wildmenu_colors(&self.hl_defs));
        }
        self.hl_groups_changed = false;
        (resized, colors)
    }

    /// `mode_info_set`: the modes that `mode_change` picks from.
    pub fn mode_info_set(&mut self, modes: Vec<ModeInfo>)
        ensures
            mode_info_set_post(*old(self), *final(self), modes@),
    {
        self.mode_infos = modes;
    }

    /// `mode_change`: the mode at `index` becomes the current mode.
    pub fn mode_change(&mut self, index: u64)
        requires
            mode_change_pre(*old(self), index),
        ensures
            mode_change_post(*old(self), *final(self), index),
    {
        let n = self.mode_infos.len();
        assert(index < n);
        self.mode = Some(self.mode_infos[index as usize]);
    }

    /// `set_title`: the window title.
    pub fn set_title(&mut self, title: &str)
        ensures
            set_title_post(*old(self), *final(self), title@),
    {
        self.title = to_string(title);
    }

    /// `tabline_update`: the page the tab line shows and the tabs' names.
    pub fn tabline_update(&mut self, u: &TablineUpdate)
        ensures
            tabline_update_post(*old(self), *final(self), *u),
    {
        let page = tabline_page(&u.current, &u.tabs);
        let mut names: Vec<String> = Vec::new();
        let mut i: usize = 0;
        while i < u.tabs.len()
            invariant
                0 <= i <= u.tabs@.len(),
                strings_view(names@) == u.tabs@.take(i as int).map_values(|t: (Value, String)| t.1@),
            decreases u.tabs@.len() - i,
        {
            let name = to_string(u.tabs[i].1.as_str());
            let ghost prev = names@;
            names.push(name);
            assert(strings_view(names@) =~= strings_view(prev).push(u.tabs@[i as int].1@));
            assert(u.tabs@.take(i + 1).map_values(|t: (Value, String)| t.1@) =~= u.tabs@.take(
                i as int,
            ).map_values(|t: (Value, String)| t.1@).push(u.tabs@[i as int].1@));
            i += 1;
        }
        assert(u.tabs@.take(u.tabs@.len() as int) =~= u.tabs@);
        self.widgets.tabline_page = page;
        self.widgets.tab_names = names;
    }

    /// Whether `cmdline_show` can show `show`: what it requires.
    pub fn can_cmdline_show(show: &CmdlineShow) -> (b: bool)
        ensures
            b == cmdline_show_pre(*show),
    {
        let content = crate::cmdline::segments_string(&show.content);
        let prompt_len = char_count(show.firstc.as_str()) as u128 + show.indent as usize as u128
            + char_count(show.prompt.as_str()) as u128;
        let total = prompt_len + char_count(content.as_str()) as u128;
        content.as_str().is_char_boundary(show.pos as usize) && total <= usize::MAX as u128
    }

    /// `cmdline_show`: the command line shows the prompt and content of
    /// `show`, with its level and cursor.
    pub fn cmdline_show(&mut self, show: &CmdlineShow)
        requires
            cmdline_show_pre(*show),
        ensures
            cmdline_show_post(*old(self), *final(self), *show),
    {
        let (prompt, cursor) = self.widgets.cmdline.set_text(show);
        self.widgets.cmdline_prompt = Some(prompt);
        self.widgets.cmdline_cursor = cursor;
    }

    /// `cmdline_hide`: the command line is hidden.
    pub fn cmdline_hide(&mut self)
        ensures
            *final(self) == (UiModel {
                widgets: WidgetState { cmdline_prompt: None, ..old(self).widgets },
                ..*old(self)
            }),
    {
        self.widgets.cmdline_prompt = None;
    }

    /// Whether `cmdline_pos` can apply `p`: what it requires.
    pub fn can_cmdline_pos(&self, p: &CmdlinePos) -> (b: bool)
        ensures
            b == cmdline_pos_pre(*self, *p),
    {
        let c = &self.widgets.cmdline;
        if p.level != c.current_level {
            return true;
        }
        c.content.as_str().is_char_boundary(p.pos as usize) && c.prompt_len as u128 + char_count(
            c.content.as_str(),
        ) as u128 <= usize::MAX as u128
    }

    /// `cmdline_pos`: moves the command line's cursor at the level shown.
    pub fn cmdline_pos(&mut self, p: &CmdlinePos)
        requires
            cmdline_pos_pre(*old(self), *p),
        ensures
            cmdline_pos_post(*old(self), *final(self), *p),
    {
        if let Some(cursor) = self.widgets.cmdline.set_cursor(p.pos as usize, p.level) {
            self.widgets.cmdline_cursor = cursor;
        }
    }
}

/// The position of the call that `r` says could not be made.
pub open spec fn failed_at(r: Result<(bool, bool), usize>) -> Option<usize> {
    match r {
        Ok(_) => None,
        Err(k) => Some(k),
    }
}

/// A copy of the modes `v`.
fn copy_modes(v: &Vec<ModeInfo>) -> (r: Vec<ModeInfo>)
    ensures
        r@ == v@,
{
    let mut r: Vec<ModeInfo> = Vec::new();
    let mut i: usize = 0;
    while i < v.len()
        invariant
            0 <= i <= v@.len(),
            r@ == v@.take(i as int),
        decreases v@.len() - i,
    {
        r.push(v[i]);
        assert(r@ =~= v@.take(i + 1));
        i += 1;
    }
    assert(v@.take(v@.len() as int) =~= v@);
    r
}

impl UiModel {
    /// Whether `grid_scroll` can scroll `reg` of the grid by `count`: what
    /// it requires.
    pub fn can_grid_scroll(&self, grid: i64, reg: [u64; 4], count: i64) -> (b: bool)
        ensures
            b == grid_scroll_pre(*self, grid, reg, count),
    {
        match self.find_grid(grid) {
            Some(gi) => can_scroll(&self.grids[gi].rows, reg, count),
            None => false,
        }
    }

    /// Whether `grid_cursor_goto` can move the cursor to the grid: what it
    /// requires.
    pub fn can_grid_cursor_goto(&self, grid: i64) -> (b: bool)
        ensures
            b == grid_cursor_goto_pre(*self, grid),
    {
        self.find_grid(grid).is_some() && (grid == self.current_grid || self.find_grid(
            self.current_grid,
        ).is_some())
    }

    /// Makes the calls of a `GridLine` event in order; stops at the first
    /// call that cannot be made and returns its position.
    fn apply_grid_lines(&mut self, cs: &Vec<GridLineSegment>) -> (r: Option<usize>)
        ensures
            exists|st: Seq<UiModel>|
                st[0] == *old(self) && st.last() == *final(self) && grid_lines_applied(st, cs@, r),
    {
        let ghost start = *self;
        let ghost mut st: Seq<UiModel> = seq![start];
        let mut i: usize = 0;
        while i < cs.len()
            invariant
                0 <= i <= cs@.len(),
                st.len() == i + 1,
                st[0] == start,
                start == *old(self),
                st.last() == *self,
                forall|k: int| #![trigger cs@[k]] 0 <= k < i ==> grid_line_pre(st[k], cs@[k]) && grid_line_post(st[k], st[k + 1], cs@[k]),
            decreases cs@.len() - i,
        {
        if !(self.can_grid_line(&cs[i])) {
            assert(grid_lines_applied(st, cs@, Some(i)));
            return Some(i);
        }
            self.grid_line(&cs[i]);
            proof {
                st = st.push(*self);
            }
            i += 1;
        }
        assert(grid_lines_applied(st, cs@, None));
        None
    }
    /// Makes the calls of a `GridResize` event in order; stops at the first
    /// call that cannot be made and returns its position.
    fn apply_grid_resizes(&mut self, cs: &Vec<GridResize>) -> (r: Option<usize>)
        ensures
            exists|st: Seq<UiModel>|
                st[0] == *old(self) && st.last() == *final(self) && grid_resizes_applied(st, cs@, r),
    {
        let ghost start = *self;
        let ghost mut st: Seq<UiModel> = seq![start];
        let mut i: usize = 0;
        while i < cs.len()
            invariant
                0 <= i <= cs@.len(),
                st.len() == i + 1,
                st[0] == start,
                start == *old(self),
                st.last() == *self,
                forall|k: int| #![trigger cs@[k]] 0 <= k < i ==> grid_resize_pre(st[k], cs@[k].grid, cs@[k].width) && grid_resize_post(st[k], st[k + 1], cs@[k].grid, cs@[k].width, cs@[k].height),
            decreases cs@.len() - i,
        {
        if !(self.find_grid(cs[i].grid).is_some() && cs[i].width <= usize::MAX as u64) {
            assert(grid_resizes_applied(st, cs@, Some(i)));
            return Some(i);
        }
            self.grid_resize(cs[i].grid, cs[i].width, cs[i].height);
            proof {
                st = st.push(*self);
            }
            i += 1;
        }
        assert(grid_resizes_applied(st, cs@, None));
        None
    }
    /// Makes the calls of a `GridClear` event in order; stops at the first
    /// call that cannot be made and returns its position.
    fn apply_grid_clears(&mut self, cs: &Vec<i64>) -> (r: Option<usize>)
        ensures
            exists|st: Seq<UiModel>|
                st[0] == *old(self) && st.last() == *final(self) && grid_clears_applied(st, cs@, r),
    {
        let ghost start = *self;
        let ghost mut st: Seq<UiModel> = seq![start];
        let mut i: usize = 0;
        while i < cs.len()
            invariant
                0 <= i <= cs@.len(),
                st.len() == i + 1,
                st[0] == start,
                start == *old(self),
                st.last() == *self,
                forall|k: int| #![trigger cs@[k]] 0 <= k < i ==> has_grid(st[k].grids@, cs@[k]) && grid_clear_post(st[k], st[k + 1], cs@[k]),
            decreases cs@.len() - i,
        {
        if !(self.find_grid(cs[i]).is_some()) {
            assert(grid_clears_applied(st, cs@, Some(i)));
            return Some(i);
        }
            self.grid_clear(cs[i]);
            proof {
                st = st.push(*self);
            }
            i += 1;
        }
        assert(grid_clears_applied(st, cs@, None));
        None
    }
    /// Makes the calls of a `GridScroll` event in order; stops at the first
    /// call that cannot be made and returns its position.
    fn apply_grid_scrolls(&mut self, cs: &Vec<GridScroll>) -> (r: Option<usize>)
        ensures
            exists|st: Seq<UiModel>|
                st[0] == *old(self) && st.last() == *final(self) && grid_scrolls_applied(st, cs@, r),
    {
        let ghost start = *self;
        let ghost mut st: Seq<UiModel> = seq![start];
        let mut i: usize = 0;
        while i < cs.len()
            invariant
                0 <= i <= cs@.len(),
                st.len() == i + 1,
                st[0] == start,
                start == *old(self),
                st.last() == *self,
                forall|k: int| #![trigger cs@[k]] 0 <= k < i ==> grid_scroll_pre(st[k], cs@[k].grid, cs@[k].reg.0, cs@[k].rows) && grid_scroll_post(st[k], st[k + 1], cs@[k].grid, cs@[k].reg.0, cs@[k].rows),
            decreases cs@.len() - i,
        {
        if !(self.can_grid_scroll(cs[i].grid, cs[i].reg.0, cs[i].rows)) {
            assert(grid_scrolls_applied(st, cs@, Some(i)));
            return Some(i);
        }
            self.grid_scroll(cs[i].grid, cs[i].reg.0, cs[i].rows);
            proof {
                st = st.push(*self);
            }
            i += 1;
        }
        assert(grid_scrolls_applied(st, cs@, None));
        None
    }
    /// Makes the calls of a `GridCursorGoto` event in order; stops at the first
    /// call that cannot be made and returns its position.
    fn apply_cursor_gotos(&mut self, cs: &Vec<GridCursorGoto>) -> (r: Option<usize>)
        ensures
            exists|st: Seq<UiModel>|
                st[0] == *old(self) && st.last() == *final(self) && cursor_gotos_applied(st, cs@, r),
    {
        let ghost start = *self;
        let ghost mut st: Seq<UiModel> = seq![start];
        let mut i: usize = 0;
        while i < cs.len()
            invariant
                0 <= i <= cs@.len(),
                st.len() == i + 1,
                st[0] == start,
                start == *old(self),
                st.last() == *self,
                forall|k: int| #![trigger cs@[k]] 0 <= k < i ==> grid_cursor_goto_pre(st[k], cs@[k].grid) && grid_cursor_goto_post(st[k], st[k + 1], cs@[k].grid, cs@[k].row, cs@[k].col),
            decreases cs@.len() - i,
        {
        if !(self.can_grid_cursor_goto(cs[i].grid)) {
            assert(cursor_gotos_applied(st, cs@, Some(i)));
            return Some(i);
        }
            self.grid_cursor_goto(cs[i].grid, cs[i].row, cs[i].col);
            proof {
                st = st.push(*self);
            }
            i += 1;
        }
        assert(cursor_gotos_applied(st, cs@, None));
        None
    }
    /// Makes the calls of a `DefaultColorsSet` event in order; stops at the first
    /// call that cannot be made and returns its position.
    fn apply_default_colors(&mut self, cs: &Vec<DefaultColorsSet>) -> (r: Option<usize>)
        ensures
            exists|st: Seq<UiModel>|
                st[0] == *old(self) && st.last() == *final(self) && default_colors_applied(st, cs@, r),
    {
        let ghost start = *self;
        let ghost mut st: Seq<UiModel> = seq![start];
        let mut i: usize = 0;
        while i < cs.len()
            invariant
                0 <= i <= cs@.len(),
                st.len() == i + 1,
                st[0] == start,
                start == *old(self),
                st.last() == *self,
                forall|k: int| 0 <= k < i ==> #[trigger] default_colors_set_pre(st[k]) && default_colors_set_post(st[k], st[k + 1], cs@[k].fg, cs@[k].bg, cs@[k].sp),
            decreases cs@.len() - i,
        {
        if !(self.hl_defs.get(&0).is_some()) {
            assert(default_colors_applied(st, cs@, Some(i)));
            return Some(i);
        }
        assert(default_colors_set_pre(*self));
            self.default_colors_set(cs[i].fg, cs[i].bg, cs[i].sp);
            proof {
                st = st.push(*self);
            }
            i += 1;
        }
        assert(default_colors_applied(st, cs@, None));
        None
    }
    /// Makes the calls of a `HlAttrDefine` event in order; stops at the first
    /// call that cannot be made and returns its position.
    fn apply_hl_attrs(&mut self, cs: &Vec<HlAttrDefine>) -> (r: Option<usize>)
        ensures
            exists|st: Seq<UiModel>|
                st[0] == *old(self) && st.last() == *final(self) && hl_attrs_applied(st, cs@, r),
    {
        let ghost start = *self;
        let ghost mut st: Seq<UiModel> = seq![start];
        let mut i: usize = 0;
        while i < cs.len()
            invariant
                0 <= i <= cs@.len(),
                st.len() == i + 1,
                st[0] == start,
                start == *old(self),
                st.last() == *self,
                forall|k: int| #![trigger cs@[k]] 0 <= k < i ==> hl_attr_define_post(st[k], st[k + 1], cs@[k].id, cs@[k].hl),
            decreases cs@.len() - i,
        {
            self.hl_attr_define(cs[i].id, cs[i].hl);
            proof {
                st = st.push(*self);
            }
            i += 1;
        }
        assert(hl_attrs_applied(st, cs@, None));
        None
    }
    /// Makes the calls of a `HlGroupSet` event in order; stops at the first
    /// call that cannot be made and returns its position.
    fn apply_hl_groups(&mut self, cs: &Vec<HlGroupSet>) -> (r: Option<usize>)
        ensures
            exists|st: Seq<UiModel>|
                st[0] == *old(self) && st.last() == *final(self) && hl_groups_applied(st, cs@, r),
    {
        let ghost start = *self;
        let ghost mut st: Seq<UiModel> = seq![start];
        let mut i: usize = 0;
        while i < cs.len()
            invariant
                0 <= i <= cs@.len(),
                st.len() == i + 1,
                st[0] == start,
                start == *old(self),
                st.last() == *self,
                forall|k: int| #![trigger cs@[k]] 0 <= k < i ==> hl_group_set_post(st[k], st[k + 1], cs@[k].name@, cs@[k].hl_id),
            decreases cs@.len() - i,
        {
            self.hl_group_set(cs[i].name.as_str(), cs[i].hl_id);
            proof {
                st = st.push(*self);
            }
            i += 1;
        }
        assert(hl_groups_applied(st, cs@, None));
        None
    }
    /// Makes the calls of a `OptionSet` event in order; stops at the first
    /// call that cannot be made and returns its position.
    fn apply_options(&mut self, cs: &Vec<OptionSet>) -> (r: Option<usize>)
        ensures
            exists|st: Seq<UiModel>|
                st[0] == *old(self) && st.last() == *final(self) && options_applied(st, cs@, r),
    {
        let ghost start = *self;
        let ghost mut st: Seq<UiModel> = seq![start];
        let mut i: usize = 0;
        while i < cs.len()
            invariant
                0 <= i <= cs@.len(),
                st.len() == i + 1,
                st[0] == start,
                start == *old(self),
                st.last() == *self,
                forall|k: int| #![trigger cs@[k]] 0 <= k < i ==> option_set_post(st[k], st[k + 1], cs@[k]),
            decreases cs@.len() - i,
        {
            self.option_set(&cs[i]);
            proof {
                st = st.push(*self);
            }
            i += 1;
        }
        assert(options_applied(st, cs@, None));
        None
    }
    /// Makes the calls of a `ModeInfoSet` event in order; stops at the first
    /// call that cannot be made and returns its position.
    fn apply_mode_info_sets(&mut self, cs: &Vec<ModeInfoSet>) -> (r: Option<usize>)
        ensures
            exists|st: Seq<UiModel>|
                st[0] == *old(self) && st.last() == *final(self) && mode_info_sets_applied(st, cs@, r),
    {
        let ghost start = *self;
        let ghost mut st: Seq<UiModel> = seq![start];
        let mut i: usize = 0;
        while i < cs.len()
            invariant
                0 <= i <= cs@.len(),
                st.len() == i + 1,
                st[0] == start,
                start == *old(self),
                st.last() == *self,
                forall|k: int| #![trigger cs@[k]] 0 <= k < i ==> mode_info_set_post(st[k], st[k + 1], cs@[k].mode_info@),
            decreases cs@.len() - i,
        {
            let modes = copy_modes(&cs[i].mode_info);
            self.mode_info_set(modes);
            proof {
                st = st.push(*self);
            }
            i += 1;
        }
        assert(mode_info_sets_applied(st, cs@, None));
        None
    }
    /// Makes the calls of a `ModeChange` event in order; stops at the first
    /// call that cannot be made and returns its position.
    fn apply_mode_changes(&mut self, cs: &Vec<ModeChange>) -> (r: Option<usize>)
        ensures
            exists|st: Seq<UiModel>|
                st[0] == *old(self) && st.last() == *final(self) && mode_changes_applied(st, cs@, r),
    {
        let ghost start = *self;
        let ghost mut st: Seq<UiModel> = seq![start];
        let mut i: usize = 0;
        while i < cs.len()
            invariant
                0 <= i <= cs@.len(),
                st.len() == i + 1,
                st[0] == start,
                start == *old(self),
                st.last() == *self,
                forall|k: int| #![trigger cs@[k]] 0 <= k < i ==> mode_change_pre(st[k], cs@[k].index) && mode_change_post(st[k], st[k + 1], cs@[k].index),
            decreases cs@.len() - i,
        {
        if !(cs[i].index < self.mode_infos.len() as u64) {
            assert(mode_changes_applied(st, cs@, Some(i)));
            return Some(i);
        }
            self.mode_change(cs[i].index);
            proof {
                st = st.push(*self);
            }
            i += 1;
        }
        assert(mode_changes_applied(st, cs@, None));
        None
    }
    /// Makes the calls of a `SetTitle` event in order; stops at the first
    /// call that cannot be made and returns its position.
    fn apply_titles(&mut self, cs: &Vec<String>) -> (r: Option<usize>)
        ensures
            exists|st: Seq<UiModel>|
                st[0] == *old(self) && st.last() == *final(self) && titles_applied(st, cs@, r),
    {
        let ghost start = *self;
        let ghost mut st: Seq<UiModel> = seq![start];
        let mut i: usize = 0;
        while i < cs.len()
            invariant
                0 <= i <= cs@.len(),
                st.len() == i + 1,
                st[0] == start,
                start == *old(self),
                st.last() == *self,
                forall|k: int| #![trigger cs@[k]] 0 <= k < i ==> set_title_post(st[k], st[k + 1], cs@[k]@),
            decreases cs@.len() - i,
        {
            self.set_title(cs[i].as_str());
            proof {
                st = st.push(*self);
            }
            i += 1;
        }
        assert(titles_applied(st, cs@, None));
        None
    }
    /// Makes the calls of a `TablineUpdate` event in order; stops at the first
    /// call that cannot be made and returns its position.
    fn apply_tabline_updates(&mut self, cs: &Vec<TablineUpdate>) -> (r: Option<usize>)
        ensures
            exists|st: Seq<UiModel>|
                st[0] == *old(self) && st.last() == *final(self) && tabline_updates_applied(st, cs@, r),
    {
        let ghost start = *self;
        let ghost mut st: Seq<UiModel> = seq![start];
        let mut i: usize = 0;
        while i < cs.len()
            invariant
                0 <= i <= cs@.len(),
                st.len() == i + 1,
                st[0] == start,
                start == *old(self),
                st.last() == *self,
                forall|k: int| #![trigger cs@[k]] 0 <= k < i ==> tabline_update_post(st[k], st[k + 1], cs@[k]),
            decreases cs@.len() - i,
        {
            self.tabline_update(&cs[i]);
            proof {
                st = st.push(*self);
            }
            i += 1;
        }
        assert(tabline_updates_applied(st, cs@, None));
        None
    }
    /// Makes the calls of a `CmdlineShow` event in order; stops at the first
    /// call that cannot be made and returns its position.
    fn apply_cmdline_shows(&mut self, cs: &Vec<CmdlineShow>) -> (r: Option<usize>)
        ensures
            exists|st: Seq<UiModel>|
                st[0] == *old(self) && st.last() == *final(self) && cmdline_shows_applied(st, cs@, r),
    {
        let ghost start = *self;
        let ghost mut st: Seq<UiModel> = seq![start];
        let mut i: usize = 0;
        while i < cs.len()
            invariant
                0 <= i <= cs@.len(),
                st.len() == i + 1,
                st[0] == start,
                start == *old(self),
                st.last() == *self,
                forall|k: int| #![trigger cs@[k]] 0 <= k < i ==> cmdline_show_pre(cs@[k]) && cmdline_show_post(st[k], st[k + 1], cs@[k]),
            decreases cs@.len() - i,
        {
        if !(UiModel::can_cmdline_show(&cs[i])) {
            assert(cmdline_shows_applied(st, cs@, Some(i)));
            return Some(i);
        }
            self.cmdline_show(&cs[i]);
            proof {
                st = st.push(*self);
            }
            i += 1;
        }
        assert(cmdline_shows_applied(st, cs@, None));
        None
    }
    /// Makes the calls of a `CmdlinePos` event in order; stops at the first
    /// call that cannot be made and returns its position.
    fn apply_cmdline_poss(&mut self, cs: &Vec<CmdlinePos>) -> (r: Option<usize>)
        ensures
            exists|st: Seq<UiModel>|
                st[0] == *old(self) && st.last() == *final(self) && cmdline_poss_applied(st, cs@, r),
    {
        let ghost start = *self;
        let ghost mut st: Seq<UiModel> = seq![start];
        let mut i: usize = 0;
        while i < cs.len()
            invariant
                0 <= i <= cs@.len(),
                st.len() == i + 1,
                st[0] == start,
                start == *old(self),
                st.last() == *self,
                forall|k: int| #![trigger cs@[k]] 0 <= k < i ==> cmdline_pos_pre(st[k], cs@[k]) && cmdline_pos_post(st[k], st[k + 1], cs@[k]),
            decreases cs@.len() - i,
        {
        if !(self.can_cmdline_pos(&cs[i])) {
            assert(cmdline_poss_applied(st, cs@, Some(i)));
            return Some(i);
        }
            self.cmdline_pos(&cs[i]);
            proof {
                st = st.push(*self);
            }
            i += 1;
        }
        assert(cmdline_poss_applied(st, cs@, None));
        None
    }

    /// Applies a redraw event: makes its calls in order, as Neovim sent
    /// them. Returns, for `flush`, whether the font or line space changed
    /// and whether the widget colors changed (else `(false, false)`); or
    /// the position of the first call that cannot be made (it names a grid,
    /// row, highlight or mode that does not exist, or a command-line cursor
    /// off a character boundary), the calls before it being made.
    pub fn apply(&mut self, e: &RedrawEvent) -> (r: Result<(bool, bool), usize>)
        ensures
            match *e {
            RedrawEvent::GridLine(cs) => (r is Ok ==> r == Ok::<(bool, bool), usize>((false, false))) && exists|st: Seq<UiModel>|
                st[0] == *old(self) && st.last() == *final(self) && grid_lines_applied(st, cs@, failed_at(r)),
            RedrawEvent::GridResize(cs) => (r is Ok ==> r == Ok::<(bool, bool), usize>((false, false))) && exists|st: Seq<UiModel>|
                st[0] == *old(self) && st.last() == *final(self) && grid_resizes_applied(st, cs@, failed_at(r)),
            RedrawEvent::GridClear(cs) => (r is Ok ==> r == Ok::<(bool, bool), usize>((false, false))) && exists|st: Seq<UiModel>|
                st[0] == *old(self) && st.last() == *final(self) && grid_clears_applied(st, cs@, failed_at(r)),
            RedrawEvent::GridScroll(cs) => (r is Ok ==> r == Ok::<(bool, bool), usize>((false, false))) && exists|st: Seq<UiModel>|
                st[0] == *old(self) && st.last() == *final(self) && grid_scrolls_applied(st, cs@, failed_at(r)),
            RedrawEvent::GridCursorGoto(cs) => (r is Ok ==> r == Ok::<(bool, bool), usize>((false, false))) && exists|st: Seq<UiModel>|
                st[0] == *old(self) && st.last() == *final(self) && cursor_gotos_applied(st, cs@, failed_at(r)),
            RedrawEvent::DefaultColorsSet(cs) => (r is Ok ==> r == Ok::<(bool, bool), usize>((false, false))) && exists|st: Seq<UiModel>|
                st[0] == *old(self) && st.last() == *final(self) && default_colors_applied(st, cs@, failed_at(r)),
            RedrawEvent::HlAttrDefine(cs) => (r is Ok ==> r == Ok::<(bool, bool), usize>((false, false))) && exists|st: Seq<UiModel>|
                st[0] == *old(self) && st.last() == *final(self) && hl_attrs_applied(st, cs@, failed_at(r)),
            RedrawEvent::HlGroupSet(cs) => (r is Ok ==> r == Ok::<(bool, bool), usize>((false, false))) && exists|st: Seq<UiModel>|
                st[0] == *old(self) && st.last() == *final(self) && hl_groups_applied(st, cs@, failed_at(r)),
            RedrawEvent::OptionSet(cs) => (r is Ok ==> r == Ok::<(bool, bool), usize>((false, false))) && exists|st: Seq<UiModel>|
                st[0] == *old(self) && st.last() == *final(self) && options_applied(st, cs@, failed_at(r)),
            RedrawEvent::ModeInfoSet(cs) => (r is Ok ==> r == Ok::<(bool, bool), usize>((false, false))) && exists|st: Seq<UiModel>|
                st[0] == *old(self) && st.last() == *final(self) && mode_info_sets_applied(st, cs@, failed_at(r)),
            RedrawEvent::ModeChange(cs) => (r is Ok ==> r == Ok::<(bool, bool), usize>((false, false))) && exists|st: Seq<UiModel>|
                st[0] == *old(self) && st.last() == *final(self) && mode_changes_applied(st, cs@, failed_at(r)),
            RedrawEvent::SetTitle(cs) => (r is Ok ==> r == Ok::<(bool, bool), usize>((false, false))) && exists|st: Seq<UiModel>|
                st[0] == *old(self) && st.last() == *final(self) && titles_applied(st, cs@, failed_at(r)),
            RedrawEvent::TablineUpdate(cs) => (r is Ok ==> r == Ok::<(bool, bool), usize>((false, false))) && exists|st: Seq<UiModel>|
                st[0] == *old(self) && st.last() == *final(self) && tabline_updates_applied(st, cs@, failed_at(r)),
            RedrawEvent::CmdlineShow(cs) => (r is Ok ==> r == Ok::<(bool, bool), usize>((false, false))) && exists|st: Seq<UiModel>|
                st[0] == *old(self) && st.last() == *final(self) && cmdline_shows_applied(st, cs@, failed_at(r)),
            RedrawEvent::CmdlinePos(cs) => (r is Ok ==> r == Ok::<(bool, bool), usize>((false, false))) && exists|st: Seq<UiModel>|
                st[0] == *old(self) && st.last() == *final(self) && cmdline_poss_applied(st, cs@, failed_at(r)),
                RedrawEvent::SetBusy(busy) => r == Ok::<(bool, bool), usize>((false, false))
                    && *final(self) == (UiModel { busy, ..*old(self) }),
                RedrawEvent::Flush() => r == Ok::<(bool, bool), usize>(
                    (old(self).resize_on_flush is Some, old(self).hl_groups_changed),
                ) && flush_post(*old(self), *final(self)),
                RedrawEvent::CmdlineHide() => r == Ok::<(bool, bool), usize>((false, false))
                    && *final(self) == (UiModel {
                    widgets: WidgetState { cmdline_prompt: None, ..old(self).widgets },
                    ..*old(self)
                }),
                _ => r == Ok::<(bool, bool), usize>((false, false)) && *final(self) == *old(self),
            },
    {
        match e {
            RedrawEvent::GridLine(cs) => match self.apply_grid_lines(cs) {
                Some(k) => Err(k),
                None => Ok((false, false)),
            },
            RedrawEvent::GridResize(cs) => match self.apply_grid_resizes(cs) {
                Some(k) => Err(k),
                None => Ok((false, false)),
            },
            RedrawEvent::GridClear(cs) => match self.apply_grid_clears(cs) {
                Some(k) => Err(k),
                None => Ok((false, false)),
            },
            RedrawEvent::GridScroll(cs) => match self.apply_grid_scrolls(cs) {
                Some(k) => Err(k),
                None => Ok((false, false)),
            },
            RedrawEvent::GridCursorGoto(cs) => match self.apply_cursor_gotos(cs) {
                Some(k) => Err(k),
                None => Ok((false, false)),
            },
            RedrawEvent::DefaultColorsSet(cs) => match self.apply_default_colors(cs) {
                Some(k) => Err(k),
                None => Ok((false, false)),
            },
            RedrawEvent::HlAttrDefine(cs) => match self.apply_hl_attrs(cs) {
                Some(k) => Err(k),
                None => Ok((false, false)),
            },
            RedrawEvent::HlGroupSet(cs) => match self.apply_hl_groups(cs) {
                Some(k) => Err(k),
                None => Ok((false, false)),
            },
            RedrawEvent::OptionSet(cs) => match self.apply_options(cs) {
                Some(k) => Err(k),
                None => Ok((false, false)),
            },
            RedrawEvent::ModeInfoSet(cs) => match self.apply_mode_info_sets(cs) {
                Some(k) => Err(k),
                None => Ok((false, false)),
            },
            RedrawEvent::ModeChange(cs) => match self.apply_mode_changes(cs) {
                Some(k) => Err(k),
                None => Ok((false, false)),
            },
            RedrawEvent::SetTitle(cs) => match self.apply_titles(cs) {
                Some(k) => Err(k),
                None => Ok((false, false)),
            },
            RedrawEvent::TablineUpdate(cs) => match self.apply_tabline_updates(cs) {
                Some(k) => Err(k),
                None => Ok((false, false)),
            },
            RedrawEvent::CmdlineShow(cs) => match self.apply_cmdline_shows(cs) {
                Some(k) => Err(k),
                None => Ok((false, false)),
            },
            RedrawEvent::CmdlinePos(cs) => match self.apply_cmdline_poss(cs) {
                Some(k) => Err(k),
                None => Ok((false, false)),
            },
            RedrawEvent::SetBusy(busy) => {
                self.busy = *busy;
                Ok((false, false))
            },
            RedrawEvent::Flush() => Ok(self.flush()),
            RedrawEvent::CmdlineHide() => {
                self.cmdline_hide();
                Ok((false, false))
            },
            _ => Ok((false, false)),
        }
    }
}

} // verus!
