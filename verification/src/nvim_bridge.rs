//! Decoding of the notifications that Neovim sends to a UI.
//!
//! Each decoder states, as a spec function over the [`ValueView`] of its
//! argument, on which values it succeeds (`..._ok`) and what it gives
//! (`..._of` or `decodes`). Redraw notifications come from Neovim itself,
//! so a malformed one is a broken precondition; Gnvim notifications come
//! from users and are answered with an error message instead.

use vstd::prelude::*;
use vstd::string::*;

use crate::color::{Color, Highlight};
use crate::grid::GridScrollRegion;
use crate::text::{str_eq, to_string};
use crate::value::{Number, Value, ValueView};

verus! {

/// One run of cells of a `grid_line` event: `repeat` copies of `text`,
/// drawn with highlight `hl_id`; `double_width` marks a cell followed by
/// the empty cell of a double width character.
#[derive(PartialEq, Debug)]
pub struct Cell {
    pub text: String,
    pub hl_id: u64,
    pub repeat: u64,
    pub double_width: bool,
}

/// A `grid_line` event: `cells` are drawn on row `row` of grid `grid`,
/// starting from column `col_start`.
#[derive(PartialEq, Debug)]
pub struct GridLineSegment {
    pub grid: i64,
    pub row: u64,
    pub col_start: u64,
    pub cells: Vec<Cell>,
}

#[derive(PartialEq, Eq, Structural, Debug)]
pub struct GridResize {
    pub grid: i64,
    pub width: u64,
    pub height: u64,
}

#[derive(PartialEq, Eq, Structural, Debug)]
pub struct GridCursorGoto {
    pub grid: i64,
    pub row: u64,
    pub col: u64,
}

#[derive(PartialEq, Debug)]
pub struct GridScroll {
    pub grid: i64,
    pub reg: GridScrollRegion,
    pub rows: i64,
    pub cols: i64,
}

#[derive(PartialEq, Eq, Structural, Debug)]
pub struct DefaultColorsSet {
    pub fg: Color,
    pub bg: Color,
    pub sp: Color,
}

#[derive(PartialEq, Eq, Structural, Debug)]
pub struct HlAttrDefine {
    pub id: u64,
    pub hl: Highlight,
}

#[derive(PartialEq, Debug)]
pub struct HlGroupSet {
    pub name: String,
    pub hl_id: u64,
}

#[derive(PartialEq, Debug)]
pub enum OptionSet {
    /// Font name.
    GuiFont(String),
    /// Space between lines.
    LineSpace(i64),
    ExtTabline(bool),
    ExtCmdline(bool),
    ExtPopupmenu(bool),
    /// Name of an option this UI does not handle.
    NotSupported(String),
}

#[derive(Clone, Copy, PartialEq, Eq, Structural, Debug)]
pub enum CursorShape {
    Block,
    Horizontal,
    Vertical,
}

/// How the cursor looks in one mode. `cell_percentage` is the share of the
/// cell the cursor covers, in percent.
#[derive(Clone, Copy, PartialEq, Eq, Structural, Debug)]
pub struct ModeInfo {
    /// The cursor blinking period (in ms).
    pub blink_on: u64,
    pub cursor_shape: CursorShape,
    pub cell_percentage: u64,
}

#[derive(PartialEq, Debug)]
pub struct ModeInfoSet {
    pub cursor_shape_enabled: bool,
    pub mode_info: Vec<ModeInfo>,
}

#[derive(PartialEq, Debug)]
pub struct ModeChange {
    pub name: String,
    pub index: u64,
}

#[derive(PartialEq, Eq, Structural, Debug)]
pub struct CmdlinePos {
    pub pos: u64,
    pub level: u64,
}

#[derive(PartialEq, Debug)]
pub struct CmdlineSpecialChar {
    pub character: String,
    pub shift: bool,
    pub level: u64,
}

#[derive(PartialEq, Debug)]
pub struct MsgSetPos {
    pub grid: i64,
    pub row: u64,
    pub scrolled: bool,
    pub sep_char: String,
}

#[derive(PartialEq, Debug)]
pub struct WindowPos {
    pub grid: i64,
    pub win: Value,
    pub start_row: u64,
    pub start_col: u64,
    pub width: u64,
    pub height: u64,
}

#[derive(PartialEq, Debug)]
pub struct WindowExternalPos {
    pub grid: i64,
    pub win: Value,
}

#[derive(Clone, Copy, PartialEq, Eq, Structural, Debug)]
pub enum Anchor {
    NW,
    NE,
    SW,
    SE,
}

/// A floating window. The anchor position is the number Neovim sent.
#[derive(PartialEq, Debug)]
pub struct WindowFloatPos {
    pub grid: i64,
    pub win: Value,
    pub anchor: Anchor,
    pub anchor_grid: i64,
    pub anchor_row: Number,
    pub anchor_col: Number,
    pub focusable: bool,
}

/// The elements of an array value (empty for any other value).
pub open spec fn arr(v: ValueView) -> Seq<ValueView> {
    match v {
        ValueView::Array(a) => a,
        _ => Seq::empty(),
    }
}

/// `v` is an array of at least `n` elements.
pub open spec fn array_min(v: ValueView, n: int) -> bool {
    v is Array && arr(v).len() >= n
}

pub(crate) fn array_of(v: &Value) -> (a: &Vec<Value>)
    requires
        v@ is Array,
    ensures
        a@.len() == arr(v@).len(),
        forall|i: int| 0 <= i < a@.len() ==> (#[trigger] a@[i])@ == arr(v@)[i],
{
    v.as_array().unwrap()
}

fn u64_of(v: &Value) -> (r: u64)
    requires
        v@.as_u64() is Some,
    ensures
        r == v@.as_u64()->0,
{
    v.as_u64().unwrap()
}

fn i64_of(v: &Value) -> (r: i64)
    requires
        v@.as_i64() is Some,
    ensures
        r == v@.as_i64()->0,
{
    v.as_i64().unwrap()
}

fn bool_of(v: &Value) -> (r: bool)
    requires
        v@.as_bool() is Some,
    ensures
        r == v@.as_bool()->0,
{
    v.as_bool().unwrap()
}

fn string_of(v: &Value) -> (r: String)
    requires
        v@.as_str() is Some,
    ensures
        r@ == v@.as_str()->0,
{
    to_string(v.as_str().unwrap())
}

/// Element `i` of `v`, `Nil` when there is none (`v[i]`).
fn item_of(v: &Value, i: usize) -> (r: Value)
    ensures
        r@ == v@.item(i as int),
{
    match v.item(i) {
        Some(x) => x.copy(),
        None => Value::Nil,
    }
}

impl GridResize {
    pub open spec fn spec_parse(v: ValueView) -> Option<GridResize> {
        let a = arr(v);
        if array_min(v, 3) && a[0].as_i64() is Some && a[1].as_u64() is Some
            && a[2].as_u64() is Some {
            Some(
                GridResize {
                    grid: a[0].as_i64()->0,
                    width: a[1].as_u64()->0,
                    height: a[2].as_u64()->0,
                },
            )
        } else {
            None
        }
    }

    pub fn from_value(args: &Value) -> (e: GridResize)
        requires
            GridResize::spec_parse(args@) is Some,
        ensures
            e == GridResize::spec_parse(args@)->0,
    {
        let a = array_of(args);
        GridResize { grid: i64_of(&a[0]), width: u64_of(&a[1]), height: u64_of(&a[2]) }
    }
}

impl GridCursorGoto {
    pub open spec fn spec_parse(v: ValueView) -> Option<GridCursorGoto> {
        let a = arr(v);
        if array_min(v, 3) && a[0].as_i64() is Some && a[1].as_u64() is Some
            && a[2].as_u64() is Some {
            Some(
                GridCursorGoto {
                    grid: a[0].as_i64()->0,
                    row: a[1].as_u64()->0,
                    col: a[2].as_u64()->0,
                },
            )
        } else {
            None
        }
    }

    pub fn from_value(args: &Value) -> (e: GridCursorGoto)
        requires
            GridCursorGoto::spec_parse(args@) is Some,
        ensures
            e == GridCursorGoto::spec_parse(args@)->0,
    {
        let a = array_of(args);
        GridCursorGoto { grid: i64_of(&a[0]), row: u64_of(&a[1]), col: u64_of(&a[2]) }
    }
}

impl GridScroll {
    pub open spec fn ok(v: ValueView) -> bool {
        let a = arr(v);
        &&& array_min(v, 7)
        &&& a[0].as_i64() is Some
        &&& forall|i: int| 1 <= i < 5 ==> (#[trigger] a[i].as_u64()) is Some
        &&& a[5].as_i64() is Some
        &&& a[6].as_i64() is Some
    }

    pub open spec fn decodes(v: ValueView, e: GridScroll) -> bool {
        let a = arr(v);
        &&& e.grid == a[0].as_i64()->0
        &&& forall|i: int| 0 <= i < 4 ==> e.reg.0[i] == (#[trigger] a[i + 1].as_u64())->0
        &&& e.rows == a[5].as_i64()->0
        &&& e.cols == a[6].as_i64()->0
    }

    pub fn from_value(args: &Value) -> (e: GridScroll)
        requires
            GridScroll::ok(args@),
        ensures
            GridScroll::decodes(args@, e),
    {
        let a = array_of(args);
        assert(a@[1]@.as_u64() is Some);
        assert(a@[2]@.as_u64() is Some);
        assert(a@[3]@.as_u64() is Some);
        assert(a@[4]@.as_u64() is Some);
        let reg = GridScrollRegion([u64_of(&a[1]), u64_of(&a[2]), u64_of(&a[3]), u64_of(&a[4])]);
        GridScroll { grid: i64_of(&a[0]), reg, rows: i64_of(&a[5]), cols: i64_of(&a[6]) }
    }
}

/// `v` as a `u64`, or `default` when it is not one.
pub open spec fn u64_or(v: ValueView, default: u64) -> u64 {
    match v.as_u64() {
        Some(n) => n,
        None => default,
    }
}

impl DefaultColorsSet {
    pub open spec fn spec_parse(v: ValueView) -> Option<DefaultColorsSet> {
        let a = arr(v);
        if array_min(v, 3) {
            Some(
                DefaultColorsSet {
                    fg: Color::spec_from_u64(u64_or(a[0], 0)),
                    bg: Color::spec_from_u64(u64_or(a[1], u64::MAX)),
                    sp: Color::spec_from_u64(u64_or(a[2], 16711680)),
                },
            )
        } else {
            None
        }
    }

    /// Missing colors default to black foreground, white background and
    /// red special.
    pub fn from_value(args: &Value) -> (e: DefaultColorsSet)
        requires
            DefaultColorsSet::spec_parse(args@) is Some,
        ensures
            e == DefaultColorsSet::spec_parse(args@)->0,
    {
        let a = array_of(args);
        let fg = Color::from_u64(
            match a[0].as_u64() {
                Some(n) => n,
                None => 0,
            },
        );
        let bg = Color::from_u64(
            match a[1].as_u64() {
                Some(n) => n,
                None => u64::MAX,
            },
        );
        let sp = Color::from_u64(
            match a[2].as_u64() {
                Some(n) => n,
                None => 16711680,
            },
        );
        DefaultColorsSet { fg, bg, sp }
    }
}

impl CmdlinePos {
    pub open spec fn spec_parse(v: ValueView) -> Option<CmdlinePos> {
        let a = arr(v);
        if array_min(v, 2) && a[0].as_u64() is Some && a[1].as_u64() is Some {
            Some(CmdlinePos { pos: a[0].as_u64()->0, level: a[1].as_u64()->0 })
        } else {
            None
        }
    }

    pub fn from_value(args: &Value) -> (e: CmdlinePos)
        requires
            CmdlinePos::spec_parse(args@) is Some,
        ensures
            e == CmdlinePos::spec_parse(args@)->0,
    {
        let a = array_of(args);
        CmdlinePos { pos: u64_of(&a[0]), level: u64_of(&a[1]) }
    }
}

impl ModeChange {
    pub open spec fn ok(v: ValueView) -> bool {
        let a = arr(v);
        array_min(v, 2) && a[0].as_str() is Some && a[1].as_u64() is Some
    }

    pub open spec fn decodes(v: ValueView, e: ModeChange) -> bool {
        let a = arr(v);
        e.name@ == a[0].as_str()->0 && e.index == a[1].as_u64()->0
    }

    pub fn from_value(args: &Value) -> (e: ModeChange)
        requires
            ModeChange::ok(args@),
        ensures
            ModeChange::decodes(args@, e),
    {
        let a = array_of(args);
        ModeChange { name: string_of(&a[0]), index: u64_of(&a[1]) }
    }
}

impl HlGroupSet {
    pub open spec fn ok(v: ValueView) -> bool {
        let a = arr(v);
        array_min(v, 2) && a[0].as_str() is Some && a[1].as_u64() is Some
    }

    pub open spec fn decodes(v: ValueView, e: HlGroupSet) -> bool {
        let a = arr(v);
        e.name@ == a[0].as_str()->0 && e.hl_id == a[1].as_u64()->0
    }

    pub fn from_value(args: &Value) -> (e: HlGroupSet)
        requires
            HlGroupSet::ok(args@),
        ensures
            HlGroupSet::decodes(args@, e),
    {
        let a = array_of(args);
        HlGroupSet { name: string_of(&a[0]), hl_id: u64_of(&a[1]) }
    }
}

impl CmdlineSpecialChar {
    pub open spec fn ok(v: ValueView) -> bool {
        let a = arr(v);
        array_min(v, 3) && a[0].as_str() is Some && a[1].as_bool() is Some && a[2].as_u64() is Some
    }

    pub open spec fn decodes(v: ValueView, e: CmdlineSpecialChar) -> bool {
        let a = arr(v);
        e.character@ == a[0].as_str()->0 && e.shift == a[1].as_bool()->0 && e.level
            == a[2].as_u64()->0
    }

    pub fn from_value(args: &Value) -> (e: CmdlineSpecialChar)
        requires
            CmdlineSpecialChar::ok(args@),
        ensures
            CmdlineSpecialChar::decodes(args@, e),
    {
        let a = array_of(args);
        CmdlineSpecialChar {
            character: string_of(&a[0]),
            shift: bool_of(&a[1]),
            level: u64_of(&a[2]),
        }
    }
}

impl MsgSetPos {
    pub open spec fn ok(v: ValueView) -> bool {
        let a = arr(v);
        &&& array_min(v, 4)
        &&& a[0].as_i64() is Some
        &&& a[1].as_u64() is Some
        &&& a[2].as_bool() is Some
        &&& a[3].as_str() is Some
    }

    pub open spec fn decodes(v: ValueView, e: MsgSetPos) -> bool {
        let a = arr(v);
        &&& e.grid == a[0].as_i64()->0
        &&& e.row == a[1].as_u64()->0
        &&& e.scrolled == a[2].as_bool()->0
        &&& e.sep_char@ == a[3].as_str()->0
    }

    pub fn from_value(args: &Value) -> (e: MsgSetPos)
        requires
            MsgSetPos::ok(args@),
        ensures
            MsgSetPos::decodes(args@, e),
    {
        let a = array_of(args);
        MsgSetPos {
            grid: i64_of(&a[0]),
            row: u64_of(&a[1]),
            scrolled: bool_of(&a[2]),
            sep_char: string_of(&a[3]),
        }
    }
}

impl WindowPos {
    pub open spec fn ok(v: ValueView) -> bool {
        let a = arr(v);
        &&& array_min(v, 6)
        &&& a[0].as_i64() is Some
        &&& forall|i: int| 2 <= i < 6 ==> (#[trigger] a[i].as_u64()) is Some
    }

    pub open spec fn decodes(v: ValueView, e: WindowPos) -> bool {
        let a = arr(v);
        &&& e.grid == a[0].as_i64()->0
        &&& e.win@ == a[1]
        &&& e.start_row == a[2].as_u64()->0
        &&& e.start_col == a[3].as_u64()->0
        &&& e.width == a[4].as_u64()->0
        &&& e.height == a[5].as_u64()->0
    }

    pub fn from_value(args: &Value) -> (e: WindowPos)
        requires
            WindowPos::ok(args@),
        ensures
            WindowPos::decodes(args@, e),
    {
        let a = array_of(args);
        assert(a@[2]@.as_u64() is Some);
        assert(a@[3]@.as_u64() is Some);
        assert(a@[4]@.as_u64() is Some);
        assert(a@[5]@.as_u64() is Some);
        WindowPos {
            grid: i64_of(&a[0]),
            win: a[1].copy(),
            start_row: u64_of(&a[2]),
            start_col: u64_of(&a[3]),
            width: u64_of(&a[4]),
            height: u64_of(&a[5]),
        }
    }
}

impl WindowExternalPos {
    pub open spec fn ok(v: ValueView) -> bool {
        let a = arr(v);
        array_min(v, 2) && a[0].as_i64() is Some
    }

    pub open spec fn decodes(v: ValueView, e: WindowExternalPos) -> bool {
        let a = arr(v);
        e.grid == a[0].as_i64()->0 && e.win@ == a[1]
    }

    pub fn from_value(args: &Value) -> (e: WindowExternalPos)
        requires
            WindowExternalPos::ok(args@),
        ensures
            WindowExternalPos::decodes(args@, e),
    {
        let a = array_of(args);
        WindowExternalPos { grid: i64_of(&a[0]), win: a[1].copy() }
    }
}

impl Anchor {
    /// The anchor named by a string; unknown names give `NW`.
    pub open spec fn spec_from_str(s: Seq<char>) -> Anchor {
        if s == "NW"@ {
            Anchor::NW
        } else if s == "NE"@ {
            Anchor::NE
        } else if s == "SW"@ {
            Anchor::SW
        } else if s == "SE"@ {
            Anchor::SE
        } else {
            Anchor::NW
        }
    }

    pub fn from_value(args: &Value) -> (a: Anchor)
        requires
            args@.as_str() is Some,
        ensures
            a == Anchor::spec_from_str(args@.as_str()->0),
    {
        let s = args.as_str().unwrap();
        if str_eq(s, "NW") {
            Anchor::NW
        } else if str_eq(s, "NE") {
            Anchor::NE
        } else if str_eq(s, "SW") {
            Anchor::SW
        } else if str_eq(s, "SE") {
            Anchor::SE
        } else {
            Anchor::NW
        }
    }

    pub fn is_west(&self) -> (r: bool)
        ensures
            r == (*self == Anchor::NW || *self == Anchor::SW),
    {
        matches!(self, Anchor::NW | Anchor::SW)
    }

    pub fn is_north(&self) -> (r: bool)
        ensures
            r == (*self == Anchor::NW || *self == Anchor::NE),
    {
        matches!(self, Anchor::NW | Anchor::NE)
    }
}

impl WindowFloatPos {
    pub open spec fn ok(v: ValueView) -> bool {
        let a = arr(v);
        &&& array_min(v, 7)
        &&& a[0].as_i64() is Some
        &&& a[2].as_str() is Some
        &&& a[3].as_i64() is Some
        &&& a[4].as_number() is Some
        &&& a[5].as_number() is Some
        &&& a[6].as_bool() is Some
    }

    pub open spec fn decodes(v: ValueView, e: WindowFloatPos) -> bool {
        let a = arr(v);
        &&& e.grid == a[0].as_i64()->0
        &&& e.win@ == a[1]
        &&& e.anchor == Anchor::spec_from_str(a[2].as_str()->0)
        &&& e.anchor_grid == a[3].as_i64()->0
        &&& e.anchor_row == a[4].as_number()->0
        &&& e.anchor_col == a[5].as_number()->0
        &&& e.focusable == a[6].as_bool()->0
    }

    pub fn from_value(args: &Value) -> (e: WindowFloatPos)
        requires
            WindowFloatPos::ok(args@),
        ensures
            WindowFloatPos::decodes(args@, e),
    {
        let a = array_of(args);
        WindowFloatPos {
            grid: i64_of(&a[0]),
            win: a[1].copy(),
            anchor: Anchor::from_value(&a[2]),
            anchor_grid: i64_of(&a[3]),
            anchor_row: a[4].as_number().unwrap(),
            anchor_col: a[5].as_number().unwrap(),
            focusable: bool_of(&a[6]),
        }
    }
}

/// The cells of a `grid_line` event, as text, highlight id, repeat count
/// and double width flag, or `None` when the entries are malformed. An
/// entry without a highlight id takes the one of the previous cell; an
/// entry with empty text marks the previous cell as double width.
pub open spec fn line_cells(es: Seq<ValueView>) -> Option<Seq<(Seq<char>, u64, u64, bool)>>
    decreases es.len(),
{
    if es.len() == 0 {
        Some(Seq::empty())
    } else {
        match line_cells(es.drop_last()) {
            None => None,
            Some(prev) => {
                let e = arr(es.last());
                if !(es.last() is Array && e.len() >= 1 && e[0].as_str() is Some) {
                    None
                } else if e.len() >= 3 && e[2].as_u64() is None {
                    None
                } else {
                    let text = e[0].as_str()->0;
                    let hl_opt = if e.len() >= 2 {
                        e[1].as_u64()
                    } else {
                        None
                    };
                    let repeat: u64 = if e.len() >= 3 {
                        e[2].as_u64()->0
                    } else {
                        1
                    };
                    if hl_opt is None && prev.len() == 0 {
                        None
                    } else {
                        let hl = match hl_opt {
                            Some(h) => h,
                            None => prev.last().1,
                        };
                        let marked = if text.len() == 0 && prev.len() > 0 {
                            prev.update(
                                prev.len() - 1,
                                (prev.last().0, prev.last().1, prev.last().2, true),
                            )
                        } else {
                            prev
                        };
                        Some(marked.push((text, hl, repeat, false)))
                    }
                }
            },
        }
    }
}

/// `cells` hold the text, highlight, repeat count and flag of `spec`.
pub open spec fn cells_match(cells: Seq<Cell>, spec: Seq<(Seq<char>, u64, u64, bool)>) -> bool {
    &&& cells.len() == spec.len()
    &&& forall|i: int|
        #![trigger cells[i]]
        0 <= i < cells.len() ==> cells[i].text@ == spec[i].0 && cells[i].hl_id == spec[i].1
            && cells[i].repeat == spec[i].2 && cells[i].double_width == spec[i].3
}

pub(crate) proof fn lemma_line_cells_prefix(es: Seq<ValueView>, i: int)
    requires
        0 <= i <= es.len(),
        line_cells(es) is Some,
    ensures
        line_cells(es.take(i)) is Some,
    decreases es.len(),
{
    if i < es.len() {
        assert(es.take(i) =~= es.drop_last().take(i));
        lemma_line_cells_prefix(es.drop_last(), i);
    } else {
        assert(es.take(i) =~= es);
    }
}

fn cells_of(entries: &Vec<Value>) -> (cells: Vec<Cell>)
    requires
        line_cells(entries@.map_values(|v: Value| v@)) is Some,
    ensures
        cells_match(cells@, line_cells(entries@.map_values(|v: Value| v@))->0),
{
    let ghost es = entries@.map_values(|v: Value| v@);
    let mut cells: Vec<Cell> = Vec::new();
    let mut i: usize = 0;
    assert(es.take(0) =~= Seq::<ValueView>::empty());
    while i < entries.len()
        invariant
            es == entries@.map_values(|v: Value| v@),
            line_cells(es) is Some,
            0 <= i <= es.len(),
            line_cells(es.take(i as int)) is Some,
            cells_match(cells@, line_cells(es.take(i as int))->0),
        decreases es.len() - i,
    {
        proof {
            lemma_line_cells_prefix(es, i + 1);
            assert(es.take(i + 1).drop_last() =~= es.take(i as int));
            assert(es.take(i + 1).last() == entries@[i as int]@);
        }
        let ghost prev = line_cells(es.take(i as int))->0;
        let entry = array_of(&entries[i]);
        let text = string_of(&entry[0]);
        let hl_opt = if entry.len() >= 2 {
            entry[1].as_u64()
        } else {
            None
        };
        let repeat: u64 = if entry.len() >= 3 {
            u64_of(&entry[2])
        } else {
            1
        };
        let hl_id = match hl_opt {
            Some(h) => h,
            None => cells[cells.len() - 1].hl_id,
        };
        if crate::text::char_count(text.as_str()) == 0 && cells.len() > 0 {
            let mut last = cells.pop().unwrap();
            last.double_width = true;
            cells.push(last);
        }
        cells.push(Cell { hl_id, repeat, text, double_width: false });
        proof {
            let spec = line_cells(es.take(i + 1))->0;
            assert forall|k: int| 0 <= k < cells@.len() implies #[trigger] cells@[k].text@ == spec[k].0
                && cells@[k].hl_id == spec[k].1 && cells@[k].repeat == spec[k].2
                && cells@[k].double_width == spec[k].3 by {
                if k < prev.len() {
                    assert(cells@[k].text@ == prev[k].0);
                }
            }
        }
        i = i + 1;
    }
    assert(es.take(es.len() as int) =~= es);
    cells
}

impl GridLineSegment {
    pub open spec fn ok(v: ValueView) -> bool {
        let a = arr(v);
        &&& array_min(v, 4)
        &&& a[0].as_i64() is Some
        &&& a[1].as_u64() is Some
        &&& a[2].as_u64() is Some
        &&& a[3] is Array
        &&& line_cells(arr(a[3])) is Some
    }

    pub open spec fn decodes(v: ValueView, e: GridLineSegment) -> bool {
        let a = arr(v);
        &&& e.grid == a[0].as_i64()->0
        &&& e.row == a[1].as_u64()->0
        &&& e.col_start == a[2].as_u64()->0
        &&& cells_match(e.cells@, line_cells(arr(a[3]))->0)
    }

    pub fn from_value(args: &Value) -> (e: GridLineSegment)
        requires
            GridLineSegment::ok(args@),
        ensures
            GridLineSegment::decodes(args@, e),
    {
        let a = array_of(args);
        let entries = array_of(&a[3]);
        assert(entries@.map_values(|v: Value| v@) =~= arr(a@[3]@));
        GridLineSegment {
            grid: i64_of(&a[0]),
            row: u64_of(&a[1]),
            col_start: u64_of(&a[2]),
            cells: cells_of(entries),
        }
    }
}

/// The color of a highlight attribute: absent unless the value is a `u64`.
pub open spec fn opt_color(val: ValueView) -> Option<Color> {
    match val.as_u64() {
        Some(n) => Some(Color::spec_from_u64(n)),
        None => None,
    }
}

/// `h` with the attribute `prop` set from `val`; `None` when the value of a
/// flag is not a boolean or the blend is not a number. Unknown attributes
/// leave `h` as it is.
pub open spec fn hl_set(h: Highlight, prop: Seq<char>, val: ValueView) -> Option<Highlight> {
    if prop == "foreground"@ {
        Some(Highlight { foreground: opt_color(val), ..h })
    } else if prop == "background"@ {
        Some(Highlight { background: opt_color(val), ..h })
    } else if prop == "special"@ {
        Some(Highlight { special: opt_color(val), ..h })
    } else if prop == "reverse"@ {
        match val.as_bool() {
            Some(b) => Some(Highlight { reverse: b, ..h }),
            None => None,
        }
    } else if prop == "italic"@ {
        match val.as_bool() {
            Some(b) => Some(Highlight { italic: b, ..h }),
            None => None,
        }
    } else if prop == "bold"@ {
        match val.as_bool() {
            Some(b) => Some(Highlight { bold: b, ..h }),
            None => None,
        }
    } else if prop == "underline"@ {
        match val.as_bool() {
            Some(b) => Some(Highlight { underline: b, ..h }),
            None => None,
        }
    } else if prop == "undercurl"@ {
        match val.as_bool() {
            Some(b) => Some(Highlight { undercurl: b, ..h }),
            None => None,
        }
    } else if prop == "blend"@ {
        match val.as_number() {
            Some(n) => Some(Highlight { blend: n, ..h }),
            None => None,
        }
    } else {
        Some(h)
    }
}

/// The highlight that the attributes `es` define, set in order on the
/// default highlight; `None` when a key is not a string or a value is
/// malformed.
pub open spec fn hl_of_entries(es: Seq<(ValueView, ValueView)>) -> Option<Highlight>
    decreases es.len(),
{
    if es.len() == 0 {
        Some(Highlight::spec_default())
    } else {
        match hl_of_entries(es.drop_last()) {
            None => None,
            Some(h) => match es.last().0.as_str() {
                Some(k) => hl_set(h, k, es.last().1),
                None => None,
            },
        }
    }
}

/// The pairs of a dictionary value (empty for any other value).
pub open spec fn dict(v: ValueView) -> Seq<(ValueView, ValueView)> {
    match v {
        ValueView::Dict(d) => d,
        _ => Seq::empty(),
    }
}

pub(crate) fn dict_of(v: &Value) -> (d: &Vec<(Value, Value)>)
    requires
        v@ is Dict,
    ensures
        d@.len() == dict(v@).len(),
        forall|i: int|
            0 <= i < d@.len() ==> (#[trigger] d@[i]).0@ == dict(v@)[i].0 && d@[i].1@ == dict(
                v@,
            )[i].1,
{
    v.as_dict().unwrap()
}

/// The views of the pairs of a dictionary.
pub open spec fn pairs_view(d: Seq<(Value, Value)>) -> Seq<(ValueView, ValueView)> {
    d.map_values(|p: (Value, Value)| (p.0@, p.1@))
}

impl Highlight {
    /// Sets the attribute `prop` from `val`.
    pub fn set(&mut self, prop: &str, val: &Value)
        requires
            hl_set(*old(self), prop@, val@) is Some,
        ensures
            *final(self) == hl_set(*old(self), prop@, val@)->0,
    {
        if str_eq(prop, "foreground") {
            self.foreground = match val.as_u64() {
                Some(n) => Some(Color::from_u64(n)),
                None => None,
            };
        } else if str_eq(prop, "background") {
            self.background = match val.as_u64() {
                Some(n) => Some(Color::from_u64(n)),
                None => None,
            };
        } else if str_eq(prop, "special") {
            self.special = match val.as_u64() {
                Some(n) => Some(Color::from_u64(n)),
                None => None,
            };
        } else if str_eq(prop, "reverse") {
            self.reverse = bool_of(val);
        } else if str_eq(prop, "italic") {
            self.italic = bool_of(val);
        } else if str_eq(prop, "bold") {
            self.bold = bool_of(val);
        } else if str_eq(prop, "underline") {
            self.underline = bool_of(val);
        } else if str_eq(prop, "undercurl") {
            self.undercurl = bool_of(val);
        } else if str_eq(prop, "blend") {
            self.blend = val.as_number().unwrap();
        }
    }

    /// The highlight that a map of attributes defines.
    pub fn from_map_val(map: &Vec<(Value, Value)>) -> (h: Highlight)
        requires
            hl_of_entries(pairs_view(map@)) is Some,
        ensures
            h == hl_of_entries(pairs_view(map@))->0,
    {
        let ghost es = pairs_view(map@);
        let mut hl = Highlight::default();
        let mut i: usize = 0;
        assert(es.take(0) =~= Seq::<(ValueView, ValueView)>::empty());
        while i < map.len()
            invariant
                es == pairs_view(map@),
                hl_of_entries(es) is Some,
                0 <= i <= es.len(),
                hl_of_entries(es.take(i as int)) == Some(hl),
            decreases es.len() - i,
        {
            proof {
                lemma_hl_prefix(es, i + 1);
                assert(es.take(i + 1).drop_last() =~= es.take(i as int));
                assert(es.take(i + 1).last() == es[i as int]);
            }
            let prop = map[i].0.as_str().unwrap();
            hl.set(prop, &map[i].1);
            i = i + 1;
        }
        assert(es.take(es.len() as int) =~= es);
        hl
    }
}

pub(crate) proof fn lemma_hl_prefix(es: Seq<(ValueView, ValueView)>, i: int)
    requires
        0 <= i <= es.len(),
        hl_of_entries(es) is Some,
    ensures
        hl_of_entries(es.take(i)) is Some,
    decreases es.len(),
{
    if i < es.len() {
        assert(es.take(i) =~= es.drop_last().take(i));
        lemma_hl_prefix(es.drop_last(), i);
    } else {
        assert(es.take(i) =~= es);
    }
}

impl HlAttrDefine {
    pub open spec fn spec_parse(v: ValueView) -> Option<HlAttrDefine> {
        let a = arr(v);
        if array_min(v, 2) && a[0].as_u64() is Some && a[1] is Dict && hl_of_entries(dict(a[1]))
            is Some {
            Some(HlAttrDefine { id: a[0].as_u64()->0, hl: hl_of_entries(dict(a[1]))->0 })
        } else {
            None
        }
    }

    pub fn from_value(args: &Value) -> (e: HlAttrDefine)
        requires
            HlAttrDefine::spec_parse(args@) is Some,
        ensures
            e == HlAttrDefine::spec_parse(args@)->0,
    {
        let a = array_of(args);
        let id = u64_of(&a[0]);
        let map = dict_of(&a[1]);
        assert(pairs_view(map@) =~= dict(a@[1]@));
        HlAttrDefine { id, hl: Highlight::from_map_val(map) }
    }
}

/// `c` lowercases to the lowercase ASCII letter `w`: it is `w`, its
/// uppercase, or (for `k`) the Kelvin sign.
pub open spec fn lowers_to(c: char, w: char) -> bool {
    ||| c == w
    ||| ('A' <= c <= 'Z' && c as int + 32 == w as int)
    ||| (c == '\u{212A}' && w == 'k')
}

/// `s` lowercases to the lowercase ASCII word `w`.
pub open spec fn lower_eq(s: Seq<char>, w: Seq<char>) -> bool {
    s.len() == w.len() && forall|i: int| 0 <= i < s.len() ==> #[trigger] lowers_to(s[i], w[i])
}

pub(crate) fn lower_eq_exec(s: &str, w: &str) -> (r: bool)
    ensures
        r == lower_eq(s@, w@),
{
    let n = s.unicode_len();
    if n != w.unicode_len() {
        return false;
    }
    let mut i: usize = 0;
    while i < n
        invariant
            n == s@.len(),
            n == w@.len(),
            0 <= i <= n,
            forall|k: int| 0 <= k < i ==> #[trigger] lowers_to(s@[k], w@[k]),
        decreases n - i,
    {
        let c = s.get_char(i);
        let x = w.get_char(i);
        let ok = c == x || ('A' <= c && c <= 'Z' && (c as u32) + 32 == x as u32) || (c
            == '\u{212A}' && x == 'k');
        if !ok {
            assert(!lowers_to(s@[i as int], w@[i as int]));
            return false;
        }
        i = i + 1;
    }
    true
}

impl CursorShape {
    /// The shape named by `s`, compared without regard to case.
    pub open spec fn spec_from(s: Seq<char>) -> Option<CursorShape> {
        if lower_eq(s, "block"@) {
            Some(CursorShape::Block)
        } else if lower_eq(s, "horizontal"@) {
            Some(CursorShape::Horizontal)
        } else if lower_eq(s, "vertical"@) {
            Some(CursorShape::Vertical)
        } else {
            None
        }
    }

    pub fn from_string(name: &str) -> (c: CursorShape)
        requires
            CursorShape::spec_from(name@) is Some,
        ensures
            c == CursorShape::spec_from(name@)->0,
    {
        if lower_eq_exec(name, "block") {
            CursorShape::Block
        } else if lower_eq_exec(name, "horizontal") {
            CursorShape::Horizontal
        } else {
            CursorShape::Vertical
        }
    }
}

impl ModeInfo {
    /// No blinking, a block cursor, and a cell percentage of 0.
    pub open spec fn spec_default() -> ModeInfo {
        ModeInfo { blink_on: 0, cursor_shape: CursorShape::Block, cell_percentage: 0 }
    }

    pub fn default_mode() -> (m: ModeInfo)
        ensures
            m == ModeInfo::spec_default(),
    {
        ModeInfo { blink_on: 0, cursor_shape: CursorShape::Block, cell_percentage: 0 }
    }

    /// `m` with the property `prop` set from `val`; a cell percentage of 0
    /// counts as 100. Unknown properties leave `m` as it is.
    pub open spec fn spec_set(m: ModeInfo, prop: Seq<char>, val: ValueView) -> Option<ModeInfo> {
        if prop == "blinkon"@ {
            match val.as_u64() {
                Some(n) => Some(ModeInfo { blink_on: n, ..m }),
                None => None,
            }
        } else if prop == "cursor_shape"@ {
            match val.as_str() {
                Some(s) => match CursorShape::spec_from(s) {
                    Some(c) => Some(ModeInfo { cursor_shape: c, ..m }),
                    None => None,
                },
                None => None,
            }
        } else if prop == "cell_percentage"@ {
            match val.as_u64() {
                Some(n) => Some(
                    ModeInfo {
                        cell_percentage: if n == 0 {
                            100
                        } else {
                            n
                        },
                        ..m
                    },
                ),
                None => None,
            }
        } else {
            Some(m)
        }
    }

    /// The mode that the properties `es` define, set in order on the
    /// default mode.
    pub open spec fn of_entries(es: Seq<(ValueView, ValueView)>) -> Option<ModeInfo>
        decreases es.len(),
    {
        if es.len() == 0 {
            Some(ModeInfo::spec_default())
        } else {
            match ModeInfo::of_entries(es.drop_last()) {
                None => None,
                Some(m) => match es.last().0.as_str() {
                    Some(k) => ModeInfo::spec_set(m, k, es.last().1),
                    None => None,
                },
            }
        }
    }

    pub fn set(&mut self, prop: &str, val: &Value)
        requires
            ModeInfo::spec_set(*old(self), prop@, val@) is Some,
        ensures
            *final(self) == ModeInfo::spec_set(*old(self), prop@, val@)->0,
    {
        if str_eq(prop, "blinkon") {
            self.blink_on = u64_of(val);
        } else if str_eq(prop, "cursor_shape") {
            self.cursor_shape = CursorShape::from_string(val.as_str().unwrap());
        } else if str_eq(prop, "cell_percentage") {
            let mut v = u64_of(val);
            if v == 0 {
                v = 100;
            }
            self.cell_percentage = v;
        }
    }

    pub fn from_map_val(map: &Vec<(Value, Value)>) -> (m: ModeInfo)
        requires
            ModeInfo::of_entries(pairs_view(map@)) is Some,
        ensures
            m == ModeInfo::of_entries(pairs_view(map@))->0,
    {
        let ghost es = pairs_view(map@);
        let mut mode = ModeInfo::default_mode();
        let mut i: usize = 0;
        assert(es.take(0) =~= Seq::<(ValueView, ValueView)>::empty());
        while i < map.len()
            invariant
                es == pairs_view(map@),
                ModeInfo::of_entries(es) is Some,
                0 <= i <= es.len(),
                ModeInfo::of_entries(es.take(i as int)) == Some(mode),
            decreases es.len() - i,
        {
            proof {
                lemma_mode_prefix(es, i + 1);
                assert(es.take(i + 1).drop_last() =~= es.take(i as int));
                assert(es.take(i + 1).last() == es[i as int]);
            }
            let prop = map[i].0.as_str().unwrap();
            mode.set(prop, &map[i].1);
            i = i + 1;
        }
        assert(es.take(es.len() as int) =~= es);
        mode
    }
}

pub(crate) proof fn lemma_mode_prefix(es: Seq<(ValueView, ValueView)>, i: int)
    requires
        0 <= i <= es.len(),
        ModeInfo::of_entries(es) is Some,
    ensures
        ModeInfo::of_entries(es.take(i)) is Some,
    decreases es.len(),
{
    if i < es.len() {
        assert(es.take(i) =~= es.drop_last().take(i));
        lemma_mode_prefix(es.drop_last(), i);
    } else {
        assert(es.take(i) =~= es);
    }
}

impl ModeInfoSet {
    pub open spec fn ok(v: ValueView) -> bool {
        let a = arr(v);
        &&& array_min(v, 2)
        &&& a[0].as_bool() is Some
        &&& a[1] is Array
        &&& forall|i: int|
            0 <= i < arr(a[1]).len() ==> (#[trigger] arr(a[1])[i]) is Dict && ModeInfo::of_entries(
                dict(arr(a[1])[i]),
            ) is Some
    }

    pub open spec fn decodes(v: ValueView, e: ModeInfoSet) -> bool {
        let a = arr(v);
        &&& e.cursor_shape_enabled == a[0].as_bool()->0
        &&& e.mode_info@.len() == arr(a[1]).len()
        &&& forall|i: int|
            0 <= i < e.mode_info@.len() ==> #[trigger] e.mode_info@[i] == ModeInfo::of_entries(
                dict(arr(a[1])[i]),
            )->0
    }

    pub fn from_value(args: &Value) -> (e: ModeInfoSet)
        requires
            ModeInfoSet::ok(args@),
        ensures
            ModeInfoSet::decodes(args@, e),
    {
        let a = array_of(args);
        let cursor_shape_enabled = bool_of(&a[0]);
        let infos = array_of(&a[1]);
        let ghost list = arr(a@[1]@);
        let mut mode_info: Vec<ModeInfo> = Vec::new();
        let mut i: usize = 0;
        while i < infos.len()
            invariant
                infos@.len() == list.len(),
                forall|k: int| 0 <= k < infos@.len() ==> (#[trigger] infos@[k])@ == list[k],
                forall|k: int|
                    0 <= k < list.len() ==> (#[trigger] list[k]) is Dict && ModeInfo::of_entries(
                        dict(list[k]),
                    ) is Some,
                0 <= i <= list.len(),
                mode_info@.len() == i,
                forall|k: int|
                    0 <= k < i ==> #[trigger] mode_info@[k] == ModeInfo::of_entries(
                        dict(list[k]),
                    )->0,
            decreases list.len() - i,
        {
            let map = dict_of(&infos[i]);
            assert(pairs_view(map@) =~= dict(list[i as int]));
            mode_info.push(ModeInfo::from_map_val(map));
            i = i + 1;
        }
        ModeInfoSet { cursor_shape_enabled, mode_info }
    }
}

impl OptionSet {
    pub open spec fn ok(v: ValueView) -> bool {
        let a = arr(v);
        let n = a[0].as_str()->0;
        &&& array_min(v, 1)
        &&& a[0].as_str() is Some
        &&& n == "guifont"@ ==> a.len() >= 2 && a[1].as_str() is Some
        &&& n == "linespace"@ ==> a.len() >= 2 && a[1].as_i64() is Some
        &&& (n == "ext_tabline"@ || n == "ext_cmdline"@ || n == "ext_popupmenu"@) ==> a.len() >= 2
            && a[1].as_bool() is Some
    }

    pub open spec fn decodes(v: ValueView, e: OptionSet) -> bool {
        let a = arr(v);
        let n = a[0].as_str()->0;
        if n == "guifont"@ {
            e matches OptionSet::GuiFont(f) && f@ == a[1].as_str()->0
        } else if n == "linespace"@ {
            e == OptionSet::LineSpace(a[1].as_i64()->0)
        } else if n == "ext_tabline"@ {
            e == OptionSet::ExtTabline(a[1].as_bool()->0)
        } else if n == "ext_cmdline"@ {
            e == OptionSet::ExtCmdline(a[1].as_bool()->0)
        } else if n == "ext_popupmenu"@ {
            e == OptionSet::ExtPopupmenu(a[1].as_bool()->0)
        } else {
            e matches OptionSet::NotSupported(f) && f@ == n
        }
    }

    pub fn from_value(args: &Value) -> (e: OptionSet)
        requires
            OptionSet::ok(args@),
        ensures
            OptionSet::decodes(args@, e),
    {
        let a = array_of(args);
        let name = a[0].as_str().unwrap();
        if str_eq(name, "guifont") {
            OptionSet::GuiFont(string_of(&a[1]))
        } else if str_eq(name, "linespace") {
            OptionSet::LineSpace(i64_of(&a[1]))
        } else if str_eq(name, "ext_tabline") {
            OptionSet::ExtTabline(bool_of(&a[1]))
        } else if str_eq(name, "ext_cmdline") {
            OptionSet::ExtCmdline(bool_of(&a[1]))
        } else if str_eq(name, "ext_popupmenu") {
            OptionSet::ExtPopupmenu(bool_of(&a[1]))
        } else {
            OptionSet::NotSupported(to_string(name))
        }
    }
}

/// The kind of a completion item, as completion plugins spell it.
#[derive(Clone, Copy, PartialEq, Eq, Structural, Debug)]
pub enum CompletionItemKind {
    Class,
    Color,
    Constant,
    Constructor,
    Enum,
    EnumMember,
    Event,
    Function,
    File,
    Folder,
    Field,
    Interface,
    Keyword,
    Method,
    Module,
    Operator,
    Property,
    Reference,
    Snippet,
    Struct,
    Text,
    TypeParameter,
    Unit,
    Unknown,
    Value,
    Variable,
}

/// The kind that `s` names: lower case names are those of vim-lsp, single
/// letters those of coc.nvim, capitalized names those of
/// LanguageClient-neovim. Any other name is `Unknown`.
pub open spec fn kind_of(s: Seq<char>) -> CompletionItemKind {
    if s == "class"@ || s == "C"@ || s == "Class"@ {
        CompletionItemKind::Class
    } else if s == "color"@ {
        CompletionItemKind::Color
    } else if s == "constant"@ || s == "Constant"@ {
        CompletionItemKind::Constant
    } else if s == "constructor"@ || s == "Constructor"@ {
        CompletionItemKind::Constructor
    } else if s == "enum"@ || s == "Enum"@ {
        CompletionItemKind::Enum
    } else if s == "enum member"@ || s == "Enum Member"@ {
        CompletionItemKind::EnumMember
    } else if s == "event"@ || s == "E"@ || s == "Event"@ {
        CompletionItemKind::Event
    } else if s == "file"@ || s == "F"@ || s == "File"@ {
        CompletionItemKind::File
    } else if s == "field"@ || s == "m"@ || s == "Field"@ {
        CompletionItemKind::Field
    } else if s == "folder"@ || s == "Folder"@ {
        CompletionItemKind::Folder
    } else if s == "function"@ || s == "Function"@ {
        CompletionItemKind::Function
    } else if s == "interface"@ || s == "I"@ || s == "Interface"@ {
        CompletionItemKind::Interface
    } else if s == "keyword"@ || s == "k"@ || s == "Key"@ {
        CompletionItemKind::Keyword
    } else if s == "method"@ || s == "f"@ || s == "Method"@ {
        CompletionItemKind::Method
    } else if s == "module"@ || s == "M"@ || s == "Module"@ {
        CompletionItemKind::Module
    } else if s == "operator"@ || s == "O"@ || s == "Operator"@ {
        CompletionItemKind::Operator
    } else if s == "property"@ || s == "Property"@ {
        CompletionItemKind::Property
    } else if s == "reference"@ || s == "r"@ {
        CompletionItemKind::Reference
    } else if s == "snippet"@ {
        CompletionItemKind::Snippet
    } else if s == "struct"@ || s == "S"@ || s == "Struct"@ {
        CompletionItemKind::Struct
    } else if s == "text"@ {
        CompletionItemKind::Text
    } else if s == "type parameter"@ || s == "T"@ || s == "Type Parameter"@ {
        CompletionItemKind::TypeParameter
    } else if s == "unit"@ || s == "U"@ {
        CompletionItemKind::Unit
    } else if s == "value"@ {
        CompletionItemKind::Value
    } else if s == "variable"@ || s == "v"@ || s == "Variable"@ {
        CompletionItemKind::Variable
    } else {
        CompletionItemKind::Unknown
    }
}

impl CompletionItemKind {
    pub fn from_name(s: &str) -> (k: CompletionItemKind)
        ensures
            k == kind_of(s@),
    {
        if str_eq(s, "class") || str_eq(s, "C") || str_eq(s, "Class") {
            CompletionItemKind::Class
        } else if str_eq(s, "color") {
            CompletionItemKind::Color
        } else if str_eq(s, "constant") || str_eq(s, "Constant") {
            CompletionItemKind::Constant
        } else if str_eq(s, "constructor") || str_eq(s, "Constructor") {
            CompletionItemKind::Constructor
        } else if str_eq(s, "enum") || str_eq(s, "Enum") {
            CompletionItemKind::Enum
        } else if str_eq(s, "enum member") || str_eq(s, "Enum Member") {
            CompletionItemKind::EnumMember
        } else if str_eq(s, "event") || str_eq(s, "E") || str_eq(s, "Event") {
            CompletionItemKind::Event
        } else if str_eq(s, "file") || str_eq(s, "F") || str_eq(s, "File") {
            CompletionItemKind::File
        } else if str_eq(s, "field") || str_eq(s, "m") || str_eq(s, "Field") {
            CompletionItemKind::Field
        } else if str_eq(s, "folder") || str_eq(s, "Folder") {
            CompletionItemKind::Folder
        } else if str_eq(s, "function") || str_eq(s, "Function") {
            CompletionItemKind::Function
        } else if str_eq(s, "interface") || str_eq(s, "I") || str_eq(s, "Interface") {
            CompletionItemKind::Interface
        } else if str_eq(s, "keyword") || str_eq(s, "k") || str_eq(s, "Key") {
            CompletionItemKind::Keyword
        } else if str_eq(s, "method") || str_eq(s, "f") || str_eq(s, "Method") {
            CompletionItemKind::Method
        } else if str_eq(s, "module") || str_eq(s, "M") || str_eq(s, "Module") {
            CompletionItemKind::Module
        } else if str_eq(s, "operator") || str_eq(s, "O") || str_eq(s, "Operator") {
            CompletionItemKind::Operator
        } else if str_eq(s, "property") || str_eq(s, "Property") {
            CompletionItemKind::Property
        } else if str_eq(s, "reference") || str_eq(s, "r") {
            CompletionItemKind::Reference
        } else if str_eq(s, "snippet") {
            CompletionItemKind::Snippet
        } else if str_eq(s, "struct") || str_eq(s, "S") || str_eq(s, "Struct") {
            CompletionItemKind::Struct
        } else if str_eq(s, "text") {
            CompletionItemKind::Text
        } else if str_eq(s, "type parameter") || str_eq(s, "T") || str_eq(s, "Type Parameter") {
            CompletionItemKind::TypeParameter
        } else if str_eq(s, "unit") || str_eq(s, "U") {
            CompletionItemKind::Unit
        } else if str_eq(s, "value") {
            CompletionItemKind::Value
        } else if str_eq(s, "variable") || str_eq(s, "v") || str_eq(s, "Variable") {
            CompletionItemKind::Variable
        } else {
            CompletionItemKind::Unknown
        }
    }

    pub fn is_unknown(&self) -> (r: bool)
        ensures
            r == (*self == CompletionItemKind::Unknown),
    {
        matches!(self, CompletionItemKind::Unknown)
    }
}

impl<'a> From<&'a str> for CompletionItemKind {
    fn from(s: &'a str) -> (k: CompletionItemKind) {
        CompletionItemKind::from_name(s)
    }
}

impl<'a> vstd::std_specs::convert::FromSpecImpl<&'a str> for CompletionItemKind {
    open spec fn obeys_from_spec() -> bool {
        true
    }

    open spec fn from_spec(s: &'a str) -> CompletionItemKind {
        kind_of(s@)
    }
}

/// One entry of the completion menu.
#[derive(Clone, PartialEq, Debug)]
pub struct CompletionItem {
    pub word: String,
    pub kind: CompletionItemKind,
    pub kind_raw: String,
    pub menu: String,
    pub info: String,
}

/// A `popupmenu_show` event. `grid` is `None` where the event does not
/// name a grid (Neovim before multigrid sends four arguments).
#[derive(PartialEq, Debug)]
pub struct PopupmenuShow {
    pub items: Vec<CompletionItem>,
    pub selected: i64,
    pub row: u64,
    pub col: u64,
    pub grid: Option<i64>,
}

/// `v` is a completion item: an array of at least four strings (word,
/// kind, menu and info).
pub open spec fn item_ok(v: ValueView) -> bool {
    let e = arr(v);
    &&& array_min(v, 4)
    &&& forall|i: int| 0 <= i < 4 ==> (#[trigger] e[i].as_str()) is Some
}

/// `c` holds what the completion item `v` sends.
pub open spec fn item_decodes(v: ValueView, c: CompletionItem) -> bool {
    let e = arr(v);
    &&& c.word@ == e[0].as_str()->0
    &&& c.kind == kind_of(e[1].as_str()->0)
    &&& c.kind_raw@ == e[1].as_str()->0
    &&& c.menu@ == e[2].as_str()->0
    &&& c.info@ == e[3].as_str()->0
}

impl CompletionItem {
    pub fn from_value(v: &Value) -> (c: CompletionItem)
        requires
            item_ok(v@),
        ensures
            item_decodes(v@, c),
    {
        let e = array_of(v);
        assert(e@[0]@.as_str() is Some);
        assert(e@[1]@.as_str() is Some);
        assert(e@[2]@.as_str() is Some);
        assert(e@[3]@.as_str() is Some);
        let kind_name = e[1].as_str().unwrap();
        CompletionItem {
            word: string_of(&e[0]),
            kind: CompletionItemKind::from_name(kind_name),
            kind_raw: to_string(kind_name),
            menu: string_of(&e[2]),
            info: string_of(&e[3]),
        }
    }
}

impl PopupmenuShow {
    pub open spec fn ok(v: ValueView) -> bool {
        let a = arr(v);
        &&& array_min(v, 4)
        &&& a[0] is Array
        &&& forall|i: int| 0 <= i < arr(a[0]).len() ==> item_ok(#[trigger] arr(a[0])[i])
        &&& a[1].as_i64() is Some
        &&& a[2].as_u64() is Some
        &&& a[3].as_u64() is Some
        &&& a.len() > 4 ==> a[4].as_i64() is Some
    }

    pub open spec fn decodes(v: ValueView, e: PopupmenuShow) -> bool {
        let a = arr(v);
        &&& e.items@.len() == arr(a[0]).len()
        &&& forall|i: int|
            0 <= i < e.items@.len() ==> item_decodes(arr(a[0])[i], #[trigger] e.items@[i])
        &&& e.selected == a[1].as_i64()->0
        &&& e.row == a[2].as_u64()->0
        &&& e.col == a[3].as_u64()->0
        &&& e.grid == (if a.len() > 4 {
            Some(a[4].as_i64()->0)
        } else {
            None
        })
    }

    pub fn from_value(args: &Value) -> (e: PopupmenuShow)
        requires
            PopupmenuShow::ok(args@),
        ensures
            PopupmenuShow::decodes(args@, e),
    {
        let a = array_of(args);
        let list = array_of(&a[0]);
        let ghost es = arr(a@[0]@);
        let mut items: Vec<CompletionItem> = Vec::new();
        let mut i: usize = 0;
        while i < list.len()
            invariant
                list@.len() == es.len(),
                forall|k: int| 0 <= k < list@.len() ==> (#[trigger] list@[k])@ == es[k],
                forall|k: int| 0 <= k < es.len() ==> item_ok(#[trigger] es[k]),
                0 <= i <= es.len(),
                items@.len() == i,
                forall|k: int| 0 <= k < i ==> item_decodes(es[k], #[trigger] items@[k]),
            decreases es.len() - i,
        {
            assert(item_ok(es[i as int]));
            items.push(CompletionItem::from_value(&list[i]));
            i = i + 1;
        }
        PopupmenuShow {
            items,
            selected: i64_of(&a[1]),
            row: u64_of(&a[2]),
            col: u64_of(&a[3]),
            grid: if a.len() > 4 {
                Some(i64_of(&a[4]))
            } else {
                None
            },
        }
    }
}

/// `v` is a highlighted chunk of text: `v[0]` is a highlight id and
/// `v[1]` a string.
pub open spec fn chunk_ok(v: ValueView) -> bool {
    v.item(0).as_u64() is Some && v.item(1).as_str() is Some
}

/// Every element of `s` is a highlighted chunk.
pub open spec fn chunks_ok(s: Seq<ValueView>) -> bool {
    forall|i: int| 0 <= i < s.len() ==> chunk_ok(#[trigger] s[i])
}

/// `c` holds the highlight ids and texts of the chunks `s`.
pub open spec fn chunks_match(c: Seq<(u64, String)>, s: Seq<ValueView>) -> bool {
    &&& c.len() == s.len()
    &&& forall|i: int|
        0 <= i < c.len() ==> (#[trigger] c[i]).0 == s[i].item(0).as_u64()->0 && c[i].1@
            == s[i].item(1).as_str()->0
}

/// The chunks of the array value `v`.
fn chunks_of(v: &Value) -> (c: Vec<(u64, String)>)
    requires
        v@ is Array,
        chunks_ok(arr(v@)),
    ensures
        chunks_match(c@, arr(v@)),
{
    let list = array_of(v);
    let ghost es = arr(v@);
    let mut c: Vec<(u64, String)> = Vec::new();
    let mut i: usize = 0;
    while i < list.len()
        invariant
            list@.len() == es.len(),
            forall|k: int| 0 <= k < list@.len() ==> (#[trigger] list@[k])@ == es[k],
            chunks_ok(es),
            0 <= i <= es.len(),
            c@.len() == i,
            forall|k: int|
                0 <= k < i ==> (#[trigger] c@[k]).0 == es[k].item(0).as_u64()->0 && c@[k].1@
                    == es[k].item(1).as_str()->0,
        decreases es.len() - i,
    {
        assert(chunk_ok(es[i as int]));
        let hl = u64_of(&item_of(&list[i], 0));
        let text = string_of(&item_of(&list[i], 1));
        c.push((hl, text));
        i = i + 1;
    }
    c
}

/// A `cmdline_show` event.
#[derive(PartialEq, Debug)]
pub struct CmdlineShow {
    pub content: Vec<(u64, String)>,
    pub pos: u64,
    pub firstc: String,
    pub prompt: String,
    pub indent: u64,
    pub level: u64,
}

impl CmdlineShow {
    pub open spec fn ok(v: ValueView) -> bool {
        let a = arr(v);
        &&& array_min(v, 6)
        &&& a[0] is Array
        &&& chunks_ok(arr(a[0]))
        &&& a[1].as_u64() is Some
        &&& a[2].as_str() is Some
        &&& a[3].as_str() is Some
        &&& a[4].as_u64() is Some
        &&& a[5].as_u64() is Some
    }

    pub open spec fn decodes(v: ValueView, e: CmdlineShow) -> bool {
        let a = arr(v);
        &&& chunks_match(e.content@, arr(a[0]))
        &&& e.pos == a[1].as_u64()->0
        &&& e.firstc@ == a[2].as_str()->0
        &&& e.prompt@ == a[3].as_str()->0
        &&& e.indent == a[4].as_u64()->0
        &&& e.level == a[5].as_u64()->0
    }

    pub fn from_value(args: &Value) -> (e: CmdlineShow)
        requires
            CmdlineShow::ok(args@),
        ensures
            CmdlineShow::decodes(args@, e),
    {
        let a = array_of(args);
        CmdlineShow {
            content: chunks_of(&a[0]),
            pos: u64_of(&a[1]),
            firstc: string_of(&a[2]),
            prompt: string_of(&a[3]),
            indent: u64_of(&a[4]),
            level: u64_of(&a[5]),
        }
    }
}

/// A `cmdline_block_append` event: one more line of the block.
#[derive(PartialEq, Debug)]
pub struct CmdlineBlockAppend {
    pub line: Vec<(u64, String)>,
}

impl CmdlineBlockAppend {
    pub open spec fn ok(v: ValueView) -> bool {
        v.item(0) is Array && chunks_ok(arr(v.item(0)))
    }

    pub open spec fn decodes(v: ValueView, e: CmdlineBlockAppend) -> bool {
        chunks_match(e.line@, arr(v.item(0)))
    }

    pub fn from_value(args: &Value) -> (e: CmdlineBlockAppend)
        requires
            CmdlineBlockAppend::ok(args@),
        ensures
            CmdlineBlockAppend::decodes(args@, e),
    {
        CmdlineBlockAppend { line: chunks_of(&item_of(args, 0)) }
    }
}

/// A `cmdline_block_show` event: the lines of the block.
#[derive(PartialEq, Debug)]
pub struct CmdlineBlockShow {
    pub lines: Vec<Vec<(u64, String)>>,
}

impl CmdlineBlockShow {
    pub open spec fn ok(v: ValueView) -> bool {
        &&& v is Array
        &&& forall|i: int|
            0 <= i < arr(v).len() ==> (#[trigger] arr(v)[i]).item(0) is Array && chunks_ok(
                arr(arr(v)[i].item(0)),
            )
    }

    pub open spec fn decodes(v: ValueView, e: CmdlineBlockShow) -> bool {
        &&& e.lines@.len() == arr(v).len()
        &&& forall|i: int|
            0 <= i < e.lines@.len() ==> chunks_match((#[trigger] e.lines@[i])@, arr(arr(v)[i].item(0)))
    }

    pub fn from_value(args: &Value) -> (e: CmdlineBlockShow)
        requires
            CmdlineBlockShow::ok(args@),
        ensures
            CmdlineBlockShow::decodes(args@, e),
    {
        let list = array_of(args);
        let ghost es = arr(args@);
        let mut lines: Vec<Vec<(u64, String)>> = Vec::new();
        let mut i: usize = 0;
        while i < list.len()
            invariant
                list@.len() == es.len(),
                forall|k: int| 0 <= k < list@.len() ==> (#[trigger] list@[k])@ == es[k],
                forall|k: int|
                    0 <= k < es.len() ==> (#[trigger] es[k]).item(0) is Array && chunks_ok(
                        arr(es[k].item(0)),
                    ),
                0 <= i <= es.len(),
                lines@.len() == i,
                forall|k: int|
                    0 <= k < i ==> chunks_match((#[trigger] lines@[k])@, arr(es[k].item(0))),
            decreases es.len() - i,
        {
            assert(es[i as int].item(0) is Array);
            lines.push(chunks_of(&item_of(&list[i], 0)));
            i = i + 1;
        }
        CmdlineBlockShow { lines }
    }
}

/// The value of the last entry of `d` whose key is the string `key`.
pub open spec fn last_val(d: Seq<(ValueView, ValueView)>, key: Seq<char>) -> Option<ValueView>
    decreases d.len(),
{
    if d.len() == 0 {
        None
    } else if d.last().0.as_str() == Some(key) {
        Some(d.last().1)
    } else {
        last_val(d.drop_last(), key)
    }
}

/// Every key of `d` is a string.
pub open spec fn keys_are_str(d: Seq<(ValueView, ValueView)>) -> bool {
    forall|i: int| 0 <= i < d.len() ==> (#[trigger] d[i]).0.as_str() is Some
}

/// The value of the last entry of `d` whose key is `key`: a later entry
/// overrides an earlier one with the same key.
pub(crate) fn last_val_of<'a>(d: &'a Vec<(Value, Value)>, key: &str) -> (r: Option<&'a Value>)
    requires
        keys_are_str(pairs_view(d@)),
    ensures
        r is Some <==> last_val(pairs_view(d@), key@) is Some,
        r matches Some(x) ==> x@ == last_val(pairs_view(d@), key@)->0,
{
    let ghost es = pairs_view(d@);
    let mut i: usize = d.len();
    assert(es.take(i as int) =~= es);
    while i > 0
        invariant
            es == pairs_view(d@),
            keys_are_str(es),
            0 <= i <= es.len(),
            last_val(es, key@) == last_val(es.take(i as int), key@),
        decreases i,
    {
        let k = d[i - 1].0.as_str().unwrap();
        assert(es.take(i as int).last() == es[i - 1]);
        if str_eq(k, key) {
            return Some(&d[i - 1].1);
        }
        assert(es.take(i as int).drop_last() =~= es.take(i - 1));
        i = i - 1;
    }
    None
}

/// A `tabline_update` event: the current tab and, for each tab, its handle
/// and name.
#[derive(PartialEq, Debug)]
pub struct TablineUpdate {
    pub current: Value,
    pub tabs: Vec<(Value, String)>,
}

/// `v` describes a tab: a dictionary with string keys, a `tab` entry and a
/// string `name` entry.
pub open spec fn tab_ok(v: ValueView) -> bool {
    &&& v is Dict
    &&& keys_are_str(dict(v))
    &&& last_val(dict(v), "tab"@) is Some
    &&& last_val(dict(v), "name"@) is Some
    &&& last_val(dict(v), "name"@)->0.as_str() is Some
}

impl TablineUpdate {
    pub open spec fn ok(v: ValueView) -> bool {
        &&& v.item(1) is Array
        &&& forall|i: int| 0 <= i < arr(v.item(1)).len() ==> tab_ok(#[trigger] arr(v.item(1))[i])
    }

    pub open spec fn decodes(v: ValueView, e: TablineUpdate) -> bool {
        let tabs = arr(v.item(1));
        &&& e.current@ == v.item(0)
        &&& e.tabs@.len() == tabs.len()
        &&& forall|i: int|
            0 <= i < tabs.len() ==> (#[trigger] e.tabs@[i]).0@ == last_val(dict(tabs[i]), "tab"@)->0
                && e.tabs@[i].1@ == last_val(dict(tabs[i]), "name"@)->0.as_str()->0
    }

    pub fn from_value(args: &Value) -> (e: TablineUpdate)
        requires
            TablineUpdate::ok(args@),
        ensures
            TablineUpdate::decodes(args@, e),
    {
        let current = item_of(args, 0);
        let list_val = item_of(args, 1);
        let list = array_of(&list_val);
        let ghost es = arr(args@.item(1));
        let mut tabs: Vec<(Value, String)> = Vec::new();
        let mut i: usize = 0;
        while i < list.len()
            invariant
                list@.len() == es.len(),
                forall|k: int| 0 <= k < list@.len() ==> (#[trigger] list@[k])@ == es[k],
                forall|k: int| 0 <= k < es.len() ==> tab_ok(#[trigger] es[k]),
                0 <= i <= es.len(),
                tabs@.len() == i,
                forall|k: int|
                    0 <= k < i ==> (#[trigger] tabs@[k]).0@ == last_val(dict(es[k]), "tab"@)->0
                        && tabs@[k].1@ == last_val(dict(es[k]), "name"@)->0.as_str()->0,
            decreases es.len() - i,
        {
            assert(tab_ok(es[i as int]));
            let d = dict_of(&list[i]);
            assert(pairs_view(d@) =~= dict(es[i as int]));
            let tab = last_val_of(d, "tab").unwrap().copy();
            let name = string_of(last_val_of(d, "name").unwrap());
            tabs.push((tab, name));
            i = i + 1;
        }
        TablineUpdate { current, tabs }
    }
}

/// The views of a sequence of values.
pub open spec fn views(s: Seq<Value>) -> Seq<ValueView> {
    s.map_values(|v: Value| v@)
}

/// The argument of a redraw event, decoded from one msgpack value.
pub trait Decode: Sized {
    /// `v` can be decoded.
    spec fn arg_ok(v: ValueView) -> bool;

    /// `e` is what `v` decodes to.
    spec fn arg_decodes(v: ValueView, e: Self) -> bool;

    fn decode(v: &Value) -> (e: Self)
        requires
            Self::arg_ok(v@),
        ensures
            Self::arg_decodes(v@, e),
    ;

    /// Whether `v` can be decoded.
    fn check(v: &Value) -> (b: bool)
        ensures
            b == Self::arg_ok(v@),
    ;
}

impl Decode for GridResize {
    open spec fn arg_ok(v: ValueView) -> bool {
        GridResize::spec_parse(v) is Some
    }

    open spec fn arg_decodes(v: ValueView, e: GridResize) -> bool {
        GridResize::spec_parse(v) == Some(e)
    }

    fn decode(v: &Value) -> (e: GridResize) {
        GridResize::from_value(v)
    }

    fn check(v: &Value) -> (b: bool) {
        GridResize::is_valid(v)
    }
}

impl Decode for GridCursorGoto {
    open spec fn arg_ok(v: ValueView) -> bool {
        GridCursorGoto::spec_parse(v) is Some
    }

    open spec fn arg_decodes(v: ValueView, e: GridCursorGoto) -> bool {
        GridCursorGoto::spec_parse(v) == Some(e)
    }

    fn decode(v: &Value) -> (e: GridCursorGoto) {
        GridCursorGoto::from_value(v)
    }

    fn check(v: &Value) -> (b: bool) {
        GridCursorGoto::is_valid(v)
    }
}

impl Decode for DefaultColorsSet {
    open spec fn arg_ok(v: ValueView) -> bool {
        DefaultColorsSet::spec_parse(v) is Some
    }

    open spec fn arg_decodes(v: ValueView, e: DefaultColorsSet) -> bool {
        DefaultColorsSet::spec_parse(v) == Some(e)
    }

    fn decode(v: &Value) -> (e: DefaultColorsSet) {
        DefaultColorsSet::from_value(v)
    }

    fn check(v: &Value) -> (b: bool) {
        DefaultColorsSet::is_valid(v)
    }
}

impl Decode for CmdlinePos {
    open spec fn arg_ok(v: ValueView) -> bool {
        CmdlinePos::spec_parse(v) is Some
    }

    open spec fn arg_decodes(v: ValueView, e: CmdlinePos) -> bool {
        CmdlinePos::spec_parse(v) == Some(e)
    }

    fn decode(v: &Value) -> (e: CmdlinePos) {
        CmdlinePos::from_value(v)
    }

    fn check(v: &Value) -> (b: bool) {
        CmdlinePos::is_valid(v)
    }
}

impl Decode for HlAttrDefine {
    open spec fn arg_ok(v: ValueView) -> bool {
        HlAttrDefine::spec_parse(v) is Some
    }

    open spec fn arg_decodes(v: ValueView, e: HlAttrDefine) -> bool {
        HlAttrDefine::spec_parse(v) == Some(e)
    }

    fn decode(v: &Value) -> (e: HlAttrDefine) {
        HlAttrDefine::from_value(v)
    }

    fn check(v: &Value) -> (b: bool) {
        HlAttrDefine::is_valid(v)
    }
}

impl Decode for GridScroll {
    open spec fn arg_ok(v: ValueView) -> bool {
        GridScroll::ok(v)
    }

    open spec fn arg_decodes(v: ValueView, e: GridScroll) -> bool {
        GridScroll::decodes(v, e)
    }

    fn decode(v: &Value) -> (e: GridScroll) {
        GridScroll::from_value(v)
    }

    fn check(v: &Value) -> (b: bool) {
        GridScroll::is_valid(v)
    }
}

impl Decode for ModeChange {
    open spec fn arg_ok(v: ValueView) -> bool {
        ModeChange::ok(v)
    }

    open spec fn arg_decodes(v: ValueView, e: ModeChange) -> bool {
        ModeChange::decodes(v, e)
    }

    fn decode(v: &Value) -> (e: ModeChange) {
        ModeChange::from_value(v)
    }

    fn check(v: &Value) -> (b: bool) {
        ModeChange::is_valid(v)
    }
}

impl Decode for HlGroupSet {
    open spec fn arg_ok(v: ValueView) -> bool {
        HlGroupSet::ok(v)
    }

    open spec fn arg_decodes(v: ValueView, e: HlGroupSet) -> bool {
        HlGroupSet::decodes(v, e)
    }

    fn decode(v: &Value) -> (e: HlGroupSet) {
        HlGroupSet::from_value(v)
    }

    fn check(v: &Value) -> (b: bool) {
        HlGroupSet::is_valid(v)
    }
}

impl Decode for CmdlineSpecialChar {
    open spec fn arg_ok(v: ValueView) -> bool {
        CmdlineSpecialChar::ok(v)
    }

    open spec fn arg_decodes(v: ValueView, e: CmdlineSpecialChar) -> bool {
        CmdlineSpecialChar::decodes(v, e)
    }

    fn decode(v: &Value) -> (e: CmdlineSpecialChar) {
        CmdlineSpecialChar::from_value(v)
    }

    fn check(v: &Value) -> (b: bool) {
        CmdlineSpecialChar::is_valid(v)
    }
}

impl Decode for MsgSetPos {
    open spec fn arg_ok(v: ValueView) -> bool {
        MsgSetPos::ok(v)
    }

    open spec fn arg_decodes(v: ValueView, e: MsgSetPos) -> bool {
        MsgSetPos::decodes(v, e)
    }

    fn decode(v: &Value) -> (e: MsgSetPos) {
        MsgSetPos::from_value(v)
    }

    fn check(v: &Value) -> (b: bool) {
        MsgSetPos::is_valid(v)
    }
}

impl Decode for WindowPos {
    open spec fn arg_ok(v: ValueView) -> bool {
        WindowPos::ok(v)
    }

    open spec fn arg_decodes(v: ValueView, e: WindowPos) -> bool {
        WindowPos::decodes(v, e)
    }

    fn decode(v: &Value) -> (e: WindowPos) {
        WindowPos::from_value(v)
    }

    fn check(v: &Value) -> (b: bool) {
        WindowPos::is_valid(v)
    }
}

impl Decode for WindowExternalPos {
    open spec fn arg_ok(v: ValueView) -> bool {
        WindowExternalPos::ok(v)
    }

    open spec fn arg_decodes(v: ValueView, e: WindowExternalPos) -> bool {
        WindowExternalPos::decodes(v, e)
    }

    fn decode(v: &Value) -> (e: WindowExternalPos) {
        WindowExternalPos::from_value(v)
    }

    fn check(v: &Value) -> (b: bool) {
        WindowExternalPos::is_valid(v)
    }
}

impl Decode for WindowFloatPos {
    open spec fn arg_ok(v: ValueView) -> bool {
        WindowFloatPos::ok(v)
    }

    open spec fn arg_decodes(v: ValueView, e: WindowFloatPos) -> bool {
        WindowFloatPos::decodes(v, e)
    }

    fn decode(v: &Value) -> (e: WindowFloatPos) {
        WindowFloatPos::from_value(v)
    }

    fn check(v: &Value) -> (b: bool) {
        WindowFloatPos::is_valid(v)
    }
}

impl Decode for GridLineSegment {
    open spec fn arg_ok(v: ValueView) -> bool {
        GridLineSegment::ok(v)
    }

    open spec fn arg_decodes(v: ValueView, e: GridLineSegment) -> bool {
        GridLineSegment::decodes(v, e)
    }

    fn decode(v: &Value) -> (e: GridLineSegment) {
        GridLineSegment::from_value(v)
    }

    fn check(v: &Value) -> (b: bool) {
        GridLineSegment::is_valid(v)
    }
}

impl Decode for ModeInfoSet {
    open spec fn arg_ok(v: ValueView) -> bool {
        ModeInfoSet::ok(v)
    }

    open spec fn arg_decodes(v: ValueView, e: ModeInfoSet) -> bool {
        ModeInfoSet::decodes(v, e)
    }

    fn decode(v: &Value) -> (e: ModeInfoSet) {
        ModeInfoSet::from_value(v)
    }

    fn check(v: &Value) -> (b: bool) {
        ModeInfoSet::is_valid(v)
    }
}

impl Decode for OptionSet {
    open spec fn arg_ok(v: ValueView) -> bool {
        OptionSet::ok(v)
    }

    open spec fn arg_decodes(v: ValueView, e: OptionSet) -> bool {
        OptionSet::decodes(v, e)
    }

    fn decode(v: &Value) -> (e: OptionSet) {
        OptionSet::from_value(v)
    }

    fn check(v: &Value) -> (b: bool) {
        OptionSet::is_valid(v)
    }
}

impl Decode for PopupmenuShow {
    open spec fn arg_ok(v: ValueView) -> bool {
        PopupmenuShow::ok(v)
    }

    open spec fn arg_decodes(v: ValueView, e: PopupmenuShow) -> bool {
        PopupmenuShow::decodes(v, e)
    }

    fn decode(v: &Value) -> (e: PopupmenuShow) {
        PopupmenuShow::from_value(v)
    }

    fn check(v: &Value) -> (b: bool) {
        PopupmenuShow::is_valid(v)
    }
}

impl Decode for CmdlineShow {
    open spec fn arg_ok(v: ValueView) -> bool {
        CmdlineShow::ok(v)
    }

    open spec fn arg_decodes(v: ValueView, e: CmdlineShow) -> bool {
        CmdlineShow::decodes(v, e)
    }

    fn decode(v: &Value) -> (e: CmdlineShow) {
        CmdlineShow::from_value(v)
    }

    fn check(v: &Value) -> (b: bool) {
        CmdlineShow::is_valid(v)
    }
}

impl Decode for CmdlineBlockAppend {
    open spec fn arg_ok(v: ValueView) -> bool {
        CmdlineBlockAppend::ok(v)
    }

    open spec fn arg_decodes(v: ValueView, e: CmdlineBlockAppend) -> bool {
        CmdlineBlockAppend::decodes(v, e)
    }

    fn decode(v: &Value) -> (e: CmdlineBlockAppend) {
        CmdlineBlockAppend::from_value(v)
    }

    fn check(v: &Value) -> (b: bool) {
        CmdlineBlockAppend::is_valid(v)
    }
}

impl Decode for CmdlineBlockShow {
    open spec fn arg_ok(v: ValueView) -> bool {
        CmdlineBlockShow::ok(v)
    }

    open spec fn arg_decodes(v: ValueView, e: CmdlineBlockShow) -> bool {
        CmdlineBlockShow::decodes(v, e)
    }

    fn decode(v: &Value) -> (e: CmdlineBlockShow) {
        CmdlineBlockShow::from_value(v)
    }

    fn check(v: &Value) -> (b: bool) {
        CmdlineBlockShow::is_valid(v)
    }
}

impl Decode for TablineUpdate {
    open spec fn arg_ok(v: ValueView) -> bool {
        TablineUpdate::ok(v)
    }

    open spec fn arg_decodes(v: ValueView, e: TablineUpdate) -> bool {
        TablineUpdate::decodes(v, e)
    }

    fn decode(v: &Value) -> (e: TablineUpdate) {
        TablineUpdate::from_value(v)
    }

    fn check(v: &Value) -> (b: bool) {
        TablineUpdate::is_valid(v)
    }
}

/// Every value of `args` can be decoded as a `T`.
pub open spec fn all_ok<T: Decode>(args: Seq<ValueView>) -> bool {
    forall|i: int| 0 <= i < args.len() ==> T::arg_ok(#[trigger] args[i])
}

/// `es` are what the values `args` decode to, one for one.
pub open spec fn all_decode<T: Decode>(args: Seq<ValueView>, es: Seq<T>) -> bool {
    &&& es.len() == args.len()
    &&& forall|i: int| 0 <= i < es.len() ==> T::arg_decodes(args[i], #[trigger] es[i])
}

/// Decodes each of `args`.
pub fn decode_all<T: Decode>(args: &Vec<Value>) -> (es: Vec<T>)
    requires
        all_ok::<T>(views(args@)),
    ensures
        all_decode(views(args@), es@),
{
    let ghost vs = views(args@);
    let mut es: Vec<T> = Vec::new();
    let mut i: usize = 0;
    while i < args.len()
        invariant
            vs == views(args@),
            all_ok::<T>(vs),
            0 <= i <= args@.len(),
            es@.len() == i,
            forall|k: int| 0 <= k < i ==> T::arg_decodes(vs[k], #[trigger] es@[k]),
        decreases args@.len() - i,
    {
        assert(T::arg_ok(vs[i as int]));
        es.push(T::decode(&args[i]));
        i = i + 1;
    }
    es
}

/// Every value of `args` holds a string first.
pub open spec fn firsts_str_ok(args: Seq<ValueView>) -> bool {
    forall|i: int| 0 <= i < args.len() ==> (#[trigger] args[i]).item(0).as_str() is Some
}

/// `r` holds the first strings of `args`.
pub open spec fn firsts_str(args: Seq<ValueView>, r: Seq<String>) -> bool {
    &&& r.len() == args.len()
    &&& forall|i: int| 0 <= i < r.len() ==> (#[trigger] r[i])@ == args[i].item(0).as_str()->0
}

fn first_strs(args: &Vec<Value>) -> (r: Vec<String>)
    requires
        firsts_str_ok(views(args@)),
    ensures
        firsts_str(views(args@), r@),
{
    let ghost vs = views(args@);
    let mut r: Vec<String> = Vec::new();
    let mut i: usize = 0;
    while i < args.len()
        invariant
            vs == views(args@),
            firsts_str_ok(vs),
            0 <= i <= args@.len(),
            r@.len() == i,
            forall|k: int| 0 <= k < i ==> (#[trigger] r@[k])@ == vs[k].item(0).as_str()->0,
        decreases args@.len() - i,
    {
        assert(vs[i as int].item(0).as_str() is Some);
        r.push(string_of(&item_of(&args[i], 0)));
        i = i + 1;
    }
    r
}

/// Every value of `args` holds an `i64` first.
pub open spec fn firsts_i64_ok(args: Seq<ValueView>) -> bool {
    forall|i: int| 0 <= i < args.len() ==> (#[trigger] args[i]).item(0).as_i64() is Some
}

/// `r` holds the first integers of `args`.
pub open spec fn firsts_i64(args: Seq<ValueView>, r: Seq<i64>) -> bool {
    &&& r.len() == args.len()
    &&& forall|i: int| 0 <= i < r.len() ==> #[trigger] r[i] == args[i].item(0).as_i64()->0
}

fn first_i64s(args: &Vec<Value>) -> (r: Vec<i64>)
    requires
        firsts_i64_ok(views(args@)),
    ensures
        firsts_i64(views(args@), r@),
{
    let ghost vs = views(args@);
    let mut r: Vec<i64> = Vec::new();
    let mut i: usize = 0;
    while i < args.len()
        invariant
            vs == views(args@),
            firsts_i64_ok(vs),
            0 <= i <= args@.len(),
            r@.len() == i,
            forall|k: int| 0 <= k < i ==> #[trigger] r@[k] == vs[k].item(0).as_i64()->0,
        decreases args@.len() - i,
    {
        assert(vs[i as int].item(0).as_i64() is Some);
        r.push(i64_of(&item_of(&args[i], 0)));
        i = i + 1;
    }
    r
}

/// One redraw event of Neovim's UI protocol, with the arguments of each of
/// its calls.
#[derive(PartialEq, Debug)]
pub enum RedrawEvent {
    SetTitle(Vec<String>),
    GridLine(Vec<GridLineSegment>),
    GridResize(Vec<GridResize>),
    GridCursorGoto(Vec<GridCursorGoto>),
    GridClear(Vec<i64>),
    GridDestroy(Vec<i64>),
    GridScroll(Vec<GridScroll>),
    DefaultColorsSet(Vec<DefaultColorsSet>),
    HlAttrDefine(Vec<HlAttrDefine>),
    HlGroupSet(Vec<HlGroupSet>),
    OptionSet(Vec<OptionSet>),
    ModeInfoSet(Vec<ModeInfoSet>),
    ModeChange(Vec<ModeChange>),
    SetBusy(bool),
    Flush(),
    PopupmenuShow(Vec<PopupmenuShow>),
    PopupmenuHide(),
    PopupmenuSelect(Vec<i64>),
    TablineUpdate(Vec<TablineUpdate>),
    CmdlineShow(Vec<CmdlineShow>),
    CmdlineHide(),
    CmdlinePos(Vec<CmdlinePos>),
    CmdlineSpecialChar(Vec<CmdlineSpecialChar>),
    CmdlineBlockShow(Vec<CmdlineBlockShow>),
    CmdlineBlockAppend(Vec<CmdlineBlockAppend>),
    CmdlineBlockHide(),
    WindowPos(Vec<WindowPos>),
    WindowFloatPos(Vec<WindowFloatPos>),
    WindowExternalPos(Vec<WindowExternalPos>),
    WindowHide(Vec<i64>),
    WindowClose(Vec<i64>),
    MsgSetPos(Vec<MsgSetPos>),
    /// An event this UI knowingly does not handle.
    Ignored(String),
    /// An event this UI does not know.
    Unknown(String),
}

/// The calls `args` of the redraw event `cmd` are well formed. Neovim
/// sends only such events; unknown events take any arguments.
pub open spec fn event_ok(cmd: Seq<char>, args: Seq<ValueView>) -> bool {
    if cmd == "set_title"@ {
        firsts_str_ok(args)
    } else if cmd == "grid_resize"@ {
        all_ok::<GridResize>(args)
    } else if cmd == "grid_cursor_goto"@ {
        all_ok::<GridCursorGoto>(args)
    } else if cmd == "grid_clear"@ {
        firsts_i64_ok(args)
    } else if cmd == "grid_destroy"@ {
        firsts_i64_ok(args)
    } else if cmd == "grid_scroll"@ {
        all_ok::<GridScroll>(args)
    } else if cmd == "grid_line"@ {
        all_ok::<GridLineSegment>(args)
    } else if cmd == "default_colors_set"@ {
        all_ok::<DefaultColorsSet>(args)
    } else if cmd == "hl_attr_define"@ {
        all_ok::<HlAttrDefine>(args)
    } else if cmd == "hl_group_set"@ {
        all_ok::<HlGroupSet>(args)
    } else if cmd == "option_set"@ {
        all_ok::<OptionSet>(args)
    } else if cmd == "mode_info_set"@ {
        all_ok::<ModeInfoSet>(args)
    } else if cmd == "mode_change"@ {
        all_ok::<ModeChange>(args)
    } else if cmd == "busy_start"@ {
        true
    } else if cmd == "busy_stop"@ {
        true
    } else if cmd == "flush"@ {
        true
    } else if cmd == "popupmenu_show"@ {
        all_ok::<PopupmenuShow>(args)
    } else if cmd == "popupmenu_hide"@ {
        true
    } else if cmd == "popupmenu_select"@ {
        firsts_i64_ok(args)
    } else if cmd == "tabline_update"@ {
        all_ok::<TablineUpdate>(args)
    } else if cmd == "cmdline_show"@ {
        all_ok::<CmdlineShow>(args)
    } else if cmd == "cmdline_hide"@ {
        true
    } else if cmd == "cmdline_pos"@ {
        all_ok::<CmdlinePos>(args)
    } else if cmd == "cmdline_special_char"@ {
        all_ok::<CmdlineSpecialChar>(args)
    } else if cmd == "cmdline_block_show"@ {
        all_ok::<CmdlineBlockShow>(args)
    } else if cmd == "cmdline_block_append"@ {
        all_ok::<CmdlineBlockAppend>(args)
    } else if cmd == "cmdline_block_hide"@ {
        true
    } else if cmd == "win_pos"@ {
        all_ok::<WindowPos>(args)
    } else if cmd == "win_float_pos"@ {
        all_ok::<WindowFloatPos>(args)
    } else if cmd == "win_external_pos"@ {
        all_ok::<WindowExternalPos>(args)
    } else if cmd == "win_hide"@ {
        firsts_i64_ok(args)
    } else if cmd == "win_close"@ {
        firsts_i64_ok(args)
    } else if cmd == "msg_set_pos"@ {
        all_ok::<MsgSetPos>(args)
    } else {
        true
    }
}

/// `e` is the event `cmd` with the calls `args`.
pub open spec fn event_decodes(cmd: Seq<char>, args: Seq<ValueView>, e: RedrawEvent) -> bool {
    if cmd == "set_title"@ {
        e matches RedrawEvent::SetTitle(r) && firsts_str(args, r@)
    } else if cmd == "grid_resize"@ {
        e matches RedrawEvent::GridResize(r) && all_decode(args, r@)
    } else if cmd == "grid_cursor_goto"@ {
        e matches RedrawEvent::GridCursorGoto(r) && all_decode(args, r@)
    } else if cmd == "grid_clear"@ {
        e matches RedrawEvent::GridClear(r) && firsts_i64(args, r@)
    } else if cmd == "grid_destroy"@ {
        e matches RedrawEvent::GridDestroy(r) && firsts_i64(args, r@)
    } else if cmd == "grid_scroll"@ {
        e matches RedrawEvent::GridScroll(r) && all_decode(args, r@)
    } else if cmd == "grid_line"@ {
        e matches RedrawEvent::GridLine(r) && all_decode(args, r@)
    } else if cmd == "default_colors_set"@ {
        e matches RedrawEvent::DefaultColorsSet(r) && all_decode(args, r@)
    } else if cmd == "hl_attr_define"@ {
        e matches RedrawEvent::HlAttrDefine(r) && all_decode(args, r@)
    } else if cmd == "hl_group_set"@ {
        e matches RedrawEvent::HlGroupSet(r) && all_decode(args, r@)
    } else if cmd == "option_set"@ {
        e matches RedrawEvent::OptionSet(r) && all_decode(args, r@)
    } else if cmd == "mode_info_set"@ {
        e matches RedrawEvent::ModeInfoSet(r) && all_decode(args, r@)
    } else if cmd == "mode_change"@ {
        e matches RedrawEvent::ModeChange(r) && all_decode(args, r@)
    } else if cmd == "busy_start"@ {
        e == RedrawEvent::SetBusy(true)
    } else if cmd == "busy_stop"@ {
        e == RedrawEvent::SetBusy(false)
    } else if cmd == "flush"@ {
        e == RedrawEvent::Flush()
    } else if cmd == "popupmenu_show"@ {
        e matches RedrawEvent::PopupmenuShow(r) && all_decode(args, r@)
    } else if cmd == "popupmenu_hide"@ {
        e == RedrawEvent::PopupmenuHide()
    } else if cmd == "popupmenu_select"@ {
        e matches RedrawEvent::PopupmenuSelect(r) && firsts_i64(args, r@)
    } else if cmd == "tabline_update"@ {
        e matches RedrawEvent::TablineUpdate(r) && all_decode(args, r@)
    } else if cmd == "cmdline_show"@ {
        e matches RedrawEvent::CmdlineShow(r) && all_decode(args, r@)
    } else if cmd == "cmdline_hide"@ {
        e == RedrawEvent::CmdlineHide()
    } else if cmd == "cmdline_pos"@ {
        e matches RedrawEvent::CmdlinePos(r) && all_decode(args, r@)
    } else if cmd == "cmdline_special_char"@ {
        e matches RedrawEvent::CmdlineSpecialChar(r) && all_decode(args, r@)
    } else if cmd == "cmdline_block_show"@ {
        e matches RedrawEvent::CmdlineBlockShow(r) && all_decode(args, r@)
    } else if cmd == "cmdline_block_append"@ {
        e matches RedrawEvent::CmdlineBlockAppend(r) && all_decode(args, r@)
    } else if cmd == "cmdline_block_hide"@ {
        e == RedrawEvent::CmdlineBlockHide()
    } else if cmd == "win_pos"@ {
        e matches RedrawEvent::WindowPos(r) && all_decode(args, r@)
    } else if cmd == "win_float_pos"@ {
        e matches RedrawEvent::WindowFloatPos(r) && all_decode(args, r@)
    } else if cmd == "win_external_pos"@ {
        e matches RedrawEvent::WindowExternalPos(r) && all_decode(args, r@)
    } else if cmd == "win_hide"@ {
        e matches RedrawEvent::WindowHide(r) && firsts_i64(args, r@)
    } else if cmd == "win_close"@ {
        e matches RedrawEvent::WindowClose(r) && firsts_i64(args, r@)
    } else if cmd == "msg_set_pos"@ {
        e matches RedrawEvent::MsgSetPos(r) && all_decode(args, r@)
    } else if cmd == "mouse_on"@ || cmd == "mouse_off"@ {
        e matches RedrawEvent::Ignored(n) && n@ == cmd
    } else {
        e matches RedrawEvent::Unknown(n) && n@ == cmd
    }
}

/// Decodes the calls `args` of the redraw event `cmd`.
pub fn parse_single_redraw_event(cmd: &str, args: Vec<Value>) -> (e: RedrawEvent)
    requires
        event_ok(cmd@, views(args@)),
    ensures
        event_decodes(cmd@, views(args@), e),
{
    if str_eq(cmd, "set_title") {
        RedrawEvent::SetTitle(first_strs(&args))
    } else if str_eq(cmd, "grid_resize") {
        RedrawEvent::GridResize(decode_all(&args))
    } else if str_eq(cmd, "grid_cursor_goto") {
        RedrawEvent::GridCursorGoto(decode_all(&args))
    } else if str_eq(cmd, "grid_clear") {
        RedrawEvent::GridClear(first_i64s(&args))
    } else if str_eq(cmd, "grid_destroy") {
        RedrawEvent::GridDestroy(first_i64s(&args))
    } else if str_eq(cmd, "grid_scroll") {
        RedrawEvent::GridScroll(decode_all(&args))
    } else if str_eq(cmd, "grid_line") {
        RedrawEvent::GridLine(decode_all(&args))
    } else if str_eq(cmd, "default_colors_set") {
        RedrawEvent::DefaultColorsSet(decode_all(&args))
    } else if str_eq(cmd, "hl_attr_define") {
        RedrawEvent::HlAttrDefine(decode_all(&args))
    } else if str_eq(cmd, "hl_group_set") {
        RedrawEvent::HlGroupSet(decode_all(&args))
    } else if str_eq(cmd, "option_set") {
        RedrawEvent::OptionSet(decode_all(&args))
    } else if str_eq(cmd, "mode_info_set") {
        RedrawEvent::ModeInfoSet(decode_all(&args))
    } else if str_eq(cmd, "mode_change") {
        RedrawEvent::ModeChange(decode_all(&args))
    } else if str_eq(cmd, "busy_start") {
        RedrawEvent::SetBusy(true)
    } else if str_eq(cmd, "busy_stop") {
        RedrawEvent::SetBusy(false)
    } else if str_eq(cmd, "flush") {
        RedrawEvent::Flush()
    } else if str_eq(cmd, "popupmenu_show") {
        RedrawEvent::PopupmenuShow(decode_all(&args))
    } else if str_eq(cmd, "popupmenu_hide") {
        RedrawEvent::PopupmenuHide()
    } else if str_eq(cmd, "popupmenu_select") {
        RedrawEvent::PopupmenuSelect(first_i64s(&args))
    } else if str_eq(cmd, "tabline_update") {
        RedrawEvent::TablineUpdate(decode_all(&args))
    } else if str_eq(cmd, "cmdline_show") {
        RedrawEvent::CmdlineShow(decode_all(&args))
    } else if str_eq(cmd, "cmdline_hide") {
        RedrawEvent::CmdlineHide()
    } else if str_eq(cmd, "cmdline_pos") {
        RedrawEvent::CmdlinePos(decode_all(&args))
    } else if str_eq(cmd, "cmdline_special_char") {
        RedrawEvent::CmdlineSpecialChar(decode_all(&args))
    } else if str_eq(cmd, "cmdline_block_show") {
        RedrawEvent::CmdlineBlockShow(decode_all(&args))
    } else if str_eq(cmd, "cmdline_block_append") {
        RedrawEvent::CmdlineBlockAppend(decode_all(&args))
    } else if str_eq(cmd, "cmdline_block_hide") {
        RedrawEvent::CmdlineBlockHide()
    } else if str_eq(cmd, "win_pos") {
        RedrawEvent::WindowPos(decode_all(&args))
    } else if str_eq(cmd, "win_float_pos") {
        RedrawEvent::WindowFloatPos(decode_all(&args))
    } else if str_eq(cmd, "win_external_pos") {
        RedrawEvent::WindowExternalPos(decode_all(&args))
    } else if str_eq(cmd, "win_hide") {
        RedrawEvent::WindowHide(first_i64s(&args))
    } else if str_eq(cmd, "win_close") {
        RedrawEvent::WindowClose(first_i64s(&args))
    } else if str_eq(cmd, "msg_set_pos") {
        RedrawEvent::MsgSetPos(decode_all(&args))
    } else if str_eq(cmd, "mouse_on") || str_eq(cmd, "mouse_off") {
        RedrawEvent::Ignored(to_string(cmd))
    } else {
        RedrawEvent::Unknown(to_string(cmd))
    }
}

/// `v` is a redraw notification entry: an array whose first element names
/// the event and whose other elements are well formed calls of it.
pub open spec fn redraw_entry_ok(v: ValueView) -> bool {
    &&& array_min(v, 1)
    &&& arr(v)[0].as_str() is Some
    &&& event_ok(arr(v)[0].as_str()->0, arr(v).skip(1))
}

/// Every entry of a redraw notification is well formed.
pub open spec fn redraw_ok(args: Seq<ValueView>) -> bool {
    forall|i: int| 0 <= i < args.len() ==> redraw_entry_ok(#[trigger] args[i])
}

/// `es` are the events of the redraw notification `args`, in order.
pub open spec fn redraw_decodes(args: Seq<ValueView>, es: Seq<RedrawEvent>) -> bool {
    &&& es.len() == args.len()
    &&& forall|i: int|
        0 <= i < es.len() ==> event_decodes(
            arr(args[i])[0].as_str()->0,
            arr(args[i]).skip(1),
            #[trigger] es[i],
        )
}

/// Copies of the elements of `a` from index `from` on.
fn copy_from(a: &Vec<Value>, from: usize) -> (r: Vec<Value>)
    requires
        from <= a@.len(),
    ensures
        views(r@) == views(a@).skip(from as int),
{
    let mut r: Vec<Value> = Vec::new();
    let mut i: usize = from;
    while i < a.len()
        invariant
            from <= i <= a@.len(),
            r@.len() == i - from,
            forall|k: int| 0 <= k < r@.len() ==> (#[trigger] r@[k])@ == a@[k + from]@,
        decreases a@.len() - i,
    {
        r.push(a[i].copy());
        i = i + 1;
    }
    assert(views(r@) =~= views(a@).skip(from as int));
    r
}

/// Decodes the entries of a redraw notification.
pub fn parse_redraw_event(args: Vec<Value>) -> (es: Vec<RedrawEvent>)
    requires
        redraw_ok(views(args@)),
    ensures
        redraw_decodes(views(args@), es@),
{
    let ghost vs = views(args@);
    let mut es: Vec<RedrawEvent> = Vec::new();
    let mut i: usize = 0;
    while i < args.len()
        invariant
            vs == views(args@),
            redraw_ok(vs),
            0 <= i <= args@.len(),
            es@.len() == i,
            forall|k: int|
                0 <= k < i ==> event_decodes(
                    arr(vs[k])[0].as_str()->0,
                    arr(vs[k]).skip(1),
                    #[trigger] es@[k],
                ),
        decreases args@.len() - i,
    {
        assert(redraw_entry_ok(vs[i as int]));
        let entry = array_of(&args[i]);
        assert(views(entry@) =~= arr(vs[i as int]));
        let cmd = entry[0].as_str().unwrap();
        let rest = copy_from(entry, 1);
        es.push(parse_single_redraw_event(cmd, rest));
        i = i + 1;
    }
    es
}

/// A notification that the user sends to the GUI over the `Gnvim` channel.
#[derive(PartialEq, Debug)]
pub enum GnvimEvent {
    CompletionMenuToggleInfo,
    PopupmenuWidth(u64),
    PopupmenuWidthDetails(u64),
    PopupmenuShowMenuOnAllItems(bool),
    EnableCursorAnimations(bool),
    EnableExtTabline(bool),
    EnableExtCmdline(bool),
    EnableExtPopupmenu(bool),
    /// A command this GUI does not know.
    Unknown(String),
}

/// The error for a command whose argument `args[1]` must be an unsigned
/// integer: `missing` when there is none, `not_u64` when it is something
/// else.
pub open spec fn arg_error(args: Seq<ValueView>, missing: Seq<char>, not_u64: Seq<char>) -> Option<
    Seq<char>,
> {
    if args.len() < 2 {
        Some(missing)
    } else if args[1].as_u64() is None {
        Some(not_u64)
    } else {
        None
    }
}

/// The error message for a malformed `Gnvim` notification, or `None` when
/// it is well formed.
pub open spec fn gnvim_error(args: Seq<ValueView>) -> Option<Seq<char>> {
    if args.len() == 0 {
        Some("No command given"@)
    } else if args[0].as_str() is None {
        Some("Value is not an str: cmd"@)
    } else {
        let cmd = args[0].as_str()->0;
        if cmd == "PopupmenuSetWidth"@ || cmd == "PopupmenuSetWidthDetails"@ {
            arg_error(args, "width missing"@, "Value is not an u64: pmenu width"@)
        } else if cmd == "PopupmenuShowMenuOnAllItems"@ {
            arg_error(args, "bool missing"@, "Value is not an u64: pmenu show menu on all items"@)
        } else if cmd == "EnableCursorAnimations"@ {
            arg_error(
                args,
                "argument missing"@,
                "Value is not an u64: failed to parse enable cursor animations argument"@,
            )
        } else if cmd == "EnableExtTabline"@ {
            arg_error(
                args,
                "argument missing"@,
                "Value is not an u64: failed to parse enable ext tabline argument"@,
            )
        } else if cmd == "EnableExtCmdline"@ {
            arg_error(
                args,
                "argument missing"@,
                "Value is not an u64: failed to parse enable ext cmdline argument"@,
            )
        } else if cmd == "EnableExtPopupmenu"@ {
            arg_error(
                args,
                "argument missing"@,
                "Value is not an u64: failed to parse enable ext popupmenu argument"@,
            )
        } else {
            None
        }
    }
}

/// `e` is the event that the well formed notification `args` carries.
/// Flags are set by the number 1, except the menu flag, set by any number
/// but 0.
pub open spec fn gnvim_decodes(args: Seq<ValueView>, e: GnvimEvent) -> bool {
    let cmd = args[0].as_str()->0;
    let n = args[1].as_u64()->0;
    if cmd == "CompletionMenuToggleInfo"@ {
        e == GnvimEvent::CompletionMenuToggleInfo
    } else if cmd == "PopupmenuSetWidth"@ {
        e == GnvimEvent::PopupmenuWidth(n)
    } else if cmd == "PopupmenuSetWidthDetails"@ {
        e == GnvimEvent::PopupmenuWidthDetails(n)
    } else if cmd == "PopupmenuShowMenuOnAllItems"@ {
        e == GnvimEvent::PopupmenuShowMenuOnAllItems(n != 0)
    } else if cmd == "EnableCursorAnimations"@ {
        e == GnvimEvent::EnableCursorAnimations(n == 1)
    } else if cmd == "EnableExtTabline"@ {
        e == GnvimEvent::EnableExtTabline(n == 1)
    } else if cmd == "EnableExtCmdline"@ {
        e == GnvimEvent::EnableExtCmdline(n == 1)
    } else if cmd == "EnableExtPopupmenu"@ {
        e == GnvimEvent::EnableExtPopupmenu(n == 1)
    } else {
        e matches GnvimEvent::Unknown(c) && c@ == cmd
    }
}

/// `r` is the outcome of parsing the `Gnvim` notification `args`.
pub open spec fn gnvim_result(args: Seq<ValueView>, r: Result<GnvimEvent, String>) -> bool {
    match r {
        Ok(e) => gnvim_error(args) is None && gnvim_decodes(args, e),
        Err(m) => gnvim_error(args) == Some(m@),
    }
}

/// The second argument as a `u64`, or the error `missing` or `not_u64`.
fn u64_arg(args: &Vec<Value>, missing: &str, not_u64: &str) -> (r: Result<u64, String>)
    ensures
        match r {
            Ok(n) => arg_error(views(args@), missing@, not_u64@) is None && n == views(
                args@,
            )[1].as_u64()->0,
            Err(m) => arg_error(views(args@), missing@, not_u64@) == Some(m@),
        },
{
    if args.len() < 2 {
        return Err(to_string(missing));
    }
    match args[1].as_u64() {
        Some(n) => Ok(n),
        None => Err(to_string(not_u64)),
    }
}

/// Parses a notification sent over the `Gnvim` channel. Users can send
/// anything there, so malformed notifications are answered with an error.
pub fn parse_gnvim_event(args: Vec<Value>) -> (r: Result<GnvimEvent, String>)
    ensures
        gnvim_result(views(args@), r),
{
    if args.len() == 0 {
        return Err(to_string("No command given"));
    }
    let cmd = match args[0].as_str() {
        Some(c) => c,
        None => {
            return Err(to_string("Value is not an str: cmd"));
        },
    };
    assert(views(args@)[0] == args@[0]@);
    if str_eq(cmd, "CompletionMenuToggleInfo") {
        proof {
            reveal_strlit("CompletionMenuToggleInfo");
            reveal_strlit("PopupmenuSetWidth");
            reveal_strlit("PopupmenuSetWidthDetails");
            reveal_strlit("PopupmenuShowMenuOnAllItems");
            reveal_strlit("EnableCursorAnimations");
            reveal_strlit("EnableExtTabline");
            reveal_strlit("EnableExtCmdline");
            reveal_strlit("EnableExtPopupmenu");
            assert("CompletionMenuToggleInfo"@[0] != "PopupmenuSetWidthDetails"@[0]);
            assert(gnvim_error(views(args@)) is None);
        }
        Ok(GnvimEvent::CompletionMenuToggleInfo)
    } else if str_eq(cmd, "PopupmenuSetWidth") {
        match u64_arg(&args, "width missing", "Value is not an u64: pmenu width") {
            Ok(n) => Ok(GnvimEvent::PopupmenuWidth(n)),
            Err(m) => Err(m),
        }
    } else if str_eq(cmd, "PopupmenuSetWidthDetails") {
        match u64_arg(&args, "width missing", "Value is not an u64: pmenu width") {
            Ok(n) => Ok(GnvimEvent::PopupmenuWidthDetails(n)),
            Err(m) => Err(m),
        }
    } else if str_eq(cmd, "PopupmenuShowMenuOnAllItems") {
        match u64_arg(&args, "bool missing", "Value is not an u64: pmenu show menu on all items") {
            Ok(n) => Ok(GnvimEvent::PopupmenuShowMenuOnAllItems(n != 0)),
            Err(m) => Err(m),
        }
    } else if str_eq(cmd, "EnableCursorAnimations") {
        match u64_arg(
            &args,
            "argument missing",
            "Value is not an u64: failed to parse enable cursor animations argument",
        ) {
            Ok(n) => Ok(GnvimEvent::EnableCursorAnimations(n == 1)),
            Err(m) => Err(m),
        }
    } else if str_eq(cmd, "EnableExtTabline") {
        match u64_arg(
            &args,
            "argument missing",
            "Value is not an u64: failed to parse enable ext tabline argument",
        ) {
            Ok(n) => Ok(GnvimEvent::EnableExtTabline(n == 1)),
            Err(m) => Err(m),
        }
    } else if str_eq(cmd, "EnableExtCmdline") {
        match u64_arg(
            &args,
            "argument missing",
            "Value is not an u64: failed to parse enable ext cmdline argument",
        ) {
            Ok(n) => Ok(GnvimEvent::EnableExtCmdline(n == 1)),
            Err(m) => Err(m),
        }
    } else if str_eq(cmd, "EnableExtPopupmenu") {
        match u64_arg(
            &args,
            "argument missing",
            "Value is not an u64: failed to parse enable ext popupmenu argument",
        ) {
            Ok(n) => Ok(GnvimEvent::EnableExtPopupmenu(n == 1)),
            Err(m) => Err(m),
        }
    } else {
        Ok(GnvimEvent::Unknown(to_string(cmd)))
    }
}

/// A notification from Neovim.
#[derive(PartialEq, Debug)]
pub enum Notify {
    /// Redraw events: they come from Neovim itself and are always well
    /// formed.
    RedrawEvent(Vec<RedrawEvent>),
    /// A Gnvim event, or why it could not be parsed: the user can send
    /// anything over the `Gnvim` channel.
    GnvimEvent(Result<GnvimEvent, String>),
}

/// Parses the notification `name` with arguments `args`: `redraw` and
/// `Gnvim` are known, any other name gives `None`.
pub fn parse_notify(name: &str, args: Vec<Value>) -> (r: Option<Notify>)
    requires
        name@ == "redraw"@ ==> redraw_ok(views(args@)),
    ensures
        name@ == "redraw"@ ==> (r matches Some(Notify::RedrawEvent(es)) && redraw_decodes(
            views(args@),
            es@,
        )),
        name@ == "Gnvim"@ ==> (r matches Some(Notify::GnvimEvent(res)) && gnvim_result(
            views(args@),
            res,
        )),
        name@ != "redraw"@ && name@ != "Gnvim"@ ==> r is None,
{
    if str_eq(name, "redraw") {
        proof {
            reveal_strlit("redraw");
            reveal_strlit("Gnvim");
            assert("redraw"@.len() != "Gnvim"@.len());
        }
        Some(Notify::RedrawEvent(parse_redraw_event(args)))
    } else if str_eq(name, "Gnvim") {
        Some(Notify::GnvimEvent(parse_gnvim_event(args)))
    } else {
        None
    }
}

/// A request from Neovim that the GUI answers. None is defined yet, so
/// nothing makes a value of this type: its field is private and no
/// function returns one.
#[derive(PartialEq, Debug)]
pub struct Request {
    none_defined: (),
}

/// Parses a request sent over the `Gnvim` channel: no request is known, so
/// every one is refused.
pub fn parse_request(args: Vec<Value>) -> (r: Result<Request, ()>)
    ensures
        r is Err,
{
    Err(())
}

/// The icon (of the Feather set) that the completion menu shows for a
/// kind as vim-lsp names it; `None` for other kinds.
pub open spec fn kind_icon(kind: Seq<char>) -> Option<Seq<char>> {
    if kind == "method"@ || kind == "function"@ || kind == "constructor"@ {
        Some("box"@)
    } else if kind == "field"@ {
        Some("chevrons-right"@)
    } else if kind == "event"@ {
        Some("zap"@)
    } else if kind == "operator"@ {
        Some("sliders"@)
    } else if kind == "variable"@ {
        Some("disc"@)
    } else if kind == "class"@ {
        Some("share-2"@)
    } else if kind == "interface"@ {
        Some("book-open"@)
    } else if kind == "struct"@ {
        Some("align-left"@)
    } else if kind == "type parameter"@ {
        Some("type"@)
    } else if kind == "module"@ {
        Some("code"@)
    } else if kind == "property"@ {
        Some("key"@)
    } else if kind == "unit"@ {
        Some("compass"@)
    } else if kind == "constant"@ {
        Some("shield"@)
    } else if kind == "value"@ || kind == "enum"@ {
        Some("database"@)
    } else if kind == "enum member"@ {
        Some("tag"@)
    } else if kind == "keyword"@ {
        Some("link-2"@)
    } else if kind == "text"@ {
        Some("at-sign"@)
    } else if kind == "color"@ {
        Some("aperture"@)
    } else if kind == "file"@ {
        Some("file"@)
    } else if kind == "reference"@ {
        Some("link"@)
    } else if kind == "snippet"@ {
        Some("file-text"@)
    } else if kind == "folder"@ {
        Some("folder"@)
    } else {
        None
    }
}

/// The icon that the completion menu shows for `kind`.
pub fn icon_for_kind(kind: &str) -> (r: Option<&'static str>)
    ensures
        r is Some <==> kind_icon(kind@) is Some,
        r matches Some(i) ==> i@ == kind_icon(kind@)->0,
{
    if str_eq(kind, "method") || str_eq(kind, "function") || str_eq(kind, "constructor") {
        Some("box")
    } else if str_eq(kind, "field") {
        Some("chevrons-right")
    } else if str_eq(kind, "event") {
        Some("zap")
    } else if str_eq(kind, "operator") {
        Some("sliders")
    } else if str_eq(kind, "variable") {
        Some("disc")
    } else if str_eq(kind, "class") {
        Some("share-2")
    } else if str_eq(kind, "interface") {
        Some("book-open")
    } else if str_eq(kind, "struct") {
        Some("align-left")
    } else if str_eq(kind, "type parameter") {
        Some("type")
    } else if str_eq(kind, "module") {
        Some("code")
    } else if str_eq(kind, "property") {
        Some("key")
    } else if str_eq(kind, "unit") {
        Some("compass")
    } else if str_eq(kind, "constant") {
        Some("shield")
    } else if str_eq(kind, "value") || str_eq(kind, "enum") {
        Some("database")
    } else if str_eq(kind, "enum member") {
        Some("tag")
    } else if str_eq(kind, "keyword") {
        Some("link-2")
    } else if str_eq(kind, "text") {
        Some("at-sign")
    } else if str_eq(kind, "color") {
        Some("aperture")
    } else if str_eq(kind, "file") {
        Some("file")
    } else if str_eq(kind, "reference") {
        Some("link")
    } else if str_eq(kind, "snippet") {
        Some("file-text")
    } else if str_eq(kind, "folder") {
        Some("folder")
    } else {
        None
    }
}

/// The first line of the info of a completion item.
pub fn shorten_info(info: &str) -> (r: String)
    ensures
        r@ == crate::text::split_seq(info@, '\n')[0],
{
    let lines = crate::text::split_char(info, '\n');
    proof {
        crate::text::lemma_split_len(info@, '\n');
    }
    assert(crate::text::strings_view(lines@)[0] == lines@[0]@);
    to_string(lines[0].as_str())
}

/// Whether every value of `args` can be decoded as a `T`.
pub fn check_all<T: Decode>(args: &Vec<Value>) -> (b: bool)
    ensures
        b == all_ok::<T>(views(args@)),
{
    let ghost vs = views(args@);
    let mut i: usize = 0;
    while i < args.len()
        invariant
            vs == views(args@),
            0 <= i <= args@.len(),
            forall|k: int| 0 <= k < i ==> T::arg_ok(#[trigger] vs[k]),
        decreases args@.len() - i,
    {
        if !T::check(&args[i]) {
            assert(!T::arg_ok(vs[i as int]));
            return false;
        }
        i = i + 1;
    }
    true
}

/// Whether every value of `args` holds a string first.
pub fn check_firsts_str(args: &Vec<Value>) -> (b: bool)
    ensures
        b == firsts_str_ok(views(args@)),
{
    let ghost vs = views(args@);
    let mut i: usize = 0;
    while i < args.len()
        invariant
            vs == views(args@),
            0 <= i <= args@.len(),
            forall|k: int| 0 <= k < i ==> (#[trigger] vs[k]).item(0).as_str() is Some,
        decreases args@.len() - i,
    {
        let ok = match args[i].item(0) {
            Some(x) => x.as_str().is_some(),
            None => false,
        };
        if !ok {
            assert(vs[i as int].item(0).as_str() is None);
            return false;
        }
        i = i + 1;
    }
    true
}

/// Whether every value of `args` holds an `i64` first.
pub fn check_firsts_i64(args: &Vec<Value>) -> (b: bool)
    ensures
        b == firsts_i64_ok(views(args@)),
{
    let ghost vs = views(args@);
    let mut i: usize = 0;
    while i < args.len()
        invariant
            vs == views(args@),
            0 <= i <= args@.len(),
            forall|k: int| 0 <= k < i ==> (#[trigger] vs[k]).item(0).as_i64() is Some,
        decreases args@.len() - i,
    {
        let ok = match args[i].item(0) {
            Some(x) => x.as_i64().is_some(),
            None => false,
        };
        if !ok {
            assert(vs[i as int].item(0).as_i64() is None);
            return false;
        }
        i = i + 1;
    }
    true
}

/// Whether the calls `args` of the redraw event `cmd` are well formed.
pub fn check_event(cmd: &str, args: &Vec<Value>) -> (b: bool)
    ensures
        b == event_ok(cmd@, views(args@)),
{
    if str_eq(cmd, "set_title") {
        check_firsts_str(args)
    } else if str_eq(cmd, "grid_resize") {
        check_all::<GridResize>(args)
    } else if str_eq(cmd, "grid_cursor_goto") {
        check_all::<GridCursorGoto>(args)
    } else if str_eq(cmd, "grid_clear") {
        check_firsts_i64(args)
    } else if str_eq(cmd, "grid_destroy") {
        check_firsts_i64(args)
    } else if str_eq(cmd, "grid_scroll") {
        check_all::<GridScroll>(args)
    } else if str_eq(cmd, "grid_line") {
        check_all::<GridLineSegment>(args)
    } else if str_eq(cmd, "default_colors_set") {
        check_all::<DefaultColorsSet>(args)
    } else if str_eq(cmd, "hl_attr_define") {
        check_all::<HlAttrDefine>(args)
    } else if str_eq(cmd, "hl_group_set") {
        check_all::<HlGroupSet>(args)
    } else if str_eq(cmd, "option_set") {
        check_all::<OptionSet>(args)
    } else if str_eq(cmd, "mode_info_set") {
        check_all::<ModeInfoSet>(args)
    } else if str_eq(cmd, "mode_change") {
        check_all::<ModeChange>(args)
    } else if str_eq(cmd, "busy_start") {
        true
    } else if str_eq(cmd, "busy_stop") {
        true
    } else if str_eq(cmd, "flush") {
        true
    } else if str_eq(cmd, "popupmenu_show") {
        check_all::<PopupmenuShow>(args)
    } else if str_eq(cmd, "popupmenu_hide") {
        true
    } else if str_eq(cmd, "popupmenu_select") {
        check_firsts_i64(args)
    } else if str_eq(cmd, "tabline_update") {
        check_all::<TablineUpdate>(args)
    } else if str_eq(cmd, "cmdline_show") {
        check_all::<CmdlineShow>(args)
    } else if str_eq(cmd, "cmdline_hide") {
        true
    } else if str_eq(cmd, "cmdline_pos") {
        check_all::<CmdlinePos>(args)
    } else if str_eq(cmd, "cmdline_special_char") {
        check_all::<CmdlineSpecialChar>(args)
    } else if str_eq(cmd, "cmdline_block_show") {
        check_all::<CmdlineBlockShow>(args)
    } else if str_eq(cmd, "cmdline_block_append") {
        check_all::<CmdlineBlockAppend>(args)
    } else if str_eq(cmd, "cmdline_block_hide") {
        true
    } else if str_eq(cmd, "win_pos") {
        check_all::<WindowPos>(args)
    } else if str_eq(cmd, "win_float_pos") {
        check_all::<WindowFloatPos>(args)
    } else if str_eq(cmd, "win_external_pos") {
        check_all::<WindowExternalPos>(args)
    } else if str_eq(cmd, "win_hide") {
        check_firsts_i64(args)
    } else if str_eq(cmd, "win_close") {
        check_firsts_i64(args)
    } else if str_eq(cmd, "msg_set_pos") {
        check_all::<MsgSetPos>(args)
    } else {
        true
    }
}

/// Whether every entry of a redraw notification is well formed: what
/// `parse_redraw_event` requires of its argument.
pub fn check_redraw_event(args: &Vec<Value>) -> (b: bool)
    ensures
        b == redraw_ok(views(args@)),
{
    let ghost vs = views(args@);
    let mut i: usize = 0;
    while i < args.len()
        invariant
            vs == views(args@),
            0 <= i <= args@.len(),
            forall|k: int| 0 <= k < i ==> redraw_entry_ok(#[trigger] vs[k]),
        decreases args@.len() - i,
    {
        let ok = match args[i].as_array() {
            Some(entry) => {
                if entry.len() >= 1 {
                    match entry[0].as_str() {
                        Some(cmd) => {
                            let rest = copy_from(entry, 1);
                            assert(views(entry@) =~= arr(vs[i as int]));
                            check_event(cmd, &rest)
                        },
                        None => false,
                    }
                } else {
                    false
                }
            },
            None => false,
        };
        if !ok {
            assert(!redraw_entry_ok(vs[i as int]));
            return false;
        }
        i = i + 1;
    }
    true
}

impl RedrawEvent {
    /// The name of the event; an unknown event is named with the name
    /// Neovim gave it, as `Unknown(<name>)`.
    pub open spec fn spec_name(&self) -> Seq<char> {
        match self {
            RedrawEvent::SetTitle(..) => "SetTitle"@,
            RedrawEvent::GridLine(..) => "GridLine"@,
            RedrawEvent::GridResize(..) => "GridResize"@,
            RedrawEvent::GridCursorGoto(..) => "GridCursorGoto"@,
            RedrawEvent::GridClear(..) => "GridClear"@,
            RedrawEvent::GridDestroy(..) => "GridDestroy"@,
            RedrawEvent::GridScroll(..) => "GridScroll"@,
            RedrawEvent::DefaultColorsSet(..) => "DefaultColorsSet"@,
            RedrawEvent::HlAttrDefine(..) => "HlAttrDefine"@,
            RedrawEvent::HlGroupSet(..) => "HlGroupSet"@,
            RedrawEvent::OptionSet(..) => "OptionSet"@,
            RedrawEvent::ModeInfoSet(..) => "ModeInfoSet"@,
            RedrawEvent::ModeChange(..) => "ModeChange"@,
            RedrawEvent::SetBusy(..) => "SetBusy"@,
            RedrawEvent::Flush(..) => "Flush"@,
            RedrawEvent::PopupmenuShow(..) => "PopupmenuShow"@,
            RedrawEvent::PopupmenuHide(..) => "PopupmenuHide"@,
            RedrawEvent::PopupmenuSelect(..) => "PopupmenuSelect"@,
            RedrawEvent::TablineUpdate(..) => "TablineUpdate"@,
            RedrawEvent::CmdlineShow(..) => "CmdlineShow"@,
            RedrawEvent::CmdlineHide(..) => "CmdlineHide"@,
            RedrawEvent::CmdlinePos(..) => "CmdlinePos"@,
            RedrawEvent::CmdlineSpecialChar(..) => "CmdlineSpecialChar"@,
            RedrawEvent::CmdlineBlockShow(..) => "CmdlineBlockShow"@,
            RedrawEvent::CmdlineBlockAppend(..) => "CmdlineBlockAppend"@,
            RedrawEvent::CmdlineBlockHide(..) => "CmdlineBlockHide"@,
            RedrawEvent::WindowPos(..) => "WindowPos"@,
            RedrawEvent::WindowFloatPos(..) => "WindowFloatPos"@,
            RedrawEvent::WindowExternalPos(..) => "WindowExternalPos"@,
            RedrawEvent::WindowHide(..) => "WindowHide"@,
            RedrawEvent::WindowClose(..) => "WindowClose"@,
            RedrawEvent::MsgSetPos(..) => "MsgSetPos"@,
            RedrawEvent::Ignored(..) => "Ignored"@,
            RedrawEvent::Unknown(e) => "Unknown("@ + e@ + ")"@,
        }
    }

    /// The name of the event, as it is written in logs.
    pub fn name(&self) -> (s: String)
        ensures
            s@ == self.spec_name(),
    {
        match self {
            RedrawEvent::SetTitle(..) => to_string("SetTitle"),
            RedrawEvent::GridLine(..) => to_string("GridLine"),
            RedrawEvent::GridResize(..) => to_string("GridResize"),
            RedrawEvent::GridCursorGoto(..) => to_string("GridCursorGoto"),
            RedrawEvent::GridClear(..) => to_string("GridClear"),
            RedrawEvent::GridDestroy(..) => to_string("GridDestroy"),
            RedrawEvent::GridScroll(..) => to_string("GridScroll"),
            RedrawEvent::DefaultColorsSet(..) => to_string("DefaultColorsSet"),
            RedrawEvent::HlAttrDefine(..) => to_string("HlAttrDefine"),
            RedrawEvent::HlGroupSet(..) => to_string("HlGroupSet"),
            RedrawEvent::OptionSet(..) => to_string("OptionSet"),
            RedrawEvent::ModeInfoSet(..) => to_string("ModeInfoSet"),
            RedrawEvent::ModeChange(..) => to_string("ModeChange"),
            RedrawEvent::SetBusy(..) => to_string("SetBusy"),
            RedrawEvent::Flush(..) => to_string("Flush"),
            RedrawEvent::PopupmenuShow(..) => to_string("PopupmenuShow"),
            RedrawEvent::PopupmenuHide(..) => to_string("PopupmenuHide"),
            RedrawEvent::PopupmenuSelect(..) => to_string("PopupmenuSelect"),
            RedrawEvent::TablineUpdate(..) => to_string("TablineUpdate"),
            RedrawEvent::CmdlineShow(..) => to_string("CmdlineShow"),
            RedrawEvent::CmdlineHide(..) => to_string("CmdlineHide"),
            RedrawEvent::CmdlinePos(..) => to_string("CmdlinePos"),
            RedrawEvent::CmdlineSpecialChar(..) => to_string("CmdlineSpecialChar"),
            RedrawEvent::CmdlineBlockShow(..) => to_string("CmdlineBlockShow"),
            RedrawEvent::CmdlineBlockAppend(..) => to_string("CmdlineBlockAppend"),
            RedrawEvent::CmdlineBlockHide(..) => to_string("CmdlineBlockHide"),
            RedrawEvent::WindowPos(..) => to_string("WindowPos"),
            RedrawEvent::WindowFloatPos(..) => to_string("WindowFloatPos"),
            RedrawEvent::WindowExternalPos(..) => to_string("WindowExternalPos"),
            RedrawEvent::WindowHide(..) => to_string("WindowHide"),
            RedrawEvent::WindowClose(..) => to_string("WindowClose"),
            RedrawEvent::MsgSetPos(..) => to_string("MsgSetPos"),
            RedrawEvent::Ignored(..) => to_string("Ignored"),
            RedrawEvent::Unknown(e) => {
                let mut s = to_string("Unknown(");
                s.append(e.as_str());
                s.append(")");
                s
            },
        }
    }
}

} // verus!
