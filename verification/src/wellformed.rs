//! Checks, without decoding, that the arguments of a redraw notification
//! are well formed: each check computes the `ok` spec function of the
//! decoder it goes with, so that a caller can test a decoder's
//! precondition before calling it.

use vstd::prelude::*;
use vstd::string::*;

use crate::color::Highlight;
use crate::nvim_bridge::{
    arr, array_min, array_of, chunk_ok, chunks_ok, dict, dict_of, hl_of_entries, hl_set, item_ok,
    keys_are_str, last_val, last_val_of, lemma_hl_prefix, lemma_line_cells_prefix,
    lemma_mode_prefix, line_cells, lower_eq_exec, pairs_view, tab_ok, CmdlineBlockAppend,
    CmdlineBlockShow, CmdlineShow, CursorShape, GridLineSegment, HlAttrDefine, ModeInfo,
    ModeInfoSet, PopupmenuShow, TablineUpdate, CmdlinePos, CmdlineSpecialChar, DefaultColorsSet, GridCursorGoto,
    GridResize, GridScroll, HlGroupSet, ModeChange, MsgSetPos, OptionSet, WindowExternalPos,
    WindowFloatPos, WindowPos,
};
use crate::text::str_eq;
use crate::value::{Value, ValueView};

verus! {

/// Whether `v` is an array of at least `n` elements.
pub fn is_array_min(v: &Value, n: usize) -> (b: bool)
    ensures
        b == array_min(v@, n as int),
{
    match v.as_array() {
        Some(a) => a.len() >= n,
        None => false,
    }
}

fn item_u64(v: &Value, i: usize) -> (b: bool)
    ensures
        b == (v@.item(i as int).as_u64() is Some),
{
    match v.item(i) {
        Some(x) => x.as_u64().is_some(),
        None => false,
    }
}

fn item_i64(v: &Value, i: usize) -> (b: bool)
    ensures
        b == (v@.item(i as int).as_i64() is Some),
{
    match v.item(i) {
        Some(x) => x.as_i64().is_some(),
        None => false,
    }
}

fn item_bool(v: &Value, i: usize) -> (b: bool)
    ensures
        b == (v@.item(i as int).as_bool() is Some),
{
    match v.item(i) {
        Some(x) => x.as_bool().is_some(),
        None => false,
    }
}

fn item_str(v: &Value, i: usize) -> (b: bool)
    ensures
        b == (v@.item(i as int).as_str() is Some),
{
    match v.item(i) {
        Some(x) => x.as_str().is_some(),
        None => false,
    }
}

fn item_number(v: &Value, i: usize) -> (b: bool)
    ensures
        b == (v@.item(i as int).as_number() is Some),
{
    match v.item(i) {
        Some(x) => x.as_number().is_some(),
        None => false,
    }
}

fn item_array(v: &Value, i: usize) -> (b: bool)
    ensures
        b == (v@.item(i as int) is Array),
{
    match v.item(i) {
        Some(x) => x.as_array().is_some(),
        None => false,
    }
}

impl GridResize {
    pub fn is_valid(v: &Value) -> (b: bool)
        ensures
            b == (GridResize::spec_parse(v@) is Some),
    {
        is_array_min(v, 3) && item_i64(v, 0) && item_u64(v, 1) && item_u64(v, 2)
    }
}

impl GridCursorGoto {
    pub fn is_valid(v: &Value) -> (b: bool)
        ensures
            b == (GridCursorGoto::spec_parse(v@) is Some),
    {
        is_array_min(v, 3) && item_i64(v, 0) && item_u64(v, 1) && item_u64(v, 2)
    }
}

impl DefaultColorsSet {
    pub fn is_valid(v: &Value) -> (b: bool)
        ensures
            b == (DefaultColorsSet::spec_parse(v@) is Some),
    {
        is_array_min(v, 3)
    }
}

impl CmdlinePos {
    pub fn is_valid(v: &Value) -> (b: bool)
        ensures
            b == (CmdlinePos::spec_parse(v@) is Some),
    {
        is_array_min(v, 2) && item_u64(v, 0) && item_u64(v, 1)
    }
}

impl GridScroll {
    pub fn is_valid(v: &Value) -> (b: bool)
        ensures
            b == GridScroll::ok(v@),
    {
        let r = is_array_min(v, 7) && item_i64(v, 0) && item_u64(v, 1) && item_u64(v, 2)
            && item_u64(v, 3) && item_u64(v, 4) && item_i64(v, 5) && item_i64(v, 6);
        proof {
            if r {
                let a = arr(v@);
                assert forall|i: int| 1 <= i < 5 implies (#[trigger] a[i].as_u64()) is Some by {
                    assert(a[i] == v@.item(i));
                }
            }
        }
        r
    }
}

impl ModeChange {
    pub fn is_valid(v: &Value) -> (b: bool)
        ensures
            b == ModeChange::ok(v@),
    {
        is_array_min(v, 2) && item_str(v, 0) && item_u64(v, 1)
    }
}

impl HlGroupSet {
    pub fn is_valid(v: &Value) -> (b: bool)
        ensures
            b == HlGroupSet::ok(v@),
    {
        is_array_min(v, 2) && item_str(v, 0) && item_u64(v, 1)
    }
}

impl CmdlineSpecialChar {
    pub fn is_valid(v: &Value) -> (b: bool)
        ensures
            b == CmdlineSpecialChar::ok(v@),
    {
        is_array_min(v, 3) && item_str(v, 0) && item_bool(v, 1) && item_u64(v, 2)
    }
}

impl MsgSetPos {
    pub fn is_valid(v: &Value) -> (b: bool)
        ensures
            b == MsgSetPos::ok(v@),
    {
        is_array_min(v, 4) && item_i64(v, 0) && item_u64(v, 1) && item_bool(v, 2) && item_str(
            v,
            3,
        )
    }
}

impl WindowPos {
    pub fn is_valid(v: &Value) -> (b: bool)
        ensures
            b == WindowPos::ok(v@),
    {
        let r = is_array_min(v, 6) && item_i64(v, 0) && item_u64(v, 2) && item_u64(v, 3)
            && item_u64(v, 4) && item_u64(v, 5);
        proof {
            if r {
                let a = arr(v@);
                assert forall|i: int| 2 <= i < 6 implies (#[trigger] a[i].as_u64()) is Some by {
                    assert(a[i] == v@.item(i));
                }
            }
        }
        r
    }
}

impl WindowExternalPos {
    pub fn is_valid(v: &Value) -> (b: bool)
        ensures
            b == WindowExternalPos::ok(v@),
    {
        is_array_min(v, 2) && item_i64(v, 0)
    }
}

impl WindowFloatPos {
    pub fn is_valid(v: &Value) -> (b: bool)
        ensures
            b == WindowFloatPos::ok(v@),
    {
        is_array_min(v, 7) && item_i64(v, 0) && item_str(v, 2) && item_i64(v, 3) && item_number(
            v,
            4,
        ) && item_number(v, 5) && item_bool(v, 6)
    }
}

impl OptionSet {
    pub fn is_valid(v: &Value) -> (b: bool)
        ensures
            b == OptionSet::ok(v@),
    {
        if !(is_array_min(v, 1) && item_str(v, 0)) {
            return false;
        }
        let a = v.as_array().unwrap();
        let name = a[0].as_str().unwrap();
        proof {
            reveal_strlit("guifont");
            reveal_strlit("linespace");
            reveal_strlit("ext_tabline");
            reveal_strlit("ext_cmdline");
            reveal_strlit("ext_popupmenu");
            assert(name@ == arr(v@)[0].as_str()->0);
            assert("ext_tabline"@[4] != "ext_cmdline"@[4]);
        }
        if str_eq(name, "guifont") {
            is_array_min(v, 2) && item_str(v, 1)
        } else if str_eq(name, "linespace") {
            is_array_min(v, 2) && item_i64(v, 1)
        } else if str_eq(name, "ext_tabline") || str_eq(name, "ext_cmdline") || str_eq(
            name,
            "ext_popupmenu",
        ) {
            is_array_min(v, 2) && item_bool(v, 1)
        } else {
            true
        }
    }
}

/// Whether setting the highlight attribute `prop` from `val` succeeds: it
/// does not depend on the highlight it is set on.
fn hl_entry_valid(prop: &str, val: &Value) -> (b: bool)
    ensures
        forall|h: Highlight| b == (#[trigger] hl_set(h, prop@, val@) is Some),
{
    if str_eq(prop, "foreground") || str_eq(prop, "background") || str_eq(prop, "special") {
        true
    } else if str_eq(prop, "reverse") || str_eq(prop, "italic") || str_eq(prop, "bold") || str_eq(
        prop,
        "underline",
    ) || str_eq(prop, "undercurl") {
        val.as_bool().is_some()
    } else if str_eq(prop, "blend") {
        val.as_number().is_some()
    } else {
        true
    }
}

/// Whether the attributes of a highlight definition are well formed.
fn hl_entries_valid(d: &Vec<(Value, Value)>) -> (b: bool)
    ensures
        b == (hl_of_entries(pairs_view(d@)) is Some),
{
    let ghost es = pairs_view(d@);
    let mut i: usize = 0;
    assert(es.take(0) =~= Seq::<(ValueView, ValueView)>::empty());
    while i < d.len()
        invariant
            es == pairs_view(d@),
            0 <= i <= es.len(),
            hl_of_entries(es.take(i as int)) is Some,
        decreases es.len() - i,
    {
        assert(es.take(i + 1).drop_last() =~= es.take(i as int));
        assert(es.take(i + 1).last() == es[i as int]);
        let ok = match d[i].0.as_str() {
            Some(k) => hl_entry_valid(k, &d[i].1),
            None => false,
        };
        if !ok {
            proof {
                assert(hl_of_entries(es.take(i + 1)) is None);
                if hl_of_entries(es) is Some {
                    lemma_hl_prefix(es, i + 1);
                }
            }
            return false;
        }
        i = i + 1;
    }
    assert(es.take(es.len() as int) =~= es);
    true
}

impl HlAttrDefine {
    pub fn is_valid(v: &Value) -> (b: bool)
        ensures
            b == (HlAttrDefine::spec_parse(v@) is Some),
    {
        if !(is_array_min(v, 2) && item_u64(v, 0)) {
            return false;
        }
        let a = array_of(v);
        match a[1].as_dict() {
            Some(d) => {
                assert(pairs_view(d@) =~= dict(a@[1]@));
                hl_entries_valid(d)
            },
            None => false,
        }
    }
}

/// Whether setting the mode property `prop` from `val` succeeds: it does
/// not depend on the mode it is set on.
fn mode_entry_valid(prop: &str, val: &Value) -> (b: bool)
    ensures
        forall|m: ModeInfo| b == (#[trigger] ModeInfo::spec_set(m, prop@, val@) is Some),
{
    if str_eq(prop, "blinkon") {
        val.as_u64().is_some()
    } else if str_eq(prop, "cursor_shape") {
        match val.as_str() {
            Some(s) => lower_eq_exec(s, "block") || lower_eq_exec(s, "horizontal")
                || lower_eq_exec(s, "vertical"),
            None => false,
        }
    } else if str_eq(prop, "cell_percentage") {
        val.as_u64().is_some()
    } else {
        true
    }
}

/// Whether the properties of a mode are well formed.
fn mode_entries_valid(d: &Vec<(Value, Value)>) -> (b: bool)
    ensures
        b == (ModeInfo::of_entries(pairs_view(d@)) is Some),
{
    let ghost es = pairs_view(d@);
    let mut i: usize = 0;
    assert(es.take(0) =~= Seq::<(ValueView, ValueView)>::empty());
    while i < d.len()
        invariant
            es == pairs_view(d@),
            0 <= i <= es.len(),
            ModeInfo::of_entries(es.take(i as int)) is Some,
        decreases es.len() - i,
    {
        assert(es.take(i + 1).drop_last() =~= es.take(i as int));
        assert(es.take(i + 1).last() == es[i as int]);
        let ok = match d[i].0.as_str() {
            Some(k) => mode_entry_valid(k, &d[i].1),
            None => false,
        };
        if !ok {
            proof {
                assert(ModeInfo::of_entries(es.take(i + 1)) is None);
                if ModeInfo::of_entries(es) is Some {
                    lemma_mode_prefix(es, i + 1);
                }
            }
            return false;
        }
        i = i + 1;
    }
    assert(es.take(es.len() as int) =~= es);
    true
}

impl ModeInfoSet {
    #[verifier::loop_isolation(false)]
    pub fn is_valid(v: &Value) -> (b: bool)
        ensures
            b == ModeInfoSet::ok(v@),
    {
        if !(is_array_min(v, 2) && item_bool(v, 0) && item_array(v, 1)) {
            return false;
        }
        let a = array_of(v);
        let infos = array_of(&a[1]);
        let ghost list = arr(a@[1]@);
        let mut i: usize = 0;
        while i < infos.len()
            invariant
                infos@.len() == list.len(),
                forall|k: int| 0 <= k < infos@.len() ==> (#[trigger] infos@[k])@ == list[k],
                0 <= i <= list.len(),
                forall|k: int|
                    0 <= k < i ==> (#[trigger] list[k]) is Dict && ModeInfo::of_entries(
                        dict(list[k]),
                    ) is Some,
            decreases list.len() - i,
        {
            let ok = match infos[i].as_dict() {
                Some(d) => {
                    assert(pairs_view(d@) =~= dict(list[i as int]));
                    mode_entries_valid(d)
                },
                None => false,
            };
            if !ok {
                assert(!(list[i as int] is Dict && ModeInfo::of_entries(dict(list[i as int]))
                    is Some));
                return false;
            }
            i = i + 1;
        }
        true
    }
}

/// Whether the cell entries of a `grid_line` event are well formed.
fn line_cells_valid(entries: &Vec<Value>) -> (b: bool)
    ensures
        b == (line_cells(entries@.map_values(|v: Value| v@)) is Some),
{
    let ghost es = entries@.map_values(|v: Value| v@);
    let mut i: usize = 0;
    assert(es.take(0) =~= Seq::<ValueView>::empty());
    while i < entries.len()
        invariant
            es == entries@.map_values(|v: Value| v@),
            0 <= i <= es.len(),
            line_cells(es.take(i as int)) is Some,
            line_cells(es.take(i as int))->0.len() == i,
        decreases es.len() - i,
    {
        assert(es.take(i + 1).drop_last() =~= es.take(i as int));
        assert(es.take(i + 1).last() == entries@[i as int]@);
        let e = &entries[i];
        let ok = is_array_min(e, 1) && item_str(e, 0) && (!is_array_min(e, 3) || item_u64(e, 2)) && (
        i > 0 || (is_array_min(e, 2) && item_u64(e, 1)));
        if !ok {
            proof {
                assert(line_cells(es.take(i + 1)) is None);
                if line_cells(es) is Some {
                    lemma_line_cells_prefix(es, i + 1);
                }
            }
            return false;
        }
        i = i + 1;
    }
    assert(es.take(es.len() as int) =~= es);
    true
}

impl GridLineSegment {
    pub fn is_valid(v: &Value) -> (b: bool)
        ensures
            b == GridLineSegment::ok(v@),
    {
        if !(is_array_min(v, 4) && item_i64(v, 0) && item_u64(v, 1) && item_u64(v, 2)
            && item_array(v, 3)) {
            return false;
        }
        let a = array_of(v);
        let entries = array_of(&a[3]);
        assert(entries@.map_values(|x: Value| x@) =~= arr(a@[3]@));
        line_cells_valid(entries)
    }
}

fn item_valid(v: &Value) -> (b: bool)
    ensures
        b == item_ok(v@),
{
    let r = is_array_min(v, 4) && item_str(v, 0) && item_str(v, 1) && item_str(v, 2) && item_str(
        v,
        3,
    );
    proof {
        if r {
            let e = arr(v@);
            assert forall|i: int| 0 <= i < 4 implies (#[trigger] e[i].as_str()) is Some by {
                assert(e[i] == v@.item(i));
            }
        }
    }
    r
}

impl PopupmenuShow {
    #[verifier::loop_isolation(false)]
    pub fn is_valid(v: &Value) -> (b: bool)
        ensures
            b == PopupmenuShow::ok(v@),
    {
        if !(is_array_min(v, 4) && item_array(v, 0) && item_i64(v, 1) && item_u64(v, 2)
            && item_u64(v, 3) && (!is_array_min(v, 5) || item_i64(v, 4))) {
            return false;
        }
        let a = array_of(v);
        let list = array_of(&a[0]);
        let ghost es = arr(a@[0]@);
        let mut i: usize = 0;
        while i < list.len()
            invariant
                list@.len() == es.len(),
                forall|k: int| 0 <= k < list@.len() ==> (#[trigger] list@[k])@ == es[k],
                0 <= i <= es.len(),
                forall|k: int| 0 <= k < i ==> item_ok(#[trigger] es[k]),
            decreases es.len() - i,
        {
            if !item_valid(&list[i]) {
                assert(!item_ok(es[i as int]));
                return false;
            }
            i = i + 1;
        }
        true
    }
}

/// Whether the array value `v` holds only highlighted chunks.
#[verifier::loop_isolation(false)]
fn chunks_valid(v: &Value) -> (b: bool)
    requires
        v@ is Array,
    ensures
        b == chunks_ok(arr(v@)),
{
    let list = array_of(v);
    let ghost es = arr(v@);
    let mut i: usize = 0;
    while i < list.len()
        invariant
            list@.len() == es.len(),
            forall|k: int| 0 <= k < list@.len() ==> (#[trigger] list@[k])@ == es[k],
            0 <= i <= es.len(),
            forall|k: int| 0 <= k < i ==> chunk_ok(#[trigger] es[k]),
        decreases es.len() - i,
    {
        if !(item_u64(&list[i], 0) && item_str(&list[i], 1)) {
            assert(!chunk_ok(es[i as int]));
            return false;
        }
        i = i + 1;
    }
    true
}

impl CmdlineShow {
    pub fn is_valid(v: &Value) -> (b: bool)
        ensures
            b == CmdlineShow::ok(v@),
    {
        if !(is_array_min(v, 6) && item_array(v, 0) && item_u64(v, 1) && item_str(v, 2)
            && item_str(v, 3) && item_u64(v, 4) && item_u64(v, 5)) {
            return false;
        }
        let a = array_of(v);
        chunks_valid(&a[0])
    }
}

impl CmdlineBlockAppend {
    pub fn is_valid(v: &Value) -> (b: bool)
        ensures
            b == CmdlineBlockAppend::ok(v@),
    {
        match v.item(0) {
            Some(x) => x.as_array().is_some() && chunks_valid(x),
            None => false,
        }
    }
}

impl CmdlineBlockShow {
    #[verifier::loop_isolation(false)]
    pub fn is_valid(v: &Value) -> (b: bool)
        ensures
            b == CmdlineBlockShow::ok(v@),
    {
        let list = match v.as_array() {
            Some(l) => l,
            None => {
                return false;
            },
        };
        let ghost es = arr(v@);
        let mut i: usize = 0;
        while i < list.len()
            invariant
                list@.len() == es.len(),
                forall|k: int| 0 <= k < list@.len() ==> (#[trigger] list@[k])@ == es[k],
                0 <= i <= es.len(),
                forall|k: int|
                    0 <= k < i ==> (#[trigger] es[k]).item(0) is Array && chunks_ok(
                        arr(es[k].item(0)),
                    ),
            decreases es.len() - i,
        {
            let ok = match list[i].item(0) {
                Some(x) => x.as_array().is_some() && chunks_valid(x),
                None => false,
            };
            if !ok {
                assert(!(es[i as int].item(0) is Array && chunks_ok(arr(es[i as int].item(0)))));
                return false;
            }
            i = i + 1;
        }
        true
    }
}

/// Whether `v` describes a tab.
#[verifier::loop_isolation(false)]
fn tab_valid(v: &Value) -> (b: bool)
    ensures
        b == tab_ok(v@),
{
    let d = match v.as_dict() {
        Some(d) => d,
        None => {
            return false;
        },
    };
    let ghost es = pairs_view(d@);
    assert(es =~= dict(v@));
    let mut i: usize = 0;
    while i < d.len()
        invariant
            es == pairs_view(d@),
            0 <= i <= es.len(),
            forall|k: int| 0 <= k < i ==> (#[trigger] es[k]).0.as_str() is Some,
        decreases es.len() - i,
    {
        if d[i].0.as_str().is_none() {
            assert(es[i as int].0.as_str() is None);
            assert(!keys_are_str(es));
            return false;
        }
        i = i + 1;
    }
    assert(keys_are_str(es));
    match (last_val_of(d, "tab"), last_val_of(d, "name")) {
        (Some(_), Some(name)) => name.as_str().is_some(),
        _ => false,
    }
}

impl TablineUpdate {
    #[verifier::loop_isolation(false)]
    pub fn is_valid(v: &Value) -> (b: bool)
        ensures
            b == TablineUpdate::ok(v@),
    {
        let list = match v.item(1) {
            Some(x) => match x.as_array() {
                Some(l) => l,
                None => {
                    return false;
                },
            },
            None => {
                return false;
            },
        };
        let ghost es = arr(v@.item(1));
        let mut i: usize = 0;
        while i < list.len()
            invariant
                list@.len() == es.len(),
                forall|k: int| 0 <= k < list@.len() ==> (#[trigger] list@[k])@ == es[k],
                0 <= i <= es.len(),
                forall|k: int| 0 <= k < i ==> tab_ok(#[trigger] es[k]),
            decreases es.len() - i,
        {
            if !tab_valid(&list[i]) {
                assert(!tab_ok(es[i as int]));
                return false;
            }
            i = i + 1;
        }
        true
    }
}

} // verus!
