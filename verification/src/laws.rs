//! Properties that relate several operations of the library, stated over
//! the spec functions that the operations' contracts use.

use vstd::prelude::*;
use vstd::string::*;

use crate::color::{all_hex, named_groups, set_groups, color_hex, hex_byte, hex_char, hex_digits_of, hex_number, hex_value, parse_hex, Color, HlGroup, Highlight, lemma_group_key_injective};
use crate::common::{
    ceil_half, clamp_i32, floor_half, horizontal_fits, horizontal_position, vertical_position,
    Rectangle,
};
use crate::nvim_bridge::GridLineSegment;
use crate::row::{cells_fit, cells_hl, cells_text, concat_views, keeps_shape, lemma_seq_lens, merge_tail, normal_views, repeat_hl, Leaf, Rope, Row};
use crate::args::geometry_of;
use crate::input::escape_lt;
use crate::text::{all_digits, blanks, dec_number, decimal, is_digit, lemma_split_len, split_seq};

verus! {

/// Splitting a rope at any column (`Rope::split`) and concatenating the two
/// pieces again (`Rope::concat`) gives back its text and highlights.
pub proof fn law_split_then_concat(r: Rope, at: nat)
    requires
        r.wf(),
        at <= r.spec_len(),
    ensures
        r.text_seq().take(at as int) + r.text_seq().skip(at as int) == r.text_seq(),
        r.hl_seq().take(at as int) + r.hl_seq().skip(at as int) == r.hl_seq(),
{
    crate::row::lemma_seq_lens(r);
    assert(r.text_seq().take(at as int) + r.text_seq().skip(at as int) =~= r.text_seq());
    assert(r.hl_seq().take(at as int) + r.hl_seq().skip(at as int) =~= r.hl_seq());
}

/// Copying the columns `from..to` of a row (`Row::copy_range`) and writing
/// the copy back at `from` (`Row::insert_rope_at`) leaves the row as it
/// was.
pub proof fn law_copy_then_insert(row: Row, from: nat, to: nat)
    requires
        row.wf(),
        from <= to <= row.width(),
    ensures
        ({
            let t = row.text_seq();
            let h = row.hl_seq();
            &&& t.take(from as int) + t.subrange(from as int, to as int) + t.skip(
                from + (to - from),
            ) == t
            &&& h.take(from as int) + h.subrange(from as int, to as int) + h.skip(
                from + (to - from),
            ) == h
        }),
{
    crate::row::lemma_seq_lens(row.rope->0);
    let t = row.text_seq();
    let h = row.hl_seq();
    assert(t.take(from as int) + t.subrange(from as int, to as int) + t.skip(from + (to - from))
        =~= t);
    assert(h.take(from as int) + h.subrange(from as int, to as int) + h.skip(from + (to - from))
        =~= h);
}

/// After the columns `from..to` of a row are blanked (`Row::clear_range`),
/// a copy of those columns (`Row::copy_range`) is blank with highlight 0,
/// and the other columns are unchanged.
pub proof fn law_clear_then_copy(row: Row, from: nat, to: nat)
    requires
        row.wf(),
        from <= to <= row.width(),
    ensures
        ({
            let t = row.text_seq();
            let h = row.hl_seq();
            let t2 = t.take(from as int) + blanks((to - from) as nat) + t.skip(to as int);
            let h2 = h.take(from as int) + crate::row::zeros((to - from) as nat) + h.skip(to as int);
            &&& t2.subrange(from as int, to as int) == blanks((to - from) as nat)
            &&& h2.subrange(from as int, to as int) == crate::row::zeros((to - from) as nat)
            &&& t2.take(from as int) == t.take(from as int)
            &&& t2.skip(to as int) == t.skip(to as int)
            &&& t2.len() == t.len()
        }),
{
    crate::row::lemma_seq_lens(row.rope->0);
    let t = row.text_seq();
    let h = row.hl_seq();
    let t2 = t.take(from as int) + blanks((to - from) as nat) + t.skip(to as int);
    let h2 = h.take(from as int) + crate::row::zeros((to - from) as nat) + h.skip(to as int);
    assert(t2.subrange(from as int, to as int) =~= blanks((to - from) as nat));
    assert(h2.subrange(from as int, to as int) =~= crate::row::zeros((to - from) as nat));
    assert(t2.take(from as int) =~= t.take(from as int));
    assert(t2.skip(to as int) =~= t.skip(to as int));
}

/// Reading a highlight (`HlDefs::get`) gives what the last definition of
/// its id (`HlDefs::insert`) wrote, and a definition leaves the other ids
/// as they were.
pub proof fn law_get_after_insert(defs: Map<u64, Highlight>, id: u64, hl: Highlight, other: u64)
    ensures
        defs.insert(id, hl).contains_key(id),
        defs.insert(id, hl)[id] == hl,
        other != id ==> (defs.insert(id, hl).contains_key(other) == defs.contains_key(other)
            && defs.insert(id, hl)[other] == defs[other]),
{
}

/// Once a group is set to an id (`HlDefs::set_hl_group`) and that id is
/// defined (`HlDefs::insert`), the group reads as that definition
/// (`HlDefs::get_hl_group`); setting a group leaves the other groups as
/// they were.
pub proof fn law_group_reads_definition(
    groups: Map<u64, u64>,
    defs: Map<u64, Highlight>,
    g: HlGroup,
    id: u64,
    hl: Highlight,
    other: HlGroup,
)
    ensures
        ({
            let gs = groups.insert(g.spec_key(), id);
            let ds = defs.insert(id, hl);
            &&& gs.contains_key(g.spec_key())
            &&& ds.contains_key(gs[g.spec_key()])
            &&& ds[gs[g.spec_key()]] == hl
            &&& other != g ==> (gs.contains_key(other.spec_key()) == groups.contains_key(
                other.spec_key(),
            ) && gs[other.spec_key()] == groups[other.spec_key()])
        }),
{
    lemma_group_key_injective(other, g);
}

/// The two halves of a line space add up to it and differ by at most one,
/// the larger one above (`calc_line_space`), when they fit in an `i32`.
pub proof fn law_line_space_halves(space: int)
    requires
        i32::MIN <= space <= i32::MAX,
    ensures
        clamp_i32(ceil_half(space)) + clamp_i32(floor_half(space)) == space,
        0 <= clamp_i32(ceil_half(space)) - clamp_i32(floor_half(space)) <= 1,
{
}

/// A popup placed by `get_preferred_horizontal_position` never reaches past
/// the right edge of the area, and is never wider than asked.
pub proof fn law_horizontal_within_area(area: Rectangle, pos: Rectangle, width: i32)
    requires
        horizontal_fits(area, pos, width),
    ensures
        horizontal_position(area, pos, width).0 + horizontal_position(area, pos, width).1
            <= area.width,
        horizontal_position(area, pos, width).1 <= width,
{
}

/// When a popup fits above its anchor, `get_preferred_vertical_position`
/// puts it right above it, at its full height.
pub proof fn law_vertical_above_anchor(area: Rectangle, pos: Rectangle, height: i32)
    requires
        pos.y - height >= area.y,
    ensures
        vertical_position(area, pos, height).0 + vertical_position(area, pos, height).1 == pos.y,
        vertical_position(area, pos, height).1 == height,
{
}

proof fn lemma_hex_digit(k: nat)
    requires
        k < 16,
    ensures
        hex_value(hex_char(k)) == Some(k),
        hex_char(k) != '+',
{
}

proof fn lemma_hex_push(s: Seq<char>, k: nat)
    requires
        k < 16,
    ensures
        hex_number(s.push(hex_char(k))) == hex_number(s) * 16 + k,
{
    lemma_hex_digit(k);
    assert(s.push(hex_char(k)).drop_last() =~= s);
}

/// Writing a color as hexadecimal digits (`Color::to_hex`) and parsing
/// them back (`Color::from_hex_string`) gives the same color.
pub proof fn law_hex_round_trip(c: Color)
    ensures
        parse_hex(hex_digits_of(color_hex(c))) is Some,
        Color::spec_from_u64(parse_hex(hex_digits_of(color_hex(c)))->0 as u64) == c,
{
    let s = color_hex(c);
    let (r, g, b) = (c.r as nat, c.g as nat, c.b as nat);
    let ds = seq![r / 16, r % 16, g / 16, g % 16, b / 16, b % 16];
    let e0 = Seq::<char>::empty();
    let e1 = e0.push(hex_char(ds[0]));
    let e2 = e1.push(hex_char(ds[1]));
    let e3 = e2.push(hex_char(ds[2]));
    let e4 = e3.push(hex_char(ds[3]));
    let e5 = e4.push(hex_char(ds[4]));
    let e6 = e5.push(hex_char(ds[5]));
    assert(e6 =~= s);
    lemma_hex_push(e0, ds[0]);
    lemma_hex_push(e1, ds[1]);
    lemma_hex_push(e2, ds[2]);
    lemma_hex_push(e3, ds[3]);
    lemma_hex_push(e4, ds[4]);
    lemma_hex_push(e5, ds[5]);
    assert(hex_number(e0) == 0);
    assert forall|i: int| 0 <= i < 6 implies (#[trigger] hex_value(s[i])) is Some by {
        lemma_hex_digit(ds[i]);
    }
    lemma_hex_digit(ds[0]);
    assert(hex_digits_of(s) == s);
    let n = hex_number(s);
    assert(n == r * 65536 + g * 256 + b) by (nonlinear_arith)
        requires
            n == ((((r / 16 * 16 + r % 16) * 16 + g / 16) * 16 + g % 16) * 16 + b / 16) * 16 + b
                % 16,
            r < 256,
            g < 256,
            b < 256,
    ;
    assert(n < 0x1000000);
    let v = n as u64;
    assert((v / 65536) % 256 == r && (v / 256) % 256 == g && v % 256 == b) by (nonlinear_arith)
        requires
            v == r * 65536 + g * 256 + b,
            r < 256,
            g < 256,
            b < 256,
    ;
}

/// `Color::from_u64` reads only the low 24 bits of its argument.
pub proof fn law_color_low_bits(v: u64)
    ensures
        Color::spec_from_u64(v) == Color::spec_from_u64((v % 0x1000000) as u64),
{
    let w = (v % 0x1000000) as u64;
    assert((v / 65536) % 256 == (w / 65536) % 256 && (v / 256) % 256 == (w / 256) % 256 && v
        % 256 == w % 256) by (nonlinear_arith)
        requires
            w == v % 0x1000000,
    ;
}

/// Text without `<` is sent to Neovim as it is (`escape_input`).
pub proof fn law_escape_plain(s: Seq<char>)
    requires
        forall|i: int| 0 <= i < s.len() ==> s[i] != '<',
    ensures
        escape_lt(s) == s,
    decreases s.len(),
{
    if s.len() > 0 {
        law_escape_plain(s.drop_last());
        assert(escape_lt(s.drop_last()) + seq![s.last()] =~= s);
    }
}

proof fn lemma_decimal(n: nat)
    ensures
        decimal(n).len() > 0,
        all_digits(decimal(n)),
        dec_number(decimal(n)) == n,
        forall|i: int| 0 <= i < decimal(n).len() ==> #[trigger] decimal(n)[i] != 'x',
    decreases n,
{
    if n >= 10 {
        lemma_decimal(n / 10);
        let d = decimal(n);
        assert(d.drop_last() =~= decimal(n / 10));
        assert(d.last() as nat == n % 10 + 48);
        assert(n / 10 * 10 + n % 10 == n);
        assert(dec_number(d) == dec_number(d.drop_last()) * 10 + (d.last() as nat - 48) as nat);
        assert forall|i: int| 0 <= i < d.len() implies is_digit(#[trigger] d[i]) by {
            if i < d.len() - 1 {
                assert(d[i] == decimal(n / 10)[i]);
            }
        }
        assert forall|i: int| 0 <= i < d.len() implies #[trigger] d[i] != 'x' by {
            if i < d.len() - 1 {
                assert(d[i] == decimal(n / 10)[i]);
            }
        }
    } else {
        assert(decimal(n).drop_last() =~= Seq::<char>::empty());
        assert(decimal(n).last() as nat == n + 48);
        assert(dec_number(Seq::<char>::empty()) == 0);
        assert(dec_number(decimal(n)) == dec_number(decimal(n).drop_last()) * 10 + (decimal(
            n,
        ).last() as nat - 48) as nat);
    }
}

proof fn lemma_split_without(p: Seq<char>, b: Seq<char>, c: char)
    requires
        forall|i: int| 0 <= i < b.len() ==> b[i] != c,
    ensures
        split_seq(p + b, c) == split_seq(p, c).update(
            split_seq(p, c).len() - 1,
            split_seq(p, c).last() + b,
        ),
    decreases b.len(),
{
    lemma_split_len(p, c);
    if b.len() == 0 {
        assert(p + b =~= p);
        assert(split_seq(p, c).last() + b =~= split_seq(p, c).last());
        assert(split_seq(p, c).update(split_seq(p, c).len() - 1, split_seq(p, c).last())
            =~= split_seq(p, c));
    } else {
        lemma_split_without(p, b.drop_last(), c);
        assert((p + b).drop_last() =~= p + b.drop_last());
        assert((p + b).last() == b.last());
        let q = split_seq(p, c);
        let q1 = split_seq(p + b.drop_last(), c);
        assert(q1 == q.update(q.len() - 1, q.last() + b.drop_last()));
        assert(q1.len() == q.len());
        assert(q1.last() == q.last() + b.drop_last());
        assert(split_seq(p + b, c) == q1.update(q1.len() - 1, q1.last().push(b.last())));
        assert(q.last() + b.drop_last() + seq![b.last()] =~= q.last() + b);
        assert(q1.last().push(b.last()) =~= q.last() + b);
        assert(split_seq(p + b, c) =~= q.update(q.len() - 1, q.last() + b));
    }
}

/// A geometry written as `<width>x<height>` parses back to the same
/// width and height (`parse_geometry`).
pub proof fn law_geometry_round_trip(w: i32, h: i32)
    requires
        w >= 0,
        h >= 0,
    ensures
        geometry_of(decimal(w as nat) + "x"@ + decimal(h as nat)) == Ok::<(i32, i32), Seq<char>>(
            (w, h),
        ),
{
    reveal_strlit("x");
    let a = decimal(w as nat);
    let b = decimal(h as nat);
    lemma_decimal(w as nat);
    lemma_decimal(h as nat);
    let e = Seq::<char>::empty();
    assert(split_seq(e, 'x') =~= seq![e]);
    lemma_split_without(e, a, 'x');
    assert(e + a =~= a);
    assert(split_seq(a, 'x') =~= seq![a]);
    let ax = a + "x"@;
    assert(ax.drop_last() =~= a);
    assert(split_seq(ax, 'x') =~= seq![a, e]);
    lemma_split_without(ax, b, 'x');
    assert(e + b =~= b);
    assert(split_seq(ax + b, 'x') =~= seq![a, b]);
    assert(a[0] != '+' && a[0] != '-') by {
        assert(is_digit(a[0]));
    }
    assert(b[0] != '+' && b[0] != '-') by {
        assert(is_digit(b[0]));
    }
}

/// The characters of a sequence of runs.
pub open spec fn runs_text(ls: Seq<(Seq<char>, u64)>) -> Seq<char>
    decreases ls.len(),
{
    if ls.len() == 0 {
        Seq::empty()
    } else {
        ls[0].0 + runs_text(ls.drop_first())
    }
}

/// The highlight of each character of a sequence of runs.
pub open spec fn runs_hl(ls: Seq<(Seq<char>, u64)>) -> Seq<u64>
    decreases ls.len(),
{
    if ls.len() == 0 {
        Seq::empty()
    } else {
        repeat_hl(ls[0].1, ls[0].0.len()) + runs_hl(ls.drop_first())
    }
}

proof fn lemma_runs_append(a: Seq<(Seq<char>, u64)>, b: Seq<(Seq<char>, u64)>)
    ensures
        runs_text(a + b) == runs_text(a) + runs_text(b),
        runs_hl(a + b) == runs_hl(a) + runs_hl(b),
    decreases a.len(),
{
    if a.len() == 0 {
        assert(a + b =~= b);
        assert(runs_text(a) + runs_text(b) =~= runs_text(b));
        assert(runs_hl(a) + runs_hl(b) =~= runs_hl(b));
    } else {
        assert((a + b).drop_first() =~= a.drop_first() + b);
        lemma_runs_append(a.drop_first(), b);
        assert(a[0].0 + (runs_text(a.drop_first()) + runs_text(b)) =~= (a[0].0 + runs_text(
            a.drop_first(),
        )) + runs_text(b));
        assert(repeat_hl(a[0].1, a[0].0.len()) + (runs_hl(a.drop_first()) + runs_hl(b)) =~= (
        repeat_hl(a[0].1, a[0].0.len()) + runs_hl(a.drop_first())) + runs_hl(b));
    }
}

/// The text and highlights of a rope are those of its runs.
proof fn lemma_rope_runs(r: Rope)
    requires
        r.leaves_wf(),
    ensures
        r.text_seq() == runs_text(r.leaf_views()),
        r.hl_seq() == runs_hl(r.leaf_views()),
    decreases r,
{
    match r {
        Rope::Leaf(l) => {
            let v = seq![l.view_pair()];
            let e = Seq::<(Seq<char>, u64)>::empty();
            assert(v.drop_first() =~= e);
            assert(runs_text(e) == Seq::<char>::empty());
            assert(runs_hl(e) == Seq::<u64>::empty());
            assert(runs_text(v) == v[0].0 + runs_text(v.drop_first()));
            assert(runs_hl(v) == repeat_hl(v[0].1, v[0].0.len()) + runs_hl(v.drop_first()));
            assert(runs_text(v) =~= l.text@);
            assert(runs_hl(v) =~= repeat_hl(l.hl_id, l.len as nat));
        },
        Rope::Node(a, b) => {
            lemma_rope_runs(*a);
            lemma_rope_runs(*b);
            lemma_runs_append(a.leaf_views(), b.leaf_views());
        },
    }
}

proof fn lemma_runs_len(ls: Seq<(Seq<char>, u64)>)
    ensures
        runs_hl(ls).len() == runs_text(ls).len(),
        normal_views(ls) && ls.len() > 0 ==> runs_text(ls).len() >= ls[0].0.len() > 0,
        normal_views(ls) ==> (ls.len() == 0 <==> runs_text(ls).len() == 0),
    decreases ls.len(),
{
    if ls.len() > 0 {
        lemma_runs_len(ls.drop_first());
        if normal_views(ls) {
            assert(ls[0].0.len() > 0);
        }
    }
}

proof fn lemma_normal_rest(ls: Seq<(Seq<char>, u64)>)
    requires
        normal_views(ls),
        ls.len() > 0,
    ensures
        normal_views(ls.drop_first()),
{
    let r = ls.drop_first();
    assert forall|i: int| 0 <= i < r.len() implies #[trigger] r[i].0.len() > 0 by {
        assert(r[i] == ls[i + 1]);
    }
    assert forall|i: int| 0 <= i < r.len() - 1 implies #[trigger] r[i].1 != r[i + 1].1 by {
        assert(r[i] == ls[i + 1]);
        assert(r[i + 1] == ls[i + 2]);
    }
}

/// Two sequences of runs in normal form with the same characters and
/// highlights are the same runs.
proof fn lemma_normal_unique(l1: Seq<(Seq<char>, u64)>, l2: Seq<(Seq<char>, u64)>)
    requires
        normal_views(l1),
        normal_views(l2),
        runs_text(l1) == runs_text(l2),
        runs_hl(l1) == runs_hl(l2),
    ensures
        l1 == l2,
    decreases l1.len(),
{
    lemma_runs_len(l1);
    lemma_runs_len(l2);
    if l1.len() == 0 {
        assert(l2.len() == 0);
        assert(l1 =~= l2);
    } else {
        let (x, y) = (l1[0], l2[0]);
        let (r1, r2) = (l1.drop_first(), l2.drop_first());
        let (n, m) = (x.0.len() as int, y.0.len() as int);
        let h = runs_hl(l1);
        lemma_runs_len(r1);
        lemma_runs_len(r2);
        lemma_normal_rest(l1);
        lemma_normal_rest(l2);
        assert(h == repeat_hl(x.1, x.0.len()) + runs_hl(r1));
        assert(h == repeat_hl(y.1, y.0.len()) + runs_hl(r2));
        assert(h[0] == x.1 && h[0] == y.1);
        if n < m {
            assert(h[n] == y.1);
            assert(r1.len() > 0);
            assert(h[n] == runs_hl(r1)[0]);
            assert(runs_hl(r1)[0] == r1[0].1);
            assert(r1[0] == l1[1]);
            assert(false);
        }
        if m < n {
            assert(h[m] == x.1);
            assert(r2.len() > 0);
            assert(h[m] == runs_hl(r2)[0]);
            assert(runs_hl(r2)[0] == r2[0].1);
            assert(r2[0] == l2[1]);
            assert(false);
        }
        let t = runs_text(l1);
        assert(x.0 =~= t.take(n));
        assert(y.0 =~= t.take(n));
        assert(runs_text(r1) =~= t.skip(n));
        assert(runs_text(r2) =~= t.skip(n));
        assert(runs_hl(r1) =~= h.skip(n));
        assert(runs_hl(r2) =~= h.skip(n));
        lemma_normal_unique(r1, r2);
        assert(l1 =~= seq![x] + r1);
        assert(l2 =~= seq![y] + r2);
    }
}

/// The normal form of a rope's content is unique: two ropes whose runs
/// are in normal form (as `Rope::optimize` and `Row::update` leave them)
/// and that hold the same characters and highlights have the same runs,
/// whatever the shape of their trees. So optimizing an optimized rope
/// changes none of its runs.
pub proof fn law_normal_form_unique(a: Rope, b: Rope)
    requires
        a.wf(),
        b.wf(),
        normal_views(a.leaf_views()),
        normal_views(b.leaf_views()),
        a.text_seq() == b.text_seq(),
        a.hl_seq() == b.hl_seq(),
    ensures
        a.leaf_views() == b.leaf_views(),
{
    lemma_rope_runs(a);
    lemma_rope_runs(b);
    lemma_normal_unique(a.leaf_views(), b.leaf_views());
}

proof fn lemma_set_groups(m: Map<u64, u64>, gs: Seq<HlGroup>, id: u64, g: HlGroup)
    ensures
        gs.contains(g) ==> set_groups(m, gs, id).contains_key(g.spec_key()) && set_groups(
            m,
            gs,
            id,
        )[g.spec_key()] == id,
        !gs.contains(g) ==> (set_groups(m, gs, id).contains_key(g.spec_key()) == m.contains_key(
            g.spec_key(),
        ) && set_groups(m, gs, id)[g.spec_key()] == m[g.spec_key()]),
    decreases gs.len(),
{
    if gs.len() > 0 {
        lemma_set_groups(m, gs.drop_last(), id, g);
        lemma_group_key_injective(g, gs.last());
        if gs.contains(g) && !gs.drop_last().contains(g) {
            let i = choose|i: int| 0 <= i < gs.len() && gs[i] == g;
            if i < gs.len() - 1 {
                assert(gs.drop_last()[i] == g);
            }
        }
        if gs.drop_last().contains(g) {
            let i = choose|i: int| 0 <= i < gs.drop_last().len() && gs.drop_last()[i] == g;
            assert(gs[i] == g);
        }
        if !gs.contains(g) {
            assert(gs[gs.len() - 1] != g);
            if gs.drop_last().contains(g) {
                let i = choose|i: int| 0 <= i < gs.drop_last().len() && gs.drop_last()[i] == g;
                assert(gs[i] == g);
            }
        }
    }
}

/// After `HlDefs::hl_group_set(name, id)`, each group that the Neovim
/// highlight group `name` colors reads `id`, and every other group keeps
/// its id: `Pmenu` also sets the wild menu, `PmenuSel` its selection,
/// `TabLineSel` the command line border, and `Normal` the command line.
pub proof fn law_hl_group_set_by_name(groups: Map<u64, u64>, name: Seq<char>, id: u64, g: HlGroup)
    ensures
        named_groups(name).contains(g) ==> set_groups(groups, named_groups(name), id)[g.spec_key()]
            == id,
        !named_groups(name).contains(g) ==> (set_groups(groups, named_groups(name), id).contains_key(
            g.spec_key(),
        ) == groups.contains_key(g.spec_key()) && set_groups(groups, named_groups(name), id)[g.spec_key()]
            == groups[g.spec_key()]),
        name == "Pmenu"@ ==> named_groups(name).contains(HlGroup::Wildmenu),
        name == "TabLineSel"@ ==> named_groups(name).contains(HlGroup::CmdlineBorder),
{
    lemma_set_groups(groups, named_groups(name), id, g);
    if name == "Pmenu"@ {
        assert(named_groups(name)[1] == HlGroup::Wildmenu);
    }
    if name == "TabLineSel"@ {
        reveal_strlit("Pmenu");
        reveal_strlit("TabLineSel");
        reveal_strlit("PmenuSel");
        reveal_strlit("TabLine");
        assert("TabLineSel"@.len() == 10);
        assert("TabLineSel"@ != "Pmenu"@ && "TabLineSel"@ != "PmenuSel"@ && "TabLineSel"@
            != "TabLine"@);
        assert(named_groups(name)[1] == HlGroup::CmdlineBorder);
    }
}

/// After `Row::update` writes the cells of a `grid_line` event from column
/// `col_start` on, those columns read back as the cells' characters and
/// highlights, and the columns before and after them are unchanged.
pub proof fn law_update_reads_back(row: Row, line: GridLineSegment)
    requires
        row.wf(),
        cells_fit(line.cells@),
        line.col_start + cells_text(line.cells@).len() <= row.width(),
    ensures
        ({
            let (c, ct, ch) = (
                line.col_start as int,
                cells_text(line.cells@),
                cells_hl(line.cells@),
            );
            let e = c + ct.len();
            let t2 = row.text_seq().take(c) + ct + row.text_seq().skip(e);
            let h2 = row.hl_seq().take(c) + ch + row.hl_seq().skip(e);
            &&& t2.subrange(c, e) == ct
            &&& h2.subrange(c, e) == ch
            &&& t2.take(c) == row.text_seq().take(c)
            &&& t2.skip(e) == row.text_seq().skip(e)
            &&& h2.take(c) == row.hl_seq().take(c)
            &&& h2.skip(e) == row.hl_seq().skip(e)
        }),
{
    crate::row::lemma_seq_lens(row.rope->0);
    crate::row::lemma_cells_lens(line.cells@);
    let (c, ct, ch) = (line.col_start as int, cells_text(line.cells@), cells_hl(line.cells@));
    let e = c + ct.len();
    let t2 = row.text_seq().take(c) + ct + row.text_seq().skip(e);
    let h2 = row.hl_seq().take(c) + ch + row.hl_seq().skip(e);
    assert(t2.subrange(c, e) =~= ct);
    assert(h2.subrange(c, e) =~= ch);
    assert(t2.take(c) =~= row.text_seq().take(c));
    assert(t2.skip(e) =~= row.text_seq().skip(e));
    assert(h2.take(c) =~= row.hl_seq().take(c));
    assert(h2.skip(e) =~= row.hl_seq().skip(e));
}

/// A row keeps its width through any sequence of operations
/// (`clear`, `clear_range`, `insert_rope_at`, `update`, each of which keeps
/// its shape): starting from a well-formed row of `n` columns (`Row::new`),
/// every later row is well formed, `n` columns wide (`Row::len`), and its
/// text (`Row::text`) has `n` characters.
pub proof fn law_row_keeps_width(rows: Seq<Row>, n: nat)
    requires
        rows.len() > 0,
        rows[0].wf(),
        rows[0].width() == n,
        forall|i: int| 0 <= i < rows.len() - 1 ==> keeps_shape(#[trigger] rows[i], rows[i + 1]),
    ensures
        forall|i: int|
            0 <= i < rows.len() ==> (#[trigger] rows[i]).wf() && rows[i].width() == n
                && rows[i].text_seq().len() == n,
{
    assert forall|i: int| 0 <= i < rows.len() implies (#[trigger] rows[i]).wf() && rows[i].width()
        == n && rows[i].text_seq().len() == n by {
        lemma_row_prefix_shape(rows, n, i);
        lemma_seq_lens(rows[i].rope->0);
    }
}

proof fn lemma_row_prefix_shape(rows: Seq<Row>, n: nat, i: int)
    requires
        0 <= i < rows.len(),
        rows[0].wf(),
        rows[0].width() == n,
        forall|k: int| 0 <= k < rows.len() - 1 ==> keeps_shape(#[trigger] rows[k], rows[k + 1]),
    ensures
        rows[i].wf(),
        rows[i].width() == n,
    decreases i,
{
    if i > 0 {
        lemma_row_prefix_shape(rows, n, i - 1);
        assert(keeps_shape(rows[i - 1], rows[i]));
    }
}

/// Concatenating two leaves of the same highlight (`Rope::concat`) gives a
/// single leaf holding both texts.
pub proof fn law_concat_joins_leaves(a: Leaf, b: Leaf)
    requires
        a.hl_id == b.hl_id,
    ensures
        concat_views(Rope::Leaf(a).leaf_views(), Rope::Leaf(b)) == seq![(a.text@ + b.text@, a.hl_id)],
{
    let ls = Rope::Leaf(a).leaf_views();
    assert(ls.drop_last() =~= Seq::<(Seq<char>, u64)>::empty());
    assert(merge_tail(ls, b.view_pair()) == merge_tail(ls.drop_last(), (a.text@ + b.text@, a.hl_id)));
    assert(merge_tail(Seq::<(Seq<char>, u64)>::empty(), (a.text@ + b.text@, a.hl_id)) =~= seq![
        (a.text@ + b.text@, a.hl_id),
    ]);
}

/// The six lowercase hexadecimal digits of `n`, most significant first
/// (`format!("{:06x}", n)` for `n < 0x1000000`).
pub open spec fn hex6(n: nat) -> Seq<char> {
    seq![
        hex_char((n / 0x100000) % 16),
        hex_char((n / 0x10000) % 16),
        hex_char((n / 0x1000) % 16),
        hex_char((n / 0x100) % 16),
        hex_char((n / 0x10) % 16),
        hex_char(n % 16),
    ]
}

/// The color of a number (`Color::from_u64`) prints (`Color::to_hex`) as
/// the six lowercase hexadecimal digits of the number's low 24 bits.
pub proof fn law_hex_six_digits(v: u64)
    ensures
        color_hex(Color::spec_from_u64(v)) == hex6((v % 0x1000000) as nat),
{
    let c = Color::spec_from_u64(v);
    let w = v % 0x1000000;
    assert(((v / 65536) % 256) / 16 == (w / 0x100000) % 16) by (bit_vector)
        requires
            w == v % 0x1000000,
    ;
    assert(((v / 65536) % 256) % 16 == (w / 0x10000) % 16) by (bit_vector)
        requires
            w == v % 0x1000000,
    ;
    assert(((v / 256) % 256) / 16 == (w / 0x1000) % 16) by (bit_vector)
        requires
            w == v % 0x1000000,
    ;
    assert(((v / 256) % 256) % 16 == (w / 0x100) % 16) by (bit_vector)
        requires
            w == v % 0x1000000,
    ;
    assert((v % 256) / 16 == (w / 0x10) % 16) by (bit_vector)
        requires
            w == v % 0x1000000,
    ;
    assert((v % 256) % 16 == w % 16) by (bit_vector)
        requires
            w == v % 0x1000000,
    ;
    assert(color_hex(c) =~= hex6(w as nat));
}

/// A hexadecimal digit in lowercase.
pub open spec fn lower_hex(c: char) -> char {
    if 'A' <= c <= 'F' {
        ((c as u32) + 32) as char
    } else {
        c
    }
}

proof fn lemma_hex_number_step(s: Seq<char>, k: int)
    requires
        0 <= k < s.len(),
    ensures
        hex_number(s.take(k + 1)) == hex_number(s.take(k)) * 16 + hex_value(s[k])->0,
{
    assert(s.take(k + 1).drop_last() =~= s.take(k));
    assert(s.take(k + 1).last() == s[k]);
}

/// The value of a hexadecimal digit is below 16, and its digit is the
/// lowercase form of it.
proof fn lemma_lower_hex_digit(c: char)
    requires
        hex_value(c) is Some,
    ensures
        hex_value(c)->0 < 16,
        hex_char(hex_value(c)->0) == lower_hex(c),
{
}

/// The number of six hexadecimal digits.
proof fn lemma_hex6_number(s: Seq<char>)
    requires
        s.len() == 6,
        all_hex(s),
    ensures
        parse_hex(s) == Some(hex_number(s)),
        hex_number(s) == ((((hex_value(s[0])->0 * 16 + hex_value(s[1])->0) * 16 + hex_value(
            s[2],
        )->0) * 16 + hex_value(s[3])->0) * 16 + hex_value(s[4])->0) * 16 + hex_value(s[5])->0,
{
    assert(hex_value(s[0]) is Some);
    lemma_hex_number_step(s, 0);
    lemma_hex_number_step(s, 1);
    lemma_hex_number_step(s, 2);
    lemma_hex_number_step(s, 3);
    lemma_hex_number_step(s, 4);
    lemma_hex_number_step(s, 5);
    assert(s.take(0) =~= Seq::<char>::empty());
    assert(s.take(6) =~= s);
}

/// The digits of a number built from six digits below 16.
proof fn lemma_six_digits(d0: u64, d1: u64, d2: u64, d3: u64, d4: u64, d5: u64, m: u64)
    requires
        d0 < 16,
        d1 < 16,
        d2 < 16,
        d3 < 16,
        d4 < 16,
        d5 < 16,
        m == (((((d0 * 16 + d1) * 16 + d2) * 16 + d3) * 16 + d4) * 16 + d5),
    ensures
        m % 0x1000000 == m,
        (m / 0x100000) % 16 == d0,
        (m / 0x10000) % 16 == d1,
        (m / 0x1000) % 16 == d2,
        (m / 0x100) % 16 == d3,
        (m / 0x10) % 16 == d4,
        m % 16 == d5,
{
    assert(m % 0x1000000 == m && (m / 0x100000) % 16 == d0 && (m / 0x10000) % 16 == d1 && (m
        / 0x1000) % 16 == d2 && (m / 0x100) % 16 == d3 && (m / 0x10) % 16 == d4 && m % 16 == d5)
        by (bit_vector)
        requires
            d0 < 16,
            d1 < 16,
            d2 < 16,
            d3 < 16,
            d4 < 16,
            d5 < 16,
            m == (((((d0 * 16 + d1) * 16 + d2) * 16 + d3) * 16 + d4) * 16 + d5),
    ;
}

/// Six hexadecimal digits parse (`Color::from_hex_string`) to a color that
/// prints (`Color::to_hex`) as the same digits in lowercase.
pub proof fn law_hex_string_round_trip(s: Seq<char>)
    requires
        s.len() == 6,
        all_hex(s),
    ensures
        parse_hex(s) is Some,
        color_hex(Color::spec_from_u64(parse_hex(s)->0 as u64)) == s.map_values(|c: char| lower_hex(c)),
{
    assert(hex_value(s[0]) is Some);
    assert(hex_value(s[1]) is Some);
    assert(hex_value(s[2]) is Some);
    assert(hex_value(s[3]) is Some);
    assert(hex_value(s[4]) is Some);
    assert(hex_value(s[5]) is Some);
    lemma_lower_hex_digit(s[0]);
    lemma_lower_hex_digit(s[1]);
    lemma_lower_hex_digit(s[2]);
    lemma_lower_hex_digit(s[3]);
    lemma_lower_hex_digit(s[4]);
    lemma_lower_hex_digit(s[5]);
    lemma_hex6_number(s);
    let d0 = hex_value(s[0])->0 as u64;
    let d1 = hex_value(s[1])->0 as u64;
    let d2 = hex_value(s[2])->0 as u64;
    let d3 = hex_value(s[3])->0 as u64;
    let d4 = hex_value(s[4])->0 as u64;
    let d5 = hex_value(s[5])->0 as u64;
    let m = (((((d0 * 16 + d1) * 16 + d2) * 16 + d3) * 16 + d4) * 16 + d5) as u64;
    lemma_six_digits(d0, d1, d2, d3, d4, d5, m);
    assert(m == hex_number(s));
    law_hex_six_digits(m);
    let l = s.map_values(|c: char| lower_hex(c));
    assert(hex6(m as nat) =~= l);
}

} // verus!
