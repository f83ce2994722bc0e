//! The rows of a grid: resizing, clearing and scrolling them.

use vstd::prelude::*;

use crate::row::{zeros, Row};
use crate::text::blanks;

verus! {

/// The region of a `grid_scroll` event: `[top, bot, left, right]`.
#[derive(Clone, Copy, PartialEq, Eq, Debug)]
pub struct GridScrollRegion(pub [u64; 4]);

/// The rows that a scroll copies from (`src_top..src_bot`), copies to
/// (`dst_top..dst_bot`), and leaves to be cleared (`clr_top..clr_bot`).
/// The bounds are whole numbers; a bound taken from the region as it is
/// may exceed `i64::MAX`, so they are held as `i128`.
pub struct GridScrollArea {
    pub src_top: i128,
    pub src_bot: i128,
    pub dst_top: i128,
    pub dst_bot: i128,
    pub clr_top: i128,
    pub clr_bot: i128,
}

/// `x` read as a two's complement `i64` (what `x as i64` gives).
pub open spec fn wrap_i64(x: u64) -> int {
    if x <= i64::MAX {
        x as int
    } else {
        x as int - 0x1_0000_0000_0000_0000
    }
}

/// The six bounds of a scroll of `count` rows of the region `top..bot`:
/// source, destination and cleared rows, in this order. A bound moved by
/// `count` is computed on the bound read as an `i64`; the others are the
/// bound as it is.
pub open spec fn area_of(top: u64, bot: u64, count: i64) -> (int, int, int, int, int, int) {
    let t = wrap_i64(top);
    let b = wrap_i64(bot);
    if count > 0 {
        (t + count, bot as int, top as int, b - count, b - count, bot as int)
    } else {
        (top as int, b + count, t - count, bot as int, top as int, t - count)
    }
}

/// The bounds moved by `count` fit in an `i64`.
pub open spec fn area_fits(top: u64, bot: u64, count: i64) -> bool {
    let t = wrap_i64(top);
    let b = wrap_i64(bot);
    if count > 0 {
        &&& i64::MIN <= t + count <= i64::MAX
        &&& i64::MIN <= b - count <= i64::MAX
    } else {
        &&& i64::MIN <= b + count <= i64::MAX
        &&& i64::MIN <= t - count <= i64::MAX
    }
}

fn to_i64(x: u64) -> (r: i64)
    ensures
        r == wrap_i64(x),
{
    if x <= i64::MAX as u64 {
        x as i64
    } else {
        let r = x as i64;
        assert(r == x - 0x1_0000_0000_0000_0000) by (bit_vector)
            requires
                x > 0x7fff_ffff_ffff_ffff,
                r == x as i64,
        ;
        r
    }
}

impl GridScrollRegion {
    /// The rows that a scroll of `count` rows (up when positive) copies
    /// from, copies to and clears.
    pub fn calc_area(&self, count: i64) -> (a: GridScrollArea)
        requires
            area_fits(self.0[0], self.0[1], count),
        ensures
            (a.src_top as int, a.src_bot as int, a.dst_top as int, a.dst_bot as int, a.clr_top as int, a.clr_bot as int)
                == area_of(self.0[0], self.0[1], count),
    {
        let top = self.0[0];
        let bot = self.0[1];
        if count > 0 {
            let (src_top, src_bot) = ((to_i64(top) + count) as i128, bot as i128);
            let (dst_top, dst_bot) = (top as i128, (to_i64(bot) - count) as i128);
            GridScrollArea { src_top, src_bot, dst_top, dst_bot, clr_top: dst_bot, clr_bot: src_bot }
        } else {
            let (src_top, src_bot) = (top as i128, (to_i64(bot) + count) as i128);
            let (dst_top, dst_bot) = ((to_i64(top) - count) as i128, bot as i128);
            GridScrollArea { src_top, src_bot, dst_top, dst_bot, clr_top: src_top, clr_bot: dst_top }
        }
    }
}

/// A row bound used as an index: negative bounds count as 0, bounds past
/// `usize::MAX` as `usize::MAX`.
pub open spec fn index_of(v: int) -> int {
    if v < 0 {
        0
    } else if v > usize::MAX {
        usize::MAX as int
    } else {
        v
    }
}

fn to_index(v: i128) -> (r: usize)
    ensures
        r == index_of(v as int),
{
    if v < 0 {
        0
    } else if v > usize::MAX as i128 {
        usize::MAX
    } else {
        v as usize
    }
}

/// Rows `lo..hi` exist, are well formed and at least `right` wide.
pub open spec fn rows_reach(rows: Seq<Row>, lo: int, hi: int, right: int) -> bool {
    forall|i: int| lo <= i < hi ==> i < rows.len() && (#[trigger] rows[i]).wf() && right
        <= rows[i].width()
}

/// `row` with the columns `left..right` replaced by those of `src`.
pub open spec fn overwrite_text(row: Row, src: Row, left: int, right: int) -> Seq<char> {
    row.text_seq().take(left) + src.text_seq().subrange(left, right) + row.text_seq().skip(right)
}

pub open spec fn overwrite_hl(row: Row, src: Row, left: int, right: int) -> Seq<u64> {
    row.hl_seq().take(left) + src.hl_seq().subrange(left, right) + row.hl_seq().skip(right)
}

/// `row` with the columns `left..right` blanked.
pub open spec fn blanked_text(row: Row, left: int, right: int) -> Seq<char> {
    row.text_seq().take(left) + blanks((right - left) as nat) + row.text_seq().skip(right)
}

pub open spec fn blanked_hl(row: Row, left: int, right: int) -> Seq<u64> {
    row.hl_seq().take(left) + zeros((right - left) as nat) + row.hl_seq().skip(right)
}

/// The preconditions of [`scroll`]: every row that the scroll reads,
/// writes or clears exists, is well formed and is wide enough, and there
/// are as many source rows as destination rows, or more.
pub open spec fn scroll_ok(rows: Seq<Row>, reg: [u64; 4], count: i64) -> bool {
    let a = area_of(reg[0], reg[1], count);
    let (st, sb, dt, db, ct, cb) = (
        index_of(a.0),
        index_of(a.1),
        index_of(a.2),
        index_of(a.3),
        index_of(a.4),
        index_of(a.5),
    );
    &&& area_fits(reg[0], reg[1], count)
    &&& reg[2] <= reg[3] <= usize::MAX
    &&& rows_reach(rows, st, sb, reg[3] as int)
    &&& rows_reach(rows, dt, db, reg[3] as int)
    &&& rows_reach(rows, ct, cb, reg[3] as int)
    &&& (if db > dt {
        db - dt
    } else {
        0
    }) <= (if sb > st {
        sb - st
    } else {
        0
    })
}

/// `new_rows` are `old_rows` scrolled by `count` rows in the region
/// `reg`: each destination row has the columns `left..right` of its source
/// row, the rows left behind are blanked in those columns, and every other
/// row is unchanged.
pub open spec fn scrolled(old_rows: Seq<Row>, new_rows: Seq<Row>, reg: [u64; 4], count: i64) -> bool {
    &&& new_rows.len() == old_rows.len()
    &&& {
        let a = area_of(reg[0], reg[1], count);
        let (st, dt, db, ct, cb) = (
            index_of(a.0),
            index_of(a.2),
            index_of(a.3),
            index_of(a.4),
            index_of(a.5),
        );
        let (left, right) = (reg[2] as int, reg[3] as int);
        forall|i: int|
            #![trigger new_rows[i]]
            0 <= i < old_rows.len() ==> if ct <= i < cb {
                &&& new_rows[i].wf()
                &&& new_rows[i].width() == old_rows[i].width()
                &&& new_rows[i].text_seq() == blanked_text(old_rows[i], left, right)
                &&& new_rows[i].hl_seq() == blanked_hl(old_rows[i], left, right)
            } else if dt <= i < db {
                &&& new_rows[i].wf()
                &&& new_rows[i].width() == old_rows[i].width()
                &&& new_rows[i].text_seq() == overwrite_text(
                    old_rows[i],
                    old_rows[st + (i - dt)],
                    left,
                    right,
                )
                &&& new_rows[i].hl_seq() == overwrite_hl(
                    old_rows[i],
                    old_rows[st + (i - dt)],
                    left,
                    right,
                )
            } else {
                new_rows[i] == old_rows[i]
            }
    }
}

/// Scrolls the columns `left..right` of the rows `top..bot` by `count`
/// rows (up when positive): each destination row gets the columns of its
/// source row, then the rows left behind are blanked in those columns.
pub fn scroll(rows: &mut Vec<Row>, reg: [u64; 4], count: i64)
    requires
        scroll_ok(old(rows)@, reg, count),
    ensures
        scrolled(old(rows)@, final(rows)@, reg, count),
{
    let region = GridScrollRegion(reg);
    let area = region.calc_area(count);
    let left = reg[2] as usize;
    let right = reg[3] as usize;
    let src_top = to_index(area.src_top);
    let src_bot = to_index(area.src_bot);
    let dst_top = to_index(area.dst_top);
    let dst_bot = to_index(area.dst_bot);
    let clr_top = to_index(area.clr_top);
    let clr_bot = to_index(area.clr_bot);
    let ghost old_rows = rows@;
    let ghost l = left as int;
    let ghost r = right as int;
    // Copy the source parts first, so that every destination gets the
    // content its source row had before the scroll.
    let mut src: Vec<crate::row::Rope> = Vec::new();
    let mut i = src_top;
    while i < src_bot
        invariant
            rows@ == old_rows,
            rows_reach(old_rows, src_top as int, src_bot as int, r),
            l == left,
            r == right,
            l <= r,
            src_top <= i <= src_bot || (src_top >= src_bot && i == src_top),
            src@.len() == i - src_top,
            forall|k: int|
                #![trigger src@[k]]
                0 <= k < src@.len() ==> src@[k].wf() && src@[k].spec_len() == r - l
                    && src@[k].text_seq() == old_rows[src_top + k].text_seq().subrange(l, r)
                    && src@[k].hl_seq() == old_rows[src_top + k].hl_seq().subrange(l, r),
        decreases src_bot - i,
    {
        assert(old_rows[i as int].wf());
        let part = rows[i].copy_range(left, right);
        src.push(part);
        i = i + 1;
    }
    let mut j = dst_top;
    while j < dst_bot
        invariant
            rows@.len() == old_rows.len(),
            rows_reach(old_rows, dst_top as int, dst_bot as int, r),
            l == left,
            r == right,
            l <= r,
            dst_top <= j <= dst_bot || (dst_top >= dst_bot && j == dst_top),
            dst_bot - dst_top <= src@.len(),
            forall|k: int|
                #![trigger src@[k]]
                0 <= k < src@.len() ==> src@[k].wf() && src@[k].spec_len() == r - l
                    && src@[k].text_seq() == old_rows[src_top + k].text_seq().subrange(l, r)
                    && src@[k].hl_seq() == old_rows[src_top + k].hl_seq().subrange(l, r),
            forall|k: int|
                #![trigger rows@[k]]
                0 <= k < rows@.len() ==> if dst_top <= k < j {
                    &&& rows@[k].wf()
                    &&& rows@[k].width() == old_rows[k].width()
                    &&& rows@[k].text_seq() == overwrite_text(
                        old_rows[k],
                        old_rows[src_top + (k - dst_top)],
                        l,
                        r,
                    )
                    &&& rows@[k].hl_seq() == overwrite_hl(
                        old_rows[k],
                        old_rows[src_top + (k - dst_top)],
                        l,
                        r,
                    )
                } else {
                    rows@[k] == old_rows[k]
                },
        decreases dst_bot - j,
    {
        let ghost k = j as int;
        assert(rows@[k] == old_rows[k]);
        assert(old_rows[k].wf());
        let part = src[j - dst_top].clone();
        let mut row = rows[j].clone();
        row.insert_rope_at(left, part);
        rows.set(j, row);
        proof {
            let o = old_rows[k];
            let s = old_rows[src_top + (k - dst_top)];
            assert(o.text_seq().skip(l + (r - l)) =~= o.text_seq().skip(r));
            assert(o.hl_seq().skip(l + (r - l)) =~= o.hl_seq().skip(r));
        }
        j = j + 1;
    }
    let ghost mid_rows = rows@;
    assert(dst_top < dst_bot ==> dst_bot - dst_top <= src_bot - src_top);
    let mut c = clr_top;
    while c < clr_bot
        invariant
            rows@.len() == old_rows.len(),
            mid_rows.len() == old_rows.len(),
            rows_reach(old_rows, clr_top as int, clr_bot as int, r),
            rows_reach(old_rows, src_top as int, src_bot as int, r),
            dst_top < dst_bot ==> dst_bot - dst_top <= src_bot - src_top,
            l == left,
            r == right,
            l <= r,
            clr_top <= c <= clr_bot || (clr_top >= clr_bot && c == clr_top),
            forall|k: int|
                #![trigger mid_rows[k]]
                0 <= k < mid_rows.len() ==> if dst_top <= k < dst_bot {
                    &&& mid_rows[k].wf()
                    &&& mid_rows[k].width() == old_rows[k].width()
                    &&& mid_rows[k].text_seq() == overwrite_text(
                        old_rows[k],
                        old_rows[src_top + (k - dst_top)],
                        l,
                        r,
                    )
                    &&& mid_rows[k].hl_seq() == overwrite_hl(
                        old_rows[k],
                        old_rows[src_top + (k - dst_top)],
                        l,
                        r,
                    )
                } else {
                    mid_rows[k] == old_rows[k]
                },
            forall|k: int|
                #![trigger rows@[k]]
                0 <= k < rows@.len() ==> if clr_top <= k < c {
                    &&& rows@[k].wf()
                    &&& rows@[k].width() == old_rows[k].width()
                    &&& rows@[k].text_seq() == blanked_text(old_rows[k], l, r)
                    &&& rows@[k].hl_seq() == blanked_hl(old_rows[k], l, r)
                } else {
                    rows@[k] == mid_rows[k]
                },
        decreases clr_bot - c,
    {
        let ghost k = c as int;
        assert(rows@[k] == mid_rows[k]);
        assert(mid_rows[k] == mid_rows[k]);
        assert(old_rows[k].wf());
        proof {
            crate::row::lemma_seq_lens(old_rows[k].rope->0);
            crate::row::lemma_seq_lens(mid_rows[k].rope->0);
        }
        let mut row = rows[c].clone();
        row.clear_range(left, right);
        rows.set(c, row);
        proof {
            let o = old_rows[k];
            let m = mid_rows[k];
            if dst_top <= k < dst_bot {
                let s = old_rows[src_top + (k - dst_top)];
                crate::row::lemma_seq_lens(s.rope->0);
                assert(m.text_seq().take(l) =~= o.text_seq().take(l));
                assert(m.text_seq().skip(r) =~= o.text_seq().skip(r));
                assert(m.hl_seq().take(l) =~= o.hl_seq().take(l));
                assert(m.hl_seq().skip(r) =~= o.hl_seq().skip(r));
            }
        }
        c = c + 1;
    }
}

/// Drops all rows and makes `height` blank rows of `width` columns.
pub fn resize(rows: &mut Vec<Row>, width: u64, height: u64)
    requires
        width <= usize::MAX,
    ensures
        final(rows)@.len() == height,
        forall|i: int|
            #![trigger final(rows)@[i]]
            0 <= i < height ==> final(rows)@[i].wf() && final(rows)@[i].width() == width
                && final(rows)@[i].text_seq() == blanks(width as nat) && final(rows)@[i].hl_seq()
                == zeros(width as nat),
{
    *rows = Vec::new();
    let mut n: u64 = 0;
    while n < height
        invariant
            width <= usize::MAX,
            n <= height,
            rows@.len() == n,
            forall|i: int|
                #![trigger rows@[i]]
                0 <= i < n ==> rows@[i].wf() && rows@[i].width() == width && rows@[i].text_seq()
                    == blanks(width as nat) && rows@[i].hl_seq() == zeros(width as nat),
        decreases height - n,
    {
        rows.push(Row::new(width as usize));
        n = n + 1;
    }
}

/// Blanks every row.
pub fn clear(rows: &mut Vec<Row>)
    ensures
        final(rows)@.len() == old(rows)@.len(),
        forall|i: int|
            #![trigger final(rows)@[i]]
            0 <= i < old(rows)@.len() ==> final(rows)@[i].wf() && final(rows)@[i].width()
                == old(rows)@[i].width() && final(rows)@[i].text_seq() == blanks(
                old(rows)@[i].width(),
            ) && final(rows)@[i].hl_seq() == zeros(old(rows)@[i].width()),
{
    let ghost old_rows = rows@;
    let mut i: usize = 0;
    while i < rows.len()
        invariant
            rows@.len() == old_rows.len(),
            0 <= i <= rows@.len(),
            forall|k: int|
                #![trigger rows@[k]]
                0 <= k < rows@.len() ==> if k < i {
                    rows@[k].wf() && rows@[k].width() == old_rows[k].width() && rows@[k].text_seq()
                        == blanks(old_rows[k].width()) && rows@[k].hl_seq() == zeros(
                        old_rows[k].width(),
                    )
                } else {
                    rows@[k] == old_rows[k]
                },
        decreases rows@.len() - i,
    {
        let mut row = rows[i].clone();
        row.clear();
        rows.set(i, row);
        i = i + 1;
    }
}

/// Whether the rows `lo..hi` exist, are well formed and at least `right`
/// wide.
fn rows_reach_exec(rows: &Vec<Row>, lo: usize, hi: usize, right: usize) -> (b: bool)
    ensures
        b == rows_reach(rows@, lo as int, hi as int, right as int),
{
    if hi <= lo {
        return true;
    }
    let mut i: usize = lo;
    while i < hi
        invariant
            lo <= i <= hi,
            rows_reach(rows@, lo as int, i as int, right as int),
        decreases hi - i,
    {
        if i >= rows.len() || !rows[i].is_wf() || right > rows[i].len {
            assert(!(i < rows@.len() && rows@[i as int].wf() && right <= rows@[i as int].width()));
            return false;
        }
        assert(rows_reach(rows@, lo as int, i + 1, right as int)) by {
            assert forall|k: int| lo <= k < i + 1 implies k < rows@.len() && (
            #[trigger] rows@[k]).wf() && right <= rows@[k].width() by {
                if k < i {
                    assert(rows_reach(rows@, lo as int, i as int, right as int));
                }
            }
        }
        i = i + 1;
    }
    true
}

/// Whether `scroll` can scroll `rows` by `count` in the region `reg`:
/// what it requires.
pub fn can_scroll(rows: &Vec<Row>, reg: [u64; 4], count: i64) -> (b: bool)
    ensures
        b == scroll_ok(rows@, reg, count),
{
    let t = to_i64(reg[0]) as i128;
    let b = to_i64(reg[1]) as i128;
    let top = reg[0] as i128;
    let bot = reg[1] as i128;
    let c = count as i128;
    let lo = i64::MIN as i128;
    let hi = i64::MAX as i128;
    let (m1, m2) = if count > 0 {
        (t + c, b - c)
    } else {
        (b + c, t - c)
    };
    if !(lo <= m1 && m1 <= hi && lo <= m2 && m2 <= hi) {
        return false;
    }
    let (st, sb, dt, db, ct, cb) = if count > 0 {
        (t + c, bot, top, b - c, b - c, bot)
    } else {
        (top, b + c, t - c, bot, top, t - c)
    };
    if !(reg[2] <= reg[3] && reg[3] <= usize::MAX as u64) {
        return false;
    }
    let right = reg[3] as usize;
    let (st, sb, dt, db, ct, cb) = (
        to_index(st),
        to_index(sb),
        to_index(dt),
        to_index(db),
        to_index(ct),
        to_index(cb),
    );
    let moved = if db > dt {
        db - dt
    } else {
        0
    };
    let source = if sb > st {
        sb - st
    } else {
        0
    };
    rows_reach_exec(rows, st, sb, right) && rows_reach_exec(rows, dt, db, right) && rows_reach_exec(
        rows,
        ct,
        cb,
        right,
    ) && moved <= source
}

} // verus!
