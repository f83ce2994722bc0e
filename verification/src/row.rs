//! A grid row, held as a rope of highlighted text runs.
//!
//! A rope is a binary tree whose leaves are runs of text with one highlight
//! id each. Its content is the sequence of characters of its leaves, read
//! from left to right, each character carrying the highlight id of its
//! leaf. A [`Row`] holds a rope whose length is the width of the row.

use vstd::prelude::*;
use vstd::string::*;

use crate::nvim_bridge::{Cell, GridLineSegment};
use crate::text::{blanks, char_count, repeat_seq, repeat_str, spaces, to_string};

verus! {

/// A part of a row that was touched by an update: the leaf that now covers
/// columns `start..start + len`.
pub struct Segment<'a> {
    pub leaf: &'a Leaf,
    pub start: usize,
    pub len: usize,
}

/// A run of text drawn with one highlight; `len` is its number of
/// characters.
pub struct Leaf {
    pub text: String,
    pub hl_id: u64,
    pub len: usize,
}

/// A rope: either a single run, or the concatenation of two ropes.
pub enum Rope {
    Leaf(Leaf),
    Node(Box<Rope>, Box<Rope>),
}

impl Clone for Leaf {
    fn clone(&self) -> (r: Leaf)
        ensures
            r == *self,
    {
        self.copy()
    }
}

impl Clone for Rope {
    fn clone(&self) -> (r: Rope)
        ensures
            r == *self,
    {
        self.deep_copy()
    }
}

/// `n` copies of the highlight id `id`.
pub open spec fn repeat_hl(id: u64, n: nat) -> Seq<u64> {
    Seq::new(n, |i: int| id)
}

/// The highlight id 0, `n` times: the highlights of a blank row.
pub open spec fn zeros(n: nat) -> Seq<u64> {
    repeat_hl(0, n)
}

impl Leaf {
    /// The `len` field counts the characters of `text`.
    pub open spec fn wf(&self) -> bool {
        self.len == self.text@.len()
    }

    /// The text and highlight of the leaf.
    pub open spec fn view_pair(&self) -> (Seq<char>, u64) {
        (self.text@, self.hl_id)
    }

    pub fn new(text: String, hl_id: u64) -> (l: Leaf)
        ensures
            l.wf(),
            l.text@ == text@,
            l.hl_id == hl_id,
    {
        let len = char_count(text.as_str());
        Leaf { text, hl_id, len }
    }

    /// Splits the leaf before its `at`-th character; both halves keep the
    /// highlight.
    pub fn split(self, at: usize) -> (res: (Rope, Rope))
        requires
            self.wf(),
            at <= self.len,
        ensures
            res.0 matches Rope::Leaf(l) && l.wf() && l.text@ == self.text@.take(at as int)
                && l.hl_id == self.hl_id,
            res.1 matches Rope::Leaf(r) && r.wf() && r.text@ == self.text@.skip(at as int)
                && r.hl_id == self.hl_id,
    {
        let left = to_string(self.text.as_str().substring_char(0, at));
        let right = to_string(self.text.as_str().substring_char(at, self.len));
        (Rope::Leaf(Leaf::new(left, self.hl_id)), Rope::Leaf(Leaf::new(right, self.hl_id)))
    }

    /// A copy of the leaf.
    pub fn copy(&self) -> (r: Leaf)
        ensures
            r == *self,
    {
        Leaf { text: self.text.clone(), hl_id: self.hl_id, len: self.len }
    }
}

/// Merges the run `y` into the end of the runs `ls`: trailing runs with the
/// highlight of `y` are joined with it into one run.
pub open spec fn merge_tail(ls: Seq<(Seq<char>, u64)>, y: (Seq<char>, u64)) -> Seq<
    (Seq<char>, u64),
>
    decreases ls.len(),
{
    if ls.len() > 0 && ls.last().1 == y.1 {
        merge_tail(ls.drop_last(), (ls.last().0 + y.0, y.1))
    } else {
        ls.push(y)
    }
}

/// The runs of `a.concat(other)` where `ls` are the runs of `a`: a single
/// leaf `other` is merged into the trailing runs of its highlight, the runs
/// of a node are appended as they are.
pub open spec fn concat_views(ls: Seq<(Seq<char>, u64)>, other: Rope) -> Seq<(Seq<char>, u64)> {
    match other {
        Rope::Leaf(y) => merge_tail(ls, y.view_pair()),
        Rope::Node(_, _) => ls + other.leaf_views(),
    }
}

/// Total number of characters of a sequence of leaves.
pub open spec fn leaves_len(ls: Seq<Leaf>) -> nat
    decreases ls.len(),
{
    if ls.len() == 0 {
        0
    } else {
        leaves_len(ls.drop_last()) + ls.last().len as nat
    }
}

/// The characters of a sequence of leaves, one after another.
pub open spec fn leaves_text(ls: Seq<Leaf>) -> Seq<char>
    decreases ls.len(),
{
    if ls.len() == 0 {
        Seq::empty()
    } else {
        leaves_text(ls.drop_last()) + ls.last().text@
    }
}

/// The highlight of each character of a sequence of leaves.
pub open spec fn leaves_hl(ls: Seq<Leaf>) -> Seq<u64>
    decreases ls.len(),
{
    if ls.len() == 0 {
        Seq::empty()
    } else {
        leaves_hl(ls.drop_last()) + repeat_hl(ls.last().hl_id, ls.last().len as nat)
    }
}

/// Runs in normal form: none is empty and no two neighbours share a
/// highlight.
pub open spec fn normal_views(ls: Seq<(Seq<char>, u64)>) -> bool {
    &&& forall|i: int| 0 <= i < ls.len() ==> #[trigger] ls[i].0.len() > 0
    &&& forall|i: int| 0 <= i < ls.len() - 1 ==> #[trigger] ls[i].1 != ls[i + 1].1
}

/// Index of the leaf that `leaf_at(at)` picks: the first leaf that ends at
/// or after character `at`, or the last leaf.
pub open spec fn leaf_index(ls: Seq<Leaf>, at: int) -> int
    decreases ls.len(),
{
    if ls.len() <= 1 {
        0
    } else if at <= ls[0].len {
        0
    } else {
        1 + leaf_index(ls.drop_first(), at - ls[0].len)
    }
}

impl Rope {
    /// The leaves, from left to right.
    pub open spec fn leaf_seq(self) -> Seq<Leaf>
        decreases self,
    {
        match self {
            Rope::Leaf(l) => seq![l],
            Rope::Node(a, b) => a.leaf_seq() + b.leaf_seq(),
        }
    }

    /// The text and highlight of each leaf, from left to right.
    pub open spec fn leaf_views(self) -> Seq<(Seq<char>, u64)>
        decreases self,
    {
        match self {
            Rope::Leaf(l) => seq![l.view_pair()],
            Rope::Node(a, b) => a.leaf_views() + b.leaf_views(),
        }
    }

    /// Sum of the `len` fields of the leaves.
    pub open spec fn spec_len(self) -> nat
        decreases self,
    {
        match self {
            Rope::Leaf(l) => l.len as nat,
            Rope::Node(a, b) => a.spec_len() + b.spec_len(),
        }
    }

    /// The characters of the rope.
    pub open spec fn text_seq(self) -> Seq<char>
        decreases self,
    {
        match self {
            Rope::Leaf(l) => l.text@,
            Rope::Node(a, b) => a.text_seq() + b.text_seq(),
        }
    }

    /// The highlight id of each character of the rope.
    pub open spec fn hl_seq(self) -> Seq<u64>
        decreases self,
    {
        match self {
            Rope::Leaf(l) => repeat_hl(l.hl_id, l.len as nat),
            Rope::Node(a, b) => a.hl_seq() + b.hl_seq(),
        }
    }

    /// Every leaf is well formed.
    pub open spec fn leaves_wf(self) -> bool
        decreases self,
    {
        match self {
            Rope::Leaf(l) => l.wf(),
            Rope::Node(a, b) => a.leaves_wf() && b.leaves_wf(),
        }
    }

    /// Every leaf is well formed and the length fits in a `usize`.
    pub open spec fn wf(self) -> bool {
        self.leaves_wf() && self.spec_len() <= usize::MAX
    }

    pub fn new(base: String, hl_id: u64) -> (r: Rope)
        ensures
            r.wf(),
            r.text_seq() == base@,
            r.hl_seq() == repeat_hl(hl_id, base@.len()),
            r.leaf_views() == seq![(base@, hl_id)],
            r.spec_len() == base@.len(),
            r.leaf_seq().len() == 1,
            r.leaf_seq()[0].text@ == base@,
            r.leaf_seq()[0].hl_id == hl_id,
            r.leaf_seq()[0].len == base@.len(),
    {
        Rope::Leaf(Leaf::new(base, hl_id))
    }

    /// Number of characters of the rope.
    pub fn len(&self) -> (n: usize)
        requires
            self.wf(),
        ensures
            n == self.spec_len(),
        decreases self,
    {
        match self {
            Rope::Leaf(leaf) => leaf.len,
            Rope::Node(left, right) => left.len() + right.len(),
        }
    }

    /// Number of characters of the rope.
    pub fn weight(&self) -> (n: usize)
        requires
            self.wf(),
        ensures
            n == self.spec_len(),
        decreases self,
    {
        match self {
            Rope::Leaf(leaf) => leaf.len,
            Rope::Node(left, right) => right.weight() + left.weight(),
        }
    }

    /// The text of the rope.
    pub fn text(&self) -> (s: String)
        ensures
            s@ == self.text_seq(),
        decreases self,
    {
        match self {
            Rope::Leaf(leaf) => leaf.text.clone(),
            Rope::Node(left, right) => {
                let mut s = left.text();
                let r = right.text();
                s.append(r.as_str());
                s
            },
        }
    }

    /// A copy of the rope.
    pub fn deep_copy(&self) -> (r: Rope)
        ensures
            r == *self,
        decreases self,
    {
        match self {
            Rope::Leaf(leaf) => Rope::Leaf(leaf.copy()),
            Rope::Node(left, right) => Rope::Node(
                Box::new(left.deep_copy()),
                Box::new(right.deep_copy()),
            ),
        }
    }

    /// Appends `other` to the rope. A leaf appended to a leaf of the same
    /// highlight is joined with it.
    pub fn concat(self, other: Rope) -> (r: Rope)
        requires
            self.wf(),
            other.wf(),
            self.spec_len() + other.spec_len() <= usize::MAX,
        ensures
            r.wf(),
            r.spec_len() == self.spec_len() + other.spec_len(),
            r.text_seq() == self.text_seq() + other.text_seq(),
            r.hl_seq() == self.hl_seq() + other.hl_seq(),
            r.leaf_views() == concat_views(self.leaf_views(), other),
            other is Node ==> r is Node,
        decreases self,
    {
        proof {
            lemma_views_len(self);
            lemma_views_len(other);
        }
        match self {
            Rope::Leaf(mut leaf) => {
                match other {
                    Rope::Leaf(other) => {
                        if other.hl_id == leaf.hl_id {
                            let ghost old_leaf = leaf;
                            leaf.text.append(other.text.as_str());
                            leaf.len = leaf.len + other.len;
                            assert(repeat_hl(leaf.hl_id, leaf.len as nat) =~= repeat_hl(
                                leaf.hl_id,
                                old_leaf.len as nat,
                            ) + repeat_hl(other.hl_id, other.len as nat));
                            assert(seq![old_leaf.view_pair()].drop_last() =~= Seq::empty());
                            assert(merge_tail(Seq::empty(), leaf.view_pair()) =~= seq![
                                leaf.view_pair(),
                            ]);
                            Rope::Leaf(leaf)
                        } else {
                            Rope::Node(Box::new(Rope::Leaf(leaf)), Box::new(Rope::Leaf(other)))
                        }
                    },
                    _ => { Rope::Node(Box::new(Rope::Leaf(leaf)), Box::new(other)) },
                }
            },
            Rope::Node(left, right) => {
                let ghost l = *left;
                let ghost rr = *right;
                let t = (*right).concat(other);
                let res = (*left).concat(t);
                proof {
                    lemma_views_len(t);
                    lemma_views_len(rr);
                    lemma_merge_tail_append(l.leaf_views(), rr.leaf_views(), other);
                    assert(self.text_seq() + other.text_seq() =~= l.text_seq() + (
                    rr.text_seq() + other.text_seq()));
                    assert(self.hl_seq() + other.hl_seq() =~= l.hl_seq() + (rr.hl_seq()
                        + other.hl_seq()));
                }
                res
            },
        }
    }
}

impl Rope {
    /// Splits the rope before its `at`-th character.
    pub fn split(self, at: usize) -> (res: (Rope, Rope))
        requires
            self.wf(),
            at <= self.spec_len(),
        ensures
            res.0.wf(),
            res.1.wf(),
            res.0.spec_len() == at,
            res.1.spec_len() == self.spec_len() - at,
            res.0.text_seq() == self.text_seq().take(at as int),
            res.1.text_seq() == self.text_seq().skip(at as int),
            res.0.hl_seq() == self.hl_seq().take(at as int),
            res.1.hl_seq() == self.hl_seq().skip(at as int),
        decreases self,
    {
        proof {
            lemma_seq_lens(self);
        }
        match self {
            Rope::Leaf(leaf) => {
                if at == leaf.len {
                    let hl_id = leaf.hl_id;
                    let ghost l = leaf;
                    let res = (Rope::Leaf(leaf), Rope::new(String::new(), hl_id));
                    assert(l.text@.take(at as int) =~= l.text@);
                    assert(l.text@.skip(at as int) =~= Seq::<char>::empty());
                    assert(repeat_hl(hl_id, l.len as nat).take(at as int) =~= repeat_hl(
                        hl_id,
                        l.len as nat,
                    ));
                    assert(repeat_hl(hl_id, l.len as nat).skip(at as int) =~= repeat_hl(
                        hl_id,
                        0,
                    ));
                    res
                } else {
                    let ghost l = leaf;
                    let res = leaf.split(at);
                    assert(repeat_hl(l.hl_id, l.len as nat).take(at as int) =~= repeat_hl(
                        l.hl_id,
                        at as nat,
                    ));
                    assert(repeat_hl(l.hl_id, l.len as nat).skip(at as int) =~= repeat_hl(
                        l.hl_id,
                        (l.len - at) as nat,
                    ));
                    res
                }
            },
            Rope::Node(left, right) => {
                let weight = left.weight();
                let ghost l = *left;
                let ghost r = *right;
                proof {
                    lemma_seq_lens(l);
                    lemma_seq_lens(r);
                }
                if at == weight {
                    assert(self.text_seq().take(at as int) =~= l.text_seq());
                    assert(self.text_seq().skip(at as int) =~= r.text_seq());
                    assert(self.hl_seq().take(at as int) =~= l.hl_seq());
                    assert(self.hl_seq().skip(at as int) =~= r.hl_seq());
                    (*left, *right)
                } else if at < weight {
                    let (a, b) = (*left).split(at);
                    let b2 = b.concat(*right);
                    assert(self.text_seq().take(at as int) =~= l.text_seq().take(at as int));
                    assert(self.text_seq().skip(at as int) =~= l.text_seq().skip(at as int)
                        + r.text_seq());
                    assert(self.hl_seq().take(at as int) =~= l.hl_seq().take(at as int));
                    assert(self.hl_seq().skip(at as int) =~= l.hl_seq().skip(at as int)
                        + r.hl_seq());
                    (a, b2)
                } else {
                    let (a, b) = (*right).split(at - weight);
                    let a2 = (*left).concat(a);
                    assert(self.text_seq().take(at as int) =~= l.text_seq() + r.text_seq().take(
                        (at - weight) as int,
                    ));
                    assert(self.text_seq().skip(at as int) =~= r.text_seq().skip(
                        (at - weight) as int,
                    ));
                    assert(self.hl_seq().take(at as int) =~= l.hl_seq() + r.hl_seq().take(
                        (at - weight) as int,
                    ));
                    assert(self.hl_seq().skip(at as int) =~= r.hl_seq().skip(
                        (at - weight) as int,
                    ));
                    (a2, b)
                }
            },
        }
    }

    /// The leaves of the rope, from left to right.
    pub fn leafs(&self) -> (v: Vec<&Leaf>)
        ensures
            v@.len() == self.leaf_seq().len(),
            forall|i: int| 0 <= i < v@.len() ==> *v@[i] == self.leaf_seq()[i],
        decreases self,
    {
        match self {
            Rope::Leaf(leaf) => {
                let v = vec![leaf];
                v
            },
            Rope::Node(left, right) => {
                let mut l = left.leafs();
                let mut r = right.leafs();
                l.append(&mut r);
                l
            },
        }
    }

    /// The leaf that holds character `at - 1`: the first leaf that ends at
    /// or after `at` (the first leaf for 0, the last one past the end).
    pub fn leaf_at(&self, at: usize) -> (l: &Leaf)
        requires
            self.wf(),
        ensures
            0 <= leaf_index(self.leaf_seq(), at as int) < self.leaf_seq().len(),
            *l == self.leaf_seq()[leaf_index(self.leaf_seq(), at as int)],
        decreases self,
    {
        proof {
            lemma_views_len(*self);
        }
        match self {
            Rope::Leaf(leaf) => leaf,
            Rope::Node(left, right) => {
                let weight = left.weight();
                proof {
                    lemma_views_len(**left);
                    lemma_views_len(**right);
                    lemma_leaves_len_rope(**left);
                    lemma_leaf_index_append(left.leaf_seq(), right.leaf_seq(), at as int);
                }
                if at <= weight {
                    left.leaf_at(at)
                } else {
                    let at = at - weight;
                    right.leaf_at(at)
                }
            },
        }
    }
}

impl Rope {
    /// Rebuilds the rope from its nonempty leaves, joining neighbouring runs
    /// of one highlight: the result holds the same content in normal form.
    pub fn optimize(&self) -> (r: Rope)
        requires
            self.wf(),
            self.spec_len() > 0,
        ensures
            r.wf(),
            r.spec_len() == self.spec_len(),
            r.text_seq() == self.text_seq(),
            r.hl_seq() == self.hl_seq(),
            normal_views(r.leaf_views()),
    {
        let leafs = self.leafs();
        let ghost ls = self.leaf_seq();
        proof {
            lemma_leaves_len_rope(*self);
            lemma_leaves_wf(*self);
        }
        let mut rope: Option<Rope> = None;
        let mut i: usize = 0;
        while i < leafs.len()
            invariant
                ls == self.leaf_seq(),
                leafs@.len() == ls.len(),
                forall|k: int| 0 <= k < leafs@.len() ==> *leafs@[k] == ls[k],
                forall|k: int| 0 <= k < ls.len() ==> (#[trigger] ls[k]).wf(),
                leaves_len(ls) == self.spec_len(),
                self.spec_len() <= usize::MAX,
                0 <= i <= ls.len(),
                rope is None ==> leaves_len(ls.take(i as int)) == 0 && leaves_text(
                    ls.take(i as int),
                ) == Seq::<char>::empty() && leaves_hl(ls.take(i as int)) == Seq::<u64>::empty(),
                rope matches Some(r) ==> r.wf() && r.spec_len() == leaves_len(ls.take(i as int))
                    && r.text_seq() == leaves_text(ls.take(i as int)) && r.hl_seq() == leaves_hl(
                    ls.take(i as int),
                ) && normal_views(r.leaf_views()),
            decreases ls.len() - i,
        {
            let leaf = leafs[i];
            proof {
                assert(ls.take(i + 1) =~= ls.take(i as int).push(ls[i as int]));
                assert(ls.take(i + 1).drop_last() =~= ls.take(i as int));
                assert(ls =~= ls.take(i + 1) + ls.skip(i + 1));
                lemma_leaves_len_append(ls.take(i + 1), ls.skip(i + 1));
                assert(ls[i as int].wf());
            }
            if leaf.len == 0 {
                assert(leaves_text(ls.take(i + 1)) =~= leaves_text(ls.take(i as int)));
                assert(leaves_hl(ls.take(i + 1)) =~= leaves_hl(ls.take(i as int)));
                i = i + 1;
                continue ;
            }
            let piece = Rope::Leaf(leaf.copy());
            if rope.is_none() {
                assert(leaves_text(ls.take(i + 1)) =~= leaf.text@);
                assert(leaves_hl(ls.take(i + 1)) =~= repeat_hl(leaf.hl_id, leaf.len as nat));
                rope = Some(piece);
            } else {
                let prev = rope.unwrap();
                proof {
                    lemma_normal_merge_tail(prev.leaf_views(), leaf.view_pair());
                }
                rope = Some(prev.concat(piece));
            }
            i = i + 1;
        }
        assert(ls.take(ls.len() as int) =~= ls);
        let r = rope.unwrap();
        r
    }
}

/// The characters a cell stands for: `repeat` copies of its text.
pub open spec fn cell_text(c: Cell) -> Seq<char> {
    repeat_seq(c.text@, c.repeat as nat)
}

/// The characters of a sequence of cells, one after another.
pub open spec fn cells_text(cs: Seq<Cell>) -> Seq<char>
    decreases cs.len(),
{
    if cs.len() == 0 {
        Seq::empty()
    } else {
        cells_text(cs.drop_last()) + cell_text(cs.last())
    }
}

/// The highlight of each character of a sequence of cells.
pub open spec fn cells_hl(cs: Seq<Cell>) -> Seq<u64>
    decreases cs.len(),
{
    if cs.len() == 0 {
        Seq::empty()
    } else {
        cells_hl(cs.drop_last()) + repeat_hl(cs.last().hl_id, cell_text(cs.last()).len())
    }
}

/// The runs of the rope built from cells: an empty run of highlight 0,
/// into which the run of each cell is merged in turn.
pub open spec fn cells_views(cs: Seq<Cell>) -> Seq<(Seq<char>, u64)>
    decreases cs.len(),
{
    if cs.len() == 0 {
        seq![(Seq::<char>::empty(), 0u64)]
    } else {
        merge_tail(cells_views(cs.drop_last()), (cell_text(cs.last()), cs.last().hl_id))
    }
}

/// Cells whose repeat counts fit in a `usize` and whose text fits in a row.
pub open spec fn cells_fit(cs: Seq<Cell>) -> bool {
    &&& forall|i: int| 0 <= i < cs.len() ==> #[trigger] cs[i].repeat <= usize::MAX
    &&& cells_text(cs).len() <= usize::MAX
}

/// The cells give one highlight per character.
pub proof fn lemma_cells_lens(cs: Seq<Cell>)
    ensures
        cells_hl(cs).len() == cells_text(cs).len(),
    decreases cs.len(),
{
    if cs.len() > 0 {
        lemma_cells_lens(cs.drop_last());
    }
}

proof fn lemma_cells_text_prefix(cs: Seq<Cell>, i: int)
    requires
        0 <= i <= cs.len(),
    ensures
        cells_text(cs.take(i)).len() <= cells_text(cs).len(),
    decreases cs.len(),
{
    if i < cs.len() {
        assert(cs.take(i) =~= cs.drop_last().take(i));
        lemma_cells_text_prefix(cs.drop_last(), i);
    } else {
        assert(cs.take(i) =~= cs);
    }
}

impl Rope {
    /// The rope of the cells of a `grid_line` event: each cell becomes a
    /// leaf of its repeated text, appended to an empty leaf of highlight 0.
    pub fn from_nvim_cells(cells: &Vec<Cell>) -> (r: Rope)
        requires
            cells_fit(cells@),
        ensures
            r.wf(),
            r.spec_len() == cells_text(cells@).len(),
            r.text_seq() == cells_text(cells@),
            r.hl_seq() == cells_hl(cells@),
            r.leaf_views() == cells_views(cells@),
    {
        let mut rope = Rope::new(String::new(), 0);
        let ghost cs = cells@;
        assert(cs.take(0) =~= Seq::<Cell>::empty());
        assert(repeat_hl(0, 0) =~= Seq::<u64>::empty());
        let mut i: usize = 0;
        while i < cells.len()
            invariant
                cs == cells@,
                cells_fit(cs),
                0 <= i <= cs.len(),
                rope.wf(),
                rope.spec_len() == cells_text(cs.take(i as int)).len(),
                rope.text_seq() == cells_text(cs.take(i as int)),
                rope.hl_seq() == cells_hl(cs.take(i as int)),
                rope.leaf_views() == cells_views(cs.take(i as int)),
            decreases cs.len() - i,
        {
            let cell = &cells[i];
            let text = repeat_str(cell.text.as_str(), cell.repeat as usize);
            let leaf = Leaf::new(text, cell.hl_id);
            proof {
                assert(cs.take(i + 1).drop_last() =~= cs.take(i as int));
                assert(cs.take(i + 1).last() == cs[i as int]);
                lemma_cells_text_prefix(cs, i + 1);
            }
            rope = rope.concat(Rope::Leaf(leaf));
            i = i + 1;
        }
        assert(cs.take(cs.len() as int) =~= cs);
        rope
    }
}

/// One row of a grid: its rope, and the number of columns `len`.
pub struct Row {
    pub rope: Option<Rope>,
    pub len: usize,
}

impl Clone for Row {
    fn clone(&self) -> (r: Row)
        ensures
            r == *self,
    {
        let rope = match &self.rope {
            Some(r) => Some(r.deep_copy()),
            None => None,
        };
        Row { rope, len: self.len }
    }
}

/// `b` is as wide as `a`, and well formed when `a` is: what every
/// operation that changes a row keeps.
pub open spec fn keeps_shape(a: Row, b: Row) -> bool {
    &&& b.width() == a.width()
    &&& a.wf() ==> b.wf()
}

impl Row {
    /// Number of columns of the row.
    pub open spec fn width(&self) -> nat {
        self.len as nat
    }

    /// The rope is present, well formed, and as long as the row is wide.
    pub open spec fn wf(&self) -> bool {
        &&& self.rope is Some
        &&& self.rope->0.wf()
        &&& self.rope->0.spec_len() == self.width()
    }

    /// The characters of the row.
    pub open spec fn text_seq(&self) -> Seq<char> {
        self.rope->0.text_seq()
    }

    /// The highlight of each column of the row.
    pub open spec fn hl_seq(&self) -> Seq<u64> {
        self.rope->0.hl_seq()
    }

    /// A blank row of `len` columns.
    pub fn new(len: usize) -> (r: Row)
        ensures
            r.wf(),
            r.width() == len,
            r.text_seq() == blanks(len as nat),
            r.hl_seq() == zeros(len as nat),
            r.rope->0.leaf_views() == seq![(blanks(len as nat), 0u64)],
            r.rope->0.leaf_seq().len() == 1,
            r.rope->0.leaf_seq()[0].text@ == blanks(len as nat),
            r.rope->0.leaf_seq()[0].hl_id == 0,
            r.rope->0.leaf_seq()[0].len == len,
    {
        Row { rope: Some(Rope::new(spaces(len), 0)), len: len }
    }

    /// The text of the row.
    pub fn text(&self) -> (s: String)
        requires
            self.rope is Some,
        ensures
            s@ == self.text_seq(),
    {
        self.rope.as_ref().unwrap().text()
    }

    /// The leaf that holds column `at - 1` (see [`Rope::leaf_at`]).
    pub fn leaf_at(&self, at: usize) -> (l: &Leaf)
        requires
            self.rope is Some,
            self.rope->0.wf(),
        ensures
            *l == self.rope->0.leaf_seq()[leaf_index(self.rope->0.leaf_seq(), at as int)],
    {
        self.rope.as_ref().unwrap().leaf_at(at)
    }

    pub fn len(&self) -> (n: usize)
        ensures
            n == self.width(),
    {
        self.len
    }

    /// Blanks the whole row.
    pub fn clear(&mut self)
        ensures
            final(self).wf(),
            final(self).width() == old(self).width(),
            final(self).text_seq() == blanks(old(self).width()),
            final(self).hl_seq() == zeros(old(self).width()),
            keeps_shape(*old(self), *final(self)),
    {
        self.rope = Some(Rope::new(spaces(self.len), 0));
    }

    /// Blanks the columns `from..to`.
    pub fn clear_range(&mut self, from: usize, to: usize)
        requires
            old(self).rope is Some,
            old(self).rope->0.wf(),
            from <= to <= old(self).rope->0.spec_len(),
        ensures
            final(self).rope is Some,
            final(self).rope->0.wf(),
            final(self).rope->0.spec_len() == old(self).rope->0.spec_len(),
            final(self).width() == old(self).width(),
            keeps_shape(*old(self), *final(self)),
            final(self).text_seq() == old(self).text_seq().take(from as int) + blanks(
                (to - from) as nat,
            ) + old(self).text_seq().skip(to as int),
            final(self).hl_seq() == old(self).hl_seq().take(from as int) + zeros(
                (to - from) as nat,
            ) + old(self).hl_seq().skip(to as int),
    {
        let ghost t = old(self).text_seq();
        let ghost h = old(self).hl_seq();
        proof {
            lemma_seq_lens(old(self).rope->0);
        }
        let middle_len = to - from;
        let (left, right) = self.rope.take().unwrap().split(from);
        let (_, right) = right.split(middle_len);
        let middle = Rope::new(spaces(middle_len), 0);
        let left = left.concat(middle);
        self.rope = Some(left.concat(right));
        assert(t.skip(from as int).skip(middle_len as int) =~= t.skip(to as int));
        assert(h.skip(from as int).skip(middle_len as int) =~= h.skip(to as int));
    }

    /// A copy of the columns `from..to`.
    pub fn copy_range(&self, from: usize, to: usize) -> (r: Rope)
        requires
            self.rope is Some,
            self.rope->0.wf(),
            from <= to <= self.rope->0.spec_len(),
        ensures
            r.wf(),
            r.spec_len() == to - from,
            r.text_seq() == self.text_seq().subrange(from as int, to as int),
            r.hl_seq() == self.hl_seq().subrange(from as int, to as int),
    {
        proof {
            lemma_seq_lens(self.rope->0);
        }
        let (_, rope) = self.rope.as_ref().unwrap().clone().split(from);
        let (rope, _) = rope.split(to - from);
        assert(self.text_seq().skip(from as int).take((to - from) as int) =~= self.text_seq().subrange(
            from as int,
            to as int,
        ));
        assert(self.hl_seq().skip(from as int).take((to - from) as int) =~= self.hl_seq().subrange(
            from as int,
            to as int,
        ));
        rope
    }

    /// Writes `rope` over the columns starting at `at`.
    pub fn insert_rope_at(&mut self, at: usize, rope: Rope)
        requires
            old(self).wf(),
            rope.wf(),
            at + rope.spec_len() <= old(self).width(),
        ensures
            final(self).wf(),
            final(self).width() == old(self).width(),
            final(self).text_seq() == old(self).text_seq().take(at as int) + rope.text_seq() + old(
                self,
            ).text_seq().skip(at + rope.spec_len()),
            final(self).hl_seq() == old(self).hl_seq().take(at as int) + rope.hl_seq() + old(
                self,
            ).hl_seq().skip(at + rope.spec_len()),
            keeps_shape(*old(self), *final(self)),
    {
        let ghost t = old(self).text_seq();
        let ghost h = old(self).hl_seq();
        proof {
            lemma_seq_lens(old(self).rope->0);
        }
        let n = rope.len();
        let (left, right) = self.rope.take().unwrap().split(at);
        let (_, right) = right.split(n);
        self.rope = Some(left.concat(rope).concat(right));
        assert(t.skip(at as int).skip(n as int) =~= t.skip(at + n));
        assert(h.skip(at as int).skip(n as int) =~= h.skip(at + n));
    }
}

/// The leaves of `ls` that reach into columns `lo..=hi`, each with the
/// column where it starts, `start` being the column of the first leaf of
/// `ls`. The scan ends at the first leaf that starts after `hi`.
pub open spec fn overlapping(ls: Seq<Leaf>, start: int, lo: int, hi: int) -> Seq<(int, Leaf)>
    decreases ls.len(),
{
    if ls.len() == 0 || start > hi {
        Seq::empty()
    } else {
        let end = start + ls[0].len;
        let rest = overlapping(ls.drop_first(), end, lo, hi);
        if end < lo {
            rest
        } else {
            seq![(start, ls[0])] + rest
        }
    }
}

impl Row {
    /// Applies a `grid_line` event to the row: the cells are written from
    /// column `col_start` on, the rope is put in normal form, and the
    /// leaves that reach into the written columns are returned with the
    /// column where each starts.
    pub fn update<'a>(&'a mut self, line: &GridLineSegment) -> (segs: Vec<Segment<'a>>)
        requires
            old(self).wf(),
            old(self).width() > 0,
            cells_fit(line.cells@),
            line.col_start + cells_text(line.cells@).len() <= old(self).width(),
        ensures
            final(self).wf(),
            final(self).width() == old(self).width(),
            keeps_shape(*old(self), *final(self)),
            final(self).text_seq() == old(self).text_seq().take(line.col_start as int) + cells_text(
                line.cells@,
            ) + old(self).text_seq().skip(line.col_start + cells_text(line.cells@).len()),
            final(self).hl_seq() == old(self).hl_seq().take(line.col_start as int) + cells_hl(
                line.cells@,
            ) + old(self).hl_seq().skip(line.col_start + cells_text(line.cells@).len()),
            normal_views(final(self).rope->0.leaf_views()),
            segs@.len() == overlapping(
                final(self).rope->0.leaf_seq(),
                0,
                line.col_start as int,
                line.col_start + cells_text(line.cells@).len(),
            ).len(),
            forall|i: int|
                #![trigger segs@[i]]
                0 <= i < segs@.len() ==> {
                    let s = overlapping(
                        final(self).rope->0.leaf_seq(),
                        0,
                        line.col_start as int,
                        line.col_start + cells_text(line.cells@).len(),
                    )[i];
                    &&& segs@[i].start == s.0
                    &&& segs@[i].len == s.1.len
                    &&& *segs@[i].leaf == s.1
                },
    {
        let other = Rope::from_nvim_cells(&line.cells);
        let other_len = other.len();
        let col_start = line.col_start as usize;
        let other_end = col_start + other_len;
        self.insert_rope_at(col_start, other);
        let optimized = self.rope.as_ref().unwrap().optimize();
        self.rope = Some(optimized);
        let this: &'a Row = &*self;
        let rope = this.rope.as_ref().unwrap();
        let leafs = rope.leafs();
        let ghost ls = rope.leaf_seq();
        let ghost lo = col_start as int;
        let ghost hi = other_end as int;
        let ghost full = overlapping(ls, 0, lo, hi);
        let ghost mut acc: Seq<(int, Leaf)> = Seq::empty();
        proof {
            lemma_leaves_len_rope(*rope);
            assert(ls.skip(0) =~= ls);
            assert(ls.take(0) =~= Seq::<Leaf>::empty());
        }
        let mut segs: Vec<Segment<'a>> = Vec::new();
        let mut start: usize = 0;
        let mut i: usize = 0;
        while i < leafs.len() && start <= other_end
            invariant
                leafs@.len() == ls.len(),
                forall|k: int| 0 <= k < leafs@.len() ==> *leafs@[k] == ls[k],
                leaves_len(ls) <= usize::MAX,
                lo == col_start,
                hi == other_end,
                0 <= i <= ls.len(),
                start == leaves_len(ls.take(i as int)),
                full == acc + overlapping(ls.skip(i as int), start as int, lo, hi),
                segs@.len() == acc.len(),
                forall|k: int|
                    #![trigger segs@[k]]
                    0 <= k < segs@.len() ==> segs@[k].start == acc[k].0 && segs@[k].len
                        == acc[k].1.len && *segs@[k].leaf == acc[k].1,
            decreases ls.len() - i,
        {
            let leaf = leafs[i];
            let len = leaf.len;
            proof {
                assert(ls.take(i + 1) =~= ls.take(i as int).push(ls[i as int]));
                assert(ls.take(i + 1).drop_last() =~= ls.take(i as int));
                assert(ls =~= ls.take(i + 1) + ls.skip(i + 1));
                lemma_leaves_len_append(ls.take(i + 1), ls.skip(i + 1));
                assert(ls.skip(i as int).drop_first() =~= ls.skip(i + 1));
                assert(ls.skip(i as int)[0] == ls[i as int]);
                let rest = overlapping(ls.skip(i + 1), start + len, lo, hi);
                assert(ls.skip(i as int).len() > 0);
                assert(start <= hi);
                assert(ls.skip(i as int)[0].len == len);
                assert(overlapping(ls.skip(i as int).drop_first(), start + len, lo, hi) == rest);
                assert(overlapping(ls.skip(i as int), start as int, lo, hi) == if start + len < lo {
                    rest
                } else {
                    seq![(start as int, ls[i as int])] + rest
                });
            }
            let end = start + len;
            if end < col_start {
                start = end;
                i = i + 1;
            } else {
                proof {
                    let ghost s = (start as int, ls[i as int]);
                    assert(acc.push(s) + overlapping(ls.skip(i + 1), end as int, lo, hi) =~= acc
                        + (seq![s] + overlapping(ls.skip(i + 1), end as int, lo, hi)));
                    acc = acc.push(s);
                }
                segs.push(Segment { leaf, start, len });
                start = end;
                i = i + 1;
            }
        }
        assert(overlapping(ls.skip(i as int), start as int, lo, hi) =~= Seq::empty());
        assert(acc =~= full);
        segs
    }
}

/// Joining a nonempty run into runs in normal form keeps them normal.
proof fn lemma_normal_merge_tail(v: Seq<(Seq<char>, u64)>, y: (Seq<char>, u64))
    requires
        normal_views(v),
        y.0.len() > 0,
    ensures
        normal_views(merge_tail(v, y)),
{
    if v.len() > 0 && v.last().1 == y.1 {
        let w = v.drop_last();
        let y2 = (v.last().0 + y.0, y.1);
        if w.len() > 0 {
            assert(w.last().1 == v[v.len() - 2].1);
            assert(merge_tail(w, y2) == w.push(y2));
        } else {
            assert(merge_tail(w, y2) == w.push(y2));
        }
        let m = w.push(y2);
        assert forall|i: int| 0 <= i < m.len() implies #[trigger] m[i].0.len() > 0 by {
            if i < w.len() {
                assert(m[i] == v[i]);
            }
        }
        assert forall|i: int| 0 <= i < m.len() - 1 implies #[trigger] m[i].1 != m[i + 1].1 by {
            assert(m[i] == v[i]);
            if i + 1 < w.len() {
                assert(m[i + 1] == v[i + 1]);
            } else {
                assert(v[i + 1] == v.last());
            }
        }
    } else {
        let m = v.push(y);
        assert forall|i: int| 0 <= i < m.len() implies #[trigger] m[i].0.len() > 0 by {
            if i < v.len() {
                assert(m[i] == v[i]);
            }
        }
        assert forall|i: int| 0 <= i < m.len() - 1 implies #[trigger] m[i].1 != m[i + 1].1 by {
            assert(m[i] == v[i]);
            if i + 1 < v.len() {
                assert(m[i + 1] == v[i + 1]);
            }
        }
    }
}

/// Every leaf of a rope whose leaves are well formed is well formed.
pub proof fn lemma_leaves_wf(r: Rope)
    requires
        r.leaves_wf(),
    ensures
        forall|k: int| 0 <= k < r.leaf_seq().len() ==> (#[trigger] r.leaf_seq()[k]).wf(),
    decreases r,
{
    if let Rope::Node(a, b) = r {
        lemma_leaves_wf(*a);
        lemma_leaves_wf(*b);
        assert forall|k: int| 0 <= k < r.leaf_seq().len() implies (
        #[trigger] r.leaf_seq()[k]).wf() by {
            if k < a.leaf_seq().len() {
                assert(r.leaf_seq()[k] == a.leaf_seq()[k]);
            } else {
                assert(r.leaf_seq()[k] == b.leaf_seq()[k - a.leaf_seq().len()]);
            }
        }
    }
}

/// Text and highlight lengths agree with the length of a well formed rope.
pub proof fn lemma_seq_lens(r: Rope)
    ensures
        r.hl_seq().len() == r.spec_len(),
        r.leaves_wf() ==> r.text_seq().len() == r.spec_len(),
    decreases r,
{
    if let Rope::Node(a, b) = r {
        lemma_seq_lens(*a);
        lemma_seq_lens(*b);
    }
}

pub proof fn lemma_leaves_len_append(a: Seq<Leaf>, b: Seq<Leaf>)
    ensures
        leaves_len(a + b) == leaves_len(a) + leaves_len(b),
        leaves_text(a + b) == leaves_text(a) + leaves_text(b),
        leaves_hl(a + b) == leaves_hl(a) + leaves_hl(b),
    decreases b.len(),
{
    if b.len() == 0 {
        assert(a + b =~= a);
        assert(leaves_text(a) + leaves_text(b) =~= leaves_text(a));
        assert(leaves_hl(a) + leaves_hl(b) =~= leaves_hl(a));
    } else {
        assert((a + b).drop_last() =~= a + b.drop_last());
        assert((a + b).last() == b.last());
        lemma_leaves_len_append(a, b.drop_last());
        assert(leaves_text(a + b) =~= leaves_text(a) + leaves_text(b));
        assert(leaves_hl(a + b) =~= leaves_hl(a) + leaves_hl(b));
    }
}

/// The length, text and highlights of a rope are those of its leaves.
pub proof fn lemma_leaves_len_rope(r: Rope)
    ensures
        leaves_len(r.leaf_seq()) == r.spec_len(),
        leaves_text(r.leaf_seq()) == r.text_seq(),
        leaves_hl(r.leaf_seq()) == r.hl_seq(),
    decreases r,
{
    match r {
        Rope::Leaf(l) => {
            lemma_leaves_single(l);
        },
        Rope::Node(a, b) => {
            lemma_leaves_len_rope(*a);
            lemma_leaves_len_rope(*b);
            lemma_leaves_len_append(a.leaf_seq(), b.leaf_seq());
        },
    }
}

proof fn lemma_leaves_len_first(a: Seq<Leaf>)
    requires
        a.len() >= 1,
    ensures
        leaves_len(a) == a[0].len + leaves_len(a.drop_first()),
{
    assert(a =~= seq![a[0]] + a.drop_first());
    lemma_leaves_len_append(seq![a[0]], a.drop_first());
    lemma_leaves_single(a[0]);
}

pub proof fn lemma_leaves_single(l: Leaf)
    ensures
        leaves_len(seq![l]) == l.len,
        leaves_text(seq![l]) == l.text@,
        leaves_hl(seq![l]) == repeat_hl(l.hl_id, l.len as nat),
{
    let e = Seq::<Leaf>::empty();
    assert(seq![l].drop_last() =~= e);
    assert(leaves_len(e) == 0);
    assert(leaves_text(e) == Seq::<char>::empty());
    assert(leaves_hl(e) == Seq::<u64>::empty());
    assert(leaves_text(seq![l]) =~= l.text@);
    assert(leaves_hl(seq![l]) =~= repeat_hl(l.hl_id, l.len as nat));
}

proof fn lemma_leaf_index_append(a: Seq<Leaf>, b: Seq<Leaf>, at: int)
    requires
        a.len() >= 1,
        b.len() >= 1,
    ensures
        leaf_index(a + b, at) == if at <= leaves_len(a) {
            leaf_index(a, at)
        } else {
            a.len() + leaf_index(b, at - leaves_len(a))
        },
        0 <= leaf_index(a, at) < a.len(),
    decreases a.len(),
{
    lemma_leaves_len_first(a);
    assert((a + b)[0] == a[0]);
    if a.len() == 1 {
        assert((a + b).drop_first() =~= b);
        assert(a.drop_first() =~= Seq::<Leaf>::empty());
    } else {
        assert((a + b).drop_first() =~= a.drop_first() + b);
        if at > a[0].len {
            lemma_leaf_index_append(a.drop_first(), b, at - a[0].len);
        }
    }
}

/// A rope has at least one leaf, a node at least two.
pub proof fn lemma_views_len(r: Rope)
    ensures
        r.leaf_views().len() >= 1,
        r is Node ==> r.leaf_views().len() >= 2,
        r.leaf_seq().len() == r.leaf_views().len(),
    decreases r,
{
    if let Rope::Node(a, b) = r {
        lemma_views_len(*a);
        lemma_views_len(*b);
    }
}

/// How the runs of `l.concat(r.concat(o))` relate to those of the ropes.
proof fn lemma_merge_tail_append(ls: Seq<(Seq<char>, u64)>, rs: Seq<(Seq<char>, u64)>, o: Rope)
    requires
        rs.len() >= 1,
    ensures
        o is Node ==> concat_views(ls + rs, o) == ls + concat_views(rs, o),
        o is Leaf ==> (if concat_views(rs, o).len() == 1 {
            concat_views(ls + rs, o) == merge_tail(ls, concat_views(rs, o)[0])
        } else {
            concat_views(ls + rs, o) == ls + concat_views(rs, o)
        }),
{
    match o {
        Rope::Leaf(y) => lemma_merge_tail_split(ls, rs, y.view_pair()),
        Rope::Node(_, _) => {
            assert(ls + rs + o.leaf_views() =~= ls + (rs + o.leaf_views()));
        },
    }
}

proof fn lemma_merge_tail_split(
    ls: Seq<(Seq<char>, u64)>,
    rs: Seq<(Seq<char>, u64)>,
    y: (Seq<char>, u64),
)
    ensures
        merge_tail(rs, y).len() >= 1,
        if merge_tail(rs, y).len() == 1 {
            merge_tail(ls + rs, y) == merge_tail(ls, merge_tail(rs, y)[0])
        } else {
            merge_tail(ls + rs, y) == ls + merge_tail(rs, y)
        },
    decreases rs.len(),
{
    if rs.len() == 0 {
        assert(ls + rs =~= ls);
        assert(merge_tail(rs, y) =~= seq![y]);
    } else if rs.last().1 == y.1 {
        let y2 = (rs.last().0 + y.0, y.1);
        assert((ls + rs).drop_last() =~= ls + rs.drop_last());
        assert((ls + rs).last() == rs.last());
        lemma_merge_tail_split(ls, rs.drop_last(), y2);
    } else {
        assert((ls + rs).last() == rs.last());
        assert((ls + rs).push(y) =~= ls + rs.push(y));
    }
}

proof fn lemma_repeat_len(s: Seq<char>, n: nat)
    ensures
        repeat_seq(s, n).len() == s.len() * n,
    decreases n,
{
    if n > 0 {
        let m = (n - 1) as nat;
        lemma_repeat_len(s, m);
        assert(repeat_seq(s, n) == repeat_seq(s, m) + s);
        assert(s.len() * m + s.len() == s.len() * n) by (nonlinear_arith)
            requires
                m + 1 == n,
        ;
    } else {
        assert(s.len() * n == 0) by (nonlinear_arith)
            requires
                n == 0,
        ;
    }
}

impl Rope {
    /// The length of the rope, when it is well formed.
    pub fn checked_len(&self) -> (r: Option<usize>)
        ensures
            r is Some <==> self.wf(),
            r matches Some(n) ==> n == self.spec_len(),
        decreases self,
    {
        match self {
            Rope::Leaf(leaf) => {
                if leaf.len == char_count(leaf.text.as_str()) {
                    Some(leaf.len)
                } else {
                    None
                }
            },
            Rope::Node(a, b) => match (a.checked_len(), b.checked_len()) {
                (Some(x), Some(y)) => x.checked_add(y),
                _ => None,
            },
        }
    }
}

/// The number of characters of the cells of a `grid_line` event, when
/// they fit in a row.
pub fn cells_width(cells: &Vec<Cell>) -> (r: Option<usize>)
    ensures
        r is Some <==> cells_fit(cells@),
        r matches Some(n) ==> n == cells_text(cells@).len(),
{
    let ghost cs = cells@;
    let mut total: usize = 0;
    let mut i: usize = 0;
    assert(cs.take(0) =~= Seq::<Cell>::empty());
    while i < cells.len()
        invariant
            cs == cells@,
            0 <= i <= cs.len(),
            forall|k: int| 0 <= k < i ==> #[trigger] cs[k].repeat <= usize::MAX,
            total == cells_text(cs.take(i as int)).len(),
        decreases cs.len() - i,
    {
        assert(cs.take(i + 1).drop_last() =~= cs.take(i as int));
        assert(cs.take(i + 1).last() == cs[i as int]);
        proof {
            lemma_repeat_len(cs[i as int].text@, cs[i as int].repeat as nat);
        }
        if cells[i].repeat > usize::MAX as u64 {
            return None;
        }
        let n = char_count(cells[i].text.as_str());
        let piece = match n.checked_mul(cells[i].repeat as usize) {
            Some(p) => p,
            None => {
                proof {
                    lemma_cells_text_prefix(cs, i + 1);
                }
                return None;
            },
        };
        total = match total.checked_add(piece) {
            Some(t) => t,
            None => {
                proof {
                    lemma_cells_text_prefix(cs, i + 1);
                }
                return None;
            },
        };
        i = i + 1;
    }
    assert(cs.take(cs.len() as int) =~= cs);
    Some(total)
}

impl Row {
    /// Whether the row is well formed.
    pub fn is_wf(&self) -> (b: bool)
        ensures
            b == self.wf(),
    {
        match &self.rope {
            Some(r) => match r.checked_len() {
                Some(n) => n == self.len,
                None => false,
            },
            None => false,
        }
    }

    /// Whether `update` can apply `line`: the row is well formed and
    /// not empty, and the cells fit in it from their first column.
    pub fn can_update(&self, line: &GridLineSegment) -> (b: bool)
        ensures
            b == (self.wf() && self.width() > 0 && cells_fit(line.cells@) && line.col_start
                + cells_text(line.cells@).len() <= self.width()),
    {
        if !(self.is_wf() && self.len > 0) {
            return false;
        }
        match cells_width(&line.cells) {
            Some(n) => line.col_start <= self.len as u64 && n as u64 <= self.len as u64 - line.col_start,
            None => false,
        }
    }
}

} // verus!
