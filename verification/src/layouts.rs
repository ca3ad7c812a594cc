//! Layout strategies: pure functions mapping children's size requests and
//! available space to each child's offset and allotted size.
//!
//! Every strategy implements the same two-operation contract: `request_size`
//! aggregates the children's requests bottom-up, and `build` distributes an
//! allotted size top-down into one [`Area`] per child.

use vstd::prelude::*;
use crate::layout::{Area, SizeRequest, MAX_DIM};

verus! {

/// The widest coordinate the layout arithmetic accepts; generous enough
/// for any accumulated offset, small enough that sums stay within `i64`.
pub const MAX_COORD: i64 = 0x1000_0000_0000_0000;

/// How a child is positioned along one axis inside the space left over
/// after its own size is taken out.
#[derive(Clone, Copy, Debug, PartialEq, Structural)]
pub enum Offset {
    Start,
    Center,
    End,
    Static(i64),
}

impl Default for Offset {
    fn default() -> (r: Self)
        ensures
            r == Offset::Start,
    {
        Offset::Start
    }
}

/// Division by two that rounds toward zero, so that centering a child
/// larger than its container mirrors centering a smaller one.
pub open spec fn spec_half(x: int) -> int {
    if x >= 0 {
        x / 2
    } else {
        -((-x) / 2)
    }
}

impl Offset {
    /// A policy whose fixed offset, if any, is a reasonable coordinate.
    pub open spec fn wf(self) -> bool {
        match self {
            Offset::Static(o) => -MAX_DIM * 16 <= o <= MAX_DIM * 16,
            _ => true,
        }
    }

    /// The offset of an item of `item_size` inside `max_size`.
    pub open spec fn spec_get(self, max_size: i64, item_size: i64) -> int {
        match self {
            Offset::Start => 0,
            Offset::Center => spec_half(max_size - item_size),
            Offset::End => max_size - item_size,
            Offset::Static(offset) => offset as int,
        }
    }

    /// Positions an item of `item_size` along one axis of `max_size`:
    /// at the start, centered in the leftover space, at the end, or at a
    /// fixed offset.
    pub fn get(&self, max_size: i64, item_size: i64) -> (r: i64)
        requires
            -MAX_COORD <= max_size <= MAX_COORD,
            -MAX_COORD <= item_size <= MAX_COORD,
        ensures
            r == self.spec_get(max_size, item_size),
    {
        match self {
            Offset::Start => 0,
            Offset::Center => {
                if max_size >= item_size {
                    (max_size - item_size) / 2
                } else {
                    -((item_size - max_size) / 2)
                }
            },
            Offset::End => max_size - item_size,
            Offset::Static(offset) => *offset,
        }
    }

    /// The fixed extent this offset policy reserves, when it reserves one:
    /// `Start` reserves nothing, a static offset reserves itself, and the
    /// centering and end policies depend on the final size, so reserve
    /// nothing knowable.
    pub fn size(&self) -> (r: Option<i64>)
        ensures
            r == match *self {
                Offset::Start => Some(0int as i64),
                Offset::Center => None::<i64>,
                Offset::End => None::<i64>,
                Offset::Static(offset) => Some(offset),
            },
    {
        match self {
            Offset::Start => Some(0),
            Offset::Center => None,
            Offset::End => None,
            Offset::Static(offset) => Some(*offset),
        }
    }
}

/// How a container turns its children's `(min, max)` pairs on one axis into
/// its own `(min, max)` on that axis.
///
/// There is no variant for an arbitrary user-supplied sizing function: a
/// stored closure cannot carry a verified contract. A caller with a custom
/// policy computes its bounds itself each frame and pins them with
/// `Static`, as the slider does for its track.
#[derive(Clone, Copy, Debug, PartialEq, Structural)]
pub enum Size {
    /// Fit the children: combine their bounds by the per-bound maximum.
    Fit,
    /// Expand to fill the available space: keep the largest child minimum,
    /// report an unbounded maximum.
    Fill,
    /// A fixed extent: both bounds pinned to the value.
    Static(i64),
}

impl Default for Size {
    fn default() -> (r: Self)
        ensures
            r == Size::Fit,
    {
        Size::Fit
    }
}

/// The per-component maximum of a list of `(min, max)` pairs; `(0, 0)` when
/// the list is empty.
pub open spec fn spec_fold_max(items: Seq<(i64, i64)>) -> (i64, i64)
    decreases items.len(),
{
    if items.len() == 0 {
        (0int as i64, 0int as i64)
    } else {
        let rest = spec_fold_max(items.drop_last());
        let last = items.last();
        (
            if rest.0 >= last.0 { rest.0 } else { last.0 },
            if rest.1 >= last.1 { rest.1 } else { last.1 },
        )
    }
}

/// The per-component sum of a list of `(min, max)` pairs; `(0, 0)` when the
/// list is empty. In spec form the sums are unbounded integers.
pub open spec fn spec_fold_add(items: Seq<(i64, i64)>) -> (int, int)
    decreases items.len(),
{
    if items.len() == 0 {
        (0int, 0int)
    } else {
        let rest = spec_fold_add(items.drop_last());
        let last = items.last();
        (rest.0 + last.0, rest.1 + last.1)
    }
}

/// A list of bounds pairs whose entries are all well formed: ordered and
/// within `[0, MAX_DIM]`.
pub open spec fn all_bounds_wf(items: Seq<(i64, i64)>) -> bool {
    forall|i: int| 0 <= i < items.len() ==> 0 <= #[trigger] items[i].0 <= items[i].1 <= MAX_DIM
}

impl Size {
    /// What this policy reports for one axis given the children's combined
    /// `(min, max)` pairs.
    pub open spec fn spec_get(self, items: Seq<(i64, i64)>) -> (i64, i64) {
        match self {
            Size::Fit => spec_fold_max(items),
            Size::Fill => (spec_fold_max(items).0, MAX_DIM),
            Size::Static(s) => (s, s),
        }
    }

    /// Applies this sizing policy to the children's `(min, max)` pairs on
    /// one axis.
    pub fn get(&self, items: &Vec<(i64, i64)>) -> (r: (i64, i64))
        ensures
            r == self.spec_get(items@),
    {
        match self {
            Size::Fit => Self::max(items),
            Size::Fill => (Self::max(items).0, MAX_DIM),
            Size::Static(s) => (*s, *s),
        }
    }

    /// The per-component maximum of the pairs; `(0, 0)` for no children.
    pub fn max(items: &Vec<(i64, i64)>) -> (r: (i64, i64))
        ensures
            r == spec_fold_max(items@),
    {
        let mut r: (i64, i64) = (0, 0);
        let mut i: usize = 0;
        while i < items.len()
            invariant
                0 <= i <= items.len(),
                r == spec_fold_max(items@.take(i as int)),
            decreases items.len() - i,
        {
            proof {
                assert(items@.take(i + 1 as int).drop_last() =~= items@.take(i as int));
            }
            let item = items[i];
            r = (
                if r.0 >= item.0 { r.0 } else { item.0 },
                if r.1 >= item.1 { r.1 } else { item.1 },
            );
            i = i + 1;
        }
        proof {
            assert(items@.take(items.len() as int) =~= items@);
        }
        r
    }

    /// The per-component sum of the pairs, each component saturated at
    /// `MAX_DIM`; `(0, 0)` for no children. Summing bounded extents is how a
    /// linear layout reports its main axis.
    pub fn add(items: &Vec<(i64, i64)>) -> (r: (i64, i64))
        requires
            all_bounds_wf(items@),
            items.len() <= 0x10000,
        ensures
            r.0 == if spec_fold_add(items@).0 > MAX_DIM { MAX_DIM as int } else { spec_fold_add(items@).0 },
            r.1 == if spec_fold_add(items@).1 > MAX_DIM { MAX_DIM as int } else { spec_fold_add(items@).1 },
    {
        let mut lo: i64 = 0;
        let mut hi: i64 = 0;
        let mut i: usize = 0;
        while i < items.len()
            invariant
                0 <= i <= items.len(),
                items.len() <= 0x10000,
                all_bounds_wf(items@),
                0 <= lo <= MAX_DIM,
                0 <= hi <= MAX_DIM,
                lo == if spec_fold_add(items@.take(i as int)).0 > MAX_DIM {
                    MAX_DIM as int
                } else {
                    spec_fold_add(items@.take(i as int)).0
                },
                hi == if spec_fold_add(items@.take(i as int)).1 > MAX_DIM {
                    MAX_DIM as int
                } else {
                    spec_fold_add(items@.take(i as int)).1
                },
            decreases items.len() - i,
        {
            proof {
                assert(items@.take(i + 1 as int).drop_last() =~= items@.take(i as int));
                assert(all_bounds_wf(items@) ==> 0 <= items@[i as int].0 <= items@[i as int].1 <= MAX_DIM);
            }
            let item = items[i];
            lo = if lo + item.0 > MAX_DIM { MAX_DIM } else { lo + item.0 };
            hi = if hi + item.1 > MAX_DIM { MAX_DIM } else { hi + item.1 };
            i = i + 1;
        }
        proof {
            assert(items@.take(items.len() as int) =~= items@);
        }
        (lo, hi)
    }
}

/// Left, top, right and bottom padding of a container, in logical pixels.
#[derive(Clone, Copy, Debug, PartialEq, Structural)]
pub struct Padding(pub i64, pub i64, pub i64, pub i64);

impl Default for Padding {
    fn default() -> (r: Self)
        ensures
            r == (Padding(0int as i64, 0int as i64, 0int as i64, 0int as i64)),
    {
        Padding(0, 0, 0, 0)
    }
}

impl Padding {
    /// Well-formed padding: every side in `[0, MAX_DIM]`.
    pub open spec fn wf(self) -> bool {
        &&& 0 <= self.0 <= MAX_DIM
        &&& 0 <= self.1 <= MAX_DIM
        &&& 0 <= self.2 <= MAX_DIM
        &&& 0 <= self.3 <= MAX_DIM
    }

    /// Uniform padding on all four sides.
    pub fn new(p: i64) -> (r: Self)
        requires
            0 <= p <= MAX_DIM,
        ensures
            r == (Padding(p, p, p, p)),
            r.wf(),
    {
        Padding(p, p, p, p)
    }

    /// The horizontal padding: left plus right.
    pub open spec fn spec_wpad(self) -> int {
        self.0 + self.2
    }

    /// The vertical padding: top plus bottom.
    pub open spec fn spec_hpad(self) -> int {
        self.1 + self.3
    }

    /// Shrinks an available size by the padding on each axis. The result may
    /// go negative when the padding exceeds the available space; layouts
    /// treat that as no room.
    pub fn adjust_size(&self, size: (i64, i64)) -> (r: (i64, i64))
        requires
            self.wf(),
            -MAX_COORD <= size.0 <= MAX_COORD,
            -MAX_COORD <= size.1 <= MAX_COORD,
        ensures
            r.0 == size.0 - self.spec_wpad(),
            r.1 == size.1 - self.spec_hpad(),
    {
        let wp = self.0 + self.2;
        let hp = self.1 + self.3;
        (size.0 - wp, size.1 - hp)
    }

    /// Shifts an offset into the padded interior: right by the left padding
    /// and down by the top padding.
    pub fn adjust_offset(&self, offset: (i64, i64)) -> (r: (i64, i64))
        requires
            self.wf(),
            -MAX_COORD <= offset.0 <= MAX_COORD,
            -MAX_COORD <= offset.1 <= MAX_COORD,
        ensures
            r.0 == offset.0 + self.0,
            r.1 == offset.1 + self.1,
    {
        (offset.0 + self.0, offset.1 + self.1)
    }

    /// Grows a request by the padding overhead on both axes, so a container
    /// reports room for its content plus its own border.
    pub fn adjust_request(&self, request: SizeRequest) -> (r: SizeRequest)
        requires
            self.wf(),
            request.wf(),
        ensures
            r.wf(),
            r.spec_min_width() == SizeRequest::spec_grow(request.spec_min_width(), (self.spec_wpad()) as i64),
            r.spec_max_width() == SizeRequest::spec_grow(request.spec_max_width(), (self.spec_wpad()) as i64),
            r.spec_min_height() == SizeRequest::spec_grow(request.spec_min_height(), (self.spec_hpad()) as i64),
            r.spec_max_height() == SizeRequest::spec_grow(request.spec_max_height(), (self.spec_hpad()) as i64),
    {
        let wp = self.0 + self.2;
        let hp = self.1 + self.3;
        request.add(wp, hp)
    }
}

/// The most children one layout call accepts; keeps all sums within `i64`.
pub const MAX_CHILDREN: usize = 0x10000;

/// The sum of a list of widths, as an unbounded integer.
pub open spec fn spec_sum(s: Seq<i64>) -> int
    decreases s.len(),
{
    if s.len() == 0 {
        0int
    } else {
        spec_sum(s.drop_last()) + s.last()
    }
}

/// How many entries can still grow: their allotted width is below their own
/// maximum.
pub open spec fn spec_growable(widths: Seq<i64>, sizes: Seq<(i64, i64)>) -> int
    decreases widths.len(),
{
    if widths.len() == 0 || widths.len() != sizes.len() {
        0int
    } else {
        spec_growable(widths.drop_last(), sizes.drop_last())
            + if widths.last() < sizes.last().1 { 1int } else { 0int }
    }
}

/// The free space a uniform expansion starts from: the available extent less
/// the children's minimums and the inter-item spacing, floored at zero.
pub open spec fn spec_avail(sizes: Seq<(i64, i64)>, max_size: i64, spacing: i64) -> int {
    let needed = spec_fold_add(sizes).0 + spacing * (sizes.len() - 1);
    if max_size - needed >= 0 {
        max_size - needed
    } else {
        0int
    }
}

/// An entry that can still expand: its current width is below its maximum.
pub open spec fn spec_exp(cur: Seq<(i64, i64)>, i: int) -> bool {
    cur[i].0 < cur[i].1
}

/// How many expandable entries currently sit at width `m`.
pub open spec fn spec_count_at(cur: Seq<(i64, i64)>, m: i64) -> int
    decreases cur.len(),
{
    if cur.len() == 0 {
        0int
    } else {
        spec_count_at(cur.drop_last(), m)
            + if cur.last().0 < cur.last().1 && cur.last().0 == m { 1int } else { 0int }
    }
}

/// How many entries of a width/maximum list can still expand.
pub open spec fn spec_count_exp(cur: Seq<(i64, i64)>) -> int
    decreases cur.len(),
{
    if cur.len() == 0 {
        0int
    } else {
        spec_count_exp(cur.drop_last()) + if cur.last().0 < cur.last().1 { 1int } else { 0int }
    }
}

/// The lowest current width among entries that can still expand, if any.
pub open spec fn spec_min_exp(cur: Seq<(i64, i64)>) -> Option<i64>
    decreases cur.len(),
{
    if cur.len() == 0 {
        None
    } else {
        let rest = spec_min_exp(cur.drop_last());
        let e = cur.last();
        if e.0 < e.1 {
            match rest {
                None => Some(e.0),
                Some(m) => if e.0 < m { Some(e.0) } else { Some(m) },
            }
        } else {
            rest
        }
    }
}

/// The largest uniform step the tier at `m` can take: seeded by the free
/// space, capped by each tier member's own maximum and by every other
/// expandable entry's distance above the tier.
pub open spec fn spec_gap(cur: Seq<(i64, i64)>, m: i64, free: int) -> int
    decreases cur.len(),
{
    if cur.len() == 0 {
        free
    } else {
        let rest = spec_gap(cur.drop_last(), m, free);
        let e = cur.last();
        if e.0 < e.1 {
            if e.0 == m {
                if e.1 - m < rest { e.1 - m } else { rest }
            } else {
                if e.0 - m < rest { e.0 - m } else { rest }
            }
        } else {
            rest
        }
    }
}

/// The entries after one uniform step: every expandable entry at tier `m`
/// raised by `step`, everything else unchanged.
pub open spec fn spec_step_tier(cur: Seq<(i64, i64)>, m: i64, step: int) -> Seq<(i64, i64)> {
    Seq::new(cur.len(), |i: int| if cur[i].0 < cur[i].1 && cur[i].0 == m {
        (((cur[i].0 + step) as i64, cur[i].1))
    } else {
        cur[i]
    })
}

/// A lowest expandable width is attained somewhere.
proof fn lemma_min_exp_witness(cur: Seq<(i64, i64)>)
    ensures
        spec_min_exp(cur) matches Some(m) ==> exists|j: int|
            0 <= j < cur.len() && (#[trigger] cur[j]).0 < cur[j].1 && cur[j].0 == m,
    decreases cur.len(),
{
    if cur.len() > 0 {
        lemma_min_exp_witness(cur.drop_last());
        let e = cur.last();
        match spec_min_exp(cur) {
            Some(m) => {
                if e.0 < e.1 && e.0 == m {
                    assert(cur[cur.len() - 1].0 < cur[cur.len() - 1].1
                        && cur[cur.len() - 1].0 == m);
                } else {
                    let j = choose|j: int| 0 <= j < cur.drop_last().len()
                        && (#[trigger] cur.drop_last()[j]).0 < cur.drop_last()[j].1
                        && cur.drop_last()[j].0 == m;
                    assert(cur[j].0 < cur[j].1 && cur[j].0 == m);
                }
            },
            None => {},
        }
    }
}

/// The whole lock-step distribution, one uniform step per unfolding: find
/// the lowest expandable tier, take the largest uniform step it admits
/// within the remaining free space, and repeat until the space is spent,
/// nothing can expand, or less than one pixel per tied entry remains.
pub open spec fn spec_expand_loop(cur: Seq<(i64, i64)>, free: int) -> Seq<(i64, i64)>
    decreases free,
    via spec_expand_loop_decreases
{
    if free <= 0 {
        cur
    } else {
        match spec_min_exp(cur) {
            None => cur,
            Some(m) => {
                let count = spec_count_at(cur, m);
                let gap = spec_gap(cur, m, free);
                let quota = free / count;
                let step = if gap < quota { gap } else { quota };
                if step <= 0 {
                    cur
                } else {
                    spec_expand_loop(spec_step_tier(cur, m, step), free - step * count)
                }
            },
        }
    }
}

#[via_fn]
proof fn spec_expand_loop_decreases(cur: Seq<(i64, i64)>, free: int) {
    if free > 0 {
        match spec_min_exp(cur) {
            None => {},
            Some(m) => {
                let count = spec_count_at(cur, m);
                let gap = spec_gap(cur, m, free);
                let quota = free / count;
                let step = if gap < quota { gap } else { quota };
                if step > 0 {
                    lemma_min_exp_witness(cur);
                    let j = choose|j: int| 0 <= j < cur.len()
                        && (#[trigger] cur[j]).0 < cur[j].1 && cur[j].0 == m;
                    lemma_count_at_pos(cur, m, j);
                    assert(count >= 1);
                    assert(step <= quota);
                    assert(1 <= step * count <= free) by (nonlinear_arith)
                        requires
                            1 <= count,
                            0 < free,
                            1 <= step,
                            step <= free / count;
                }
            },
        }
    }
}

/// What the distribution settles on for given extents: every entry starts
/// at its minimum and the lock-step loop spends the free space; with no
/// entries there is a single zero width.
pub open spec fn spec_expand(sizes: Seq<(i64, i64)>, max_size: i64, spacing: i64) -> Seq<i64> {
    if sizes.len() == 0 {
        seq![0int as i64]
    } else {
        let fin = spec_expand_loop(sizes, spec_avail(sizes, max_size, spacing));
        Seq::new(fin.len(), |i: int| fin[i].0)
    }
}

proof fn lemma_count_at_pos(cur: Seq<(i64, i64)>, m: i64, j: int)
    requires
        0 <= j < cur.len(),
        cur[j].0 < cur[j].1,
        cur[j].0 == m,
    ensures
        spec_count_at(cur, m) >= 1,
    decreases cur.len(),
{
    if j == cur.len() - 1 {
        assert(spec_count_at(cur.drop_last(), m) >= 0) by {
            lemma_count_at_nonneg(cur.drop_last(), m);
        }
    } else {
        lemma_count_at_pos(cur.drop_last(), m, j);
    }
}

proof fn lemma_count_at_nonneg(cur: Seq<(i64, i64)>, m: i64)
    ensures
        spec_count_at(cur, m) >= 0,
    decreases cur.len(),
{
    if cur.len() > 0 {
        lemma_count_at_nonneg(cur.drop_last(), m);
    }
}

proof fn lemma_count_at_le_exp(cur: Seq<(i64, i64)>, m: i64)
    ensures
        spec_count_at(cur, m) <= spec_count_exp(cur),
    decreases cur.len(),
{
    if cur.len() > 0 {
        lemma_count_at_le_exp(cur.drop_last(), m);
    }
}

proof fn lemma_count_exp_pos(cur: Seq<(i64, i64)>, j: int)
    requires
        0 <= j < cur.len(),
        cur[j].0 < cur[j].1,
    ensures
        spec_count_exp(cur) >= 1,
    decreases cur.len(),
{
    if j == cur.len() - 1 {
        assert(spec_count_exp(cur.drop_last()) >= 0) by {
            lemma_count_exp_nonneg(cur.drop_last());
        }
    } else {
        lemma_count_exp_pos(cur.drop_last(), j);
    }
}

proof fn lemma_count_exp_nonneg(cur: Seq<(i64, i64)>)
    ensures
        spec_count_exp(cur) >= 0,
    decreases cur.len(),
{
    if cur.len() > 0 {
        lemma_count_exp_nonneg(cur.drop_last());
    }
}

/// Applying one uniform step to every expandable entry at tier `m` raises
/// the width sum by the step times the number of such entries.
proof fn lemma_step_sum(prev: Seq<(i64, i64)>, next: Seq<(i64, i64)>, m: i64, step: i64)
    requires
        next.len() == prev.len(),
        forall|i: int| 0 <= i < prev.len() ==> #[trigger] next[i].1 == prev[i].1,
        forall|i: int| 0 <= i < prev.len() ==> #[trigger] next[i].0 == (
            if prev[i].0 < prev[i].1 && prev[i].0 == m { prev[i].0 + step } else { prev[i].0 as int }
        ),
    ensures
        spec_fold_add(next).0 == spec_fold_add(prev).0 + step * spec_count_at(prev, m),
    decreases prev.len(),
{
    if prev.len() > 0 {
        assert(forall|i: int| 0 <= i < prev.drop_last().len() ==>
            #[trigger] next.drop_last()[i].1 == prev.drop_last()[i].1);
        assert(forall|i: int| 0 <= i < prev.drop_last().len() ==>
            #[trigger] next.drop_last()[i].0 == (
                if prev.drop_last()[i].0 < prev.drop_last()[i].1 && prev.drop_last()[i].0 == m {
                    prev.drop_last()[i].0 + step
                } else {
                    prev.drop_last()[i].0 as int
                }
            ));
        lemma_step_sum(prev.drop_last(), next.drop_last(), m, step);
        let c = spec_count_at(prev.drop_last(), m);
        if prev.last().0 < prev.last().1 && prev.last().0 == m {
            assert(step * (c + 1) == step * c + step) by (nonlinear_arith);
        }
    }
}

/// A width list that copies the current widths has the same sum.
proof fn lemma_sum_of_firsts(widths: Seq<i64>, cur: Seq<(i64, i64)>)
    requires
        widths.len() == cur.len(),
        forall|i: int| 0 <= i < cur.len() ==> #[trigger] widths[i] == cur[i].0,
    ensures
        spec_sum(widths) == spec_fold_add(cur).0,
    decreases cur.len(),
{
    if cur.len() > 0 {
        assert(forall|i: int| 0 <= i < cur.drop_last().len() ==>
            #[trigger] widths.drop_last()[i] == cur.drop_last()[i].0);
        lemma_sum_of_firsts(widths.drop_last(), cur.drop_last());
    }
}

/// A width list that copies the current widths can grow exactly where the
/// current entries can.
proof fn lemma_growable_of_firsts(widths: Seq<i64>, cur: Seq<(i64, i64)>, sizes: Seq<(i64, i64)>)
    requires
        widths.len() == cur.len(),
        sizes.len() == cur.len(),
        forall|i: int| 0 <= i < cur.len() ==> #[trigger] widths[i] == cur[i].0,
        forall|i: int| 0 <= i < cur.len() ==> #[trigger] cur[i].1 == sizes[i].1,
    ensures
        spec_growable(widths, sizes) == spec_count_exp(cur),
    decreases cur.len(),
{
    if cur.len() > 0 {
        assert(forall|i: int| 0 <= i < cur.drop_last().len() ==>
            #[trigger] widths.drop_last()[i] == cur.drop_last()[i].0);
        assert(forall|i: int| 0 <= i < cur.drop_last().len() ==>
            #[trigger] cur.drop_last()[i].1 == sizes.drop_last()[i].1);
        lemma_growable_of_firsts(widths.drop_last(), cur.drop_last(), sizes.drop_last());
    }
}

/// The lock-step distributor of surplus main-axis space.
pub struct UniformExpand;

impl UniformExpand {
    /// Finds the lowest width among entries that can still expand, together
    /// with how many entries sit at that tier and the largest uniform step
    /// those entries can take: capped by each tier member's own maximum, by
    /// the next distinct tier above, and by `free`.
    fn scan(cur: &Vec<(i64, i64)>, free: i64) -> (r: Option<(i64, usize, i64)>)
        requires
            all_bounds_wf(cur@),
            1 <= free,
        ensures
            match r {
                None => spec_min_exp(cur@) is None
                    && (forall|i: int| 0 <= i < cur@.len() ==> !spec_exp(cur@, i)),
                Some((m, count, gap)) => {
                    &&& spec_min_exp(cur@) == Some(m)
                    &&& gap == spec_gap(cur@, m, free as int)
                    &&& exists|i: int| 0 <= i < cur@.len() && spec_exp(cur@, i) && cur@[i].0 == m
                    &&& forall|i: int| 0 <= i < cur@.len() && spec_exp(cur@, i) ==> #[trigger] cur@[i].0 >= m
                    &&& count == spec_count_at(cur@, m)
                    &&& 1 <= count <= cur@.len()
                    &&& 1 <= gap <= free
                    &&& forall|i: int| 0 <= i < cur@.len() && spec_exp(cur@, i) && #[trigger] cur@[i].0 == m
                        ==> m + gap <= cur@[i].1
                    &&& forall|i: int| 0 <= i < cur@.len() && spec_exp(cur@, i) && #[trigger] cur@[i].0 > m
                        ==> m + gap <= cur@[i].0
                },
            },
    {
        let n = cur.len();
        let mut m_opt: Option<i64> = None;
        let mut k: usize = 0;
        while k < n
            invariant
                0 <= k <= n,
                n == cur@.len(),
                all_bounds_wf(cur@),
                m_opt == spec_min_exp(cur@.take(k as int)),
                match m_opt {
                    None => forall|j: int| 0 <= j < k ==> !spec_exp(cur@, j),
                    Some(m) => {
                        &&& exists|j: int| 0 <= j < k && spec_exp(cur@, j) && cur@[j].0 == m
                        &&& forall|j: int| 0 <= j < k && spec_exp(cur@, j) ==> #[trigger] cur@[j].0 >= m
                    },
                },
            decreases n - k,
        {
            proof {
                assert(cur@.take(k + 1 as int).drop_last() =~= cur@.take(k as int));
                assert(cur@.take(k + 1 as int).last() == cur@[k as int]);
            }
            let item = cur[k];
            if item.0 < item.1 {
                proof {
                    assert(spec_exp(cur@, k as int));
                }
                m_opt = match m_opt {
                    None => Some(item.0),
                    Some(m) => if item.0 < m { Some(item.0) } else { Some(m) },
                };
            } else {
                proof {
                    assert(!spec_exp(cur@, k as int));
                }
            }
            k = k + 1;
        }
        proof {
            assert(cur@.take(n as int) =~= cur@);
        }
        let m = match m_opt {
            None => { return None; },
            Some(m) => m,
        };
        proof {
            let j = choose|j: int| 0 <= j < cur@.len() && spec_exp(cur@, j) && cur@[j].0 == m;
            assert(0 <= cur@[j].0 <= cur@[j].1 <= MAX_DIM);
        }
        let mut count: usize = 0;
        let mut gap: i64 = free;
        let mut k: usize = 0;
        while k < n
            invariant
                0 <= k <= n,
                n == cur@.len() <= usize::MAX,
                0 <= m <= MAX_DIM,
                all_bounds_wf(cur@),
                forall|j: int| 0 <= j < cur@.len() && spec_exp(cur@, j) ==> #[trigger] cur@[j].0 >= m,
                count == spec_count_at(cur@.take(k as int), m),
                count <= k,
                gap == spec_gap(cur@.take(k as int), m, free as int),
                1 <= gap <= free,
                forall|j: int| 0 <= j < k && spec_exp(cur@, j) && #[trigger] cur@[j].0 == m
                    ==> m + gap <= cur@[j].1,
                forall|j: int| 0 <= j < k && spec_exp(cur@, j) && #[trigger] cur@[j].0 > m
                    ==> m + gap <= cur@[j].0,
            decreases n - k,
        {
            proof {
                assert(cur@.take(k + 1 as int).drop_last() =~= cur@.take(k as int));
            }
            let item = cur[k];
            if item.0 < item.1 {
                if item.0 == m {
                    count = count + 1;
                    if item.1 - m < gap {
                        gap = item.1 - m;
                    }
                } else {
                    if item.0 - m < gap {
                        gap = item.0 - m;
                    }
                }
            }
            k = k + 1;
        }
        proof {
            assert(cur@.take(n as int) =~= cur@);
            let j = choose|j: int| 0 <= j < cur@.len() && spec_exp(cur@, j) && cur@[j].0 == m;
            lemma_count_at_pos(cur@, m, j);
        }
        Some((m, count, gap))
    }

    /// Raises every expandable entry at tier `m` by `step`, leaving all
    /// other entries unchanged.
    fn step_tier(cur: &Vec<(i64, i64)>, m: i64, step: i64) -> (r: Vec<(i64, i64)>)
        requires
            all_bounds_wf(cur@),
            1 <= step,
            forall|i: int| 0 <= i < cur@.len() && spec_exp(cur@, i) && #[trigger] cur@[i].0 == m
                ==> m + step <= cur@[i].1,
        ensures
            r@.len() == cur@.len(),
            all_bounds_wf(r@),
            forall|i: int| 0 <= i < cur@.len() ==> #[trigger] r@[i].1 == cur@[i].1,
            forall|i: int| 0 <= i < cur@.len() ==> #[trigger] r@[i].0 == (
                if cur@[i].0 < cur@[i].1 && cur@[i].0 == m { cur@[i].0 + step } else { cur@[i].0 as int }
            ),
            spec_fold_add(r@).0 == spec_fold_add(cur@).0 + step * spec_count_at(cur@, m),
            r@ == spec_step_tier(cur@, m, step as int),
    {
        let mut r: Vec<(i64, i64)> = Vec::new();
        let mut k: usize = 0;
        while k < cur.len()
            invariant
                0 <= k <= cur@.len(),
                all_bounds_wf(cur@),
                1 <= step,
                forall|i: int| 0 <= i < cur@.len() && spec_exp(cur@, i) && #[trigger] cur@[i].0 == m
                    ==> m + step <= cur@[i].1,
                r@.len() == k,
                forall|i: int| 0 <= i < k ==> #[trigger] r@[i].1 == cur@[i].1,
                forall|i: int| 0 <= i < k ==> #[trigger] r@[i].0 == (
                    if cur@[i].0 < cur@[i].1 && cur@[i].0 == m { cur@[i].0 + step } else { cur@[i].0 as int }
                ),
            decreases cur@.len() - k,
        {
            let item = cur[k];
            if item.0 < item.1 && item.0 == m {
                r.push((item.0 + step, item.1));
            } else {
                r.push(item);
            }
            k = k + 1;
        }
        proof {
            lemma_step_sum(cur@, r@, m, step);
            assert forall|i: int| 0 <= i < r@.len() implies
                r@[i] == spec_step_tier(cur@, m, step as int)[i] by {
                assert(r@[i].0 as int == (
                    if cur@[i].0 < cur@[i].1 && cur@[i].0 == m {
                        cur@[i].0 + step
                    } else {
                        cur@[i].0 as int
                    }
                ));
            }
            assert(r@ =~= spec_step_tier(cur@, m, step as int));
        }
        r
    }

    /// Distributes surplus main-axis space over a list of `(min, max)`
    /// extents in lock-step increments.
    ///
    /// Starting from every entry at its minimum, the algorithm repeatedly
    /// finds the lowest width among entries that can still expand and raises
    /// all entries tied at that width by the largest uniform step that
    /// neither passes the next distinct width tier, nor any tier member's
    /// own maximum, nor the remaining surplus. It stops when the surplus is
    /// exhausted, no entry can expand further, or the surplus is smaller
    /// than the tier (less than one pixel per tied entry would remain).
    ///
    /// The contract pins the outcome down: every width stays within its own
    /// bounds; entries with equal `(min, max)` pairs end at equal widths
    /// whatever the surplus; the distributed total never exceeds the
    /// available space; and whenever any entry could still grow, the
    /// undistributed remainder is smaller than the number of entries that
    /// could grow, so in particular a single expandable entry absorbs the
    /// surplus exactly.
    pub fn get(sizes: &Vec<(i64, i64)>, max_size: i64, spacing: i64) -> (r: Vec<i64>)
        requires
            all_bounds_wf(sizes@),
            sizes.len() <= MAX_CHILDREN,
            0 <= spacing <= MAX_DIM,
            -MAX_DIM * 32 <= max_size <= MAX_DIM * 32,
        ensures
            r@ == spec_expand(sizes@, max_size, spacing),
            sizes@.len() == 0 ==> r@ =~= seq![0int as i64],
            sizes@.len() > 0 ==> {
                &&& r@.len() == sizes@.len()
                &&& forall|i: int| 0 <= i < sizes@.len()
                    ==> sizes@[i].0 <= #[trigger] r@[i] <= sizes@[i].1
                &&& forall|i: int, j: int| 0 <= i < sizes@.len() && 0 <= j < sizes@.len()
                    && sizes@[i] == sizes@[j] ==> r@[i] == r@[j]
                &&& spec_sum(r@) <= spec_fold_add(sizes@).0 + spec_avail(sizes@, max_size, spacing)
                &&& (exists|i: int| 0 <= i < sizes@.len() && r@[i] < sizes@[i].1)
                    ==> spec_sum(r@) + spec_growable(r@, sizes@)
                        > spec_fold_add(sizes@).0 + spec_avail(sizes@, max_size, spacing)
            },
    {
        let n = sizes.len();
        if n == 0 {
            let mut r: Vec<i64> = Vec::new();
            r.push(0);
            return r;
        }

        // The minimum extent the children need, spacing included.
        let mut min_total: i64 = 0;
        let mut k: usize = 0;
        while k < n
            invariant
                0 <= k <= n,
                n == sizes@.len() <= MAX_CHILDREN,
                all_bounds_wf(sizes@),
                min_total == spec_fold_add(sizes@.take(k as int)).0,
                0 <= min_total <= (k as int) * (MAX_DIM as int),
            decreases n - k,
        {
            proof {
                assert(sizes@.take(k + 1 as int).drop_last() =~= sizes@.take(k as int));
                assert((k + 1 as int) * (MAX_DIM as int) == (k as int) * (MAX_DIM as int) + MAX_DIM)
                    by (nonlinear_arith);
            }
            min_total = min_total + sizes[k].0;
            k = k + 1;
        }
        proof {
            assert(sizes@.take(n as int) =~= sizes@);
            assert((n as int) * (MAX_DIM as int) <= 0x10000int * (MAX_DIM as int)) by (nonlinear_arith)
                requires n as int <= 0x10000;
        }
        proof {
            assert(0 <= spacing * ((n - 1) as int) <= 0x10000int * (MAX_DIM as int)) by (nonlinear_arith)
                requires 0 <= spacing <= MAX_DIM, 0 <= (n - 1) as int <= 0x10000;
        }
        let spacing_total: i64 = spacing * ((n - 1) as i64);

        let mut free: i64 = if max_size - (min_total + spacing_total) >= 0 {
            max_size - (min_total + spacing_total)
        } else {
            0
        };
        let ghost avail = spec_avail(sizes@, max_size, spacing);
        assert(free == avail);

        let mut cur: Vec<(i64, i64)> = Vec::new();
        let mut k: usize = 0;
        while k < n
            invariant
                0 <= k <= n,
                n == sizes@.len(),
                all_bounds_wf(sizes@),
                cur@.len() == k,
                forall|i: int| 0 <= i < k ==> #[trigger] cur@[i] == sizes@[i],
            decreases n - k,
        {
            cur.push(sizes[k]);
            k = k + 1;
        }
        assert(cur@ =~= sizes@);

        let ghost total0 = spec_fold_add(sizes@).0;
        let mut ended_early: bool = false;
        while free > 0 && !ended_early
            invariant
                n == sizes@.len(),
                n <= MAX_CHILDREN,
                all_bounds_wf(sizes@),
                cur@.len() == n,
                all_bounds_wf(cur@),
                forall|i: int| 0 <= i < n ==> #[trigger] cur@[i].1 == sizes@[i].1,
                forall|i: int| 0 <= i < n ==> sizes@[i].0 <= #[trigger] cur@[i].0,
                forall|i: int, j: int| 0 <= i < n && 0 <= j < n && sizes@[i] == sizes@[j]
                    ==> cur@[i].0 == cur@[j].0,
                0 <= free <= avail,
                spec_fold_add(cur@).0 + free == total0 + avail,
                spec_expand_loop(cur@, free as int) == spec_expand_loop(sizes@, avail),
                ended_early ==> spec_expand_loop(cur@, free as int) == cur@,
                ended_early ==> (
                    (forall|i: int| 0 <= i < n ==> !spec_exp(cur@, i))
                    || free < spec_count_exp(cur@)
                ),
            decreases free + (if ended_early { 0int } else { 1int }),
        {
            let ghost cur_before = cur@;
            let ghost free_before = free as int;
            match Self::scan(&cur, free) {
                None => {
                    proof {
                        assert(spec_expand_loop(cur_before, free_before) == cur_before);
                    }
                    ended_early = true;
                },
                Some((m, count, gap)) => {
                    proof {
                        assert(1 <= count as int <= 0x10000);
                    }
                    let count_w: i64 = count as i64;
                    let quota: i64 = free / count_w;
                    proof {
                        assert(quota == free as int / count_w as int);
                        assert(0 <= quota <= free) by (nonlinear_arith)
                            requires 1 <= count_w, 1 <= free, quota == free as int / count_w as int;
                    }
                    let step: i64 = if gap < quota { gap } else { quota };
                    if step == 0 {
                        proof {
                            // A zero step means the surplus is smaller than
                            // the tier: less than one pixel per tied entry.
                            assert(free < count_w) by (nonlinear_arith)
                                requires
                                    free >= 1,
                                    count_w >= 1,
                                    free as int / (count_w as int) == 0;
                            lemma_count_at_le_exp(cur@, m);
                            assert(spec_expand_loop(cur_before, free_before) == cur_before);
                        }
                        ended_early = true;
                    } else {
                        proof {
                            assert(step * (count_w as int) <= free) by (nonlinear_arith)
                                requires
                                    1 <= count_w,
                                    0 <= free,
                                    step <= free as int / (count_w as int),
                                    1 <= step;
                            assert(1 <= step * (count_w as int)) by (nonlinear_arith)
                                requires 1 <= step, 1 <= count_w;
                        }
                        let spent: i64 = step * count_w;
                        cur = Self::step_tier(&cur, m, step);
                        free = free - spent;
                        proof {
                            assert(spec_expand_loop(cur_before, free_before)
                                == spec_expand_loop(cur@, free as int));
                        }
                    }
                },
            }
        }

        // Hand back the widths alone.
        let mut r: Vec<i64> = Vec::new();
        let mut k: usize = 0;
        while k < n
            invariant
                0 <= k <= n,
                n == cur@.len(),
                r@.len() == k,
                forall|i: int| 0 <= i < k ==> #[trigger] r@[i] == cur@[i].0,
            decreases n - k,
        {
            r.push(cur[k].0);
            k = k + 1;
        }
        proof {
            if !ended_early {
                assert(free == 0);
                assert(spec_expand_loop(cur@, free as int) == cur@);
            }
            assert(cur@ == spec_expand_loop(sizes@, avail));
            assert(r@ =~= spec_expand(sizes@, max_size, spacing));
            lemma_sum_of_firsts(r@, cur@);
            lemma_growable_of_firsts(r@, cur@, sizes@);
            if exists|i: int| 0 <= i < sizes@.len() && r@[i] < sizes@[i].1 {
                let i = choose|i: int| 0 <= i < sizes@.len() && r@[i] < sizes@[i].1;
                assert(spec_exp(cur@, i));
                lemma_count_exp_pos(cur@, i);
                if ended_early {
                    assert(free < spec_count_exp(cur@));
                } else {
                    assert(free == 0);
                    assert(spec_count_exp(cur@) >= 1);
                }
            }
        }
        r
    }
}

/// The width bounds of each child: `(min_width, max_width)`.
pub open spec fn spec_width_bounds(children: Seq<SizeRequest>) -> Seq<(i64, i64)> {
    children.map_values(|c: SizeRequest| (c.min_width, c.max_width))
}

/// The height bounds of each child: `(min_height, max_height)`.
pub open spec fn spec_height_bounds(children: Seq<SizeRequest>) -> Seq<(i64, i64)> {
    children.map_values(|c: SizeRequest| (c.min_height, c.max_height))
}

/// All requests in a list are well formed.
pub open spec fn all_requests_wf(children: Seq<SizeRequest>) -> bool {
    forall|i: int| 0 <= i < children.len() ==> #[trigger] children[i].wf()
}

proof fn lemma_fold_max_wf(items: Seq<(i64, i64)>)
    requires
        all_bounds_wf(items),
    ensures
        0 <= spec_fold_max(items).0 <= spec_fold_max(items).1 <= MAX_DIM,
    decreases items.len(),
{
    if items.len() > 0 {
        assert(all_bounds_wf(items.drop_last()));
        lemma_fold_max_wf(items.drop_last());
    }
}

proof fn lemma_fold_add_ordered(items: Seq<(i64, i64)>)
    requires
        all_bounds_wf(items),
    ensures
        0 <= spec_fold_add(items).0 <= spec_fold_add(items).1,
    decreases items.len(),
{
    if items.len() > 0 {
        assert(all_bounds_wf(items.drop_last()));
        lemma_fold_add_ordered(items.drop_last());
    }
}

impl Size {
    /// A policy whose fixed extent, if any, is itself a valid extent.
    pub open spec fn wf(self) -> bool {
        match self {
            Size::Static(s) => 0 <= s <= MAX_DIM,
            _ => true,
        }
    }

    /// What a well-formed policy reports over well-formed bounds is itself a
    /// well-formed pair of bounds.
    pub proof fn lemma_get_wf(self, items: Seq<(i64, i64)>)
        requires
            self.wf(),
            all_bounds_wf(items),
        ensures
            0 <= self.spec_get(items).0 <= self.spec_get(items).1 <= MAX_DIM,
    {
        lemma_fold_max_wf(items);
    }
}

/// Items stacked on top of each other: an offset policy and a sizing policy
/// per axis, and padding around the whole.
#[derive(Clone, Copy, Debug, Default)]
pub struct Stack(pub Offset, pub Offset, pub Size, pub Size, pub Padding);

impl Stack {
    pub open spec fn wf(self) -> bool {
        self.0.wf() && self.1.wf() && self.2.wf() && self.3.wf() && self.4.wf()
    }

    pub fn new(x_offset: Offset, y_offset: Offset, x_size: Size, y_size: Size, padding: Padding) -> (r: Self)
        ensures
            r == (Stack(x_offset, y_offset, x_size, y_size, padding)),
    {
        Stack(x_offset, y_offset, x_size, y_size, padding)
    }

    pub fn center() -> (r: Self)
        ensures
            r == (Stack(Offset::Center, Offset::Center, Size::Fit, Size::Fit, Padding(0int as i64, 0int as i64, 0int as i64, 0int as i64))),
            r.wf(),
    {
        Stack(Offset::Center, Offset::Center, Size::Fit, Size::Fit, Padding(0, 0, 0, 0))
    }

    pub fn start() -> (r: Self)
        ensures
            r == (Stack(Offset::Start, Offset::Start, Size::Fit, Size::Fit, Padding(0int as i64, 0int as i64, 0int as i64, 0int as i64))),
            r.wf(),
    {
        Stack(Offset::Start, Offset::Start, Size::Fit, Size::Fit, Padding(0, 0, 0, 0))
    }

    pub fn end() -> (r: Self)
        ensures
            r == (Stack(Offset::End, Offset::End, Size::Fit, Size::Fit, Padding(0int as i64, 0int as i64, 0int as i64, 0int as i64))),
            r.wf(),
    {
        Stack(Offset::End, Offset::End, Size::Fit, Size::Fit, Padding(0, 0, 0, 0))
    }

    pub fn fill() -> (r: Self)
        ensures
            r == (Stack(Offset::Center, Offset::Center, Size::Fill, Size::Fill, Padding(0int as i64, 0int as i64, 0int as i64, 0int as i64))),
            r.wf(),
    {
        Stack(Offset::Center, Offset::Center, Size::Fill, Size::Fill, Padding(0, 0, 0, 0))
    }

    /// The request a stack reports: each axis combined by its sizing policy,
    /// grown by the padding.
    pub open spec fn spec_request_size(self, children: Seq<SizeRequest>) -> SizeRequest {
        let w = self.2.spec_get(spec_width_bounds(children));
        let h = self.3.spec_get(spec_height_bounds(children));
        SizeRequest {
            min_width: SizeRequest::spec_grow(w.0, self.4.spec_wpad() as i64),
            min_height: SizeRequest::spec_grow(h.0, self.4.spec_hpad() as i64),
            max_width: SizeRequest::spec_grow(w.1, self.4.spec_wpad() as i64),
            max_height: SizeRequest::spec_grow(h.1, self.4.spec_hpad() as i64),
        }
    }

    /// Given the children's size requests, calculates the request for the
    /// whole stack.
    pub fn request_size(&self, children: &Vec<SizeRequest>) -> (r: SizeRequest)
        requires
            self.wf(),
            all_requests_wf(children@),
        ensures
            r == self.spec_request_size(children@),
            r.wf(),
    {
        let mut widths: Vec<(i64, i64)> = Vec::new();
        let mut heights: Vec<(i64, i64)> = Vec::new();
        let mut i: usize = 0;
        while i < children.len()
            invariant
                0 <= i <= children.len(),
                all_requests_wf(children@),
                widths@.len() == i,
                heights@.len() == i,
                forall|j: int| 0 <= j < i ==> #[trigger] widths@[j] == (children@[j].min_width, children@[j].max_width),
                forall|j: int| 0 <= j < i ==> #[trigger] heights@[j] == (children@[j].min_height, children@[j].max_height),
            decreases children.len() - i,
        {
            let c = children[i];
            widths.push((c.min_width, c.max_width));
            heights.push((c.min_height, c.max_height));
            i = i + 1;
        }
        proof {
            assert(widths@ =~= spec_width_bounds(children@));
            assert(heights@ =~= spec_height_bounds(children@));
            assert forall|j: int| 0 <= j < widths@.len() implies
                0 <= #[trigger] widths@[j].0 <= widths@[j].1 <= MAX_DIM by {
                assert(children@[j].wf());
            }
            assert forall|j: int| 0 <= j < heights@.len() implies
                0 <= #[trigger] heights@[j].0 <= heights@[j].1 <= MAX_DIM by {
                assert(children@[j].wf());
            }
            self.2.lemma_get_wf(widths@);
            self.3.lemma_get_wf(heights@);
        }
        let width = self.2.get(&widths);
        let height = self.3.get(&heights);
        self.4.adjust_request(SizeRequest::new(width.0, height.0, width.1, height.1))
    }

    /// The interior of an allotted size once the padding is taken out.
    pub open spec fn spec_inner(self, size: (i64, i64)) -> (i64, i64) {
        ((size.0 - self.4.spec_wpad()) as i64, (size.1 - self.4.spec_hpad()) as i64)
    }

    /// Where one child lands inside an allotted size: its own clamp of the
    /// padded interior, positioned by the two offset policies and shifted by
    /// the padding.
    pub open spec fn spec_area(self, size: (i64, i64), c: SizeRequest) -> Area {
        let inner = self.spec_inner(size);
        let sz = c.spec_get(inner);
        Area {
            offset: (
                (self.4.0 + self.0.spec_get(inner.0, sz.0)) as i64,
                (self.4.1 + self.1.spec_get(inner.1, sz.1)) as i64,
            ),
            size: sz,
        }
    }

    /// Given an allotted size, places every child independently: each is
    /// clamped into its own bounds and positioned by the offset policies.
    pub fn build(&self, stack_size: (i64, i64), children: &Vec<SizeRequest>) -> (r: Vec<Area>)
        requires
            self.wf(),
            all_requests_wf(children@),
            -MAX_DIM * 16 <= stack_size.0 <= MAX_DIM * 16,
            -MAX_DIM * 16 <= stack_size.1 <= MAX_DIM * 16,
        ensures
            r.len() == children.len(),
            forall|i: int| 0 <= i < r.len() ==> #[trigger] r[i] == self.spec_area(stack_size, children[i]),
    {
        let inner = self.4.adjust_size(stack_size);
        let mut r: Vec<Area> = Vec::new();
        let mut i: usize = 0;
        while i < children.len()
            invariant
                0 <= i <= children.len(),
                self.wf(),
                all_requests_wf(children@),
                -MAX_DIM * 16 <= stack_size.0 <= MAX_DIM * 16,
                -MAX_DIM * 16 <= stack_size.1 <= MAX_DIM * 16,
                inner == self.spec_inner(stack_size),
                r@.len() == i,
                forall|j: int| 0 <= j < i ==> #[trigger] r@[j] == self.spec_area(stack_size, children@[j]),
            decreases children.len() - i,
        {
            proof {
                assert(children@[i as int].wf());
            }
            let sz = children[i].get(inner);
            proof {
                assert(0 <= sz.0 <= MAX_DIM);
                assert(0 <= sz.1 <= MAX_DIM);
            }
            let offset = (self.0.get(inner.0, sz.0), self.1.get(inner.1, sz.1));
            r.push(Area { offset: self.4.adjust_offset(offset), size: sz });
            i = i + 1;
        }
        r
    }
}

/// Centering a child in a stack with `Offset::Center` on both axes and no
/// padding puts it at `((W - cw) / 2, (H - ch) / 2)`.
pub proof fn lemma_stack_centering(stack: Stack, size: (i64, i64), c: SizeRequest, cw: i64, ch: i64)
    requires
        stack.0 == Offset::Center,
        stack.1 == Offset::Center,
        stack.4 == (Padding(0int as i64, 0int as i64, 0int as i64, 0int as i64)),
        c.spec_get(size) == (cw, ch),
        cw <= size.0,
        ch <= size.1,
    ensures
        stack.spec_area(size, c).offset.0 == (size.0 - cw) / 2,
        stack.spec_area(size, c).offset.1 == (size.1 - ch) / 2,
        stack.spec_area(size, c).size == (cw, ch),
{
}

/// The x position a row's child at index `i` starts at, before padding:
/// the widths of all earlier children plus one spacing gap per child.
pub open spec fn spec_prefix_w(r: Seq<Area>, spacing: i64, i: int) -> int
    decreases i,
{
    if i <= 0 {
        0int
    } else {
        spec_prefix_w(r, spacing, i - 1) + r[i - 1].size.0 + spacing
    }
}

/// The y position a column's child at index `i` starts at, before padding.
pub open spec fn spec_prefix_h(r: Seq<Area>, spacing: i64, i: int) -> int
    decreases i,
{
    if i <= 0 {
        0int
    } else {
        spec_prefix_h(r, spacing, i - 1) + r[i - 1].size.1 + spacing
    }
}

proof fn lemma_prefix_w_agree(r1: Seq<Area>, r2: Seq<Area>, spacing: i64, i: int)
    requires
        0 <= i <= r1.len(),
        i <= r2.len(),
        forall|j: int| 0 <= j < i ==> r1[j] == r2[j],
    ensures
        spec_prefix_w(r1, spacing, i) == spec_prefix_w(r2, spacing, i),
    decreases i,
{
    if i > 0 {
        lemma_prefix_w_agree(r1, r2, spacing, i - 1);
    }
}

proof fn lemma_prefix_h_agree(r1: Seq<Area>, r2: Seq<Area>, spacing: i64, i: int)
    requires
        0 <= i <= r1.len(),
        i <= r2.len(),
        forall|j: int| 0 <= j < i ==> r1[j] == r2[j],
    ensures
        spec_prefix_h(r1, spacing, i) == spec_prefix_h(r2, spacing, i),
    decreases i,
{
    if i > 0 {
        lemma_prefix_h_agree(r1, r2, spacing, i - 1);
    }
}

/// The widths the areas allot, in order.
pub open spec fn spec_area_widths(r: Seq<Area>) -> Seq<i64> {
    r.map_values(|a: Area| a.size.0)
}

/// The heights the areas allot, in order.
pub open spec fn spec_area_heights(r: Seq<Area>) -> Seq<i64> {
    r.map_values(|a: Area| a.size.1)
}

/// The x advance before item `i` of a row of these widths.
pub open spec fn spec_prefix_widths(widths: Seq<i64>, spacing: i64, i: int) -> int
    decreases i,
{
    if i <= 0 {
        0int
    } else {
        spec_prefix_widths(widths, spacing, i - 1) + widths[i - 1] + spacing
    }
}

proof fn lemma_prefix_w_widths(r: Seq<Area>, widths: Seq<i64>, spacing: i64, i: int)
    requires
        0 <= i <= r.len(),
        i <= widths.len(),
        forall|j: int| 0 <= j < i ==> (#[trigger] r[j]).size.0 == widths[j],
    ensures
        spec_prefix_w(r, spacing, i) == spec_prefix_widths(widths, spacing, i),
    decreases i,
{
    if i > 0 {
        lemma_prefix_w_widths(r, widths, spacing, i - 1);
    }
}

proof fn lemma_prefix_h_widths(r: Seq<Area>, heights: Seq<i64>, spacing: i64, i: int)
    requires
        0 <= i <= r.len(),
        i <= heights.len(),
        forall|j: int| 0 <= j < i ==> (#[trigger] r[j]).size.1 == heights[j],
    ensures
        spec_prefix_h(r, spacing, i) == spec_prefix_widths(heights, spacing, i),
    decreases i,
{
    if i > 0 {
        lemma_prefix_h_widths(r, heights, spacing, i - 1);
    }
}

/// Every area a row's build produces, in closed form: the expanded widths,
/// the cross-axis clamps, and the running offsets.
pub open spec fn spec_row_areas(rw: Row, size: (i64, i64), reqs: Seq<SizeRequest>) -> Seq<Area> {
    let widths = spec_expand(spec_width_bounds(reqs), (size.0 - rw.3.spec_wpad()) as i64, rw.0);
    let inner_h = (size.1 - rw.3.spec_hpad()) as i64;
    Seq::new(reqs.len(), |i: int| Area {
        offset: (
            (rw.3.0 + spec_prefix_widths(widths, rw.0, i)) as i64,
            (rw.3.1 + rw.1.spec_get(
                inner_h,
                SizeRequest::spec_clamp(reqs[i].min_height, reqs[i].max_height, inner_h),
            )) as i64,
        ),
        size: (
            widths[i],
            SizeRequest::spec_clamp(reqs[i].min_height, reqs[i].max_height, inner_h),
        ),
    })
}

/// Every area a column's build produces, in closed form: the transposed
/// shape of [`spec_row_areas`].
pub open spec fn spec_col_areas(cl: Column, size: (i64, i64), reqs: Seq<SizeRequest>) -> Seq<Area> {
    let heights = spec_expand(spec_height_bounds(reqs), (size.1 - cl.3.spec_hpad()) as i64, cl.0);
    let inner_w = (size.0 - cl.3.spec_wpad()) as i64;
    Seq::new(reqs.len(), |i: int| Area {
        offset: (
            (cl.3.0 + cl.1.spec_get(
                inner_w,
                SizeRequest::spec_clamp(reqs[i].min_width, reqs[i].max_width, inner_w),
            )) as i64,
            (cl.3.1 + spec_prefix_widths(heights, cl.0, i)) as i64,
        ),
        size: (
            SizeRequest::spec_clamp(reqs[i].min_width, reqs[i].max_width, inner_w),
            heights[i],
        ),
    })
}

/// A request with its axes swapped.
pub open spec fn spec_transposed(c: SizeRequest) -> SizeRequest {
    SizeRequest {
        min_width: c.min_height,
        min_height: c.min_width,
        max_width: c.max_height,
        max_height: c.max_width,
    }
}

/// A column is a row transposed: with no padding, building a column for
/// some children equals building a row, at the swapped size, for the
/// axis-swapped children — with every resulting offset and size swapped
/// back.
pub proof fn lemma_column_transposes_row(
    spacing: i64,
    offset: Offset,
    policy: Size,
    size: (i64, i64),
    kids: Seq<SizeRequest>,
    kids_t: Seq<SizeRequest>,
)
    requires
        kids_t.len() == kids.len(),
        forall|i: int| 0 <= i < kids.len() ==> #[trigger] kids_t[i] == spec_transposed(kids[i]),
    ensures
        spec_col_areas(
            Column(spacing, offset, policy, Padding(0int as i64, 0int as i64, 0int as i64, 0int as i64)),
            size,
            kids,
        ) == Seq::new(kids.len(), |i: int| {
            let a = spec_row_areas(
                Row(spacing, offset, policy, Padding(0int as i64, 0int as i64, 0int as i64, 0int as i64)),
                (size.1, size.0),
                kids_t,
            )[i];
            Area { offset: (a.offset.1, a.offset.0), size: (a.size.1, a.size.0) }
        }),
{
    let cl = Column(spacing, offset, policy, Padding(0int as i64, 0int as i64, 0int as i64, 0int as i64));
    let rw = Row(spacing, offset, policy, Padding(0int as i64, 0int as i64, 0int as i64, 0int as i64));
    assert(spec_height_bounds(kids) =~= spec_width_bounds(kids_t));
    let col = spec_col_areas(cl, size, kids);
    let row = spec_row_areas(rw, (size.1, size.0), kids_t);
    assert forall|i: int| 0 <= i < kids.len() implies col[i] == (Area {
        offset: (row[i].offset.1, row[i].offset.0),
        size: (row[i].size.1, row[i].size.0),
    }) by {
        assert(kids_t[i] == spec_transposed(kids[i]));
    }
    assert(col =~= Seq::new(kids.len(), |i: int| {
        let a = row[i];
        Area { offset: (a.offset.1, a.offset.0), size: (a.size.1, a.size.0) }
    }));
}

/// Splits the children's requests into per-axis `(min, max)` bound lists.
fn split_bounds(children: &Vec<SizeRequest>) -> (r: (Vec<(i64, i64)>, Vec<(i64, i64)>))
    requires
        all_requests_wf(children@),
    ensures
        r.0@ == spec_width_bounds(children@),
        r.1@ == spec_height_bounds(children@),
        all_bounds_wf(r.0@),
        all_bounds_wf(r.1@),
{
    let mut widths: Vec<(i64, i64)> = Vec::new();
    let mut heights: Vec<(i64, i64)> = Vec::new();
    let mut i: usize = 0;
    while i < children.len()
        invariant
            0 <= i <= children.len(),
            all_requests_wf(children@),
            widths@.len() == i,
            heights@.len() == i,
            forall|j: int| 0 <= j < i ==> #[trigger] widths@[j] == (children@[j].min_width, children@[j].max_width),
            forall|j: int| 0 <= j < i ==> #[trigger] heights@[j] == (children@[j].min_height, children@[j].max_height),
        decreases children.len() - i,
    {
        let c = children[i];
        widths.push((c.min_width, c.max_width));
        heights.push((c.min_height, c.max_height));
        i = i + 1;
    }
    proof {
        assert(widths@ =~= spec_width_bounds(children@));
        assert(heights@ =~= spec_height_bounds(children@));
        assert forall|j: int| 0 <= j < widths@.len() implies
            0 <= #[trigger] widths@[j].0 <= widths@[j].1 <= MAX_DIM by {
            assert(children@[j].wf());
        }
        assert forall|j: int| 0 <= j < heights@.len() implies
            0 <= #[trigger] heights@[j].0 <= heights@[j].1 <= MAX_DIM by {
            assert(children@[j].wf());
        }
    }
    (widths, heights)
}

/// Horizontal arrangement with fixed inter-item spacing: the main axis sums
/// the children, the cross axis follows the sizing policy, and surplus main
/// axis space is distributed by [`UniformExpand`].
#[derive(Clone, Copy, Debug, Default)]
pub struct Row(pub i64, pub Offset, pub Size, pub Padding);

impl Row {
    pub open spec fn wf(self) -> bool {
        &&& 0 <= self.0 <= MAX_DIM
        &&& self.1.wf()
        &&& self.2.wf()
        &&& self.3.wf()
    }

    pub fn new(spacing: i64, offset: Offset, size: Size, padding: Padding) -> (r: Self)
        ensures
            r == (Row(spacing, offset, size, padding)),
    {
        Row(spacing, offset, size, padding)
    }

    pub fn center(spacing: i64) -> (r: Self)
        ensures
            r == (Row(spacing, Offset::Center, Size::Fit, Padding(0int as i64, 0int as i64, 0int as i64, 0int as i64))),
    {
        Row(spacing, Offset::Center, Size::Fit, Padding(0, 0, 0, 0))
    }

    pub fn start(spacing: i64) -> (r: Self)
        ensures
            r == (Row(spacing, Offset::Start, Size::Fit, Padding(0int as i64, 0int as i64, 0int as i64, 0int as i64))),
    {
        Row(spacing, Offset::Start, Size::Fit, Padding(0, 0, 0, 0))
    }

    pub fn end(spacing: i64) -> (r: Self)
        ensures
            r == (Row(spacing, Offset::End, Size::Fit, Padding(0int as i64, 0int as i64, 0int as i64, 0int as i64))),
    {
        Row(spacing, Offset::End, Size::Fit, Padding(0, 0, 0, 0))
    }

    /// The request a row reports: widths summed (with one spacing gap per
    /// extra child), heights combined by the sizing policy, all grown by the
    /// padding.
    pub open spec fn spec_request_size(self, children: Seq<SizeRequest>) -> SizeRequest {
        let wsum = spec_fold_add(spec_width_bounds(children));
        let w0 = if wsum.0 > MAX_DIM { MAX_DIM as i64 } else { wsum.0 as i64 };
        let w1 = if wsum.1 > MAX_DIM { MAX_DIM as i64 } else { wsum.1 as i64 };
        let h = self.2.spec_get(spec_height_bounds(children));
        let sp = (self.0 * (children.len() - 1)) as i64;
        SizeRequest {
            min_width: SizeRequest::spec_grow(SizeRequest::spec_grow(w0, sp), self.3.spec_wpad() as i64),
            min_height: SizeRequest::spec_grow(h.0, self.3.spec_hpad() as i64),
            max_width: SizeRequest::spec_grow(SizeRequest::spec_grow(w1, sp), self.3.spec_wpad() as i64),
            max_height: SizeRequest::spec_grow(h.1, self.3.spec_hpad() as i64),
        }
    }

    /// Given the children's size requests, calculates the request for the
    /// whole row.
    pub fn request_size(&self, children: &Vec<SizeRequest>) -> (r: SizeRequest)
        requires
            self.wf(),
            all_requests_wf(children@),
            1 <= children.len() <= MAX_CHILDREN,
        ensures
            r == self.spec_request_size(children@),
            r.wf(),
    {
        let (widths, heights) = split_bounds(children);
        proof {
            assert(0 <= self.0 * ((children.len() - 1) as int) <= MAX_DIM * 0x10000int)
                by (nonlinear_arith)
                requires 0 <= self.0 <= MAX_DIM, 0 <= (children.len() - 1) as int <= 0x10000;
            lemma_fold_add_ordered(widths@);
            self.2.lemma_get_wf(heights@);
        }
        let spacing_total: i64 = self.0 * ((children.len() - 1) as i64);
        let width = Size::add(&widths);
        let height = self.2.get(&heights);
        self.3.adjust_request(
            SizeRequest::new(width.0, height.0, width.1, height.1).add_width(spacing_total),
        )
    }

    /// Given an allotted size, distributes the main-axis space by uniform
    /// expansion and lays the children left to right.
    ///
    /// The contract pins everything down but the expanded widths, which are
    /// constrained exactly as [`UniformExpand::get`] promises: each child's
    /// width stays within its own bounds, children with equal width bounds
    /// get equal widths, the total never exceeds the available interior
    /// width, and while any child could still widen, the unused remainder is
    /// smaller than the number of such children.
    pub fn build(&self, row_size: (i64, i64), children: &Vec<SizeRequest>) -> (r: Vec<Area>)
        requires
            self.wf(),
            all_requests_wf(children@),
            1 <= children.len() <= MAX_CHILDREN,
            -MAX_DIM * 16 <= row_size.0 <= MAX_DIM * 16,
            -MAX_DIM * 16 <= row_size.1 <= MAX_DIM * 16,
        ensures
            r.len() == children.len(),
            forall|i: int| 0 <= i < r.len()
                ==> children[i].min_width <= #[trigger] r[i].size.0 <= children[i].max_width,
            forall|i: int| 0 <= i < r.len() ==> #[trigger] r[i].size.1 == SizeRequest::spec_clamp(
                children[i].min_height,
                children[i].max_height,
                (row_size.1 - self.3.spec_hpad()) as i64,
            ),
            forall|i: int, j: int| 0 <= i < r.len() && 0 <= j < r.len()
                && (children[i].min_width, children[i].max_width)
                    == (children[j].min_width, children[j].max_width)
                ==> r[i].size.0 == r[j].size.0,
            spec_sum(spec_area_widths(r@)) <= spec_fold_add(spec_width_bounds(children@)).0
                + spec_avail(spec_width_bounds(children@), (row_size.0 - self.3.spec_wpad()) as i64, self.0),
            (exists|i: int| 0 <= i < r.len() && r[i].size.0 < children[i].max_width)
                ==> spec_sum(spec_area_widths(r@)) + spec_growable(spec_area_widths(r@), spec_width_bounds(children@))
                    > spec_fold_add(spec_width_bounds(children@)).0
                        + spec_avail(spec_width_bounds(children@), (row_size.0 - self.3.spec_wpad()) as i64, self.0),
            forall|i: int| 0 <= i < r.len()
                ==> #[trigger] r[i].offset.0 == self.3.0 + spec_prefix_w(r@, self.0, i),
            forall|i: int| 0 <= i < r.len() ==> #[trigger] r[i].offset.1
                == self.3.1 + self.1.spec_get((row_size.1 - self.3.spec_hpad()) as i64, r[i].size.1),
            spec_area_widths(r@) == spec_expand(
                spec_width_bounds(children@),
                (row_size.0 - self.3.spec_wpad()) as i64,
                self.0,
            ),
            r@ == spec_row_areas(*self, row_size, children@),
    {
        let inner = self.3.adjust_size(row_size);
        let (width_bounds, _heights) = split_bounds(children);
        let widths = UniformExpand::get(&width_bounds, inner.0, self.0);

        let mut r: Vec<Area> = Vec::new();
        let mut offset: i64 = 0;
        let mut i: usize = 0;
        while i < children.len()
            invariant
                0 <= i <= children.len(),
                children.len() <= MAX_CHILDREN,
                self.wf(),
                all_requests_wf(children@),
                inner.0 == row_size.0 - self.3.spec_wpad(),
                inner.1 == row_size.1 - self.3.spec_hpad(),
                -MAX_DIM * 16 <= row_size.0 <= MAX_DIM * 16,
                -MAX_DIM * 16 <= row_size.1 <= MAX_DIM * 16,
                width_bounds@ == spec_width_bounds(children@),
                widths@.len() == children@.len(),
                forall|k: int| 0 <= k < children@.len()
                    ==> children@[k].min_width <= #[trigger] widths@[k] <= children@[k].max_width,
                r@.len() == i,
                forall|k: int| 0 <= k < i ==> #[trigger] r@[k].size.0 == widths@[k],
                forall|k: int| 0 <= k < i ==> #[trigger] r@[k].size.1 == SizeRequest::spec_clamp(
                    children@[k].min_height,
                    children@[k].max_height,
                    inner.1,
                ),
                forall|k: int| 0 <= k < i
                    ==> #[trigger] r@[k].offset.0 == self.3.0 + spec_prefix_w(r@, self.0, k),
                forall|k: int| 0 <= k < i ==> #[trigger] r@[k].offset.1
                    == self.3.1 + self.1.spec_get(inner.1, r@[k].size.1),
                offset == spec_prefix_w(r@, self.0, i as int),
                0 <= offset <= (i as int) * (2 * MAX_DIM as int),
            decreases children.len() - i,
        {
            proof {
                assert(children@[i as int].wf());
                assert(width_bounds@[i as int] == (children@[i as int].min_width, children@[i as int].max_width));
                assert((i + 1 as int) * (2 * MAX_DIM as int) == (i as int) * (2 * MAX_DIM as int) + 2 * MAX_DIM)
                    by (nonlinear_arith);
                assert((i as int) * (2 * MAX_DIM as int) <= 0x10000int * (2 * MAX_DIM as int))
                    by (nonlinear_arith)
                    requires 0 <= i as int <= 0x10000;
            }
            let sz = children[i].get((widths[i], inner.1));
            proof {
                assert(sz.0 == widths@[i as int]);
            }
            let off = self.3.adjust_offset((offset, self.1.get(inner.1, sz.1)));
            let area = Area { offset: off, size: sz };
            let ghost old_r = r@;
            r.push(area);
            proof {
                assert forall|k: int| 0 <= k < i + 1 implies
                    #[trigger] r@[k].offset.0 == self.3.0 + spec_prefix_w(r@, self.0, k) by {
                    lemma_prefix_w_agree(old_r, r@, self.0, k);
                }
                lemma_prefix_w_agree(old_r, r@, self.0, i as int);
            }
            offset = offset + sz.0 + self.0;
            i = i + 1;
        }
        proof {
            assert(spec_area_widths(r@) =~= widths@);
            if exists|i: int| 0 <= i < r@.len() && r@[i].size.0 < children@[i].max_width {
                let i = choose|i: int| 0 <= i < r@.len() && r@[i].size.0 < children@[i].max_width;
                assert(widths@[i] < width_bounds@[i].1);
            }
            assert(inner.0 == (row_size.0 - self.3.spec_wpad()) as i64);
            assert(inner.1 == (row_size.1 - self.3.spec_hpad()) as i64);
            assert(widths@ == spec_expand(
                spec_width_bounds(children@),
                (row_size.0 - self.3.spec_wpad()) as i64,
                self.0,
            ));
            assert forall|i: int| 0 <= i < r@.len() implies
                r@[i] == spec_row_areas(*self, row_size, children@)[i] by {
                lemma_prefix_w_widths(r@, widths@, self.0, i);
                assert(r@[i].size.0 == widths@[i]);
                assert(r@[i].size.1 == SizeRequest::spec_clamp(
                    children@[i].min_height,
                    children@[i].max_height,
                    inner.1,
                ));
                assert(r@[i].offset.0 == self.3.0 + spec_prefix_w(r@, self.0, i));
                assert(r@[i].offset.1 == self.3.1 + self.1.spec_get(inner.1, r@[i].size.1));
            }
            assert(r@ =~= spec_row_areas(*self, row_size, children@));
        }
        r
    }
}

/// Vertical arrangement with fixed inter-item spacing: the main axis sums
/// the children, the cross axis follows the sizing policy, and surplus main
/// axis space is distributed by [`UniformExpand`].
#[derive(Clone, Copy, Debug, Default)]
pub struct Column(pub i64, pub Offset, pub Size, pub Padding);

impl Column {
    pub open spec fn wf(self) -> bool {
        &&& 0 <= self.0 <= MAX_DIM
        &&& self.1.wf()
        &&& self.2.wf()
        &&& self.3.wf()
    }

    pub fn new(spacing: i64, offset: Offset, size: Size, padding: Padding) -> (r: Self)
        ensures
            r == (Column(spacing, offset, size, padding)),
    {
        Column(spacing, offset, size, padding)
    }

    pub fn center(spacing: i64) -> (r: Self)
        ensures
            r == (Column(spacing, Offset::Center, Size::Fit, Padding(0int as i64, 0int as i64, 0int as i64, 0int as i64))),
    {
        Column(spacing, Offset::Center, Size::Fit, Padding(0, 0, 0, 0))
    }

    pub fn start(spacing: i64) -> (r: Self)
        ensures
            r == (Column(spacing, Offset::Start, Size::Fit, Padding(0int as i64, 0int as i64, 0int as i64, 0int as i64))),
    {
        Column(spacing, Offset::Start, Size::Fit, Padding(0, 0, 0, 0))
    }

    pub fn end(spacing: i64) -> (r: Self)
        ensures
            r == (Column(spacing, Offset::End, Size::Fit, Padding(0int as i64, 0int as i64, 0int as i64, 0int as i64))),
    {
        Column(spacing, Offset::End, Size::Fit, Padding(0, 0, 0, 0))
    }

    /// The request a column reports: heights summed (with one spacing gap
    /// per extra child), widths combined by the sizing policy, all grown by
    /// the padding. A column with no children asks for nothing.
    pub open spec fn spec_request_size(self, children: Seq<SizeRequest>) -> SizeRequest {
        if children.len() == 0 {
            SizeRequest { min_width: 0int as i64, min_height: 0int as i64, max_width: 0int as i64, max_height: 0int as i64 }
        } else {
            let hsum = spec_fold_add(spec_height_bounds(children));
            let h0 = if hsum.0 > MAX_DIM { MAX_DIM as i64 } else { hsum.0 as i64 };
            let h1 = if hsum.1 > MAX_DIM { MAX_DIM as i64 } else { hsum.1 as i64 };
            let w = self.2.spec_get(spec_width_bounds(children));
            let sp = (self.0 * (children.len() - 1)) as i64;
            SizeRequest {
                min_width: SizeRequest::spec_grow(w.0, self.3.spec_wpad() as i64),
                min_height: SizeRequest::spec_grow(SizeRequest::spec_grow(h0, sp), self.3.spec_hpad() as i64),
                max_width: SizeRequest::spec_grow(w.1, self.3.spec_wpad() as i64),
                max_height: SizeRequest::spec_grow(SizeRequest::spec_grow(h1, sp), self.3.spec_hpad() as i64),
            }
        }
    }

    /// Given the children's size requests, calculates the request for the
    /// whole column.
    pub fn request_size(&self, children: &Vec<SizeRequest>) -> (r: SizeRequest)
        requires
            self.wf(),
            all_requests_wf(children@),
            children.len() <= MAX_CHILDREN,
        ensures
            r == self.spec_request_size(children@),
            r.wf(),
    {
        if children.len() == 0 {
            return SizeRequest::new(0, 0, 0, 0);
        }
        let (widths, heights) = split_bounds(children);
        proof {
            assert(0 <= self.0 * ((children.len() - 1) as int) <= MAX_DIM * 0x10000int)
                by (nonlinear_arith)
                requires 0 <= self.0 <= MAX_DIM, 0 <= (children.len() - 1) as int <= 0x10000;
            lemma_fold_add_ordered(heights@);
            self.2.lemma_get_wf(widths@);
        }
        let spacing_total: i64 = self.0 * ((children.len() - 1) as i64);
        let width = self.2.get(&widths);
        let height = Size::add(&heights);
        self.3.adjust_request(
            SizeRequest::new(width.0, height.0, width.1, height.1).add_height(spacing_total),
        )
    }

    /// Given an allotted size, distributes the main-axis space by uniform
    /// expansion and lays the children top to bottom. The contract mirrors
    /// [`Row::build`] with the axes swapped.
    pub fn build(&self, col_size: (i64, i64), children: &Vec<SizeRequest>) -> (r: Vec<Area>)
        requires
            self.wf(),
            all_requests_wf(children@),
            children.len() <= MAX_CHILDREN,
            -MAX_DIM * 16 <= col_size.0 <= MAX_DIM * 16,
            -MAX_DIM * 16 <= col_size.1 <= MAX_DIM * 16,
        ensures
            r.len() == children.len(),
            forall|i: int| 0 <= i < r.len()
                ==> children[i].min_height <= #[trigger] r[i].size.1 <= children[i].max_height,
            forall|i: int| 0 <= i < r.len() ==> #[trigger] r[i].size.0 == SizeRequest::spec_clamp(
                children[i].min_width,
                children[i].max_width,
                (col_size.0 - self.3.spec_wpad()) as i64,
            ),
            forall|i: int, j: int| 0 <= i < r.len() && 0 <= j < r.len()
                && (children[i].min_height, children[i].max_height)
                    == (children[j].min_height, children[j].max_height)
                ==> r[i].size.1 == r[j].size.1,
            spec_sum(spec_area_heights(r@)) <= spec_fold_add(spec_height_bounds(children@)).0
                + spec_avail(spec_height_bounds(children@), (col_size.1 - self.3.spec_hpad()) as i64, self.0),
            (exists|i: int| 0 <= i < r.len() && r[i].size.1 < children[i].max_height)
                ==> spec_sum(spec_area_heights(r@)) + spec_growable(spec_area_heights(r@), spec_height_bounds(children@))
                    > spec_fold_add(spec_height_bounds(children@)).0
                        + spec_avail(spec_height_bounds(children@), (col_size.1 - self.3.spec_hpad()) as i64, self.0),
            forall|i: int| 0 <= i < r.len()
                ==> #[trigger] r[i].offset.1 == self.3.1 + spec_prefix_h(r@, self.0, i),
            forall|i: int| 0 <= i < r.len() ==> #[trigger] r[i].offset.0
                == self.3.0 + self.1.spec_get((col_size.0 - self.3.spec_wpad()) as i64, r[i].size.0),
            children@.len() > 0 ==> spec_area_heights(r@) == spec_expand(
                spec_height_bounds(children@),
                (col_size.1 - self.3.spec_hpad()) as i64,
                self.0,
            ),
            r@ == spec_col_areas(*self, col_size, children@),
    {
        if children.len() == 0 {
            let r: Vec<Area> = Vec::new();
            proof {
                assert(r@ =~= spec_col_areas(*self, col_size, children@));
            }
            return r;
        }
        let inner = self.3.adjust_size(col_size);
        let (_widths, height_bounds) = split_bounds(children);
        let heights = UniformExpand::get(&height_bounds, inner.1, self.0);

        let mut r: Vec<Area> = Vec::new();
        let mut offset: i64 = 0;
        let mut i: usize = 0;
        while i < children.len()
            invariant
                0 <= i <= children.len(),
                children.len() <= MAX_CHILDREN,
                self.wf(),
                all_requests_wf(children@),
                inner.0 == col_size.0 - self.3.spec_wpad(),
                inner.1 == col_size.1 - self.3.spec_hpad(),
                -MAX_DIM * 16 <= col_size.0 <= MAX_DIM * 16,
                -MAX_DIM * 16 <= col_size.1 <= MAX_DIM * 16,
                height_bounds@ == spec_height_bounds(children@),
                heights@.len() == children@.len(),
                forall|k: int| 0 <= k < children@.len()
                    ==> children@[k].min_height <= #[trigger] heights@[k] <= children@[k].max_height,
                r@.len() == i,
                forall|k: int| 0 <= k < i ==> #[trigger] r@[k].size.1 == heights@[k],
                forall|k: int| 0 <= k < i ==> #[trigger] r@[k].size.0 == SizeRequest::spec_clamp(
                    children@[k].min_width,
                    children@[k].max_width,
                    inner.0,
                ),
                forall|k: int| 0 <= k < i
                    ==> #[trigger] r@[k].offset.1 == self.3.1 + spec_prefix_h(r@, self.0, k),
                forall|k: int| 0 <= k < i ==> #[trigger] r@[k].offset.0
                    == self.3.0 + self.1.spec_get(inner.0, r@[k].size.0),
                offset == spec_prefix_h(r@, self.0, i as int),
                0 <= offset <= (i as int) * (2 * MAX_DIM as int),
            decreases children.len() - i,
        {
            proof {
                assert(children@[i as int].wf());
                assert(height_bounds@[i as int] == (children@[i as int].min_height, children@[i as int].max_height));
                assert((i + 1 as int) * (2 * MAX_DIM as int) == (i as int) * (2 * MAX_DIM as int) + 2 * MAX_DIM)
                    by (nonlinear_arith);
                assert((i as int) * (2 * MAX_DIM as int) <= 0x10000int * (2 * MAX_DIM as int))
                    by (nonlinear_arith)
                    requires 0 <= i as int <= 0x10000;
            }
            let sz = children[i].get((inner.0, heights[i]));
            proof {
                assert(sz.1 == heights@[i as int]);
            }
            let off = self.3.adjust_offset((self.1.get(inner.0, sz.0), offset));
            let area = Area { offset: off, size: sz };
            let ghost old_r = r@;
            r.push(area);
            proof {
                assert forall|k: int| 0 <= k < i + 1 implies
                    #[trigger] r@[k].offset.1 == self.3.1 + spec_prefix_h(r@, self.0, k) by {
                    lemma_prefix_h_agree(old_r, r@, self.0, k);
                }
                lemma_prefix_h_agree(old_r, r@, self.0, i as int);
            }
            offset = offset + sz.1 + self.0;
            i = i + 1;
        }
        proof {
            assert(spec_area_heights(r@) =~= heights@);
            if exists|i: int| 0 <= i < r@.len() && r@[i].size.1 < children@[i].max_height {
                let i = choose|i: int| 0 <= i < r@.len() && r@[i].size.1 < children@[i].max_height;
                assert(heights@[i] < height_bounds@[i].1);
            }
            assert(inner.0 == (col_size.0 - self.3.spec_wpad()) as i64);
            assert(inner.1 == (col_size.1 - self.3.spec_hpad()) as i64);
            assert(heights@ == spec_expand(
                spec_height_bounds(children@),
                (col_size.1 - self.3.spec_hpad()) as i64,
                self.0,
            ));
            assert forall|i: int| 0 <= i < r@.len() implies
                r@[i] == spec_col_areas(*self, col_size, children@)[i] by {
                lemma_prefix_h_widths(r@, heights@, self.0, i);
                assert(r@[i].size.1 == heights@[i]);
                assert(r@[i].size.0 == SizeRequest::spec_clamp(
                    children@[i].min_width,
                    children@[i].max_width,
                    inner.0,
                ));
                assert(r@[i].offset.1 == self.3.1 + spec_prefix_h(r@, self.0, i));
                assert(r@[i].offset.0 == self.3.0 + self.1.spec_get(inner.0, r@[i].size.0));
            }
            assert(r@ =~= spec_col_areas(*self, col_size, children@));
        }
        r
    }
}

/// The minimum sizes of each child: `(min_width, min_height)`. A wrap
/// places every child at its minimum.
pub open spec fn spec_min_sizes(children: Seq<SizeRequest>) -> Seq<(i64, i64)> {
    children.map_values(|c: SizeRequest| (c.min_width, c.min_height))
}

/// The x advance within one wrapped line before its item `j`: the widths of
/// the earlier items plus one spacing gap each.
pub open spec fn spec_line_x(line: Seq<(i64, i64)>, wsp: i64, j: int) -> int
    decreases j,
{
    if j <= 0 {
        0int
    } else {
        spec_line_x(line, wsp, j - 1) + line[j - 1].0 + wsp
    }
}

proof fn lemma_line_x_bounds(line: Seq<(i64, i64)>, wsp: i64, j: int)
    requires
        0 <= wsp <= MAX_DIM,
        0 <= j <= line.len(),
        forall|k: int| 0 <= k < line.len() ==> 0 <= #[trigger] line[k].0 <= MAX_DIM,
    ensures
        0 <= spec_line_x(line, wsp, j) <= j * (2 * MAX_DIM as int),
        j >= 1 ==> spec_line_x(line, wsp, j) >= wsp,
    decreases j,
{
    if j > 0 {
        lemma_line_x_bounds(line, wsp, j - 1);
        assert((j - 1) * (2 * MAX_DIM as int) + 2 * MAX_DIM == j * (2 * MAX_DIM as int))
            by (nonlinear_arith);
    }
}

proof fn lemma_line_x_agree(l1: Seq<(i64, i64)>, l2: Seq<(i64, i64)>, wsp: i64, j: int)
    requires
        0 <= j <= l1.len(),
        j <= l2.len(),
        forall|k: int| 0 <= k < j ==> l1[k] == l2[k],
    ensures
        spec_line_x(l1, wsp, j) == spec_line_x(l2, wsp, j),
    decreases j,
{
    if j > 0 {
        lemma_line_x_agree(l1, l2, wsp, j - 1);
    }
}

/// The areas one finished line flushes into: each item at its own x advance
/// past the line's start, which the horizontal offset policy picks from the
/// slack left in the available width.
pub open spec fn spec_flush(
    line: Seq<(i64, i64)>,
    wsp: i64,
    pad_l: i64,
    xoff: Offset,
    bw: i64,
    tw: int,
    ho: int,
) -> Seq<Area> {
    if line.len() == 0 {
        Seq::empty()
    } else {
        let line_w = tw - wsp - pad_l;
        let extra = if bw - line_w >= 0 { bw - line_w } else { 0int };
        let start_x = match xoff {
            Offset::Start => pad_l as int,
            Offset::End => pad_l + extra,
            Offset::Center => pad_l + extra / 2,
            Offset::Static(_) => 0int,
        };
        Seq::new(line.len(), |j: int| Area {
            offset: ((start_x + spec_line_x(line, wsp, j)) as i64, ho as i64),
            size: line[j],
        })
    }
}

/// The running state of the wrap fold: the x advance of the open line, the
/// y of the open line, the open line's height and items, and the areas of
/// the lines already closed.
pub struct WrapState {
    pub tw: int,
    pub ho: int,
    pub lh: int,
    pub line: Seq<(i64, i64)>,
    pub done: Seq<Area>,
}

/// Horizontal arrangement that wraps to a new line when the next child's
/// minimum width would pass the available width.
///
/// The width that `request_size` wraps against is the one the previous
/// `build` saw: measuring runs before the true width is known, so the
/// last-known width is deliberately carried across frames.
#[derive(Clone, Copy, Debug)]
pub struct Wrap(pub i64, pub i64, pub Offset, pub Offset, pub Padding, pub i64);

impl Wrap {
    pub open spec fn wf(self) -> bool {
        &&& 0 <= self.0 <= MAX_DIM
        &&& 0 <= self.1 <= MAX_DIM
        &&& self.2.wf()
        &&& self.3.wf()
        &&& self.4.wf()
        &&& -MAX_DIM * 16 <= self.5 <= MAX_DIM * 16
    }

    pub fn new(w_spacing: i64, h_spacing: i64) -> (r: Self)
        requires
            0 <= w_spacing <= MAX_DIM,
            0 <= h_spacing <= MAX_DIM,
        ensures
            r == (Wrap(w_spacing, h_spacing, Offset::Center, Offset::Center, Padding(0int as i64, 0int as i64, 0int as i64, 0int as i64), 0int as i64)),
            r.wf(),
    {
        Wrap(w_spacing, h_spacing, Offset::Center, Offset::Center, Padding(0, 0, 0, 0), 0)
    }

    pub fn start(w_spacing: i64, h_spacing: i64) -> (r: Self)
        requires
            0 <= w_spacing <= MAX_DIM,
            0 <= h_spacing <= MAX_DIM,
        ensures
            r == (Wrap(w_spacing, h_spacing, Offset::Start, Offset::Center, Padding(0int as i64, 0int as i64, 0int as i64, 0int as i64), 0int as i64)),
            r.wf(),
    {
        Wrap(w_spacing, h_spacing, Offset::Start, Offset::Center, Padding(0, 0, 0, 0), 0)
    }

    /// The measuring fold after `i` children: the open line's x advance and
    /// height, the total height so far, and the widest closed line.
    pub open spec fn spec_measure(self, sizes: Seq<(i64, i64)>, i: int) -> (int, int, int, int)
        decreases i,
    {
        if i <= 0 {
            (self.4.0 as int, 0int, self.4.1 as int, 0int)
        } else {
            let (lw0, lh0, th0, mx0) = self.spec_measure(sizes, i - 1);
            let w = sizes[i - 1].0;
            let h = sizes[i - 1].1;
            let wrapped = lw0 + w > self.5 && lw0 > self.4.0;
            let lw1 = if wrapped { self.4.0 as int } else { lw0 };
            let lh1 = if wrapped { 0int } else { lh0 };
            let th1 = if wrapped { th0 + lh0 + self.1 } else { th0 };
            let mx1 = if wrapped && lw0 - self.0 > mx0 { lw0 - self.0 } else { mx0 };
            (lw1 + w + self.0, if h > lh1 { h as int } else { lh1 }, th1, mx1)
        }
    }

    /// The request the measuring fold assembles: the widest line and total
    /// height as minimums (saturated into range), unbounded maximums.
    pub open spec fn spec_request_size(self, children: Seq<SizeRequest>) -> SizeRequest {
        let sizes = spec_min_sizes(children);
        let (lw, lh, th, mx) = self.spec_measure(sizes, sizes.len() as int);
        let closed = if lw > self.4.0 {
            (th + lh, if lw - self.0 > mx { lw - self.0 } else { mx })
        } else {
            (th as int, mx as int)
        };
        let min_w = closed.1 + self.4.2;
        let min_h = closed.0 + self.4.3;
        SizeRequest {
            min_width: if min_w > MAX_DIM { MAX_DIM as i64 } else { min_w as i64 },
            min_height: if min_h > MAX_DIM { MAX_DIM as i64 } else { min_h as i64 },
            max_width: MAX_DIM as i64,
            max_height: MAX_DIM as i64,
        }
    }

    /// Given the children's size requests, calculates the request for the
    /// whole wrap by folding minimum sizes into lines against the width the
    /// previous build pass recorded.
    pub fn request_size(&self, children: &Vec<SizeRequest>) -> (r: SizeRequest)
        requires
            self.wf(),
            all_requests_wf(children@),
            children.len() <= MAX_CHILDREN,
        ensures
            r == self.spec_request_size(children@),
            r.wf(),
    {
        let ghost sizes = spec_min_sizes(children@);
        let mut lw: i64 = self.4.0;
        let mut lh: i64 = 0;
        let mut th: i64 = self.4.1;
        let mut max_lw: i64 = 0;
        let mut i: usize = 0;
        while i < children.len()
            invariant
                0 <= i <= children.len(),
                children.len() <= MAX_CHILDREN,
                self.wf(),
                all_requests_wf(children@),
                sizes == spec_min_sizes(children@),
                (lw as int, lh as int, th as int, max_lw as int) == self.spec_measure(sizes, i as int),
                self.4.0 <= lw,
                0 <= lh <= MAX_DIM,
                self.4.1 <= th,
                0 <= max_lw,
                lw <= self.4.0 + (i as int) * (2 * MAX_DIM as int),
                th <= self.4.1 + (i as int) * (2 * MAX_DIM as int),
                max_lw <= self.4.0 + (i as int) * (2 * MAX_DIM as int),
            decreases children.len() - i,
        {
            proof {
                assert(children@[i as int].wf());
                assert(sizes[i as int] == (children@[i as int].min_width, children@[i as int].min_height));
                assert((i + 1 as int) * (2 * MAX_DIM as int) == (i as int) * (2 * MAX_DIM as int) + 2 * MAX_DIM)
                    by (nonlinear_arith);
                assert((i as int) * (2 * MAX_DIM as int) <= 0x10000int * (2 * MAX_DIM as int))
                    by (nonlinear_arith)
                    requires 0 <= i as int <= 0x10000;
            }
            let c = children[i];
            let w = c.min_width;
            let h = c.min_height;
            if lw + w > self.5 && lw > self.4.0 {
                th = th + lh + self.1;
                if lw - self.0 > max_lw {
                    max_lw = lw - self.0;
                }
                lw = self.4.0;
                lh = 0;
            }
            lw = lw + w + self.0;
            if h > lh {
                lh = h;
            }
            i = i + 1;
        }
        proof {
            assert((0x10000int) * (2 * MAX_DIM as int) < MAX_COORD) by (nonlinear_arith);
        }
        if lw > self.4.0 {
            th = th + lh;
            if lw - self.0 > max_lw {
                max_lw = lw - self.0;
            }
        }
        let min_w_raw: i64 = max_lw + self.4.2;
        let min_h_raw: i64 = th + self.4.3;
        let min_w = if min_w_raw > MAX_DIM { MAX_DIM } else { min_w_raw };
        let min_h = if min_h_raw > MAX_DIM { MAX_DIM } else { min_h_raw };
        SizeRequest::new(min_w, min_h, MAX_DIM, MAX_DIM)
    }

    /// The building fold after `i` children against available width `bw`.
    pub open spec fn spec_build_state(self, sizes: Seq<(i64, i64)>, bw: i64, i: int) -> WrapState
        decreases i,
    {
        if i <= 0 {
            WrapState {
                tw: self.4.0 as int,
                ho: self.4.1 as int,
                lh: 0int,
                line: Seq::empty(),
                done: Seq::empty(),
            }
        } else {
            let st = self.spec_build_state(sizes, bw, i - 1);
            let w = sizes[i - 1].0;
            let h = sizes[i - 1].1;
            let wrapped = st.tw + w > bw && st.tw > self.4.0;
            let st1 = if wrapped {
                WrapState {
                    tw: self.4.0 as int,
                    ho: st.ho + st.lh + self.1,
                    lh: 0int,
                    line: Seq::empty(),
                    done: st.done + spec_flush(st.line, self.0, self.4.0, self.2, bw, st.tw, st.ho),
                }
            } else {
                st
            };
            WrapState {
                tw: st1.tw + w + self.0,
                ho: st1.ho,
                lh: if h > st1.lh { h as int } else { st1.lh },
                line: st1.line.push((w, h)),
                done: st1.done,
            }
        }
    }

    /// The areas a build pass produces: the closed lines' areas followed by
    /// the final flush of the line still open.
    pub open spec fn spec_build(self, children: Seq<SizeRequest>, bw: i64) -> Seq<Area> {
        let sizes = spec_min_sizes(children);
        let st = self.spec_build_state(sizes, bw, sizes.len() as int);
        st.done + spec_flush(st.line, self.0, self.4.0, self.2, bw, st.tw, st.ho)
    }

    /// Given an allotted size, lays the children into lines at their
    /// minimum sizes, wrapping when the next child would pass the available
    /// width, and records that width for the next measuring pass.
    pub fn build(&mut self, maximum_size: (i64, i64), children: &Vec<SizeRequest>) -> (r: Vec<Area>)
        requires
            old(self).wf(),
            all_requests_wf(children@),
            children.len() <= MAX_CHILDREN,
            -MAX_DIM * 16 <= maximum_size.0 <= MAX_DIM * 16,
            -MAX_DIM * 16 <= maximum_size.1 <= MAX_DIM * 16,
        ensures
            *final(self) == (Wrap(old(self).0, old(self).1, old(self).2, old(self).3, old(self).4, maximum_size.0)),
            final(self).wf(),
            r@ == old(self).spec_build(children@, maximum_size.0),
            r@.len() == children@.len(),
    {
        let bw = maximum_size.0;
        let ghost sizes = spec_min_sizes(children@);

        let mut areas: Vec<Area> = Vec::new();
        let mut line: Vec<(i64, i64)> = Vec::new();
        let mut tw: i64 = self.4.0;
        let mut ho: i64 = self.4.1;
        let mut lh: i64 = 0;
        let mut i: usize = 0;
        while i < children.len()
            invariant
                0 <= i <= children.len(),
                children.len() <= MAX_CHILDREN,
                self.wf(),
                all_requests_wf(children@),
                sizes == spec_min_sizes(children@),
                bw == maximum_size.0,
                -MAX_DIM * 16 <= bw <= MAX_DIM * 16,
                self.spec_build_state(sizes, bw, i as int) == (WrapState {
                    tw: tw as int,
                    ho: ho as int,
                    lh: lh as int,
                    line: line@,
                    done: areas@,
                }),
                areas@.len() + line@.len() == i,
                forall|k: int| 0 <= k < line@.len()
                    ==> 0 <= #[trigger] line@[k].0 <= MAX_DIM && 0 <= line@[k].1 <= MAX_DIM,
                tw == self.4.0 + spec_line_x(line@, self.0, line@.len() as int),
                self.4.0 <= tw,
                0 <= lh <= MAX_DIM,
                self.4.1 <= ho,
                tw <= self.4.0 + (i as int) * (2 * MAX_DIM as int),
                ho <= self.4.1 + (i as int) * (2 * MAX_DIM as int),
            decreases children.len() - i,
        {
            proof {
                assert(children@[i as int].wf());
                assert(sizes[i as int] == (children@[i as int].min_width, children@[i as int].min_height));
                assert((i + 1 as int) * (2 * MAX_DIM as int) == (i as int) * (2 * MAX_DIM as int) + 2 * MAX_DIM)
                    by (nonlinear_arith);
                assert((i as int) * (2 * MAX_DIM as int) <= 0x10000int * (2 * MAX_DIM as int))
                    by (nonlinear_arith)
                    requires 0 <= i as int <= 0x10000;
            }
            let c = children[i];
            let w = c.min_width;
            let h = c.min_height;
            if tw + w > bw && tw > self.4.0 {
                let flushed = Self::flush(&line, self.0, self.4.0, self.2, bw, tw, ho);
                let mut k: usize = 0;
                let ghost areas_before = areas@;
                while k < flushed.len()
                    invariant
                        0 <= k <= flushed@.len(),
                        areas@ == areas_before + flushed@.take(k as int),
                    decreases flushed@.len() - k,
                {
                    areas.push(flushed[k]);
                    k = k + 1;
                }
                proof {
                    assert(flushed@.take(flushed@.len() as int) =~= flushed@);
                    assert(areas@ == areas_before + flushed@);
                }
                ho = ho + lh + self.1;
                tw = self.4.0;
                lh = 0;
                line = Vec::new();
            }
            let ghost line_before = line@;
            line.push((w, h));
            proof {
                lemma_line_x_agree(line_before, line@, self.0, line_before.len() as int);
                assert forall|k2: int| 0 <= k2 < line@.len() implies
                    0 <= #[trigger] line@[k2].0 <= MAX_DIM && 0 <= line@[k2].1 <= MAX_DIM by {
                    if k2 < line@.len() - 1 {
                        assert(line@[k2] == line_before[k2]);
                    } else {
                        assert(line@[k2] == (w, h));
                    }
                }
            }
            tw = tw + w + self.0;
            if h > lh {
                lh = h;
            }
            i = i + 1;
        }
        let flushed = Self::flush(&line, self.0, self.4.0, self.2, bw, tw, ho);
        let mut k: usize = 0;
        let ghost areas_before = areas@;
        while k < flushed.len()
            invariant
                0 <= k <= flushed@.len(),
                areas@ == areas_before + flushed@.take(k as int),
            decreases flushed@.len() - k,
        {
            areas.push(flushed[k]);
            k = k + 1;
        }
        proof {
            assert(flushed@.take(flushed@.len() as int) =~= flushed@);
            assert(areas@ == areas_before + flushed@);
        }
        self.5 = maximum_size.0;
        areas
    }

    /// Turns one finished line into areas: the horizontal offset policy
    /// places the line within the slack, then each item advances by its
    /// width plus the spacing.
    fn flush(line: &Vec<(i64, i64)>, wsp: i64, pad_l: i64, xoff: Offset, bw: i64, tw: i64, ho: i64) -> (r: Vec<Area>)
        requires
            0 <= wsp <= MAX_DIM,
            0 <= pad_l <= MAX_DIM,
            xoff.wf(),
            -MAX_DIM * 16 <= bw <= MAX_DIM * 16,
            line.len() <= MAX_CHILDREN,
            forall|k: int| 0 <= k < line@.len()
                ==> 0 <= #[trigger] line@[k].0 <= MAX_DIM && 0 <= line@[k].1 <= MAX_DIM,
            tw == pad_l + spec_line_x(line@, wsp, line@.len() as int),
            -MAX_COORD <= ho <= MAX_COORD,
        ensures
            r@ == spec_flush(line@, wsp, pad_l, xoff, bw, tw as int, ho as int),
    {
        let mut r: Vec<Area> = Vec::new();
        if line.len() == 0 {
            proof {
                assert(r@ =~= spec_flush(line@, wsp, pad_l, xoff, bw, tw as int, ho as int));
            }
            return r;
        }
        proof {
            lemma_line_x_bounds(line@, wsp, line@.len() as int);
            assert((line@.len() as int) * (2 * MAX_DIM as int) <= 0x10000int * (2 * MAX_DIM as int))
                by (nonlinear_arith)
                requires 0 <= line@.len() as int <= 0x10000;
        }
        let line_w = tw - wsp - pad_l;
        let extra = if bw - line_w >= 0 { bw - line_w } else { 0 };
        let start_x = match xoff {
            Offset::Start => pad_l,
            Offset::End => pad_l + extra,
            Offset::Center => pad_l + extra / 2,
            Offset::Static(_) => 0,
        };
        let mut j: usize = 0;
        let mut x: i64 = start_x;
        while j < line.len()
            invariant
                0 <= j <= line@.len(),
                line@.len() <= MAX_CHILDREN,
                0 <= wsp <= MAX_DIM,
                forall|k: int| 0 <= k < line@.len()
                    ==> 0 <= #[trigger] line@[k].0 <= MAX_DIM && 0 <= line@[k].1 <= MAX_DIM,
                -MAX_COORD <= start_x <= MAX_COORD,
                x == start_x + spec_line_x(line@, wsp, j as int),
                r@.len() == j,
                forall|k: int| 0 <= k < j ==> #[trigger] r@[k] == (Area {
                    offset: ((start_x + spec_line_x(line@, wsp, k)) as i64, ho),
                    size: line@[k],
                }),
            decreases line@.len() - j,
        {
            proof {
                lemma_line_x_bounds(line@, wsp, j as int);
                lemma_line_x_bounds(line@, wsp, j + 1 as int);
                assert((line@.len() as int) * (2 * MAX_DIM as int) <= 0x10000int * (2 * MAX_DIM as int))
                    by (nonlinear_arith)
                    requires 0 <= line@.len() as int <= 0x10000;
                assert((j as int) * (2 * MAX_DIM as int) <= (line@.len() as int) * (2 * MAX_DIM as int))
                    by (nonlinear_arith)
                    requires 0 <= j as int <= line@.len() as int;
                assert((j + 1 as int) * (2 * MAX_DIM as int) <= (line@.len() as int) * (2 * MAX_DIM as int))
                    by (nonlinear_arith)
                    requires 0 <= j + 1 as int <= line@.len() as int;
            }
            let item = line[j];
            r.push(Area { offset: (x, ho), size: item });
            x = x + item.0 + wsp;
            j = j + 1;
        }
        proof {
            assert(r@ =~= spec_flush(line@, wsp, pad_l, xoff, bw, tw as int, ho as int));
        }
        r
    }
}

/// The reference point scrolling is anchored to: whether the scroll value
/// pushes content away from the start or away from the end.
#[derive(Clone, Copy, Debug, PartialEq, Eq, Structural)]
pub enum ScrollAnchor {
    Start,
    End,
}

/// The axis the scrolling moves along.
#[derive(Clone, Copy, Debug, PartialEq, Eq, Structural)]
pub enum ScrollDirection {
    Horizontal,
    Vertical,
}

/// The widest scroll value the layout carries across frames.
pub const MAX_SCROLL: i64 = 0x1_0000_0000_0000;

/// The children's combined minimum extent along the vertical axis.
pub open spec fn spec_extent_v(children: Seq<SizeRequest>) -> int {
    spec_fold_add(spec_height_bounds(children)).0
}

/// The children's combined minimum extent along the horizontal axis.
pub open spec fn spec_extent_h(children: Seq<SizeRequest>) -> int {
    spec_fold_add(spec_width_bounds(children)).0
}

/// Scrollable arrangement: children keep their own sizes and the whole
/// content shifts along the scroll axis by a clamped scroll value that
/// persists across frames.
#[derive(Clone, Copy, Debug)]
pub struct Scroll {
    pub offset_x: Offset,
    pub offset_y: Offset,
    pub size_x: Size,
    pub size_y: Size,
    pub padding: Padding,
    pub adjustment: i64,
    pub anchor: ScrollAnchor,
    pub direction: ScrollDirection,
}

impl Default for Scroll {
    fn default() -> (r: Self)
        ensures
            r == Scroll::spec_default(),
            r.wf(),
    {
        Scroll::new(Offset::Start, Offset::Start, Size::Fit, Size::Fit, Padding(0, 0, 0, 0), ScrollAnchor::Start, ScrollDirection::Vertical)
    }
}

impl Scroll {
    pub open spec fn spec_default() -> Scroll {
        Scroll {
            offset_x: Offset::Start,
            offset_y: Offset::Start,
            size_x: Size::Fit,
            size_y: Size::Fit,
            padding: Padding(0int as i64, 0int as i64, 0int as i64, 0int as i64),
            adjustment: 0int as i64,
            anchor: ScrollAnchor::Start,
            direction: ScrollDirection::Vertical,
        }
    }

    pub open spec fn wf(self) -> bool {
        &&& self.offset_x.wf()
        &&& self.offset_y.wf()
        &&& self.size_x.wf()
        &&& self.size_y.wf()
        &&& self.padding.wf()
        &&& -MAX_SCROLL <= self.adjustment <= MAX_SCROLL
    }

    pub fn new(
        offset_x: Offset,
        offset_y: Offset,
        size_x: Size,
        size_y: Size,
        padding: Padding,
        anchor: ScrollAnchor,
        direction: ScrollDirection,
    ) -> (r: Self)
        ensures
            r == (Scroll { offset_x, offset_y, size_x, size_y, padding, adjustment: 0int as i64, anchor, direction }),
    {
        Scroll { offset_x, offset_y, size_x, size_y, padding, adjustment: 0, anchor, direction }
    }

    pub fn vertical(offset_x: Offset, offset_y: Offset, size_x: Size, size_y: Size, padding: Padding) -> (r: Self)
        ensures
            r == (Scroll { offset_x, offset_y, size_x, size_y, padding, adjustment: 0int as i64, anchor: ScrollAnchor::Start, direction: ScrollDirection::Vertical }),
    {
        Scroll::new(offset_x, offset_y, size_x, size_y, padding, ScrollAnchor::Start, ScrollDirection::Vertical)
    }

    pub fn horizontal(offset_x: Offset, offset_y: Offset, size_x: Size, size_y: Size, padding: Padding) -> (r: Self)
        ensures
            r == (Scroll { offset_x, offset_y, size_x, size_y, padding, adjustment: 0int as i64, anchor: ScrollAnchor::Start, direction: ScrollDirection::Horizontal }),
    {
        Scroll::new(offset_x, offset_y, size_x, size_y, padding, ScrollAnchor::Start, ScrollDirection::Horizontal)
    }

    /// What one scroll step leaves in the accumulator: the delta added
    /// toward the anchor, saturated into the carried range.
    pub open spec fn spec_adjusted(self, delta: i64) -> int {
        let moved = match self.anchor {
            ScrollAnchor::Start => self.adjustment + delta,
            ScrollAnchor::End => self.adjustment - delta,
        };
        if moved > MAX_SCROLL {
            MAX_SCROLL as int
        } else if moved < -MAX_SCROLL {
            -MAX_SCROLL as int
        } else {
            moved
        }
    }

    /// Moves the scroll accumulator by a delta; which way depends on the
    /// anchor. The next build pass clamps the value into the content range.
    pub fn adjust_scroll(&mut self, delta: i64)
        requires
            old(self).wf(),
            -MAX_DIM <= delta <= MAX_DIM,
        ensures
            *final(self) == (Scroll { adjustment: old(self).spec_adjusted(delta) as i64, ..*old(self) }),
            final(self).wf(),
    {
        let moved = match self.anchor {
            ScrollAnchor::Start => self.adjustment + delta,
            ScrollAnchor::End => self.adjustment - delta,
        };
        self.adjustment = if moved > MAX_SCROLL {
            MAX_SCROLL
        } else if moved < -MAX_SCROLL {
            -MAX_SCROLL
        } else {
            moved
        };
    }

    /// Pins the scroll accumulator to a value.
    pub fn set_scroll(&mut self, val: i64)
        requires
            -MAX_SCROLL <= val <= MAX_SCROLL,
        ensures
            *final(self) == (Scroll { adjustment: val, ..*old(self) }),
    {
        self.adjustment = val;
    }

    /// The request a scroll reports: each axis combined by its sizing
    /// policy, grown by the padding — the same shape a stack reports.
    pub open spec fn spec_request_size(self, children: Seq<SizeRequest>) -> SizeRequest {
        let w = self.size_x.spec_get(spec_width_bounds(children));
        let h = self.size_y.spec_get(spec_height_bounds(children));
        SizeRequest {
            min_width: SizeRequest::spec_grow(w.0, self.padding.spec_wpad() as i64),
            min_height: SizeRequest::spec_grow(h.0, self.padding.spec_hpad() as i64),
            max_width: SizeRequest::spec_grow(w.1, self.padding.spec_wpad() as i64),
            max_height: SizeRequest::spec_grow(h.1, self.padding.spec_hpad() as i64),
        }
    }

    /// Given the children's size requests, calculates the request for the
    /// whole scroll area.
    pub fn request_size(&self, children: &Vec<SizeRequest>) -> (r: SizeRequest)
        requires
            self.wf(),
            all_requests_wf(children@),
        ensures
            r == self.spec_request_size(children@),
            r.wf(),
    {
        let (widths, heights) = split_bounds(children);
        proof {
            self.size_x.lemma_get_wf(widths@);
            self.size_y.lemma_get_wf(heights@);
        }
        let width = self.size_x.get(&widths);
        let height = self.size_y.get(&heights);
        self.padding.adjust_request(SizeRequest::new(width.0, height.0, width.1, height.1))
    }

    /// The padded interior of an allotted size.
    pub open spec fn spec_inner(self, size: (i64, i64)) -> (i64, i64) {
        ((size.0 - self.padding.spec_wpad()) as i64, (size.1 - self.padding.spec_hpad()) as i64)
    }

    /// The largest scroll value the content admits: the content extent past
    /// the viewport, floored at zero.
    pub open spec fn spec_max_scroll(self, size: (i64, i64), children: Seq<SizeRequest>) -> int {
        let inner = self.spec_inner(size);
        let past = match self.direction {
            ScrollDirection::Vertical => spec_extent_v(children) - inner.1,
            ScrollDirection::Horizontal => spec_extent_h(children) - inner.0,
        };
        if past >= 0 {
            past
        } else {
            0int
        }
    }

    /// The scroll value a build pass settles on: the accumulator clamped
    /// into `[0, max_scroll]`.
    pub open spec fn spec_clamped_adjustment(self, size: (i64, i64), children: Seq<SizeRequest>) -> int {
        let hi = self.spec_max_scroll(size, children);
        if self.adjustment < 0 {
            0int
        } else if self.adjustment > hi {
            hi
        } else {
            self.adjustment as int
        }
    }

    /// Where one child lands: its own clamp of the interior, positioned by
    /// the offset policies, with the scroll axis shifted by the clamped
    /// scroll value — away from the anchor.
    pub open spec fn spec_area(self, size: (i64, i64), children: Seq<SizeRequest>, c: SizeRequest) -> Area {
        let inner = self.spec_inner(size);
        let sz = c.spec_get(inner);
        let adj = self.spec_clamped_adjustment(size, children);
        match self.direction {
            ScrollDirection::Vertical => {
                let y = match self.anchor {
                    ScrollAnchor::Start => self.offset_y.spec_get(inner.1, sz.1) - adj,
                    ScrollAnchor::End => inner.1 - spec_extent_v(children) + adj,
                };
                Area {
                    offset: (
                        (self.padding.0 + self.offset_x.spec_get(inner.0, sz.0)) as i64,
                        (self.padding.1 + y) as i64,
                    ),
                    size: sz,
                }
            },
            ScrollDirection::Horizontal => {
                let x = match self.anchor {
                    ScrollAnchor::Start => self.offset_x.spec_get(inner.0, sz.0) - adj,
                    ScrollAnchor::End => inner.0 - spec_extent_h(children) + adj,
                };
                Area {
                    offset: (
                        (self.padding.0 + x) as i64,
                        (self.padding.1 + self.offset_y.spec_get(inner.1, sz.1)) as i64,
                    ),
                    size: sz,
                }
            },
        }
    }

    /// Given an allotted size, clamps the carried scroll value into the
    /// content range and places every child shifted by it along the scroll
    /// axis.
    pub fn build(&mut self, scroll_size: (i64, i64), children: &Vec<SizeRequest>) -> (r: Vec<Area>)
        requires
            old(self).wf(),
            all_requests_wf(children@),
            children.len() <= MAX_CHILDREN,
            -MAX_DIM * 16 <= scroll_size.0 <= MAX_DIM * 16,
            -MAX_DIM * 16 <= scroll_size.1 <= MAX_DIM * 16,
        ensures
            *final(self) == (Scroll {
                adjustment: old(self).spec_clamped_adjustment(scroll_size, children@) as i64,
                ..*old(self)
            }),
            final(self).wf(),
            r.len() == children.len(),
            forall|i: int| 0 <= i < r.len()
                ==> #[trigger] r[i] == old(self).spec_area(scroll_size, children@, children@[i]),
    {
        let ghost me = *self;
        let inner = self.padding.adjust_size(scroll_size);

        // The content extent along the scroll axis: the children's summed
        // minimums.
        let mut extent: i64 = 0;
        let mut k: usize = 0;
        while k < children.len()
            invariant
                0 <= k <= children.len(),
                children.len() <= MAX_CHILDREN,
                all_requests_wf(children@),
                me.direction == self.direction,
                extent == match self.direction {
                    ScrollDirection::Vertical => spec_fold_add(spec_height_bounds(children@.take(k as int))).0,
                    ScrollDirection::Horizontal => spec_fold_add(spec_width_bounds(children@.take(k as int))).0,
                },
                0 <= extent <= (k as int) * (MAX_DIM as int),
                *self == me,
            decreases children.len() - k,
        {
            proof {
                assert(children@[k as int].wf());
                assert(spec_height_bounds(children@.take(k + 1 as int)).drop_last()
                    =~= spec_height_bounds(children@.take(k as int)));
                assert(spec_width_bounds(children@.take(k + 1 as int)).drop_last()
                    =~= spec_width_bounds(children@.take(k as int)));
                assert((k + 1 as int) * (MAX_DIM as int) == (k as int) * (MAX_DIM as int) + MAX_DIM)
                    by (nonlinear_arith);
                assert((k as int) * (MAX_DIM as int) <= 0x10000int * (MAX_DIM as int))
                    by (nonlinear_arith)
                    requires 0 <= k as int <= 0x10000;
            }
            extent = extent + (match self.direction {
                ScrollDirection::Vertical => children[k].min_height(),
                ScrollDirection::Horizontal => children[k].min_width(),
            });
            k = k + 1;
        }
        proof {
            assert(children@.take(children@.len() as int) =~= children@);
            assert(spec_height_bounds(children@.take(children@.len() as int)) =~= spec_height_bounds(children@));
            assert(spec_width_bounds(children@.take(children@.len() as int)) =~= spec_width_bounds(children@));
            assert((0x10000int) * (MAX_DIM as int) <= MAX_SCROLL) by (nonlinear_arith);
        }

        let viewport = match self.direction {
            ScrollDirection::Vertical => inner.1,
            ScrollDirection::Horizontal => inner.0,
        };
        let max_scroll: i64 = if extent - viewport >= 0 { extent - viewport } else { 0 };
        let adj: i64 = if self.adjustment < 0 {
            0
        } else if self.adjustment > max_scroll {
            max_scroll
        } else {
            self.adjustment
        };
        self.adjustment = adj;
        proof {
            assert(adj == me.spec_clamped_adjustment(scroll_size, children@));
        }

        let mut r: Vec<Area> = Vec::new();
        let mut i: usize = 0;
        while i < children.len()
            invariant
                0 <= i <= children.len(),
                all_requests_wf(children@),
                *self == (Scroll { adjustment: adj, ..me }),
                me.wf(),
                inner == me.spec_inner(scroll_size),
                -MAX_DIM * 16 <= scroll_size.0 <= MAX_DIM * 16,
                -MAX_DIM * 16 <= scroll_size.1 <= MAX_DIM * 16,
                extent == match me.direction {
                    ScrollDirection::Vertical => spec_extent_v(children@),
                    ScrollDirection::Horizontal => spec_extent_h(children@),
                },
                0 <= extent <= MAX_SCROLL,
                adj == me.spec_clamped_adjustment(scroll_size, children@),
                0 <= adj <= MAX_SCROLL,
                r@.len() == i,
                forall|j: int| 0 <= j < i
                    ==> #[trigger] r@[j] == me.spec_area(scroll_size, children@, children@[j]),
            decreases children.len() - i,
        {
            proof {
                assert(children@[i as int].wf());
            }
            let sz = children[i].get(inner);
            let offset = match self.direction {
                ScrollDirection::Vertical => {
                    let y = match self.anchor {
                        ScrollAnchor::Start => self.offset_y.get(inner.1, sz.1) - adj,
                        ScrollAnchor::End => inner.1 - extent + adj,
                    };
                    (self.offset_x.get(inner.0, sz.0), y)
                },
                ScrollDirection::Horizontal => {
                    let x = match self.anchor {
                        ScrollAnchor::Start => self.offset_x.get(inner.0, sz.0) - adj,
                        ScrollAnchor::End => inner.0 - extent + adj,
                    };
                    (x, self.offset_y.get(inner.1, sz.1))
                },
            };
            r.push(Area { offset: self.padding.adjust_offset(offset), size: sz });
            i = i + 1;
        }
        r
    }
}

} // verus!
