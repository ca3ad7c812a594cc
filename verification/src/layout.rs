//! Box constraints and resolved placements.
//!
//! A [`SizeRequest`] is the immutable value a drawable reports about itself
//! before space is allotted: a minimum and maximum extent per axis. An
//! [`Area`] is the resolved placement of a node within its parent's local
//! coordinate space after one build pass.

use vstd::prelude::*;

verus! {

/// The largest representable extent, standing in for an unbounded bound.
/// A request whose maximum equals `MAX_DIM` expands without limit.
pub const MAX_DIM: i64 = 0x1_0000_0000;

/// The resolved placement of a node within its parent's local space:
/// an offset and an allotted size, both in logical pixels.
#[derive(Clone, Copy, Debug, PartialEq, Eq)]
pub struct Area {
    pub offset: (i64, i64),
    pub size: (i64, i64),
}

/// A box constraint: the minimum and maximum width and height a drawable
/// is able to occupy. Layouts use it to allocate space.
///
/// Invariant: the minimum never exceeds the maximum on either axis, and all
/// bounds lie in `[0, MAX_DIM]`.
#[derive(Clone, Copy, Debug, PartialEq, Eq, Structural)]
pub struct SizeRequest {
    pub min_width: i64,
    pub min_height: i64,
    pub max_width: i64,
    pub max_height: i64,
}

impl SizeRequest {
    /// The well-formedness of a request: ordered bounds within `[0, MAX_DIM]`.
    pub open spec fn wf(self) -> bool {
        &&& 0 <= self.min_width <= self.max_width <= MAX_DIM
        &&& 0 <= self.min_height <= self.max_height <= MAX_DIM
    }

    pub open spec fn spec_min_width(self) -> i64 {
        self.min_width
    }

    pub open spec fn spec_min_height(self) -> i64 {
        self.min_height
    }

    pub open spec fn spec_max_width(self) -> i64 {
        self.max_width
    }

    pub open spec fn spec_max_height(self) -> i64 {
        self.max_height
    }

    /// Returns the minimum width.
    pub fn min_width(&self) -> (r: i64)
        ensures
            r == self.spec_min_width(),
    {
        self.min_width
    }

    /// Returns the minimum height.
    pub fn min_height(&self) -> (r: i64)
        ensures
            r == self.spec_min_height(),
    {
        self.min_height
    }

    /// Returns the maximum width.
    pub fn max_width(&self) -> (r: i64)
        ensures
            r == self.spec_max_width(),
    {
        self.max_width
    }

    /// Returns the maximum height.
    pub fn max_height(&self) -> (r: i64)
        ensures
            r == self.spec_max_height(),
    {
        self.max_height
    }

    /// Creates a new request. Passing a minimum greater than a maximum is a
    /// programming error, so such inputs are ruled out up front.
    pub fn new(min_width: i64, min_height: i64, max_width: i64, max_height: i64) -> (r: SizeRequest)
        requires
            0 <= min_width <= max_width <= MAX_DIM,
            0 <= min_height <= max_height <= MAX_DIM,
        ensures
            r == (SizeRequest { min_width, min_height, max_width, max_height }),
            r.wf(),
    {
        SizeRequest { min_width, min_height, max_width, max_height }
    }

    /// Creates a fixed-size request where minimum and maximum coincide.
    pub fn fixed(size: (i64, i64)) -> (r: SizeRequest)
        requires
            0 <= size.0 <= MAX_DIM,
            0 <= size.1 <= MAX_DIM,
        ensures
            r.spec_min_width() == size.0 && r.spec_max_width() == size.0,
            r.spec_min_height() == size.1 && r.spec_max_height() == size.1,
            r.wf(),
    {
        SizeRequest { min_width: size.0, min_height: size.1, max_width: size.0, max_height: size.1 }
    }

    /// Creates a request that can expand to fill all available space.
    pub fn fill() -> (r: SizeRequest)
        ensures
            r.spec_min_width() == 0 && r.spec_max_width() == MAX_DIM,
            r.spec_min_height() == 0 && r.spec_max_height() == MAX_DIM,
            r.wf(),
    {
        SizeRequest { min_width: 0, min_height: 0, max_width: MAX_DIM, max_height: MAX_DIM }
    }

    /// What clamping a candidate extent into `[lo, hi]` yields.
    pub open spec fn spec_clamp(lo: i64, hi: i64, x: i64) -> i64 {
        if x < lo {
            lo
        } else if x > hi {
            hi
        } else {
            x
        }
    }

    /// The clamp of a candidate size into this request's bounds, per axis.
    pub open spec fn spec_get(self, size: (i64, i64)) -> (i64, i64) {
        (
            Self::spec_clamp(self.min_width, self.max_width, size.0),
            Self::spec_clamp(self.min_height, self.max_height, size.1),
        )
    }

    /// Clamps a candidate size into this request's bounds.
    pub fn get(&self, size: (i64, i64)) -> (r: (i64, i64))
        requires
            self.wf(),
        ensures
            r == self.spec_get(size),
            self.spec_min_width() <= r.0 <= self.spec_max_width(),
            self.spec_min_height() <= r.1 <= self.spec_max_height(),
    {
        let w = if size.0 < self.min_width {
            self.min_width
        } else if size.0 > self.max_width {
            self.max_width
        } else {
            size.0
        };
        let h = if size.1 < self.min_height {
            self.min_height
        } else if size.1 > self.max_height {
            self.max_height
        } else {
            size.1
        };
        (w, h)
    }

    /// Clamping twice is a no-op after the first: for every candidate size,
    /// re-clamping an already clamped size returns it unchanged.
    pub proof fn lemma_get_idempotent(self, size: (i64, i64))
        requires
            self.wf(),
        ensures
            self.spec_get(self.spec_get(size)) == self.spec_get(size),
    {
    }

    /// What shifting a bound by a fixed amount yields: the sum, saturated at
    /// `MAX_DIM` so that an unbounded bound stays unbounded.
    pub open spec fn spec_grow(bound: i64, amount: i64) -> i64 {
        if bound + amount > MAX_DIM {
            MAX_DIM
        } else {
            (bound + amount) as i64
        }
    }

    /// Returns a new request with both width and height bounds increased.
    pub fn add(&self, w: i64, h: i64) -> (r: SizeRequest)
        requires
            self.wf(),
            0 <= w <= MAX_DIM * 0x40000,
            0 <= h <= MAX_DIM * 0x40000,
        ensures
            r.wf(),
            r.spec_min_width() == Self::spec_grow(self.spec_min_width(), w),
            r.spec_max_width() == Self::spec_grow(self.spec_max_width(), w),
            r.spec_min_height() == Self::spec_grow(self.spec_min_height(), h),
            r.spec_max_height() == Self::spec_grow(self.spec_max_height(), h),
    {
        self.add_width(w).add_height(h)
    }

    /// Returns a new request with the width bounds increased.
    pub fn add_width(&self, w: i64) -> (r: SizeRequest)
        requires
            self.wf(),
            0 <= w <= MAX_DIM * 0x40000,
        ensures
            r.wf(),
            r.spec_min_width() == Self::spec_grow(self.spec_min_width(), w),
            r.spec_max_width() == Self::spec_grow(self.spec_max_width(), w),
            r.spec_min_height() == self.spec_min_height(),
            r.spec_max_height() == self.spec_max_height(),
    {
        let min_width = if self.min_width + w > MAX_DIM { MAX_DIM } else { self.min_width + w };
        let max_width = if self.max_width + w > MAX_DIM { MAX_DIM } else { self.max_width + w };
        SizeRequest { min_width, min_height: self.min_height, max_width, max_height: self.max_height }
    }

    /// Returns a new request with the height bounds increased.
    pub fn add_height(&self, h: i64) -> (r: SizeRequest)
        requires
            self.wf(),
            0 <= h <= MAX_DIM * 0x40000,
        ensures
            r.wf(),
            r.spec_min_height() == Self::spec_grow(self.spec_min_height(), h),
            r.spec_max_height() == Self::spec_grow(self.spec_max_height(), h),
            r.spec_min_width() == self.spec_min_width(),
            r.spec_max_width() == self.spec_max_width(),
    {
        let min_height = if self.min_height + h > MAX_DIM { MAX_DIM } else { self.min_height + h };
        let max_height = if self.max_height + h > MAX_DIM { MAX_DIM } else { self.max_height + h };
        SizeRequest { min_width: self.min_width, min_height, max_width: self.max_width, max_height }
    }

    /// What shrinking a bound by a fixed amount yields, saturated at zero.
    pub open spec fn spec_shrink(bound: i64, amount: i64) -> i64 {
        if bound - amount < 0 {
            0
        } else {
            (bound - amount) as i64
        }
    }

    /// Returns a new request with the height bounds decreased, saturating at
    /// zero so the result stays well-formed.
    pub fn remove_height(&self, h: i64) -> (r: SizeRequest)
        requires
            self.wf(),
            0 <= h,
        ensures
            r.wf(),
            r.spec_min_height() == Self::spec_shrink(self.spec_min_height(), h),
            r.spec_max_height() == Self::spec_shrink(self.spec_max_height(), h),
            r.spec_min_width() == self.spec_min_width(),
            r.spec_max_width() == self.spec_max_width(),
    {
        let min_height = if self.min_height - h < 0 { 0 } else { self.min_height - h };
        let max_height = if self.max_height - h < 0 { 0 } else { self.max_height - h };
        SizeRequest { min_width: self.min_width, min_height, max_width: self.max_width, max_height }
    }

    /// The combined maximum of two requests, per bound.
    pub open spec fn spec_max(self, other: SizeRequest) -> SizeRequest {
        SizeRequest {
            min_width: if self.min_width >= other.min_width { self.min_width } else { other.min_width },
            min_height: if self.min_height >= other.min_height { self.min_height } else { other.min_height },
            max_width: if self.max_width >= other.max_width { self.max_width } else { other.max_width },
            max_height: if self.max_height >= other.max_height { self.max_height } else { other.max_height },
        }
    }

    /// Returns the combined maximum of two requests: the larger of the two
    /// minimums and the larger of the two maximums, per axis. Used when
    /// siblings must agree on the larger of their requirements.
    pub fn max(&self, other: &Self) -> (r: SizeRequest)
        requires
            self.wf(),
            other.wf(),
        ensures
            r == self.spec_max(*other),
            r.wf(),
    {
        SizeRequest {
            min_width: if self.min_width >= other.min_width { self.min_width } else { other.min_width },
            min_height: if self.min_height >= other.min_height { self.min_height } else { other.min_height },
            max_width: if self.max_width >= other.max_width { self.max_width } else { other.max_width },
            max_height: if self.max_height >= other.max_height { self.max_height } else { other.max_height },
        }
    }
}

/// A simple stack layout that overlays children on top of each other at the
/// parent's origin, each clamped into its own bounds.
#[derive(Clone, Copy, Debug)]
pub struct DefaultStack;

impl DefaultStack {
    /// The combined request of a non-empty set of children: the per-bound
    /// maximum over all of them.
    pub open spec fn spec_request_size(children: Seq<SizeRequest>) -> SizeRequest
        decreases children.len(),
    {
        if children.len() <= 1 {
            children[0]
        } else {
            Self::spec_request_size(children.drop_last()).spec_max(children.last())
        }
    }

    /// Given the children's size requests, calculates the request for the
    /// whole layout: the per-bound maximum of all children.
    pub fn request_size(&self, children: &Vec<SizeRequest>) -> (r: SizeRequest)
        requires
            children.len() > 0,
            forall|i: int| 0 <= i < children.len() ==> children[i].wf(),
        ensures
            r == Self::spec_request_size(children@),
            r.wf(),
    {
        let mut r = children[0];
        let mut i: usize = 1;
        while i < children.len()
            invariant
                1 <= i <= children.len(),
                forall|j: int| 0 <= j < children.len() ==> children[j].wf(),
                r == Self::spec_request_size(children@.take(i as int)),
                r.wf(),
            decreases children.len() - i,
        {
            proof {
                assert(children@.take(i + 1 as int).drop_last() =~= children@.take(i as int));
                assert(children@.take(i + 1 as int).last() == children@[i as int]);
            }
            r = r.max(&children[i]);
            i = i + 1;
        }
        proof {
            assert(children@.take(children.len() as int) =~= children@);
        }
        r
    }

    /// Given an allotted size, places every child at the origin with its own
    /// clamp of that size.
    pub fn build(&self, size: (i64, i64), children: &Vec<SizeRequest>) -> (r: Vec<Area>)
        requires
            forall|i: int| 0 <= i < children.len() ==> children[i].wf(),
        ensures
            r.len() == children.len(),
            forall|i: int| 0 <= i < r.len() ==> r[i] == (Area {
                offset: (0int as i64, 0int as i64),
                size: children[i].spec_get(size),
            }),
    {
        let mut r: Vec<Area> = Vec::new();
        let mut i: usize = 0;
        while i < children.len()
            invariant
                0 <= i <= children.len(),
                forall|j: int| 0 <= j < children.len() ==> children[j].wf(),
                r.len() == i,
                forall|j: int| 0 <= j < i ==> r[j] == (Area {
                    offset: (0int as i64, 0int as i64),
                    size: children[j].spec_get(size),
                }),
            decreases children.len() - i,
        {
            let size_i = children[i].get(size);
            r.push(Area { offset: (0, 0), size: size_i });
            i = i + 1;
        }
        r
    }
}

} // verus!
