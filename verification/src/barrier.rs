//! Circular obstacles and the obstacle field.
//!
//! The field is an ordered collection of obstacles with one active-target
//! index, valid whenever the field is nonempty. The clearance query scans
//! obstacles from the active-target index onward, in field order: that scan
//! convention is part of the field's stated behaviour and is preserved
//! exactly.

use vstd::prelude::*;
use vstd::math::min;
use rand::Rng;
use crate::point::{Point, Pose, COORD_LIMIT, DIST_LIMIT};
use crate::fixed::floor_sqrt;

verus! {

/// Bound on obstacle center coordinates; comfortably inside `COORD_LIMIT`,
/// so any pose the planner projects stays within the distance query's range.
pub const CENTER_LIMIT: i64 = 1_000_000_000_000_000;

/// Bound on obstacle radii.
pub const RADIUS_LIMIT: i64 = 1_000_000_000;

/// A circular obstacle: center and radius, fixed at creation.
#[derive(Clone, Copy, PartialEq, Eq, Structural, Debug)]
pub struct Barrier {
    pub point: Point,
    pub radius: i64,
}

/// Relies on rand's `Rng::gen_range` over the inclusive range `lo..=hi`
/// (uniform sampling; panics only on an empty range): the draw lies within
/// the range.
#[verifier::external_body]
fn random_in_range(lo: i64, hi: i64) -> (r: i64)
    requires
        lo <= hi,
    ensures
        lo <= r <= hi,
{
    rand::thread_rng().gen_range(lo..=hi)
}

/// Relies on rand's `Rng::gen_range` over `0..n` (uniform sampling; panics
/// only on an empty range): the drawn index is below `n`.
#[verifier::external_body]
fn random_below(n: usize) -> (r: usize)
    requires
        n > 0,
    ensures
        r < n,
{
    rand::thread_rng().gen_range(0..n)
}

impl Barrier {
    /// Center within `CENTER_LIMIT`, radius within `[0, RADIUS_LIMIT]`.
    pub open spec fn wf(self) -> bool {
        &&& -CENTER_LIMIT <= self.point.x <= CENTER_LIMIT
        &&& -CENTER_LIMIT <= self.point.y <= CENTER_LIMIT
        &&& 0 <= self.radius <= RADIUS_LIMIT
    }

    /// An obstacle at `(x, y)` with the given radius.
    pub fn new(x: i64, y: i64, radius: i64) -> (b: Barrier)
        ensures
            b.point.x == x,
            b.point.y == y,
            b.radius == radius,
    {
        Barrier { point: Point { x, y }, radius }
    }

    /// The obstacle's center.
    pub fn get_point(&self) -> (p: Point)
        ensures
            p == self.point,
    {
        self.point
    }

    /// The floor of the real Euclidean distance from the center to `other`.
    pub fn get_distance(&self, other: Point) -> (d: i64)
        requires
            self.wf(),
            other.bounded(),
        ensures
            d == floor_sqrt(self.point.dist_sq(other)),
            0 <= d <= DIST_LIMIT,
    {
        self.point.get_distance(other)
    }
}

/// The floor of the real distance from an obstacle's center to a point.
pub open spec fn barrier_dist(b: Barrier, p: Point) -> int {
    floor_sqrt(b.point.dist_sq(p))
}

/// The least center distance among `bs[i..]`, scanning in field order.
pub open spec fn min_dist_from(bs: Seq<Barrier>, i: int, p: Point) -> int
    recommends
        0 <= i < bs.len(),
    decreases bs.len() - i,
{
    if i + 1 >= bs.len() {
        barrier_dist(bs[i], p)
    } else {
        min(barrier_dist(bs[i], p), min_dist_from(bs, i + 1, p))
    }
}

/// The obstacle field: a fixed, nonempty, ordered collection of obstacles
/// plus the index of the current active target. Only target reselection
/// mutates it.
pub struct BarrierManager {
    pub barriers: Vec<Barrier>,
    pub target_idx: usize,
    pub window_width: i64,
    pub window_height: i64,
}

impl BarrierManager {
    /// Nonempty field, valid target index, every obstacle well-formed.
    pub open spec fn wf(self) -> bool {
        &&& self.barriers@.len() > 0
        &&& (self.target_idx as int) < self.barriers@.len()
        &&& forall|i: int|
            0 <= i < self.barriers@.len() ==> (#[trigger] self.barriers@[i]).wf()
    }

    /// The active-target index.
    pub open spec fn target_index(self) -> int {
        self.target_idx as int
    }

    /// A field of `size` obstacles of one radius, centers drawn uniformly at
    /// random inside the window with the radius as a margin, and a random
    /// active target.
    pub fn new(size: usize, radius: i64, window_width: i64, window_height: i64) -> (bm:
        BarrierManager)
        requires
            size > 0,
            0 <= radius <= RADIUS_LIMIT,
            radius <= window_width - radius,
            radius <= window_height - radius,
            0 <= window_width <= CENTER_LIMIT,
            0 <= window_height <= CENTER_LIMIT,
        ensures
            bm.wf(),
            bm.barriers@.len() == size,
            forall|i: int|
                0 <= i < size ==> (#[trigger] bm.barriers@[i]).radius == radius
                    && radius <= bm.barriers@[i].point.x <= window_width - radius
                    && radius <= bm.barriers@[i].point.y <= window_height - radius,
    {
        let mut barriers: Vec<Barrier> = Vec::new();
        let mut k: usize = 0;
        while k < size
            invariant
                k <= size,
                barriers@.len() == k,
                0 <= radius <= RADIUS_LIMIT,
                radius <= window_width - radius,
                radius <= window_height - radius,
                0 <= window_width <= CENTER_LIMIT,
                0 <= window_height <= CENTER_LIMIT,
                forall|i: int|
                    0 <= i < k ==> (#[trigger] barriers@[i]).radius == radius
                        && radius <= barriers@[i].point.x <= window_width - radius
                        && radius <= barriers@[i].point.y <= window_height - radius,
            decreases size - k,
        {
            let x = random_in_range(radius, window_width - radius);
            let y = random_in_range(radius, window_height - radius);
            barriers.push(Barrier::new(x, y, radius));
            k = k + 1;
        }
        let target_idx = random_below(size);
        proof {
            assert(forall|i: int|
                0 <= i < size ==> (#[trigger] barriers@[i]).wf());
        }
        BarrierManager { barriers, target_idx, window_width, window_height }
    }

    /// The least center distance from the pose's position to any obstacle at
    /// or after the active-target index, in field order.
    pub fn get_shortest_to_barrier(&self, position: Pose) -> (d: i64)
        requires
            self.wf(),
            position.bounded(),
        ensures
            d == min_dist_from(self.barriers@, self.target_index(), position.position),
            0 <= d <= DIST_LIMIT,
    {
        let len = self.barriers.len();
        let mut i: usize = len;
        let mut best: i64 = i64::MAX;
        while i > self.target_idx
            invariant
                self.wf(),
                position.bounded(),
                self.target_idx <= i <= len,
                len == self.barriers@.len(),
                i < len ==> best == min_dist_from(self.barriers@, i as int, position.position)
                    && 0 <= best <= DIST_LIMIT,
                i == len ==> best == i64::MAX,
            decreases i,
        {
            i = i - 1;
            let d = self.barriers[i].get_distance(position.position);
            if d < best {
                best = d;
            }
        }
        best
    }

    /// The number of obstacles, fixed after construction.
    pub fn get_size(&self) -> (n: usize)
        ensures
            n == self.barriers@.len(),
    {
        self.barriers.len()
    }

    /// Reselect the active target uniformly at random over the whole field
    /// (the previous target is not excluded). Nothing else changes.
    pub fn set_random_as_target(&mut self)
        requires
            old(self).wf(),
        ensures
            final(self).wf(),
            final(self).barriers@ == old(self).barriers@,
            final(self).target_index() < final(self).barriers@.len(),
            final(self).window_width == old(self).window_width,
            final(self).window_height == old(self).window_height,
    {
        let n = self.get_size();
        self.target_idx = random_below(n);
    }

    /// The active target obstacle.
    pub fn get_target(&self) -> (b: Barrier)
        requires
            self.wf(),
        ensures
            b == self.barriers@[self.target_index()],
    {
        self.barriers[self.target_idx]
    }
}

} // verus!
