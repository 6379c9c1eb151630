//! Geometry primitives: a 2D point and a pose (position plus heading), with
//! the Euclidean distance query the planner scores with.
//!
//! Coordinates are `i64` values in thousandths of a unit. Distances are the
//! floor of the real Euclidean distance, which `fixed::floor_sqrt` pins down
//! exactly; comparing such a distance against an integer threshold decides
//! the real-valued comparison exactly (`fixed::lemma_floor_sqrt_lt`).

use vstd::prelude::*;
use crate::fixed::{floor_sqrt, is_floor_sqrt, isqrt, lemma_floor_sqrt};

verus! {

/// Magnitude bound on coordinates fed to the distance query: squared
/// distances of such coordinates fit comfortably in 128 bits.
pub const COORD_LIMIT: i64 = 1_000_000_000_000_000_000;

/// Any distance between coordinates within `COORD_LIMIT` lies below this.
pub const DIST_LIMIT: i64 = 3_000_000_000_000_000_000;

/// A position on the plane, in thousandths of a unit.
#[derive(Clone, Copy, PartialEq, Eq, Structural, Debug)]
pub struct Point {
    pub x: i64,
    pub y: i64,
}

/// A position plus a heading in thousandths of a radian, unbounded (no
/// forced normalization).
#[derive(Clone, Copy, PartialEq, Eq, Structural, Debug)]
pub struct Pose {
    pub position: Point,
    pub orientation: i64,
}

/// The squared Euclidean distance between two coordinate pairs.
pub open spec fn sq_dist(ax: int, ay: int, bx: int, by: int) -> int {
    (ax - bx) * (ax - bx) + (ay - by) * (ay - by)
}

impl Point {
    /// Both coordinates within `COORD_LIMIT`.
    pub open spec fn bounded(self) -> bool {
        -COORD_LIMIT <= self.x <= COORD_LIMIT && -COORD_LIMIT <= self.y <= COORD_LIMIT
    }

    /// The squared Euclidean distance to `other`.
    pub open spec fn dist_sq(self, other: Point) -> int {
        sq_dist(self.x as int, self.y as int, other.x as int, other.y as int)
    }

    /// The floor of the real Euclidean distance to `other`.
    pub fn get_distance(&self, other: Point) -> (d: i64)
        requires
            self.bounded(),
            other.bounded(),
        ensures
            d == floor_sqrt(self.dist_sq(other)),
            is_floor_sqrt(self.dist_sq(other), d as int),
            0 <= d <= DIST_LIMIT,
    {
        let dx: i128 = self.x as i128 - other.x as i128;
        let dy: i128 = self.y as i128 - other.y as i128;
        proof {
            assert(0 <= dx * dx <= 4_000_000_000_000_000_000_000_000_000_000_000_000 && 0 <= dy
                * dy <= 4_000_000_000_000_000_000_000_000_000_000_000_000) by (nonlinear_arith)
                requires
                    -2_000_000_000_000_000_000 <= dx <= 2_000_000_000_000_000_000,
                    -2_000_000_000_000_000_000 <= dy <= 2_000_000_000_000_000_000,
            ;
        }
        let s: u128 = (dx * dx + dy * dy) as u128;
        let r = isqrt(s);
        proof {
            lemma_floor_sqrt(s as int, r as int);
            assert(r <= DIST_LIMIT) by (nonlinear_arith)
                requires
                    0 <= r,
                    r * r <= 8_000_000_000_000_000_000_000_000_000_000_000_000,
            ;
        }
        r as i64
    }
}

impl Pose {
    /// Position within `COORD_LIMIT`.
    pub open spec fn bounded(self) -> bool {
        self.position.bounded()
    }

    /// The floor of the real Euclidean distance between the two positions.
    pub fn get_distance(&self, other: Pose) -> (d: i64)
        requires
            self.bounded(),
            other.bounded(),
        ensures
            d == floor_sqrt(self.position.dist_sq(other.position)),
            is_floor_sqrt(self.position.dist_sq(other.position), d as int),
            0 <= d <= DIST_LIMIT,
    {
        self.position.get_distance(other.position)
    }

    /// The pose's position.
    pub fn to_point(&self) -> (p: Point)
        ensures
            p == self.position,
    {
        self.position
    }
}

} // verus!
