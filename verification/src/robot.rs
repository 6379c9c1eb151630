//! The motion planner: differential-drive kinematic prediction, the bounded
//! dynamic-window search over wheel-velocity commands, the bounded pose
//! history, and target-arrival detection.
//!
//! Velocities, distances and radii are `i64` values in thousandths of a
//! unit; angles in thousandths of a radian; time in thousandths of a second.
//! Carrying thousandths makes the model's three-decimal velocity comparisons
//! exact integer equalities, and every kinematic step is a stated integer
//! formula (`predicted_x` and friends) that `predict` returns exactly.

use vstd::prelude::*;
use crate::fixed::{
    div_trunc, div_t, sin_milli, cos_milli, fxp_sin, fxp_cos, floor_sqrt, lemma_floor_sqrt_lt,
    lemma_div_trunc_bound, lemma_div_trunc_div_bound, lemma_mul_bound,
};
use crate::point::{Point, Pose, DIST_LIMIT};
use crate::barrier::{Barrier, BarrierManager, min_dist_from};

verus! {

/// Bound on pose coordinates and heading accepted by the planner's own
/// arithmetic; predictions stay well inside the distance query's range.
pub const POSE_LIMIT: i64 = 1_000_000_000_000_000;

/// Bound on wheel velocities fed to prediction.
pub const VEL_LIMIT: i64 = 10_000_000;

/// Bound on a time step.
pub const DT_LIMIT: i64 = 1_000_000;

/// Bound on the agent's collision radius.
pub const SIZE_LIMIT: i64 = 1_000_000;

/// Bound on the agent's speed and acceleration limits.
pub const PARAM_LIMIT: i64 = 1_000_000;

/// Bound on the cost weights.
pub const WEIGHT_LIMIT: i64 = 1_000_000_000;

/// Bound on the clearance threshold.
pub const SAFE_LIMIT: i64 = 1_000_000_000_000;

/// A prediction moves a coordinate by no more than this.
pub const DISP_LIMIT: i64 = 100_000_000_000_000_000;

/// A prediction turns the heading by no more than this.
pub const DTHETA_LIMIT: i64 = 100_000_000_000_000;

/// How many past poses the history keeps before evicting the oldest.
pub const HISTORY_CAP: usize = 300;

/// How one kinematic prediction moved the agent, for downstream depiction:
/// a signed straight-line distance, a pure rotation, or an arc described by
/// its signed turning radius and start/stop sweep angles.
#[derive(Clone, Copy, PartialEq, Eq, Structural, Debug)]
pub enum Motion {
    GENERAL(i64, i64, i64),
    TRANSLATION(i64),
    ROTATION(i64),
}

/// The cost configuration of the planner search.
#[derive(Clone, Copy, PartialEq, Eq, Structural, Debug)]
pub struct DwaWeight {
    pub obstacle_weight: i64,
    pub safe_distance: i64,
    pub fwd_weight: i64,
}

/// The differential-drive agent: fixed collision radius and speed and
/// acceleration limits, the current pose, the bounded pose history, and the
/// candidate motions of the most recent planning call.
pub struct Robot {
    pub size_radius: i64,
    pub max_velocity: i64,
    pub max_acceleration: i64,
    pub pose: Pose,
    pub location_history: Vec<Pose>,
    pub dwa_path: Vec<Motion>,
}

// ---------------------------------------------------------------------------
// The kinematic model: what one prediction returns, as integer formulas.
// ---------------------------------------------------------------------------

/// Straight-line distance travelled at velocity `l` for `dt`.
pub open spec fn trans_dist(l: int, dt: int) -> int {
    div_trunc(l * dt, 1000)
}

/// Straight-line x displacement along heading `th`.
pub open spec fn straight_dx(l: int, dt: int, th: int) -> int {
    div_trunc(l * dt * cos_milli(th), 1000000)
}

/// Straight-line y displacement along heading `th`.
pub open spec fn straight_dy(l: int, dt: int, th: int) -> int {
    div_trunc(l * dt * sin_milli(th), 1000000)
}

/// Heading change of a pure in-place turn: `(l - r) dt / (2 R)`.
pub open spec fn turn_dtheta(l: int, r: int, dt: int, rad: int) -> int {
    div_trunc((l - r) * dt, 2 * rad)
}

/// Signed turning radius of the general arc: `R (l + r) / (r - l)`.
pub open spec fn arc_radius(l: int, r: int, rad: int) -> int {
    div_trunc(rad * (l + r), r - l)
}

/// Heading change along the arc: `(r - l) dt / (2 R)`.
pub open spec fn arc_dtheta(l: int, r: int, dt: int, rad: int) -> int {
    div_trunc((r - l) * dt, 2 * rad)
}

/// Arc x displacement: the turning-center-relative offset rotated by the
/// heading change.
pub open spec fn arc_dx(l: int, r: int, dt: int, rad: int, th: int) -> int {
    div_trunc(arc_radius(l, r, rad) * (sin_milli(th + arc_dtheta(l, r, dt, rad)) - sin_milli(th)),
        1000)
}

/// Arc y displacement (subtracted from the y coordinate).
pub open spec fn arc_dy(l: int, r: int, dt: int, rad: int, th: int) -> int {
    div_trunc(arc_radius(l, r, rad) * (cos_milli(th + arc_dtheta(l, r, dt, rad)) - cos_milli(th)),
        1000)
}

/// Start sweep angle of the arc: a quarter turn from the heading, pulled
/// back a half turn when the turning radius is positive.
pub open spec fn arc_start(l: int, r: int, dt: int, rad: int, th: int) -> int {
    if arc_radius(l, r, rad) > 0 {
        th + 1571 - 3142
    } else {
        th + 1571
    }
}

/// The predicted x coordinate: straight line on equal velocities, in place
/// on opposite velocities, otherwise the arc.
pub open spec fn predicted_x(pose: Pose, rad: int, l: int, r: int, dt: int) -> int {
    if l == r {
        pose.position.x + straight_dx(l, dt, pose.orientation as int)
    } else if l == -r {
        pose.position.x as int
    } else {
        pose.position.x + arc_dx(l, r, dt, rad, pose.orientation as int)
    }
}

/// The predicted y coordinate.
pub open spec fn predicted_y(pose: Pose, rad: int, l: int, r: int, dt: int) -> int {
    if l == r {
        pose.position.y + straight_dy(l, dt, pose.orientation as int)
    } else if l == -r {
        pose.position.y as int
    } else {
        pose.position.y - arc_dy(l, r, dt, rad, pose.orientation as int)
    }
}

/// The predicted heading.
pub open spec fn predicted_theta(pose: Pose, rad: int, l: int, r: int, dt: int) -> int {
    if l == r {
        pose.orientation as int
    } else if l == -r {
        pose.orientation + turn_dtheta(l, r, dt, rad)
    } else {
        pose.orientation + arc_dtheta(l, r, dt, rad)
    }
}

/// The motion descriptor of one prediction: exactly one of the three
/// variants, chosen by comparing the wheel velocities.
pub open spec fn predicted_motion(pose: Pose, rad: int, l: int, r: int, dt: int) -> Motion {
    if l == r {
        Motion::TRANSLATION(trans_dist(l, dt) as i64)
    } else if l == -r {
        Motion::ROTATION(0)
    } else {
        Motion::GENERAL(
            arc_radius(l, r, rad) as i64,
            arc_start(l, r, dt, rad, pose.orientation as int) as i64,
            (arc_start(l, r, dt, rad, pose.orientation as int) + arc_dtheta(l, r, dt, rad)) as i64,
        )
    }
}

// ---------------------------------------------------------------------------
// The dynamic-window search model: candidates, feasibility, benefit.
// ---------------------------------------------------------------------------

/// The per-wheel velocity step one tick of acceleration allows.
pub open spec fn dwa_delta(acc: int, dt: int) -> int {
    div_trunc(acc * dt, 1000)
}

/// The left velocity of candidate `i` (of 9, in canonical order: left index
/// varies slowest).
pub open spec fn cand_l(prev: int, delta: int, i: int) -> int {
    if i < 3 {
        prev - delta
    } else if i < 6 {
        prev
    } else {
        prev + delta
    }
}

/// The right velocity of candidate `i`.
pub open spec fn cand_r(prev: int, delta: int, i: int) -> int {
    if i % 3 == 0 {
        prev - delta
    } else if i % 3 == 1 {
        prev
    } else {
        prev + delta
    }
}

/// Candidate `i` survives the speed filter: neither wheel's magnitude
/// exceeds the agent's speed limit.
pub open spec fn cand_feasible(maxv: int, prevl: int, prevr: int, delta: int, i: int) -> bool {
    &&& -maxv <= cand_l(prevl, delta, i) <= maxv
    &&& -maxv <= cand_r(prevr, delta, i) <= maxv
}

/// The pose candidate `i` is predicted to reach over the look-ahead horizon.
pub open spec fn cand_point(
    pose: Pose,
    rad: int,
    prevl: int,
    prevr: int,
    delta: int,
    dtt: int,
    i: int,
) -> Point {
    Point {
        x: predicted_x(pose, rad, cand_l(prevl, delta, i), cand_r(prevr, delta, i), dtt) as i64,
        y: predicted_y(pose, rad, cand_l(prevl, delta, i), cand_r(prevr, delta, i), dtt) as i64,
    }
}

/// The motion descriptor of candidate `i` over the look-ahead horizon.
pub open spec fn cand_motion(
    pose: Pose,
    rad: int,
    prevl: int,
    prevr: int,
    delta: int,
    dtt: int,
    i: int,
) -> Motion {
    predicted_motion(pose, rad, cand_l(prevl, delta, i), cand_r(prevr, delta, i), dtt)
}

/// The score of candidate `i`: weighted progress toward the target, minus an
/// obstacle penalty when the projected clearance (to the nearest obstacle at
/// or after the active-target index) falls below the clearance threshold.
pub open spec fn cand_benefit(
    pose: Pose,
    rad: int,
    bs: Seq<Barrier>,
    tidx: int,
    target: Point,
    w: DwaWeight,
    prevl: int,
    prevr: int,
    delta: int,
    dtt: int,
    i: int,
) -> int {
    let np = cand_point(pose, rad, prevl, prevr, delta, dtt, i);
    let clearance = min_dist_from(bs, tidx, np);
    let dold = floor_sqrt(pose.position.dist_sq(target));
    let dnew = floor_sqrt(np.dist_sq(target));
    let fwd = w.fwd_weight * (dold - dnew);
    let pen = if clearance < w.safe_distance {
        w.obstacle_weight * (w.safe_distance - clearance)
    } else {
        0
    };
    fwd - pen
}

/// The motions of the feasible candidates below `upto`, in canonical order:
/// what the planning call leaves behind for depiction.
pub open spec fn dwa_motions(
    pose: Pose,
    rad: int,
    maxv: int,
    prevl: int,
    prevr: int,
    delta: int,
    dtt: int,
    upto: int,
) -> Seq<Motion>
    decreases upto,
{
    if upto <= 0 {
        Seq::empty()
    } else {
        let prev = dwa_motions(pose, rad, maxv, prevl, prevr, delta, dtt, upto - 1);
        if cand_feasible(maxv, prevl, prevr, delta, upto - 1) {
            prev.push(cand_motion(pose, rad, prevl, prevr, delta, dtt, upto - 1))
        } else {
            prev
        }
    }
}

/// Advancing the history: append the departing pose, evict the oldest entry
/// once the capacity is exceeded.
pub open spec fn history_step(h: Seq<Pose>, p: Pose) -> Seq<Pose> {
    let h2 = h.push(p);
    if h2.len() > 300 {
        h2.subrange(1, h2.len() as int)
    } else {
        h2
    }
}

/// The history after committing each pose of `ps` in turn.
pub open spec fn history_after(h: Seq<Pose>, ps: Seq<Pose>) -> Seq<Pose>
    decreases ps.len(),
{
    if ps.len() == 0 {
        h
    } else {
        history_after(history_step(h, ps[0]), ps.drop_first())
    }
}

/// Law: the bounded history is a sliding window. Committing any sequence of
/// poses leaves exactly the newest 300 of everything ever recorded: the
/// history becomes the tail of `h + ps` past its first `len - 300` entries.
/// In particular, 301 commits into a one-entry history leave exactly 300
/// entries, the oldest ones evicted.
pub proof fn lemma_history_window(h: Seq<Pose>, ps: Seq<Pose>)
    requires
        h.len() <= 300,
    ensures
        history_after(h, ps).len() == if h.len() + ps.len() <= 300 {
            h.len() + ps.len()
        } else {
            300nat
        },
        history_after(h, ps) == (h + ps).skip(
            if h.len() + ps.len() <= 300 {
                0
            } else {
                h.len() + ps.len() - 300
            },
        ),
    decreases ps.len(),
{
    if ps.len() == 0 {
        assert(history_after(h, ps) == h);
        assert((h + ps).skip(0) =~= h);
    } else {
        let h1 = history_step(h, ps[0]);
        let ps1 = ps.drop_first();
        lemma_history_window(h1, ps1);
        if h.len() + 1 > 300 {
            assert(h.len() == 300);
            assert(h1 =~= (h + ps).subrange(1, h.len() as int + 1));
            assert(h1 + ps1 =~= (h + ps).skip(1));
            if ps.len() == 1 {
                assert(history_after(h, ps) == history_after(h1, ps1));
                assert((h1 + ps1).skip(0) =~= h1 + ps1);
                assert((h + ps).skip(1) =~= (h + ps).skip(
                    h.len() + ps.len() - 300));
            } else {
                let s1 = h1.len() + ps1.len() - 300;
                assert(history_after(h1, ps1) == (h1 + ps1).skip(s1));
                assert((h1 + ps1).skip(s1) =~= (h + ps).skip(
                    h.len() + ps.len() - 300));
            }
        } else {
            assert(h1 =~= h.push(ps[0]));
            assert(h1 + ps1 =~= h + ps);
        }
    }
}

/// Law: equal wheel velocities translate purely along the current heading —
/// the displacement is the commanded distance resolved through the heading's
/// cosine and sine — and leave the heading unchanged.
pub proof fn lemma_equal_velocities_translate(pose: Pose, rad: int, v: int, dt: int)
    ensures
        predicted_x(pose, rad, v, v, dt) == pose.position.x + straight_dx(v, dt,
            pose.orientation as int),
        predicted_y(pose, rad, v, v, dt) == pose.position.y + straight_dy(v, dt,
            pose.orientation as int),
        predicted_theta(pose, rad, v, v, dt) == pose.orientation,
        predicted_motion(pose, rad, v, v, dt) == Motion::TRANSLATION(trans_dist(v, dt) as i64),
{
}

/// Law: opposite wheel velocities leave the position exactly unchanged and
/// advance the heading by `(l - r) dt / (2 R)`.
pub proof fn lemma_opposite_velocities_rotate(pose: Pose, rad: int, v: int, dt: int)
    requires
        rad >= 1,
    ensures
        predicted_x(pose, rad, v, -v, dt) == pose.position.x,
        predicted_y(pose, rad, v, -v, dt) == pose.position.y,
        predicted_theta(pose, rad, v, -v, dt) == pose.orientation + turn_dtheta(v, -v, dt, rad),
{
    if v == 0 {
        lemma_div_trunc_bound(0 * dt * cos_milli(pose.orientation as int), 1000000, 0);
        lemma_div_trunc_bound(0 * dt * sin_milli(pose.orientation as int), 1000000, 0);
        lemma_div_trunc_bound((0 - 0) * dt, 2 * rad, 0);
    }
}

/// Law: the zero command is a fixed point of prediction — predicting with
/// both wheels at zero leaves the pose exactly unchanged, so a second
/// prediction from the result changes nothing either.
pub proof fn lemma_zero_velocities_fix_pose(pose: Pose, rad: int, dt: int)
    ensures
        predicted_x(pose, rad, 0, 0, dt) == pose.position.x,
        predicted_y(pose, rad, 0, 0, dt) == pose.position.y,
        predicted_theta(pose, rad, 0, 0, dt) == pose.orientation,
        predicted_motion(pose, rad, 0, 0, dt) == Motion::TRANSLATION(0),
{
    lemma_div_trunc_bound(0 * dt * cos_milli(pose.orientation as int), 1000000, 0);
    lemma_div_trunc_bound(0 * dt * sin_milli(pose.orientation as int), 1000000, 0);
    lemma_div_trunc_bound(0 * dt, 1000, 0);
}

/// Law: when the previous command already obeys the speed limit, the window
/// contains the unchanged command, so the planner never falls back to the
/// zero command and never steps either wheel by more than one tick of
/// acceleration.
pub proof fn lemma_hold_candidate_feasible(maxv: int, prevl: int, prevr: int, delta: int)
    requires
        -maxv <= prevl <= maxv,
        -maxv <= prevr <= maxv,
    ensures
        cand_feasible(maxv, prevl, prevr, delta, 4),
{
}

impl Robot {
    /// The left velocity of candidate `i` of this agent's window around the
    /// previous command.
    pub open spec fn dwa_cand_l(self, prevl: int, dt: int, i: int) -> int {
        cand_l(prevl, dwa_delta(self.max_acceleration as int, dt), i)
    }

    /// The right velocity of candidate `i`.
    pub open spec fn dwa_cand_r(self, prevr: int, dt: int, i: int) -> int {
        cand_r(prevr, dwa_delta(self.max_acceleration as int, dt), i)
    }

    /// Candidate `i` passes this agent's speed filter.
    pub open spec fn dwa_feasible(self, prevl: int, prevr: int, dt: int, i: int) -> bool {
        cand_feasible(self.max_velocity as int, prevl, prevr,
            dwa_delta(self.max_acceleration as int, dt), i)
    }

    /// The score of candidate `i` against the field's active target, over
    /// the look-ahead horizon `dtt`.
    pub open spec fn dwa_benefit(
        self,
        bm: BarrierManager,
        w: DwaWeight,
        prevl: int,
        prevr: int,
        dt: int,
        dtt: int,
        i: int,
    ) -> int {
        cand_benefit(self.pose, self.size_radius as int, bm.barriers@, bm.target_index(),
            bm.barriers@[bm.target_index()].point, w, prevl, prevr,
            dwa_delta(self.max_acceleration as int, dt), dtt, i)
    }

    /// The candidate motions one planning call leaves behind.
    pub open spec fn dwa_path_model(self, prevl: int, prevr: int, dt: int, dtt: int) -> Seq<
        Motion,
    > {
        dwa_motions(self.pose, self.size_radius as int, self.max_velocity as int, prevl, prevr,
            dwa_delta(self.max_acceleration as int, dt), dtt, 9)
    }

    /// `cmd` is the command of candidate `j`, `j` scores at least as well as
    /// every feasible candidate, and strictly better than every feasible
    /// candidate before it: the first-wins argmax of the window.
    pub open spec fn dwa_choice_at(
        self,
        bm: BarrierManager,
        w: DwaWeight,
        prevl: int,
        prevr: int,
        dt: int,
        dtt: int,
        j: int,
        cmd: (i64, i64),
    ) -> bool {
        &&& 0 <= j < 9
        &&& self.dwa_feasible(prevl, prevr, dt, j)
        &&& cmd.0 == self.dwa_cand_l(prevl, dt, j)
        &&& cmd.1 == self.dwa_cand_r(prevr, dt, j)
        &&& forall|k: int|
            0 <= k < 9 && #[trigger] self.dwa_feasible(prevl, prevr, dt, k) ==> self.dwa_benefit(
                bm, w, prevl, prevr, dt, dtt, k) <= self.dwa_benefit(bm, w, prevl, prevr, dt, dtt,
                j)
        &&& forall|k: int|
            0 <= k < j && #[trigger] self.dwa_feasible(prevl, prevr, dt, k) ==> self.dwa_benefit(
                bm, w, prevl, prevr, dt, dtt, k) < self.dwa_benefit(bm, w, prevl, prevr, dt, dtt,
                j)
    }

    /// Fixed parameters within their machine bounds and the history within
    /// its capacity.
    pub open spec fn wf(self) -> bool {
        &&& 1 <= self.size_radius <= SIZE_LIMIT
        &&& 0 <= self.max_velocity <= PARAM_LIMIT
        &&& 0 <= self.max_acceleration <= PARAM_LIMIT
        &&& self.location_history@.len() <= HISTORY_CAP
    }

    /// The pose is within the planner's arithmetic bounds.
    pub open spec fn pose_in_range(self) -> bool {
        &&& -POSE_LIMIT <= self.pose.position.x <= POSE_LIMIT
        &&& -POSE_LIMIT <= self.pose.position.y <= POSE_LIMIT
        &&& -POSE_LIMIT <= self.pose.orientation <= POSE_LIMIT
    }

    /// An agent at `start_pose` with the given fixed parameters, a history
    /// holding only the start pose, and no candidate motions yet.
    pub fn new(size_radius: i64, max_velocity: i64, max_acceleration: i64, start_pose: Pose) -> (r:
        Robot)
        requires
            1 <= size_radius <= SIZE_LIMIT,
            0 <= max_velocity <= PARAM_LIMIT,
            0 <= max_acceleration <= PARAM_LIMIT,
        ensures
            r.wf(),
            r.size_radius == size_radius,
            r.max_velocity == max_velocity,
            r.max_acceleration == max_acceleration,
            r.pose == start_pose,
            r.location_history@ == seq![start_pose],
            r.dwa_path@ == Seq::<Motion>::empty(),
    {
        let mut history: Vec<Pose> = Vec::new();
        history.push(start_pose);
        proof {
            assert(history@ =~= seq![start_pose]);
        }
        Robot {
            size_radius,
            max_velocity,
            max_acceleration,
            pose: start_pose,
            location_history: history,
            dwa_path: Vec::new(),
        }
    }

    /// One kinematic prediction: from the current pose, the pose after `dt`
    /// under wheel velocities `(left_v, right_v)`, plus the motion
    /// descriptor. Pure: the agent is not changed. Equal velocities
    /// translate along the heading; opposite velocities turn in place;
    /// anything else follows a circular arc. The velocity comparisons are
    /// exact because velocities are carried in thousandths.
    pub fn predict(&self, left_v: i64, right_v: i64, dt: i64) -> (res: (Pose, Motion))
        requires
            self.wf(),
            self.pose_in_range(),
            -VEL_LIMIT <= left_v <= VEL_LIMIT,
            -VEL_LIMIT <= right_v <= VEL_LIMIT,
            1 <= dt <= DT_LIMIT,
        ensures
            res.0.position.x == predicted_x(self.pose, self.size_radius as int, left_v as int,
                right_v as int, dt as int),
            res.0.position.y == predicted_y(self.pose, self.size_radius as int, left_v as int,
                right_v as int, dt as int),
            res.0.orientation == predicted_theta(self.pose, self.size_radius as int, left_v as int,
                right_v as int, dt as int),
            res.1 == predicted_motion(self.pose, self.size_radius as int, left_v as int,
                right_v as int, dt as int),
            -DISP_LIMIT <= res.0.position.x - self.pose.position.x <= DISP_LIMIT,
            -DISP_LIMIT <= res.0.position.y - self.pose.position.y <= DISP_LIMIT,
            -DTHETA_LIMIT <= res.0.orientation - self.pose.orientation <= DTHETA_LIMIT,
    {
        let th = self.pose.orientation;
        if left_v == right_v {
            let cs = fxp_cos(th);
            let sn = fxp_sin(th);
            proof {
                lemma_mul_bound(left_v as int, dt as int, VEL_LIMIT as int, DT_LIMIT as int);
            }
            let numd: i128 = left_v as i128 * dt as i128;
            proof {
                lemma_mul_bound(numd as int, cs as int, 10_000_000_000_000, 1000);
                lemma_mul_bound(numd as int, sn as int, 10_000_000_000_000, 1000);
                lemma_div_trunc_bound(numd * cs, 1000000, 10_000_000_000_000_000);
                lemma_div_trunc_bound(numd * sn, 1000000, 10_000_000_000_000_000);
                lemma_div_trunc_bound(numd as int, 1000, 10_000_000_000_000);
            }
            let dx = div_t(numd * cs as i128, 1000000) as i64;
            let dy = div_t(numd * sn as i128, 1000000) as i64;
            let dist = div_t(numd, 1000) as i64;
            let new_pose = Pose {
                position: Point { x: self.pose.position.x + dx, y: self.pose.position.y + dy },
                orientation: th,
            };
            (new_pose, Motion::TRANSLATION(dist))
        } else if left_v == -right_v {
            proof {
                lemma_mul_bound((left_v - right_v) as int, dt as int, 2 * VEL_LIMIT as int,
                    DT_LIMIT as int);
            }
            let num: i128 = (left_v - right_v) as i128 * dt as i128;
            proof {
                lemma_div_trunc_bound(num as int, 2 * self.size_radius as int,
                    20_000_000_000_000);
            }
            let dth = div_t(num, 2 * self.size_radius as i128) as i64;
            let new_pose = Pose { position: self.pose.position, orientation: th + dth };
            (new_pose, Motion::ROTATION(0))
        } else {
            let rad = self.size_radius;
            proof {
                lemma_mul_bound(rad as int, left_v + right_v, SIZE_LIMIT as int,
                    2 * VEL_LIMIT as int);
            }
            let rnum: i128 = rad as i128 * (left_v as i128 + right_v as i128);
            proof {
                lemma_div_trunc_bound(rnum as int, (right_v - left_v) as int,
                    20_000_000_000_000);
            }
            let rt = div_t(rnum, (right_v - left_v) as i128);
            proof {
                lemma_mul_bound((right_v - left_v) as int, dt as int, 2 * VEL_LIMIT as int,
                    DT_LIMIT as int);
            }
            let dnum: i128 = (right_v - left_v) as i128 * dt as i128;
            proof {
                lemma_div_trunc_bound(dnum as int, 2 * rad as int, 20_000_000_000_000);
            }
            let dth = div_t(dnum, 2 * rad as i128) as i64;
            let th2 = th + dth;
            let sd: i64 = fxp_sin(th2) - fxp_sin(th);
            let cd: i64 = fxp_cos(th2) - fxp_cos(th);
            proof {
                lemma_mul_bound(rt as int, sd as int, 20_000_000_000_000, 2000);
                lemma_mul_bound(rt as int, cd as int, 20_000_000_000_000, 2000);
                lemma_div_trunc_bound(rt * sd, 1000, 40_000_000_000_000_000);
                lemma_div_trunc_bound(rt * cd, 1000, 40_000_000_000_000_000);
            }
            let dx = div_t(rt * sd as i128, 1000) as i64;
            let dy = div_t(rt * cd as i128, 1000) as i64;
            let new_pose = Pose {
                position: Point { x: self.pose.position.x + dx, y: self.pose.position.y - dy },
                orientation: th2,
            };
            let start = if rt > 0 {
                th + 1571 - 3142
            } else {
                th + 1571
            };
            let stop = start + dth;
            (new_pose, Motion::GENERAL(rt as i64, start, stop))
        }
    }

    /// One planning tick of the bounded dynamic window: build the nine
    /// candidate commands around the previous one (each wheel stepped down,
    /// held, or stepped up by one tick of acceleration), discard any whose
    /// wheel magnitude exceeds the speed limit, score the rest over the
    /// look-ahead horizon, and return the first-found best. When every
    /// candidate fails the filter, fall back to the zero command. The
    /// candidate motions are rebuilt from scratch for depiction; nothing
    /// else of the agent changes.
    #[verifier::loop_isolation(false)]
    #[verifier::rlimit(100)]
    pub fn dwa(
        &mut self,
        left_v: i64,
        right_v: i64,
        dt: i64,
        barriers: &BarrierManager,
        weight: DwaWeight,
        step_plan_ahead: u32,
    ) -> (cmd: (i64, i64))
        requires
            old(self).wf(),
            old(self).pose_in_range(),
            -VEL_LIMIT <= left_v <= VEL_LIMIT,
            -VEL_LIMIT <= right_v <= VEL_LIMIT,
            1 <= dt <= DT_LIMIT,
            1 <= step_plan_ahead,
            dt * step_plan_ahead <= DT_LIMIT,
            barriers.wf(),
            0 <= weight.fwd_weight <= WEIGHT_LIMIT,
            0 <= weight.obstacle_weight <= WEIGHT_LIMIT,
            0 <= weight.safe_distance <= SAFE_LIMIT,
        ensures
            final(self).wf(),
            final(self).pose == old(self).pose,
            final(self).size_radius == old(self).size_radius,
            final(self).max_velocity == old(self).max_velocity,
            final(self).max_acceleration == old(self).max_acceleration,
            final(self).location_history@ == old(self).location_history@,
            final(self).dwa_path@ == old(self).dwa_path_model(left_v as int, right_v as int,
                dt as int, dt * step_plan_ahead),
            -old(self).max_velocity <= cmd.0 <= old(self).max_velocity,
            -old(self).max_velocity <= cmd.1 <= old(self).max_velocity,
            (exists|i: int|
                0 <= i < 9 && #[trigger] old(self).dwa_feasible(left_v as int, right_v as int,
                    dt as int, i)) ==> ({
                let delta = dwa_delta(old(self).max_acceleration as int, dt as int);
                -delta <= cmd.0 - left_v <= delta && -delta <= cmd.1 - right_v <= delta
            }),
            (forall|i: int|
                0 <= i < 9 ==> !(#[trigger] old(self).dwa_feasible(left_v as int, right_v as int,
                    dt as int, i))) ==> cmd == (0i64, 0i64),
            (exists|i: int|
                0 <= i < 9 && #[trigger] old(self).dwa_feasible(left_v as int, right_v as int,
                    dt as int, i)) ==> (exists|j: int|
                #[trigger] old(self).dwa_choice_at(*barriers, weight, left_v as int,
                    right_v as int, dt as int, dt * step_plan_ahead, j, cmd)),
    {
        self.dwa_path.clear();
        let rad = self.size_radius;
        let maxv = self.max_velocity;
        let acc = self.max_acceleration;
        proof {
            lemma_mul_bound(acc as int, dt as int, PARAM_LIMIT as int, DT_LIMIT as int);
            lemma_div_trunc_div_bound(acc as int * dt as int, 1000,
                1_000_000_000_000);
        }
        let delta = div_t(acc as i128 * dt as i128, 1000) as i64;
        proof {
            assert(delta == dwa_delta(acc as int, dt as int));
            assert(delta >= 0);
        }
        proof {
            assert(1 <= dt * (step_plan_ahead as int) <= DT_LIMIT) by (nonlinear_arith)
                requires
                    1 <= dt,
                    1 <= step_plan_ahead,
                    dt * step_plan_ahead <= DT_LIMIT,
            ;
        }
        let dtt: i64 = dt * (step_plan_ahead as i64);
        let target = barriers.get_target();
        let tpoint = target.point;
        proof {
            assert(self.pose.position.bounded());
            assert(tpoint.bounded());
        }
        let dold = self.pose.position.get_distance(tpoint);
        let mut chosen_l: i64 = 0;
        let mut chosen_r: i64 = 0;
        let mut best: i128 = 0;
        let mut any: bool = false;
        let ghost mut best_j: int = 0;
        let mut i: usize = 0;
        while i < 9
            invariant
                0 <= i <= 9,
                self.pose == old(self).pose,
                self.size_radius == old(self).size_radius,
                self.max_velocity == old(self).max_velocity,
                self.max_acceleration == old(self).max_acceleration,
                self.location_history@ == old(self).location_history@,
                self.dwa_path@ == dwa_motions(old(self).pose, rad as int, maxv as int,
                    left_v as int, right_v as int, delta as int, dtt as int, i as int),
                !any ==> chosen_l == 0 && chosen_r == 0 && (forall|k: int|
                    0 <= k < i ==> !cand_feasible(maxv as int, left_v as int, right_v as int,
                        delta as int, k)),
                any ==> ({
                    &&& 0 <= best_j < i as int
                    &&& cand_feasible(maxv as int, left_v as int, right_v as int, delta as int,
                        best_j)
                    &&& chosen_l == cand_l(left_v as int, delta as int, best_j)
                    &&& chosen_r == cand_r(right_v as int, delta as int, best_j)
                    &&& best == cand_benefit(old(self).pose, rad as int, barriers.barriers@,
                        barriers.target_index(), tpoint, weight, left_v as int, right_v as int,
                        delta as int, dtt as int, best_j)
                    &&& forall|k: int|
                        0 <= k < i && #[trigger] cand_feasible(maxv as int, left_v as int,
                            right_v as int, delta as int, k) ==> cand_benefit(old(self).pose,
                            rad as int, barriers.barriers@, barriers.target_index(), tpoint,
                            weight, left_v as int, right_v as int, delta as int, dtt as int, k)
                            <= best
                    &&& forall|k: int|
                        0 <= k < best_j && #[trigger] cand_feasible(maxv as int, left_v as int,
                            right_v as int, delta as int, k) ==> cand_benefit(old(self).pose,
                            rad as int, barriers.barriers@, barriers.target_index(), tpoint,
                            weight, left_v as int, right_v as int, delta as int, dtt as int, k)
                            < best
                }),
            decreases 9 - i,
        {
            let li = i / 3;
            let cl = if li == 0 {
                left_v - delta
            } else if li == 1 {
                left_v
            } else {
                left_v + delta
            };
            let ri = i % 3;
            let cr = if ri == 0 {
                right_v - delta
            } else if ri == 1 {
                right_v
            } else {
                right_v + delta
            };
            proof {
                assert(cl == cand_l(left_v as int, delta as int, i as int));
                assert(cr == cand_r(right_v as int, delta as int, i as int));
            }
            if -maxv <= cl && cl <= maxv && -maxv <= cr && cr <= maxv {
                proof {
                    assert(cand_feasible(maxv as int, left_v as int, right_v as int, delta as int,
                        i as int));
                }
                let (new_pose, motion) = self.predict(cl, cr, dtt);
                self.dwa_path.push(motion);
                proof {
                    assert(motion == cand_motion(old(self).pose, rad as int, left_v as int,
                        right_v as int, delta as int, dtt as int, i as int));
                    assert(self.dwa_path@ == dwa_motions(old(self).pose, rad as int, maxv as int,
                        left_v as int, right_v as int, delta as int, dtt as int, i + 1));
                    assert(new_pose.bounded());
                }
                let clearance = barriers.get_shortest_to_barrier(new_pose);
                let dnew = new_pose.to_point().get_distance(tpoint);
                proof {
                    assert(cand_point(old(self).pose, rad as int, left_v as int, right_v as int,
                        delta as int, dtt as int, i as int) == new_pose.position);
                    lemma_mul_bound(weight.fwd_weight as int, dold - dnew, WEIGHT_LIMIT as int,
                        2 * DIST_LIMIT as int);
                }
                let fwd: i128 = weight.fwd_weight as i128 * (dold as i128 - dnew as i128);
                let pen: i128 = if clearance < weight.safe_distance {
                    proof {
                        lemma_mul_bound(weight.obstacle_weight as int,
                            weight.safe_distance - clearance, WEIGHT_LIMIT as int,
                            2 * DIST_LIMIT as int);
                    }
                    weight.obstacle_weight as i128 * (weight.safe_distance as i128
                        - clearance as i128)
                } else {
                    0
                };
                let total: i128 = fwd - pen;
                proof {
                    assert(total == cand_benefit(old(self).pose, rad as int, barriers.barriers@,
                        barriers.target_index(), tpoint, weight, left_v as int, right_v as int,
                        delta as int, dtt as int, i as int));
                }
                if !any || total > best {
                    any = true;
                    best = total;
                    chosen_l = cl;
                    chosen_r = cr;
                    proof {
                        best_j = i as int;
                    }
                }
            }
            i = i + 1;
        }
        proof {
            if any {
                assert(old(self).dwa_choice_at(*barriers, weight, left_v as int, right_v as int,
                    dt as int, dtt as int, best_j, (chosen_l, chosen_r)));
            } else {
                assert(forall|k: int|
                    0 <= k < 9 ==> !(#[trigger] old(self).dwa_feasible(left_v as int,
                        right_v as int, dt as int, k)));
            }
        }
        (chosen_l, chosen_r)
    }

    /// Commit a newly computed pose: append the departing pose to the
    /// history, evict the oldest entry once 300 is exceeded, then replace
    /// the current pose. Any pose is accepted; nothing else changes.
    pub fn update_pose(&mut self, new_pose: Pose)
        requires
            old(self).wf(),
        ensures
            final(self).wf(),
            final(self).pose == new_pose,
            final(self).location_history@ == history_step(old(self).location_history@,
                old(self).pose),
            final(self).size_radius == old(self).size_radius,
            final(self).max_velocity == old(self).max_velocity,
            final(self).max_acceleration == old(self).max_acceleration,
            final(self).dwa_path@ == old(self).dwa_path@,
    {
        self.location_history.push(self.pose);
        if self.location_history.len() > 300 {
            self.location_history.remove(0);
            proof {
                assert(self.location_history@ =~= history_step(old(self).location_history@,
                    old(self).pose));
            }
        }
        self.pose = new_pose;
    }

    /// Whether the agent has arrived at the active target: true exactly when
    /// the real Euclidean distance from the agent's position to the target's
    /// center is strictly below the sum of the two radii. The contract
    /// states the comparison over the squared distance, which decides the
    /// real-valued comparison exactly.
    pub fn target_reached(&self, barrier_manager: &BarrierManager) -> (reached: bool)
        requires
            self.wf(),
            barrier_manager.wf(),
            self.pose.bounded(),
        ensures
            ({
                let t = barrier_manager.barriers@[barrier_manager.target_index()];
                let sum = self.size_radius + t.radius;
                reached <==> self.pose.position.dist_sq(t.point) < sum * sum
            }),
    {
        let target = barrier_manager.get_target();
        let dist = self.pose.position.get_distance(target.point);
        proof {
            lemma_floor_sqrt_lt(self.pose.position.dist_sq(target.point), dist as int,
                self.size_radius + target.radius);
        }
        dist < self.size_radius + target.radius
    }

    /// The arrival check: if the agent has reached the active target, have
    /// the field reselect a target uniformly at random over the whole field;
    /// otherwise leave the field untouched. The obstacles themselves never
    /// change.
    pub fn check_target_reached(&self, barrier_manager: &mut BarrierManager)
        requires
            self.wf(),
            old(barrier_manager).wf(),
            self.pose.bounded(),
        ensures
            final(barrier_manager).wf(),
            final(barrier_manager).barriers@ == old(barrier_manager).barriers@,
            final(barrier_manager).window_width == old(barrier_manager).window_width,
            final(barrier_manager).window_height == old(barrier_manager).window_height,
            ({
                let t = old(barrier_manager).barriers@[old(barrier_manager).target_index()];
                let sum = self.size_radius + t.radius;
                !(self.pose.position.dist_sq(t.point) < sum * sum)
                    ==> final(barrier_manager).target_index() == old(
                    barrier_manager).target_index()
            }),
    {
        if self.target_reached(barrier_manager) {
            barrier_manager.set_random_as_target();
        }
    }
}

} // verus!
