//! End-to-end exercises of the planner library: kinematic prediction,
//! the dynamic-window search, the bounded history, and target arrival.
//! All values are in thousandths of a unit (milli-units).

use dwa_planner::barrier::{Barrier, BarrierManager};
use dwa_planner::fixed::{fxp_cos, fxp_sin, isqrt};
use dwa_planner::point::{Point, Pose};
use dwa_planner::robot::{DwaWeight, Motion, Robot};

fn pose(x: i64, y: i64, th: i64) -> Pose {
    Pose { position: Point { x, y }, orientation: th }
}

fn field(barriers: Vec<Barrier>, target_idx: usize) -> BarrierManager {
    BarrierManager { barriers, target_idx, window_width: 1_200_000, window_height: 750_000 }
}

#[test]
fn isqrt_exact_squares_and_floors() {
    assert_eq!(isqrt(0), 0);
    assert_eq!(isqrt(1), 1);
    assert_eq!(isqrt(2), 1);
    assert_eq!(isqrt(25_000_000), 5000);
    assert_eq!(isqrt(24_999_999), 4999);
    assert_eq!(isqrt(u64::MAX as u128), 4294967295);
}

#[test]
fn trig_anchor_values() {
    assert_eq!(fxp_sin(0), 0);
    assert_eq!(fxp_sin(1571), 1000); // quarter turn
    assert_eq!(fxp_sin(3142), 0); // half turn
    assert_eq!(fxp_cos(0), 1000);
    assert_eq!(fxp_cos(3142), -1000); // half turn
    assert!(fxp_sin(4712) < -990); // three-quarter turn, near -1
}

#[test]
fn point_distance_is_floor_of_euclidean() {
    let a = Point { x: 0, y: 0 };
    assert_eq!(a.get_distance(Point { x: 3000, y: 4000 }), 5000);
    assert_eq!(a.get_distance(Point { x: 1000, y: 1000 }), 1414);
    assert_eq!(a.get_distance(Point { x: -3000, y: 4000 }), 5000);
    assert_eq!(a.get_distance(a), 0);
}

// Equal wheel velocities translate along the heading; heading unchanged.
#[test]
fn equal_velocities_translate_along_heading() {
    let robot = Robot::new(5000, 20000, 5000, pose(0, 0, 0));
    let (p, m) = robot.predict(7000, 7000, 1000);
    // 7 units/s for 1 s along heading 0: 7 units forward.
    assert_eq!(p.position.x, 7000);
    assert_eq!(p.position.y, 0);
    assert_eq!(p.orientation, 0);
    assert_eq!(m, Motion::TRANSLATION(7000));

    // Facing the quarter turn: all displacement goes to y.
    let robot = Robot::new(5000, 20000, 5000, pose(100, 200, 1571));
    let (p, m) = robot.predict(-3000, -3000, 2000);
    assert_eq!(p.position.x, 100);
    assert_eq!(p.position.y, 200 - 6000);
    assert_eq!(p.orientation, 1571);
    assert_eq!(m, Motion::TRANSLATION(-6000));
}

// Opposite wheel velocities turn in place by (l - r) dt / (2 R).
#[test]
fn opposite_velocities_rotate_in_place() {
    let robot = Robot::new(5000, 20000, 5000, pose(300, -400, 42));
    let (p, m) = robot.predict(2000, -2000, 1000);
    // (2000 - (-2000)) * 1000 / (2 * 5000) = 400 milli-radians.
    assert_eq!(p.position.x, 300);
    assert_eq!(p.position.y, -400);
    assert_eq!(p.orientation, 42 + 400);
    assert_eq!(m, Motion::ROTATION(0));
}

// Predicting with zero velocities is idempotent: no displacement, no turn.
#[test]
fn zero_velocities_leave_pose_fixed() {
    let robot = Robot::new(5000, 20000, 5000, pose(123, 456, 789));
    let (p1, m1) = robot.predict(0, 0, 1000);
    assert_eq!(p1, robot.pose);
    assert_eq!(m1, Motion::TRANSLATION(0));
    let mut robot = robot;
    robot.update_pose(p1);
    let (p2, _) = robot.predict(0, 0, 1000);
    assert_eq!(p2, p1);
}

#[test]
fn general_case_follows_an_arc() {
    let robot = Robot::new(5000, 20000, 5000, pose(0, 0, 0));
    let (p, m) = robot.predict(0, 5000, 1000);
    // r = R (l + r) / (r - l) = 5000 * 5000 / 5000 = 5000;
    // d_theta = (r - l) dt / (2 R) = 5000 * 1000 / 10000 = 500.
    assert_eq!(p.orientation, 500);
    match m {
        Motion::GENERAL(radius, start, stop) => {
            assert_eq!(radius, 5000);
            // start = th + 1571 - 3142 since radius > 0; stop = start + 500.
            assert_eq!(start, -1571);
            assert_eq!(stop, -1071);
        }
        _ => panic!("expected an arc"),
    }
    // The arc bends left from heading 0:
    // dx = r (sin(500) - sin(0)) / 1000 = 5000 * 479 / 1000,
    // dy = -(r (cos(500) - cos(0)) / 1000) = -(5000 * -124 / 1000).
    assert_eq!(p.position.x, 2395);
    assert_eq!(p.position.y, 620);
}

// 301 commits leave exactly 300 entries, the oldest evicted.
#[test]
fn history_is_a_sliding_window_of_300() {
    let mut robot = Robot::new(5000, 20000, 5000, pose(0, 0, 0));
    assert_eq!(robot.location_history.len(), 1);
    for i in 1..=301i64 {
        robot.update_pose(pose(i, 0, 0));
    }
    assert_eq!(robot.location_history.len(), 300);
    // Recorded in order: the start pose (twice: once by construction, once
    // pushed by the first commit), then the poses committed by calls 1..300.
    // The two oldest entries fell out; the oldest survivor is pose 1.
    assert_eq!(robot.location_history[0], pose(1, 0, 0));
    assert_eq!(robot.location_history[299], pose(300, 0, 0));
    assert_eq!(robot.pose, pose(301, 0, 0));
}

// Arrival exactly when distance < agent radius + target radius.
#[test]
fn arrival_is_strict_sum_of_radii() {
    // Agent at origin with radius 5, target at (8, 0) with radius 4:
    // distance 8 < 9 combined, so the target is reached.
    let robot = Robot::new(5000, 20000, 5000, pose(0, 0, 0));
    let near = field(vec![Barrier::new(8000, 0, 4000)], 0);
    assert!(robot.target_reached(&near));

    // At exactly the combined radius the comparison is strict: not reached.
    let touching = field(vec![Barrier::new(9000, 0, 4000)], 0);
    assert!(!robot.target_reached(&touching));

    // The arrival check only reselects when reached.
    let mut far = field(
        vec![Barrier::new(90000, 0, 4000), Barrier::new(80000, 0, 4000)],
        1,
    );
    robot.check_target_reached(&mut far);
    assert_eq!(far.target_idx, 1);
    assert_eq!(far.barriers.len(), 2);
}

#[test]
fn accessors_return_the_stored_values() {
    let p = pose(3000, -4000, 250);
    assert_eq!(p.to_point(), Point { x: 3000, y: -4000 });
    assert_eq!(p.get_distance(pose(0, 0, 99)), 5000);
    let b = Barrier::new(7, 8, 9);
    assert_eq!(b.get_point(), Point { x: 7, y: 8 });
    assert_eq!(b.get_distance(Point { x: 7, y: 8 }), 0);
    let bm = field(vec![b, Barrier::new(1, 2, 3)], 1);
    assert_eq!(bm.get_size(), 2);
    assert_eq!(bm.get_target(), Barrier::new(1, 2, 3));
}

#[test]
fn clearance_scans_from_the_active_target_onward() {
    // Obstacles before the active-target index do not count.
    let bm = field(
        vec![
            Barrier::new(1000, 0, 500),
            Barrier::new(40000, 0, 500),
            Barrier::new(30000, 0, 500),
        ],
        1,
    );
    let p = pose(0, 0, 0);
    assert_eq!(bm.get_shortest_to_barrier(p), 30000);
    let all = field(bm.barriers.clone(), 0);
    assert_eq!(all.get_shortest_to_barrier(p), 1000);
}

#[test]
fn random_field_respects_margins_and_target() {
    let bm = BarrierManager::new(20, 20000, 1_200_000, 750_000);
    assert_eq!(bm.get_size(), 20);
    assert!(bm.target_idx < 20);
    for b in &bm.barriers {
        assert_eq!(b.radius, 20000);
        assert!(20000 <= b.point.x && b.point.x <= 1_200_000 - 20000);
        assert!(20000 <= b.point.y && b.point.y <= 750_000 - 20000);
    }
    let mut bm = bm;
    for _ in 0..10 {
        bm.set_random_as_target();
        assert!(bm.target_idx < 20);
    }
}

// The planner never exceeds the speed limit nor one tick of acceleration.
#[test]
fn plan_respects_velocity_and_acceleration_limits() {
    let mut robot = Robot::new(5000, 20000, 5000, pose(0, 0, 0));
    let bm = field(vec![Barrier::new(100000, 70000, 1000)], 0);
    let w = DwaWeight { obstacle_weight: 1_000_000, safe_distance: 20000, fwd_weight: 1000 };
    let (mut l, mut r) = (18000i64, -18000i64);
    for _ in 0..50 {
        let (nl, nr) = robot.dwa(l, r, 1000, &bm, w, 1);
        assert!(nl.abs() <= 20000 && nr.abs() <= 20000);
        // delta = max_acceleration * dt / 1000 = 5000.
        assert!((nl - l).abs() <= 5000 && (nr - r).abs() <= 5000);
        let (p, _) = robot.predict(nl, nr, 1000);
        robot.update_pose(p);
        l = nl;
        r = nr;
    }
}

// With every candidate over the speed limit, the planner falls back to the
// zero command.
#[test]
fn infeasible_window_falls_back_to_zero() {
    let mut robot = Robot::new(5000, 1000, 0, pose(0, 0, 0));
    let bm = field(vec![Barrier::new(100000, 0, 1000)], 0);
    let w = DwaWeight { obstacle_weight: 0, safe_distance: 0, fwd_weight: 1000 };
    // Zero acceleration: the only candidate is the previous command itself,
    // whose magnitude exceeds the speed limit on both wheels.
    let cmd = robot.dwa(5000, 5000, 1000, &bm, w, 1);
    assert_eq!(cmd, (0, 0));
    assert_eq!(robot.dwa_path.len(), 0);
}

// A large obstacle weight makes the planner back away from an obstacle dead
// ahead even though the target lies behind it... the target being behind the
// agent, retreat both increases clearance and gains ground.
#[test]
fn obstacle_penalty_dominates_when_weighted_heavily() {
    let mut robot = Robot::new(5000, 10000, 5000, pose(0, 0, 0));
    // The target sits straight behind the agent; an obstacle sits straight
    // ahead, well inside the clearance threshold.
    let bm = field(
        vec![Barrier::new(-50000, 0, 1000), Barrier::new(10000, 0, 1000)],
        0,
    );
    let w = DwaWeight { obstacle_weight: 1_000_000, safe_distance: 20000, fwd_weight: 1000 };
    let (l, r) = robot.dwa(0, 0, 1000, &bm, w, 1);
    // Full retreat: both wheels stepped down by one tick of acceleration.
    assert_eq!((l, r), (-5000, -5000));
    // All nine candidates were feasible and each left a motion projection.
    assert_eq!(robot.dwa_path.len(), 9);
}

// End-to-end: with progress the only cost term, the planner accelerates
// wheel-balanced up to the speed limit and then cruises at (20, 20).
#[test]
fn straight_run_reaches_and_holds_max_speed() {
    let mut robot = Robot::new(5000, 20000, 5000, pose(0, 0, 0));
    let bm = field(vec![Barrier::new(100000, 0, 1000)], 0);
    let w = DwaWeight { obstacle_weight: 0, safe_distance: 0, fwd_weight: 1000 };
    let (mut l, mut r) = (0i64, 0i64);
    let mut history = Vec::new();
    for _ in 0..6 {
        let (nl, nr) = robot.dwa(l, r, 1000, &bm, w, 1);
        history.push((nl, nr));
        let (p, _) = robot.predict(nl, nr, 1000);
        robot.update_pose(p);
        l = nl;
        r = nr;
    }
    assert_eq!(history[0], (5000, 5000));
    assert_eq!(history[1], (10000, 10000));
    assert_eq!(history[2], (15000, 15000));
    for k in 3..6 {
        assert_eq!(history[k], (20000, 20000));
    }
    // Pure translation toward the target all along.
    assert_eq!(robot.pose.position.y, 0);
    assert_eq!(robot.pose.orientation, 0);
    assert_eq!(robot.pose.position.x, 5000 + 10000 + 15000 + 20000 * 3);
}

// The planning call rebuilds the candidate projections every time.
#[test]
fn dwa_path_is_rebuilt_each_call() {
    let mut robot = Robot::new(5000, 20000, 5000, pose(0, 0, 0));
    let bm = field(vec![Barrier::new(100000, 0, 1000)], 0);
    let w = DwaWeight { obstacle_weight: 0, safe_distance: 0, fwd_weight: 1000 };
    robot.dwa(0, 0, 1000, &bm, w, 1);
    assert_eq!(robot.dwa_path.len(), 9);
    // From a command at the speed limit, three candidates per wheel minus
    // the ones over the limit: 2 x 2 survive.
    robot.dwa(20000, 20000, 1000, &bm, w, 1);
    assert_eq!(robot.dwa_path.len(), 4);
    match robot.dwa_path[0] {
        Motion::TRANSLATION(d) => assert_eq!(d, 15000),
        _ => panic!("the first surviving candidate translates"),
    }
}
