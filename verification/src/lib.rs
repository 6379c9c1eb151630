//! A local motion planner for a differential-drive agent on a 2D plane with
//! circular obstacles and one active target.
//!
//! All quantities are carried as `i64` fixed-point values in thousandths of a
//! unit (milli-units); angles are thousandths of a radian. Working in
//! thousandths makes the planner's three-decimal velocity comparisons exact
//! integer equalities, and every arithmetic step of the kinematic model is a
//! stated integer operation that the contracts pin down.

pub mod fixed;
pub mod point;
pub mod barrier;
pub mod robot;
