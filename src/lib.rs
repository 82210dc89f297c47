//! Satellite pass prediction: a continuous time base, validated two-line
//! element sets, and a tracker that assembles one coherent state snapshot per
//! query from a pluggable orbit propagator.
pub mod julian_time;
pub mod tle;
pub mod sat;
pub mod predict;
