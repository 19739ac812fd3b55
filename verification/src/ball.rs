//! Ball state.

use vstd::prelude::*;

verus! {

/// The ball: position, velocity and spin, all Q32 raw bits (metres, m/s).
#[derive(Debug, Clone, Copy, PartialEq, Eq, Structural)]
pub struct BallState {
    pub pos_x: i64,
    pub pos_y: i64,
    pub pos_z: i64,
    pub vel_x: i64,
    pub vel_y: i64,
    pub vel_z: i64,
    pub spin_x: i64,
    pub spin_y: i64,
    pub spin_z: i64,
}

impl BallState {
    /// The ball at rest on the centre spot.
    pub open spec fn centre_spot_spec() -> BallState {
        BallState {
            pos_x: 0,
            pos_y: 0,
            pos_z: 0,
            vel_x: 0,
            vel_y: 0,
            vel_z: 0,
            spin_x: 0,
            spin_y: 0,
            spin_z: 0,
        }
    }

    /// The ball at rest on the centre spot.
    pub fn centre_spot() -> (b: BallState)
        ensures
            b == Self::centre_spot_spec(),
    {
        BallState {
            pos_x: 0,
            pos_y: 0,
            pos_z: 0,
            vel_x: 0,
            vel_y: 0,
            vel_z: 0,
            spin_x: 0,
            spin_y: 0,
            spin_z: 0,
        }
    }
}

} // verus!
