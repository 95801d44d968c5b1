//! Static circular obstacles.

use vstd::prelude::*;

use crate::vec2::bounded;
use crate::vec2::norm_sq_s;
use crate::vec2::V2;
use crate::vec2::Vec2;

verus! {

/// A static circular region agents steer away from.
#[derive(Clone, Copy, Debug, PartialEq, Eq, Structural)]
pub struct Obstacle {
    pub position: Vec2,
    pub radius: i64,
}

/// The point lies strictly inside the obstacle's disc.
pub open spec fn contains_s(o: Obstacle, p: V2) -> bool {
    norm_sq_s(p.minus(o.position@)) < o.radius * o.radius
}

impl Obstacle {
    /// Position inside the coordinate range of a world, radius positive.
    pub open spec fn wf(self) -> bool {
        &&& bounded(self.position@, 1_000_000_000)
        &&& 0 < self.radius <= 1_000_000_000
    }

    pub fn new(position: Vec2, radius: i64) -> (r: Obstacle)
        requires
            bounded(position@, 1_000_000_000),
            0 < radius <= 1_000_000_000,
        ensures
            r.position == position,
            r.radius == radius,
            r.wf(),
    {
        Obstacle { position, radius }
    }

    /// Whether the point lies strictly inside the obstacle's disc.
    pub fn contains(&self, point: Vec2) -> (r: bool)
        requires
            self.wf(),
            bounded(point@, 1_000_000_000),
        ensures
            r == contains_s(*self, point@),
    {
        let diff: Vec2 = point.minus(self.position);
        let d2: i128 = diff.norm_sq();
        proof {
            assert(0 <= self.radius * self.radius
                <= 1_000_000_000_000_000_000_000_000_000_000i128) by (nonlinear_arith)
                requires
                    0 < self.radius <= 1_000_000_000,
            ;
        }
        let rw: i128 = self.radius as i128;
        d2 < rw * rw
    }
}

} // verus!
