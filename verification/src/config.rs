//! Simulation configuration: the named constants of the model, all in
//! stored milli-units (see `vec2::SCALE`).

use vstd::prelude::*;

use crate::vec2::SCALE;

verus! {

/// Largest agent population a simulation may hold; keeps every force
/// accumulation inside `i64` range.
pub const MAX_POPULATION: usize = 1000;

/// Largest obstacle count a simulation may hold, for the same reason.
pub const MAX_OBSTACLES: usize = 1000;

/// How far an agent sees other agents.
pub const VIEW_RADIUS: i64 = 80_000;

/// Inside this distance a neighbor contributes separation force.
pub const AVOID_RADIUS: i64 = 60_000;

/// Cosine of half the view angle (270 degrees), scaled by `SCALE`.
pub const VIEW_COS: i64 = -707;

/// Speed ceiling; the floor is half of it.
pub const MAX_SPEED: i64 = 6_000;

/// Separation force cap, shared by obstacle avoidance as its scale factor.
pub const MAX_SEPARATION_FORCE: i64 = 700;

/// Alignment force cap.
pub const MAX_ALIGNMENT_FORCE: i64 = 300;

/// Cohesion force cap.
pub const MAX_COHESION_FORCE: i64 = 200;

/// Obstacles start pushing back inside `radius + margin`.
pub const OBSTACLE_MARGIN: i64 = 20_000;

/// Radius of an obstacle placed by a pointer event.
pub const OBSTACLE_RADIUS: i64 = 20_000;

/// Pointer attraction reaches agents inside this radius.
pub const ATTRACT_RADIUS: i64 = 150_000;

/// Magnitude of the pointer attraction force.
pub const ATTRACT_STRENGTH: i64 = 400;

/// Per-axis bound of the random jitter force.
pub const JITTER_MAX: i64 = 100;

/// Per-axis bound of a freshly spawned agent's velocity.
pub const SPAWN_SPEED_MAX: i64 = 2_000;

/// Number of agents a fresh population holds.
pub const POPULATION: usize = 150;

/// Numerator of the separation amplification factor (3/2).
pub const SEPARATION_GAIN_NUM: i64 = 3;

/// Denominator of the separation amplification factor.
pub const SEPARATION_GAIN_DEN: i64 = 2;

/// The named constants of one simulation, fixed at construction.
#[derive(Clone, Copy, Debug)]
pub struct SimConfig {
    pub world_w: i64,
    pub world_h: i64,
    pub view_radius: i64,
    pub avoid_radius: i64,
    pub view_cos: i64,
    pub max_speed: i64,
    pub max_separation_force: i64,
    pub max_alignment_force: i64,
    pub max_cohesion_force: i64,
    pub obstacle_margin: i64,
    pub attract_radius: i64,
    pub attract_strength: i64,
    pub jitter_max: i64,
    pub spawn_speed_max: i64,
    pub population: usize,
}

impl SimConfig {
    /// The ranges under which every arithmetic step of the simulation is
    /// free of overflow.
    pub open spec fn valid(self) -> bool {
        &&& 0 < self.world_w <= 1_000_000_000
        &&& 0 < self.world_h <= 1_000_000_000
        &&& 0 < self.view_radius <= 1_000_000_000
        &&& 0 < self.avoid_radius <= self.view_radius
        &&& -SCALE <= self.view_cos <= SCALE
        &&& 4 <= self.max_speed <= 1_000_000
        &&& 1 <= self.max_separation_force <= 1_000_000
        &&& 1 <= self.max_alignment_force <= 1_000_000
        &&& 1 <= self.max_cohesion_force <= 1_000_000
        &&& 0 <= self.obstacle_margin <= 1_000_000_000
        &&& 1 <= self.attract_radius <= 1_000_000_000
        &&& 0 <= self.attract_strength <= 1_000_000
        &&& 0 <= self.jitter_max <= 1_000_000
        &&& 0 <= self.spawn_speed_max <= self.max_speed
        &&& 1 <= self.population <= MAX_POPULATION
    }

    /// The speed floor: half the speed ceiling.
    pub open spec fn min_speed_s(self) -> int {
        self.max_speed as int / 2
    }

    pub fn min_speed(&self) -> (r: i64)
        requires
            self.valid(),
        ensures
            r as int == self.min_speed_s(),
            2 <= r <= self.max_speed,
    {
        ((self.max_speed as u64) / 2) as i64
    }

    /// The configuration of the reference simulation: the classical boid
    /// constants over a world of the given size.
    pub fn standard(world_w: i64, world_h: i64) -> (r: SimConfig)
        requires
            1 <= world_w <= 1_000_000_000,
            1 <= world_h <= 1_000_000_000,
        ensures
            r.valid(),
            r.world_w == world_w,
            r.world_h == world_h,
            r.view_radius == VIEW_RADIUS,
            r.avoid_radius == AVOID_RADIUS,
            r.view_cos == VIEW_COS,
            r.max_speed == MAX_SPEED,
            r.max_separation_force == MAX_SEPARATION_FORCE,
            r.max_alignment_force == MAX_ALIGNMENT_FORCE,
            r.max_cohesion_force == MAX_COHESION_FORCE,
            r.obstacle_margin == OBSTACLE_MARGIN,
            r.attract_radius == ATTRACT_RADIUS,
            r.attract_strength == ATTRACT_STRENGTH,
            r.jitter_max == JITTER_MAX,
            r.spawn_speed_max == SPAWN_SPEED_MAX,
            r.population == POPULATION,
    {
        SimConfig {
            world_w,
            world_h,
            view_radius: VIEW_RADIUS,
            avoid_radius: AVOID_RADIUS,
            view_cos: VIEW_COS,
            max_speed: MAX_SPEED,
            max_separation_force: MAX_SEPARATION_FORCE,
            max_alignment_force: MAX_ALIGNMENT_FORCE,
            max_cohesion_force: MAX_COHESION_FORCE,
            obstacle_margin: OBSTACLE_MARGIN,
            attract_radius: ATTRACT_RADIUS,
            attract_strength: ATTRACT_STRENGTH,
            jitter_max: JITTER_MAX,
            spawn_speed_max: SPAWN_SPEED_MAX,
            population: POPULATION,
        }
    }
}

} // verus!
