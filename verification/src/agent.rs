//! Agents ("boids") and their per-frame behavior: neighbor perception,
//! the steering forces, obstacle avoidance, pointer attraction, and the
//! physical integration step with toroidal wrap.
//!
//! Every force function is mirrored by a spec function over the
//! mathematical vector model `V2`; the force functions of one agent read
//! only its position and velocity, never its transient acceleration, so
//! the mirrors take those two values and the frozen snapshot sequence.

use vstd::prelude::*;

use crate::config::SimConfig;
use crate::config::MAX_OBSTACLES;
use crate::config::MAX_POPULATION;
use crate::config::SEPARATION_GAIN_DEN;
use crate::config::SEPARATION_GAIN_NUM;
use crate::math::div_tz;
use crate::math::lemma_div_tz_bound;
use crate::math::lemma_div_tz_magnitude;
use crate::math::lemma_sqrt_ge;
use crate::math::sqrt_i;
use crate::obstacle::Obstacle;
use crate::vec2::bounded;
use crate::vec2::clamp_max_s;
use crate::vec2::clamp_range_s;
use crate::vec2::mag_s;
use crate::vec2::norm_sq_s;
use crate::vec2::normalize_s;
use crate::vec2::scale_dt_s;
use crate::vec2::V2;
use crate::vec2::Vec2;
use crate::vec2::SCALE;

verus! {

/// One autonomous agent: its physical state.
#[derive(Clone, Copy, Debug, PartialEq, Eq, Structural)]
pub struct Agent {
    pub position: Vec2,
    /// Always has magnitude in `[minSpeed, maxSpeed]` after an integration
    /// step.
    pub velocity: Vec2,
    /// Transient per-frame force sum; zero again after every integration
    /// step.
    pub acceleration: Vec2,
}

/// Prefix-to-step bridge used by every accumulation loop.
proof fn lemma_take_step<A>(s: Seq<A>, i: int)
    requires
        0 <= i < s.len(),
    ensures
        s.take(i + 1).drop_last() == s.take(i),
        s.take(i + 1).last() == s[i],
{
    assert(s.take(i + 1).drop_last() =~= s.take(i));
}

/// `b` is a neighbor of an agent at `p` heading along `v`: strictly
/// positive distance (so an agent never is its own neighbor) below the
/// view radius, and within the view cone. The cone test compares the dot
/// product of the two unit directions against the configured cosine; an
/// agent with zero velocity has the zero heading, whose dot product with
/// any direction is zero, so such an agent sees a neighbor exactly when
/// the configured cosine is negative (a field of view wider than a half
/// turn): a stable, documented fallback for the undefined heading.
pub open spec fn is_neighbor_s(p: V2, v: V2, b: Agent, cfg: SimConfig) -> bool {
    let d2 = norm_sq_s(b.position@.minus(p));
    &&& d2 > 0
    &&& d2 < cfg.view_radius * cfg.view_radius
    &&& {
        let h = normalize_s(v);
        let dir = normalize_s(b.position@.minus(p));
        h.x * dir.x + h.y * dir.y > cfg.view_cos * SCALE
    }
}

/// The agents of the snapshot that are neighbors of an agent at `p`
/// heading along `v`, in snapshot order.
pub open spec fn neighbors_s(p: V2, v: V2, flock: Seq<Agent>, cfg: SimConfig) -> Seq<Agent>
    decreases flock.len(),
{
    if flock.len() == 0 {
        Seq::empty()
    } else {
        let rest = neighbors_s(p, v, flock.drop_last(), cfg);
        if is_neighbor_s(p, v, flock.last(), cfg) {
            rest.push(flock.last())
        } else {
            rest
        }
    }
}

/// Every returned agent is a neighbor (in particular at strictly positive
/// distance from `p`, so never the querying agent itself) and comes from
/// the snapshot.
pub proof fn lemma_neighbors_sound(p: V2, v: V2, flock: Seq<Agent>, cfg: SimConfig)
    ensures
        neighbors_s(p, v, flock, cfg).len() <= flock.len(),
        forall|j: int|
            0 <= j < neighbors_s(p, v, flock, cfg).len() ==> is_neighbor_s(
                p,
                v,
                #[trigger] neighbors_s(p, v, flock, cfg)[j],
                cfg,
            ) && flock.contains(neighbors_s(p, v, flock, cfg)[j]),
    decreases flock.len(),
{
    if flock.len() > 0 {
        lemma_neighbors_sound(p, v, flock.drop_last(), cfg);
        let rest = neighbors_s(p, v, flock.drop_last(), cfg);
        assert forall|j: int| 0 <= j < rest.len() implies flock.contains(rest[j]) by {
            let k = choose|k: int| 0 <= k < flock.drop_last().len() && flock.drop_last()[k]
                == rest[j];
            assert(flock[k] == rest[j]);
        }
        assert(flock.contains(flock.last()));
    }
}

/// The separation contribution of one neighbor: inside the avoidance
/// radius, the unit direction away from the neighbor divided by the
/// distance (closer neighbors push harder); zero otherwise.
pub open spec fn sep_contrib_s(p: V2, b: Agent, avoid_radius: int) -> V2 {
    let d2 = norm_sq_s(p.minus(b.position@));
    if 0 < d2 && d2 < avoid_radius * avoid_radius {
        scale_dt_s(normalize_s(p.minus(b.position@)), SCALE as int, sqrt_i(d2))
    } else {
        V2::zero()
    }
}

/// Sum of the separation contributions over the neighbor list.
pub open spec fn sep_sum_s(p: V2, nbrs: Seq<Agent>, avoid_radius: int) -> V2
    decreases nbrs.len(),
{
    if nbrs.len() == 0 {
        V2::zero()
    } else {
        sep_sum_s(p, nbrs.drop_last(), avoid_radius).plus(
            sep_contrib_s(p, nbrs.last(), avoid_radius),
        )
    }
}

/// The raw separation force: the contribution sum amplified by 3/2.
pub open spec fn separation_raw_s(p: V2, nbrs: Seq<Agent>, cfg: SimConfig) -> V2 {
    scale_dt_s(
        sep_sum_s(p, nbrs, cfg.avoid_radius as int),
        SEPARATION_GAIN_NUM as int,
        SEPARATION_GAIN_DEN as int,
    )
}

/// The separation force an agent at `p` heading along `v` receives from
/// the snapshot: the raw force clamped to its cap.
pub open spec fn separation_force_s(p: V2, v: V2, flock: Seq<Agent>, cfg: SimConfig) -> V2 {
    clamp_max_s(
        separation_raw_s(p, neighbors_s(p, v, flock, cfg), cfg),
        cfg.max_separation_force as int,
    )
}

/// Sum of the neighbors' velocities.
pub open spec fn vel_sum_s(nbrs: Seq<Agent>) -> V2
    decreases nbrs.len(),
{
    if nbrs.len() == 0 {
        V2::zero()
    } else {
        vel_sum_s(nbrs.drop_last()).plus(nbrs.last().velocity@)
    }
}

/// The raw alignment force: the average neighbor velocity, normalized and
/// scaled to the speed ceiling; zero without neighbors.
pub open spec fn alignment_raw_s(nbrs: Seq<Agent>, cfg: SimConfig) -> V2 {
    if nbrs.len() == 0 {
        V2::zero()
    } else {
        scale_dt_s(
            normalize_s(scale_dt_s(vel_sum_s(nbrs), 1, nbrs.len() as int)),
            cfg.max_speed as int,
            SCALE as int,
        )
    }
}

/// The alignment force an agent at `p` heading along `v` receives from
/// the snapshot: the raw force clamped to its cap.
pub open spec fn alignment_force_s(p: V2, v: V2, flock: Seq<Agent>, cfg: SimConfig) -> V2 {
    clamp_max_s(
        alignment_raw_s(neighbors_s(p, v, flock, cfg), cfg),
        cfg.max_alignment_force as int,
    )
}

/// Sum of the neighbors' positions.
pub open spec fn pos_sum_s(nbrs: Seq<Agent>) -> V2
    decreases nbrs.len(),
{
    if nbrs.len() == 0 {
        V2::zero()
    } else {
        pos_sum_s(nbrs.drop_last()).plus(nbrs.last().position@)
    }
}

/// The raw cohesion attraction: the direction from `p` toward the
/// neighbor centroid, normalized and scaled to the speed ceiling; zero
/// without neighbors (no centroid exists).
pub open spec fn cohesion_raw_s(p: V2, nbrs: Seq<Agent>, cfg: SimConfig) -> V2 {
    if nbrs.len() == 0 {
        V2::zero()
    } else {
        scale_dt_s(
            normalize_s(scale_dt_s(pos_sum_s(nbrs), 1, nbrs.len() as int).minus(p)),
            cfg.max_speed as int,
            SCALE as int,
        )
    }
}

/// The cohesion force an agent at `p` heading along `v` receives from the
/// snapshot: the attraction turned into a steering correction by
/// subtracting the current velocity, then clamped to its cap. Without
/// neighbors the attraction is zero and the clamp of `-v` would still
/// steer, so the force is zero outright.
pub open spec fn cohesion_force_s(p: V2, v: V2, flock: Seq<Agent>, cfg: SimConfig) -> V2 {
    let nbrs = neighbors_s(p, v, flock, cfg);
    if nbrs.len() == 0 {
        V2::zero()
    } else {
        clamp_max_s(cohesion_raw_s(p, nbrs, cfg).minus(v), cfg.max_cohesion_force as int)
    }
}

/// The obstacle qualifies for avoidance: at strictly positive distance
/// (an agent exactly at the center gets no defined push direction) below
/// `radius + margin`.
pub open spec fn avoid_qualifies_s(p: V2, o: Obstacle, margin: int) -> bool {
    let d2 = norm_sq_s(p.minus(o.position@));
    &&& 0 < d2
    &&& d2 < (o.radius + margin) * (o.radius + margin)
}

/// The avoidance weight of one obstacle: the reciprocal distance in world
/// units, represented as `SCALE^2 / d`; zero if the obstacle does not
/// qualify.
pub open spec fn avoid_weight_s(p: V2, o: Obstacle, margin: int) -> int {
    if avoid_qualifies_s(p, o, margin) {
        div_tz((SCALE * SCALE) as int, sqrt_i(norm_sq_s(p.minus(o.position@))))
    } else {
        0
    }
}

/// The weighted push of one obstacle: its weight times the unit direction
/// away from it.
pub open spec fn avoid_vec_s(p: V2, o: Obstacle, margin: int) -> V2 {
    if avoid_qualifies_s(p, o, margin) {
        scale_dt_s(
            normalize_s(p.minus(o.position@)),
            avoid_weight_s(p, o, margin),
            SCALE as int,
        )
    } else {
        V2::zero()
    }
}

/// Sum of the weighted pushes.
pub open spec fn avoid_sum_s(p: V2, obs: Seq<Obstacle>, margin: int) -> V2
    decreases obs.len(),
{
    if obs.len() == 0 {
        V2::zero()
    } else {
        avoid_sum_s(p, obs.drop_last(), margin).plus(avoid_vec_s(p, obs.last(), margin))
    }
}

/// Sum of the weights.
pub open spec fn avoid_weight_sum_s(p: V2, obs: Seq<Obstacle>, margin: int) -> int
    decreases obs.len(),
{
    if obs.len() == 0 {
        0
    } else {
        avoid_weight_sum_s(p, obs.drop_last(), margin) + avoid_weight_s(p, obs.last(), margin)
    }
}

/// The obstacle avoidance force on an agent at `p`: the weighted average
/// push direction (if any obstacle contributed weight), scaled by the
/// separation force cap, and clamped to that same cap.
pub open spec fn avoidance_force_s(p: V2, obs: Seq<Obstacle>, cfg: SimConfig) -> V2 {
    let acc = avoid_sum_s(p, obs, cfg.obstacle_margin as int);
    let tw = avoid_weight_sum_s(p, obs, cfg.obstacle_margin as int);
    let t = if tw > 0 {
        scale_dt_s(acc, SCALE as int, tw)
    } else {
        acc
    };
    clamp_max_s(
        scale_dt_s(t, cfg.max_separation_force as int, SCALE as int),
        cfg.max_separation_force as int,
    )
}

/// The pointer attraction: while a pointer is active and the agent lies
/// inside the attraction radius, the unit direction toward the pointer
/// scaled by the attraction strength; otherwise zero.
pub open spec fn attract_accel_s(p: V2, pointer: Option<Vec2>, cfg: SimConfig) -> V2 {
    match pointer {
        Option::None => V2::zero(),
        Option::Some(m) => {
            if norm_sq_s(m@.minus(p)) < cfg.attract_radius * cfg.attract_radius {
                scale_dt_s(normalize_s(m@.minus(p)), cfg.attract_strength as int, SCALE as int)
            } else {
                V2::zero()
            }
        },
    }
}

/// A coordinate after the boundary wrap: past the upper bound it restarts
/// at zero, below zero it restarts at the upper bound.
pub open spec fn wrap_s(p: int, hi: int) -> int {
    if p > hi {
        0
    } else if p < 0 {
        hi
    } else {
        p
    }
}

impl Agent {
    /// The coarse numeric ranges under which the force arithmetic cannot
    /// overflow.
    pub open spec fn sane(self) -> bool {
        &&& bounded(self.position@, 1_000_000_000)
        &&& bounded(self.velocity@, 1_000_000)
        &&& bounded(self.acceleration@, 100_000_000)
    }

    /// Well-formed for a world: position inside the world rectangle,
    /// velocity within the speed ceiling, acceleration within its
    /// transient per-frame bound.
    pub open spec fn wf(self, cfg: SimConfig) -> bool {
        &&& 0 <= self.position@.x <= cfg.world_w
        &&& 0 <= self.position@.y <= cfg.world_h
        &&& bounded(self.velocity@, cfg.max_speed as int)
        &&& bounded(self.acceleration@, 10_000_000)
    }

    pub fn new(position: Vec2, velocity: Vec2) -> (r: Agent)
        ensures
            r.position == position,
            r.velocity == velocity,
            r.acceleration@ == V2::zero(),
    {
        Agent { position, velocity, acceleration: Vec2::zero() }
    }

    /// Adds a force to the pending acceleration accumulator.
    pub fn apply_force(&mut self, force: Vec2)
        requires
            i64::MIN <= old(self).acceleration@.x + force@.x <= i64::MAX,
            i64::MIN <= old(self).acceleration@.y + force@.y <= i64::MAX,
        ensures
            final(self).position == old(self).position,
            final(self).velocity == old(self).velocity,
            final(self).acceleration@ == old(self).acceleration@.plus(force@),
    {
        self.acceleration = self.acceleration.plus(force);
    }

    /// The agents of the snapshot this agent currently sees: at strictly
    /// positive distance below the view radius and within the view cone.
    pub fn find_neighbors(&self, flock: &Vec<Agent>, cfg: &SimConfig) -> (r: Vec<Agent>)
        requires
            cfg.valid(),
            self.sane(),
            forall|k: int| 0 <= k < flock@.len() ==> (#[trigger] flock@[k]).sane(),
        ensures
            r@ == neighbors_s(self.position@, self.velocity@, flock@, *cfg),
            r@.len() <= flock@.len(),
            forall|j: int|
                0 <= j < r@.len() ==> is_neighbor_s(
                    self.position@,
                    self.velocity@,
                    #[trigger] r@[j],
                    *cfg,
                ) && flock@.contains(r@[j]),
    {
        let ghost p: V2 = self.position@;
        let ghost v: V2 = self.velocity@;
        let mut out: Vec<Agent> = Vec::new();
        let heading: Vec2 = self.velocity.normalize();
        let cos_scaled: i64 = cfg.view_cos * SCALE;
        let rw: i128 = cfg.view_radius as i128;
        proof {
            assert(0 <= rw * rw <= 1_000_000_000_000_000_000i128) by (nonlinear_arith)
                requires
                    0 <= rw <= 1_000_000_000,
            ;
        }
        let rr: i128 = rw * rw;
        let mut i: usize = 0;
        while i < flock.len()
            invariant
                cfg.valid(),
                self.sane(),
                forall|k: int| 0 <= k < flock@.len() ==> (#[trigger] flock@[k]).sane(),
                0 <= i <= flock@.len(),
                out@ == neighbors_s(p, v, flock@.take(i as int), *cfg),
                p == self.position@,
                v == self.velocity@,
                heading@ == normalize_s(v),
                bounded(heading@, 1000),
                cos_scaled as int == cfg.view_cos * SCALE,
                rr as int == cfg.view_radius * cfg.view_radius,
            decreases flock@.len() - i,
        {
            let b: Agent = flock[i];
            let diff: Vec2 = b.position.minus(self.position);
            let d2: i128 = diff.norm_sq();
            if d2 > 0 && d2 < rr {
                let dir: Vec2 = diff.normalize();
                let dp: i64 = heading.dot(dir);
                if dp > cos_scaled {
                    out.push(b);
                }
            }
            proof {
                lemma_take_step(flock@, i as int);
                assert(flock@.take(i as int + 1).last() == b);
            }
            i = i + 1;
        }
        proof {
            assert(flock@.take(flock@.len() as int) =~= flock@);
            lemma_neighbors_sound(p, v, flock@, *cfg);
        }
        out
    }

    /// The raw separation force against the given neighbor list: each
    /// neighbor inside the avoidance radius pushes away with strength
    /// inverse to its distance; the sum is amplified by 3/2. Clamping to
    /// the cap happens in `apply_separation`.
    pub fn calculate_separation(&self, nbrs: &Vec<Agent>, cfg: &SimConfig) -> (r: Vec2)
        requires
            cfg.valid(),
            self.sane(),
            forall|k: int| 0 <= k < nbrs@.len() ==> (#[trigger] nbrs@[k]).sane(),
            nbrs@.len() <= MAX_POPULATION,
        ensures
            r@ == separation_raw_s(self.position@, nbrs@, *cfg),
            bounded(r@, 1_500_000_000_000),
    {
        let ghost p: V2 = self.position@;
        let ghost ar: int = cfg.avoid_radius as int;
        let mut acc: Vec2 = Vec2::zero();
        let aw: i128 = cfg.avoid_radius as i128;
        proof {
            assert(0 <= aw * aw <= 1_000_000_000_000_000_000i128) by (nonlinear_arith)
                requires
                    0 <= aw <= 1_000_000_000,
            ;
        }
        let aa: i128 = aw * aw;
        let mut i: usize = 0;
        while i < nbrs.len()
            invariant
                cfg.valid(),
                self.sane(),
                forall|k: int| 0 <= k < nbrs@.len() ==> (#[trigger] nbrs@[k]).sane(),
                nbrs@.len() <= MAX_POPULATION,
                0 <= i <= nbrs@.len(),
                acc@ == sep_sum_s(p, nbrs@.take(i as int), ar),
                bounded(acc@, i as int * 1_000_000),
                p == self.position@,
                ar == cfg.avoid_radius as int,
                aa as int == cfg.avoid_radius * cfg.avoid_radius,
            decreases nbrs@.len() - i,
        {
            let b: Agent = nbrs[i];
            let diff: Vec2 = self.position.minus(b.position);
            let d2: i128 = diff.norm_sq();
            if 0 < d2 && d2 < aa {
                let d: i64 = diff.mag();
                let u: Vec2 = diff.normalize();
                proof {
                    lemma_sqrt_ge(norm_sq_s(diff@), 1);
                    assert(-(1_000_000) <= u@.x * SCALE <= 1_000_000 && -(1_000_000) <= u@.y
                        * SCALE <= 1_000_000) by (nonlinear_arith)
                        requires
                            -1000 <= u@.x <= 1000,
                            -1000 <= u@.y <= 1000,
                            SCALE == 1000,
                    ;
                    lemma_div_tz_magnitude(u@.x * SCALE, d as int);
                    lemma_div_tz_magnitude(u@.y * SCALE, d as int);
                }
                let c: Vec2 = u.scale_div(SCALE, d);
                acc = acc.plus(c);
            }
            proof {
                lemma_take_step(nbrs@, i as int);
            }
            i = i + 1;
        }
        proof {
            assert(nbrs@.take(nbrs@.len() as int) =~= nbrs@);
        }
        acc.scale_div(SEPARATION_GAIN_NUM, SEPARATION_GAIN_DEN)
    }

    /// The raw alignment force against the given neighbor list: the
    /// average neighbor velocity, normalized and scaled to the speed
    /// ceiling; zero without neighbors. Clamping happens in
    /// `apply_alignment`.
    pub fn calculate_alignment(&self, nbrs: &Vec<Agent>, cfg: &SimConfig) -> (r: Vec2)
        requires
            cfg.valid(),
            forall|k: int| 0 <= k < nbrs@.len() ==> (#[trigger] nbrs@[k]).sane(),
            nbrs@.len() <= MAX_POPULATION,
        ensures
            r@ == alignment_raw_s(nbrs@, *cfg),
            bounded(r@, 1_000_000_000),
    {
        if nbrs.len() == 0 {
            return Vec2::zero();
        }
        let mut acc: Vec2 = Vec2::zero();
        let mut i: usize = 0;
        while i < nbrs.len()
            invariant
                forall|k: int| 0 <= k < nbrs@.len() ==> (#[trigger] nbrs@[k]).sane(),
                nbrs@.len() <= MAX_POPULATION,
                0 <= i <= nbrs@.len(),
                acc@ == vel_sum_s(nbrs@.take(i as int)),
                bounded(acc@, i as int * 1_000_000),
            decreases nbrs@.len() - i,
        {
            let b: Agent = nbrs[i];
            acc = acc.plus(b.velocity);
            proof {
                lemma_take_step(nbrs@, i as int);
            }
            i = i + 1;
        }
        proof {
            assert(nbrs@.take(nbrs@.len() as int) =~= nbrs@);
        }
        let count: i64 = nbrs.len() as i64;
        proof {
            lemma_div_tz_bound(acc@.x * 1, count as int, 1_000_000_000);
            lemma_div_tz_bound(acc@.y * 1, count as int, 1_000_000_000);
        }
        let avg: Vec2 = acc.scale_div(1, count);
        let u: Vec2 = avg.normalize();
        proof {
            assert(-1_000_000_000 <= normalize_s(avg@).x * cfg.max_speed <= 1_000_000_000
                && -1_000_000_000 <= normalize_s(avg@).y * cfg.max_speed <= 1_000_000_000)
                by (nonlinear_arith)
                requires
                    -1000 <= normalize_s(avg@).x <= 1000,
                    -1000 <= normalize_s(avg@).y <= 1000,
                    0 <= cfg.max_speed <= 1_000_000,
            ;
            lemma_div_tz_magnitude(normalize_s(avg@).x * cfg.max_speed, SCALE as int);
            lemma_div_tz_magnitude(normalize_s(avg@).y * cfg.max_speed, SCALE as int);
        }
        u.scale_div(cfg.max_speed, SCALE)
    }

    /// The raw cohesion attraction against the given neighbor list: the
    /// pull toward the neighbor centroid at the speed ceiling; zero
    /// without neighbors. Velocity subtraction and clamping happen in
    /// `apply_cohesion`.
    pub fn calculate_cohesion(&self, nbrs: &Vec<Agent>, cfg: &SimConfig) -> (r: Vec2)
        requires
            cfg.valid(),
            self.sane(),
            forall|k: int| 0 <= k < nbrs@.len() ==> (#[trigger] nbrs@[k]).sane(),
            nbrs@.len() <= MAX_POPULATION,
        ensures
            r@ == cohesion_raw_s(self.position@, nbrs@, *cfg),
            bounded(r@, 1_000_000_000),
    {
        let ghost p: V2 = self.position@;
        if nbrs.len() == 0 {
            return Vec2::zero();
        }
        let mut acc: Vec2 = Vec2::zero();
        let mut i: usize = 0;
        while i < nbrs.len()
            invariant
                forall|k: int| 0 <= k < nbrs@.len() ==> (#[trigger] nbrs@[k]).sane(),
                nbrs@.len() <= MAX_POPULATION,
                0 <= i <= nbrs@.len(),
                acc@ == pos_sum_s(nbrs@.take(i as int)),
                bounded(acc@, i as int * 1_000_000_000),
            decreases nbrs@.len() - i,
        {
            let b: Agent = nbrs[i];
            acc = acc.plus(b.position);
            proof {
                lemma_take_step(nbrs@, i as int);
            }
            i = i + 1;
        }
        proof {
            assert(nbrs@.take(nbrs@.len() as int) =~= nbrs@);
        }
        let count: i64 = nbrs.len() as i64;
        proof {
            lemma_div_tz_bound(acc@.x * 1, count as int, 1_000_000_000);
            lemma_div_tz_bound(acc@.y * 1, count as int, 1_000_000_000);
        }
        let centroid: Vec2 = acc.scale_div(1, count);
        let dir: Vec2 = centroid.minus(self.position);
        let u: Vec2 = dir.normalize();
        proof {
            assert(-1_000_000_000 <= normalize_s(dir@).x * cfg.max_speed <= 1_000_000_000
                && -1_000_000_000 <= normalize_s(dir@).y * cfg.max_speed <= 1_000_000_000)
                by (nonlinear_arith)
                requires
                    -1000 <= normalize_s(dir@).x <= 1000,
                    -1000 <= normalize_s(dir@).y <= 1000,
                    0 <= cfg.max_speed <= 1_000_000,
            ;
            lemma_div_tz_magnitude(normalize_s(dir@).x * cfg.max_speed, SCALE as int);
            lemma_div_tz_magnitude(normalize_s(dir@).y * cfg.max_speed, SCALE as int);
        }
        u.scale_div(cfg.max_speed, SCALE)
    }

    /// The obstacle avoidance force: every obstacle within its radius
    /// plus the configured margin pushes away with weight inverse to its
    /// distance; the weighted average push is scaled by the separation
    /// force cap and clamped to it. With no qualifying obstacle the force
    /// is exactly zero.
    pub fn calculate_obstacle_avoidance(&self, obstacles: &Vec<Obstacle>, cfg: &SimConfig) -> (r:
        Vec2)
        requires
            cfg.valid(),
            self.sane(),
            forall|k: int| 0 <= k < obstacles@.len() ==> (#[trigger] obstacles@[k]).wf(),
            obstacles@.len() <= MAX_OBSTACLES,
        ensures
            r@ == avoidance_force_s(self.position@, obstacles@, *cfg),
            bounded(r@, cfg.max_separation_force as int),
            mag_s(r@) <= cfg.max_separation_force,
            (forall|k: int|
                0 <= k < obstacles@.len() ==> !avoid_qualifies_s(
                    self.position@,
                    #[trigger] obstacles@[k],
                    cfg.obstacle_margin as int,
                )) ==> r@ == V2::zero(),
    {
        let ghost p: V2 = self.position@;
        let ghost margin: int = cfg.obstacle_margin as int;
        let mut acc: Vec2 = Vec2::zero();
        let mut tw: i64 = 0;
        let mut i: usize = 0;
        while i < obstacles.len()
            invariant
                cfg.valid(),
                self.sane(),
                forall|k: int| 0 <= k < obstacles@.len() ==> (#[trigger] obstacles@[k]).wf(),
                obstacles@.len() <= MAX_OBSTACLES,
                0 <= i <= obstacles@.len(),
                acc@ == avoid_sum_s(p, obstacles@.take(i as int), margin),
                tw as int == avoid_weight_sum_s(p, obstacles@.take(i as int), margin),
                0 <= tw as int <= i as int * 1_000_000,
                bounded(acc@, tw as int),
                p == self.position@,
                margin == cfg.obstacle_margin as int,
            decreases obstacles@.len() - i,
        {
            let o: Obstacle = obstacles[i];
            let diff: Vec2 = self.position.minus(o.position);
            let d2: i128 = diff.norm_sq();
            let reach: i64 = o.radius + cfg.obstacle_margin;
            let rw: i128 = reach as i128;
            proof {
                assert(0 <= rw * rw <= 4_000_000_000_000_000_000i128) by (nonlinear_arith)
                    requires
                        0 <= rw <= 2_000_000_000,
                ;
            }
            if 0 < d2 && d2 < rw * rw {
                let d: i64 = diff.mag();
                proof {
                    lemma_sqrt_ge(norm_sq_s(diff@), 1);
                    lemma_div_tz_magnitude((SCALE * SCALE) as int, d as int);
                }
                let w: i64 = crate::math::mul_div(SCALE, SCALE, d);
                let u: Vec2 = diff.normalize();
                proof {
                    assert(-(w as int * SCALE) <= u@.x * (w as int) <= w as int * SCALE && -(
                    w as int * SCALE) <= u@.y * (w as int) <= w as int * SCALE)
                        by (nonlinear_arith)
                        requires
                            -1000 <= u@.x <= 1000,
                            -1000 <= u@.y <= 1000,
                            0 <= w,
                            SCALE == 1000,
                    ;
                    lemma_div_tz_bound(u@.x * (w as int), SCALE as int, w as int);
                    lemma_div_tz_bound(u@.y * (w as int), SCALE as int, w as int);
                }
                let c: Vec2 = u.scale_div(w, SCALE);
                acc = acc.plus(c);
                tw = tw + w;
            }
            proof {
                lemma_take_step(obstacles@, i as int);
            }
            i = i + 1;
        }
        proof {
            assert(obstacles@.take(obstacles@.len() as int) =~= obstacles@);
        }
        let t: Vec2 = if tw > 0 {
            proof {
                assert(-(SCALE as int * tw) <= acc@.x * SCALE <= SCALE as int * tw && -(
                SCALE as int * tw) <= acc@.y * SCALE <= SCALE as int * tw) by (nonlinear_arith)
                    requires
                        -(tw as int) <= acc@.x <= tw as int,
                        -(tw as int) <= acc@.y <= tw as int,
                        SCALE == 1000,
                        tw >= 1,
                ;
                lemma_div_tz_bound(acc@.x * SCALE, tw as int, SCALE as int);
                lemma_div_tz_bound(acc@.y * SCALE, tw as int, SCALE as int);
            }
            acc.scale_div(SCALE, tw)
        } else {
            acc
        };
        proof {
            assert(-1_000_000_000 <= t@.x * cfg.max_separation_force <= 1_000_000_000
                && -1_000_000_000 <= t@.y * cfg.max_separation_force <= 1_000_000_000)
                by (nonlinear_arith)
                requires
                    -1000 <= t@.x <= 1000,
                    -1000 <= t@.y <= 1000,
                    0 <= cfg.max_separation_force <= 1_000_000,
            ;
            lemma_div_tz_magnitude(t@.x * cfg.max_separation_force, SCALE as int);
            lemma_div_tz_magnitude(t@.y * cfg.max_separation_force, SCALE as int);
        }
        let scaled: Vec2 = t.scale_div(cfg.max_separation_force, SCALE);
        let r: Vec2 = scaled.clamp_len_max(cfg.max_separation_force);
        proof {
            if forall|k: int|
                0 <= k < obstacles@.len() ==> !avoid_qualifies_s(
                    p,
                    #[trigger] obstacles@[k],
                    margin,
                ) {
                lemma_avoid_all_far_zero(p, obstacles@, margin);
                assert(t@ == V2::zero());
                assert(0 * (cfg.max_separation_force as int) == 0) by (nonlinear_arith);
                assert(scaled@ == V2::zero());
                assert(norm_sq_s(V2::zero()) == 0);
                assert(0 <= (cfg.max_separation_force as int) * (cfg.max_separation_force as int
                    + 2)) by (nonlinear_arith)
                    requires
                        cfg.max_separation_force >= 1,
                ;
                assert(r@ == V2::zero());
            }
        }
        r
    }
}

/// The whole force sum one agent accumulates in one frame, in application
/// order: pointer attraction, separation, alignment, cohesion, obstacle
/// avoidance, random jitter, added onto the agent's pending acceleration.
pub open spec fn frame_accel_s(
    a: Agent,
    flock: Seq<Agent>,
    obs: Seq<Obstacle>,
    cfg: SimConfig,
    jitter: V2,
    pointer: Option<Vec2>,
) -> V2 {
    a.acceleration@.plus(attract_accel_s(a.position@, pointer, cfg)).plus(
        separation_force_s(a.position@, a.velocity@, flock, cfg),
    ).plus(alignment_force_s(a.position@, a.velocity@, flock, cfg)).plus(
        cohesion_force_s(a.position@, a.velocity@, flock, cfg),
    ).plus(avoidance_force_s(a.position@, obs, cfg)).plus(jitter)
}

/// A coordinate after the boundary wrap.
fn wrap_coord(p: i64, hi: i64) -> (r: i64)
    requires
        0 <= hi,
    ensures
        r as int == wrap_s(p as int, hi as int),
        0 <= r <= hi,
{
    if p > hi {
        0
    } else if p < 0 {
        hi
    } else {
        p
    }
}

impl Agent {
    /// Separation steering: repulsion from neighbors inside the avoidance
    /// radius, clamped to the separation cap, added to the pending
    /// acceleration.
    pub fn apply_separation(&mut self, flock: &Vec<Agent>, cfg: &SimConfig)
        requires
            cfg.valid(),
            old(self).sane(),
            forall|k: int| 0 <= k < flock@.len() ==> (#[trigger] flock@[k]).sane(),
            flock@.len() <= MAX_POPULATION,
        ensures
            final(self).position == old(self).position,
            final(self).velocity == old(self).velocity,
            final(self).acceleration@ == old(self).acceleration@.plus(
                separation_force_s(old(self).position@, old(self).velocity@, flock@, *cfg),
            ),
            bounded(
                separation_force_s(old(self).position@, old(self).velocity@, flock@, *cfg),
                cfg.max_separation_force as int,
            ),
            mag_s(separation_force_s(old(self).position@, old(self).velocity@, flock@, *cfg))
                <= cfg.max_separation_force,
    {
        let nbrs: Vec<Agent> = self.find_neighbors(flock, cfg);
        proof {
            assert forall|j: int| 0 <= j < nbrs@.len() implies (#[trigger] nbrs@[j]).sane() by {
                let k = choose|k: int| 0 <= k < flock@.len() && flock@[k] == nbrs@[j];
                assert(flock@[k].sane());
            }
        }
        let raw: Vec2 = self.calculate_separation(&nbrs, cfg);
        let f: Vec2 = raw.clamp_len_max(cfg.max_separation_force);
        self.apply_force(f);
    }

    /// Alignment steering: the neighbors' average heading at the speed
    /// ceiling, clamped to the alignment cap, added to the pending
    /// acceleration.
    pub fn apply_alignment(&mut self, flock: &Vec<Agent>, cfg: &SimConfig)
        requires
            cfg.valid(),
            old(self).sane(),
            forall|k: int| 0 <= k < flock@.len() ==> (#[trigger] flock@[k]).sane(),
            flock@.len() <= MAX_POPULATION,
        ensures
            final(self).position == old(self).position,
            final(self).velocity == old(self).velocity,
            final(self).acceleration@ == old(self).acceleration@.plus(
                alignment_force_s(old(self).position@, old(self).velocity@, flock@, *cfg),
            ),
            bounded(
                alignment_force_s(old(self).position@, old(self).velocity@, flock@, *cfg),
                cfg.max_alignment_force as int,
            ),
            mag_s(alignment_force_s(old(self).position@, old(self).velocity@, flock@, *cfg))
                <= cfg.max_alignment_force,
    {
        let nbrs: Vec<Agent> = self.find_neighbors(flock, cfg);
        proof {
            assert forall|j: int| 0 <= j < nbrs@.len() implies (#[trigger] nbrs@[j]).sane() by {
                let k = choose|k: int| 0 <= k < flock@.len() && flock@[k] == nbrs@[j];
                assert(flock@[k].sane());
            }
        }
        let raw: Vec2 = self.calculate_alignment(&nbrs, cfg);
        let f: Vec2 = raw.clamp_len_max(cfg.max_alignment_force);
        self.apply_force(f);
    }

    /// Cohesion steering: the pull toward the neighbor centroid turned
    /// into a steering correction, clamped to the cohesion cap, added to
    /// the pending acceleration. Zero without neighbors.
    pub fn apply_cohesion(&mut self, flock: &Vec<Agent>, cfg: &SimConfig)
        requires
            cfg.valid(),
            old(self).sane(),
            forall|k: int| 0 <= k < flock@.len() ==> (#[trigger] flock@[k]).sane(),
            flock@.len() <= MAX_POPULATION,
        ensures
            final(self).position == old(self).position,
            final(self).velocity == old(self).velocity,
            final(self).acceleration@ == old(self).acceleration@.plus(
                cohesion_force_s(old(self).position@, old(self).velocity@, flock@, *cfg),
            ),
            bounded(
                cohesion_force_s(old(self).position@, old(self).velocity@, flock@, *cfg),
                cfg.max_cohesion_force as int,
            ),
            mag_s(cohesion_force_s(old(self).position@, old(self).velocity@, flock@, *cfg))
                <= cfg.max_cohesion_force,
    {
        let nbrs: Vec<Agent> = self.find_neighbors(flock, cfg);
        proof {
            assert forall|j: int| 0 <= j < nbrs@.len() implies (#[trigger] nbrs@[j]).sane() by {
                let k = choose|k: int| 0 <= k < flock@.len() && flock@[k] == nbrs@[j];
                assert(flock@[k].sane());
            }
        }
        if nbrs.len() == 0 {
            proof {
                assert(0 < (cfg.max_cohesion_force as int + 1) * (cfg.max_cohesion_force as int
                    + 1)) by (nonlinear_arith)
                    requires
                        cfg.max_cohesion_force >= 1,
                ;
                crate::math::lemma_sqrt_le(0, cfg.max_cohesion_force as int);
                assert(norm_sq_s(V2::zero()) == 0);
                assert(mag_s(V2::zero()) <= cfg.max_cohesion_force);
            }
            let f: Vec2 = Vec2::zero();
            self.apply_force(f);
        } else {
            let raw: Vec2 = self.calculate_cohesion(&nbrs, cfg);
            let steer: Vec2 = raw.minus(self.velocity);
            let f: Vec2 = steer.clamp_len_max(cfg.max_cohesion_force);
            self.apply_force(f);
        }
    }

    /// Obstacle avoidance, added to the pending acceleration.
    pub fn apply_obstacle_avoidance(&mut self, obstacles: &Vec<Obstacle>, cfg: &SimConfig)
        requires
            cfg.valid(),
            old(self).sane(),
            forall|k: int| 0 <= k < obstacles@.len() ==> (#[trigger] obstacles@[k]).wf(),
            obstacles@.len() <= MAX_OBSTACLES,
        ensures
            final(self).position == old(self).position,
            final(self).velocity == old(self).velocity,
            final(self).acceleration@ == old(self).acceleration@.plus(
                avoidance_force_s(old(self).position@, obstacles@, *cfg),
            ),
            bounded(
                avoidance_force_s(old(self).position@, obstacles@, *cfg),
                cfg.max_separation_force as int,
            ),
            mag_s(avoidance_force_s(old(self).position@, obstacles@, *cfg))
                <= cfg.max_separation_force,
    {
        let f: Vec2 = self.calculate_obstacle_avoidance(obstacles, cfg);
        self.apply_force(f);
    }

    /// Pointer attraction at full strength: the unit direction toward the
    /// pointer scaled by the attraction strength (zero-safe: a pointer
    /// exactly on the agent gives no force). The caller restricts this to
    /// agents inside the attraction radius.
    pub fn apply_mouse_attraction(&mut self, pointer: Vec2, cfg: &SimConfig)
        requires
            cfg.valid(),
            old(self).sane(),
            bounded(pointer@, 1_000_000_000),
        ensures
            final(self).position == old(self).position,
            final(self).velocity == old(self).velocity,
            final(self).acceleration@ == old(self).acceleration@.plus(
                scale_dt_s(
                    normalize_s(pointer@.minus(old(self).position@)),
                    cfg.attract_strength as int,
                    SCALE as int,
                ),
            ),
            bounded(
                scale_dt_s(
                    normalize_s(pointer@.minus(old(self).position@)),
                    cfg.attract_strength as int,
                    SCALE as int,
                ),
                cfg.attract_strength as int,
            ),
    {
        let dir: Vec2 = pointer.minus(self.position);
        let u: Vec2 = dir.normalize();
        proof {
            assert(-(cfg.attract_strength as int * SCALE) <= u@.x * (cfg.attract_strength as int)
                <= cfg.attract_strength as int * SCALE && -(cfg.attract_strength as int * SCALE)
                <= u@.y * (cfg.attract_strength as int) <= cfg.attract_strength as int * SCALE)
                by (nonlinear_arith)
                requires
                    -1000 <= u@.x <= 1000,
                    -1000 <= u@.y <= 1000,
                    0 <= cfg.attract_strength,
                    SCALE == 1000,
            ;
            lemma_div_tz_bound(
                u@.x * (cfg.attract_strength as int),
                SCALE as int,
                cfg.attract_strength as int,
            );
            lemma_div_tz_bound(
                u@.y * (cfg.attract_strength as int),
                SCALE as int,
                cfg.attract_strength as int,
            );
        }
        let f: Vec2 = u.scale_div(cfg.attract_strength, SCALE);
        self.apply_force(f);
    }

    /// A small random jitter, each axis uniform in the configured
    /// symmetric range, to break symmetry; unclamped (the sampling range
    /// already bounds it).
    pub fn apply_random_force(&mut self, cfg: &SimConfig)
        requires
            cfg.valid(),
            bounded(old(self).acceleration@, 100_000_000),
        ensures
            final(self).position == old(self).position,
            final(self).velocity == old(self).velocity,
            old(self).acceleration@.x - cfg.jitter_max <= final(self).acceleration@.x <= old(
                self,
            ).acceleration@.x + cfg.jitter_max,
            old(self).acceleration@.y - cfg.jitter_max <= final(self).acceleration@.y <= old(
                self,
            ).acceleration@.y + cfg.jitter_max,
    {
        let jx: i64 = crate::rng::sample_range(-cfg.jitter_max, cfg.jitter_max);
        let jy: i64 = crate::rng::sample_range(-cfg.jitter_max, cfg.jitter_max);
        self.apply_force(Vec2::new(jx, jy));
    }

    /// One full integration step against the frozen snapshot, with the
    /// frame's random jitter passed in: accumulate all forces, add the
    /// accumulator to the velocity, clamp the speed into
    /// `[minSpeed, maxSpeed]`, advance the position, reset the
    /// accumulator, and wrap both coordinates at the world bounds.
    pub fn update_with_jitter(
        &mut self,
        flock: &Vec<Agent>,
        obstacles: &Vec<Obstacle>,
        cfg: &SimConfig,
        jitter: Vec2,
        pointer: Option<Vec2>,
    )
        requires
            cfg.valid(),
            old(self).wf(*cfg),
            forall|k: int| 0 <= k < flock@.len() ==> (#[trigger] flock@[k]).sane(),
            flock@.len() <= MAX_POPULATION,
            forall|k: int| 0 <= k < obstacles@.len() ==> (#[trigger] obstacles@[k]).wf(),
            obstacles@.len() <= MAX_OBSTACLES,
            bounded(jitter@, cfg.jitter_max as int),
            match pointer {
                Option::Some(m) => bounded(m@, 1_000_000_000),
                Option::None => true,
            },
        ensures
            final(self).velocity@ == clamp_range_s(
                old(self).velocity@.plus(
                    frame_accel_s(*old(self), flock@, obstacles@, *cfg, jitter@, pointer),
                ),
                cfg.min_speed_s(),
                cfg.max_speed as int,
            ),
            final(self).position@.x == wrap_s(
                old(self).position@.x + final(self).velocity@.x,
                cfg.world_w as int,
            ),
            final(self).position@.y == wrap_s(
                old(self).position@.y + final(self).velocity@.y,
                cfg.world_h as int,
            ),
            final(self).acceleration@ == V2::zero(),
            final(self).wf(*cfg),
            cfg.min_speed_s() <= mag_s(final(self).velocity@) <= cfg.max_speed as int,
            0 <= final(self).position@.x <= cfg.world_w,
            0 <= final(self).position@.y <= cfg.world_h,
    {
        let ghost a0: Agent = *self;
        match pointer {
            Option::Some(m) => {
                let diff: Vec2 = m.minus(self.position);
                let d2: i128 = diff.norm_sq();
                let arw: i128 = cfg.attract_radius as i128;
                proof {
                    assert(0 <= arw * arw <= 1_000_000_000_000_000_000i128) by (nonlinear_arith)
                        requires
                            0 <= arw <= 1_000_000_000,
                    ;
                }
                if d2 < arw * arw {
                    self.apply_mouse_attraction(m, cfg);
                }
            },
            Option::None => {},
        }
        proof {
            assert(self.acceleration@ == a0.acceleration@.plus(
                attract_accel_s(a0.position@, pointer, *cfg),
            ));
            assert(bounded(self.acceleration@, 11_000_000));
        }
        self.apply_separation(flock, cfg);
        self.apply_alignment(flock, cfg);
        self.apply_cohesion(flock, cfg);
        self.apply_obstacle_avoidance(obstacles, cfg);
        self.apply_force(jitter);
        proof {
            assert(self.acceleration@ == frame_accel_s(
                a0,
                flock@,
                obstacles@,
                *cfg,
                jitter@,
                pointer,
            ));
            assert(bounded(self.acceleration@, 16_000_000));
        }
        let vsum: Vec2 = self.velocity.plus(self.acceleration);
        let lo: i64 = cfg.min_speed();
        let vnew: Vec2 = vsum.clamp_len_range(lo, cfg.max_speed);
        self.velocity = vnew;
        let moved: Vec2 = self.position.plus(self.velocity);
        self.position = Vec2::new(
            wrap_coord(moved.x, cfg.world_w),
            wrap_coord(moved.y, cfg.world_h),
        );
        self.acceleration = Vec2::zero();
    }

    /// One full integration step, sampling the frame's random jitter.
    /// Whatever the sample, the agent ends the frame well-formed, with
    /// its speed inside `[minSpeed, maxSpeed]` and its position inside
    /// the world rectangle.
    pub fn update(
        &mut self,
        flock: &Vec<Agent>,
        obstacles: &Vec<Obstacle>,
        cfg: &SimConfig,
        pointer: Option<Vec2>,
    )
        requires
            cfg.valid(),
            old(self).wf(*cfg),
            forall|k: int| 0 <= k < flock@.len() ==> (#[trigger] flock@[k]).sane(),
            flock@.len() <= MAX_POPULATION,
            forall|k: int| 0 <= k < obstacles@.len() ==> (#[trigger] obstacles@[k]).wf(),
            obstacles@.len() <= MAX_OBSTACLES,
            match pointer {
                Option::Some(m) => bounded(m@, 1_000_000_000),
                Option::None => true,
            },
        ensures
            final(self).wf(*cfg),
            final(self).acceleration@ == V2::zero(),
            cfg.min_speed_s() <= mag_s(final(self).velocity@) <= cfg.max_speed as int,
            0 <= final(self).position@.x <= cfg.world_w,
            0 <= final(self).position@.y <= cfg.world_h,
    {
        let jx: i64 = crate::rng::sample_range(-cfg.jitter_max, cfg.jitter_max);
        let jy: i64 = crate::rng::sample_range(-cfg.jitter_max, cfg.jitter_max);
        self.update_with_jitter(flock, obstacles, cfg, Vec2::new(jx, jy), pointer);
    }

    /// The drawable marker of the agent: three points forming a shape
    /// that points along the heading (ten units ahead, and two back
    /// corners seven units behind, five to each side).
    pub fn heading_triangle(&self) -> (r: (Vec2, Vec2, Vec2))
        requires
            self.sane(),
        ensures
            r.0@ == self.position@.plus(scale_dt_s(normalize_s(self.velocity@), 10, 1)),
            r.1@ == self.position@.minus(scale_dt_s(normalize_s(self.velocity@), 7, 1)).plus(
                scale_dt_s(perp_s(normalize_s(self.velocity@)), 5, 1),
            ),
            r.2@ == self.position@.minus(scale_dt_s(normalize_s(self.velocity@), 7, 1)).minus(
                scale_dt_s(perp_s(normalize_s(self.velocity@)), 5, 1),
            ),
    {
        let dir: Vec2 = self.velocity.normalize();
        let perp: Vec2 = Vec2::new(0 - dir.y, dir.x);
        proof {
            assert(perp@ == perp_s(dir@));
        }
        let ahead: Vec2 = dir.scale_div(10, 1);
        let back: Vec2 = dir.scale_div(7, 1);
        let side: Vec2 = perp.scale_div(5, 1);
        proof {
            lemma_div_tz_magnitude(dir@.x * 10, 1);
            lemma_div_tz_magnitude(dir@.y * 10, 1);
            lemma_div_tz_magnitude(dir@.x * 7, 1);
            lemma_div_tz_magnitude(dir@.y * 7, 1);
            lemma_div_tz_magnitude(perp@.x * 5, 1);
            lemma_div_tz_magnitude(perp@.y * 5, 1);
        }
        let p1: Vec2 = self.position.plus(ahead);
        let p2: Vec2 = self.position.minus(back).plus(side);
        let p3: Vec2 = self.position.minus(back).minus(side);
        (p1, p2, p3)
    }
}

/// The left-hand perpendicular of a direction.
pub open spec fn perp_s(v: V2) -> V2 {
    V2 { x: -v.y, y: v.x }
}

/// A freshly spawned agent: position uniform over the world rectangle,
/// velocity uniform in the symmetric spawn range on each axis, no
/// pending acceleration.
pub fn random_agent(cfg: &SimConfig) -> (r: Agent)
    requires
        cfg.valid(),
    ensures
        r.wf(*cfg),
        r.acceleration@ == V2::zero(),
{
    let px: i64 = crate::rng::sample_range(0, cfg.world_w);
    let py: i64 = crate::rng::sample_range(0, cfg.world_h);
    let vx: i64 = crate::rng::sample_range(-cfg.spawn_speed_max, cfg.spawn_speed_max);
    let vy: i64 = crate::rng::sample_range(-cfg.spawn_speed_max, cfg.spawn_speed_max);
    Agent::new(Vec2::new(px, py), Vec2::new(vx, vy))
}

/// A fresh population of the configured size.
pub fn create_agents(cfg: &SimConfig) -> (r: Vec<Agent>)
    requires
        cfg.valid(),
    ensures
        r@.len() == cfg.population,
        forall|k: int|
            0 <= k < r@.len() ==> (#[trigger] r@[k]).wf(*cfg) && r@[k].acceleration@
                == V2::zero(),
{
    let mut out: Vec<Agent> = Vec::new();
    let mut i: usize = 0;
    while i < cfg.population
        invariant
            cfg.valid(),
            0 <= i <= cfg.population,
            out@.len() == i,
            forall|k: int|
                0 <= k < out@.len() ==> (#[trigger] out@[k]).wf(*cfg) && out@[k].acceleration@
                    == V2::zero(),
        decreases cfg.population - i,
    {
        out.push(random_agent(cfg));
        i = i + 1;
    }
    out
}

/// A neighbor never is the querying agent itself: every agent the query
/// returns stands at a different position, so in particular it is not
/// the queried agent, whatever the population holds.
pub proof fn lemma_neighbor_not_self(p: V2, v: V2, flock: Seq<Agent>, cfg: SimConfig)
    ensures
        forall|j: int|
            0 <= j < neighbors_s(p, v, flock, cfg).len() ==> (#[trigger] neighbors_s(
                p,
                v,
                flock,
                cfg,
            )[j]).position@ != p,
{
    lemma_neighbors_sound(p, v, flock, cfg);
    assert forall|j: int| 0 <= j < neighbors_s(p, v, flock, cfg).len() implies (
    #[trigger] neighbors_s(p, v, flock, cfg)[j]).position@ != p by {
        let b = neighbors_s(p, v, flock, cfg)[j];
        if b.position@ == p {
            assert(norm_sq_s(b.position@.minus(p)) == 0) by (nonlinear_arith)
                requires
                    b.position@.minus(p) == (V2 { x: 0, y: 0 }),
            ;
        }
    }
}

/// A lone agent feels no flocking force: with a population that holds
/// only the agent itself, the separation, alignment and cohesion forces
/// are all exactly the zero vector, whatever its state.
pub proof fn lemma_lone_agent_forces_zero(a: Agent, cfg: SimConfig)
    requires
        cfg.valid(),
    ensures
        separation_force_s(a.position@, a.velocity@, seq![a], cfg) == V2::zero(),
        alignment_force_s(a.position@, a.velocity@, seq![a], cfg) == V2::zero(),
        cohesion_force_s(a.position@, a.velocity@, seq![a], cfg) == V2::zero(),
{
    let flock = seq![a];
    let p = a.position@;
    let v = a.velocity@;
    assert((p.x - p.x) * (p.x - p.x) + (p.y - p.y) * (p.y - p.y) == 0) by (nonlinear_arith);
    assert(norm_sq_s(a.position@.minus(p)) == 0);
    assert(!is_neighbor_s(p, v, a, cfg));
    assert(flock.drop_last() =~= Seq::<Agent>::empty());
    assert(flock.last() == a);
    assert(neighbors_s(p, v, Seq::<Agent>::empty(), cfg) =~= Seq::<Agent>::empty());
    assert(neighbors_s(p, v, flock.drop_last(), cfg) == neighbors_s(
        p,
        v,
        Seq::<Agent>::empty(),
        cfg,
    ));
    assert(neighbors_s(p, v, flock, cfg) =~= Seq::<Agent>::empty());
    let nbrs = neighbors_s(p, v, flock, cfg);
    assert(nbrs.len() == 0);
    assert(sep_sum_s(p, nbrs, cfg.avoid_radius as int) == V2::zero());
    assert(div_tz(0 * SEPARATION_GAIN_NUM, SEPARATION_GAIN_DEN as int) == 0);
    assert(separation_raw_s(p, nbrs, cfg) == V2::zero());
    crate::vec2::lemma_clamp_max_zero(cfg.max_separation_force as int);
    assert(alignment_raw_s(nbrs, cfg) == V2::zero());
    crate::vec2::lemma_clamp_max_zero(cfg.max_alignment_force as int);
}

/// With no qualifying obstacle both accumulations are zero.
proof fn lemma_avoid_all_far_zero(p: V2, obs: Seq<Obstacle>, margin: int)
    requires
        forall|k: int| 0 <= k < obs.len() ==> !avoid_qualifies_s(p, #[trigger] obs[k], margin),
    ensures
        avoid_sum_s(p, obs, margin) == V2::zero(),
        avoid_weight_sum_s(p, obs, margin) == 0,
    decreases obs.len(),
{
    if obs.len() > 0 {
        assert(forall|k: int|
            0 <= k < obs.drop_last().len() ==> !avoid_qualifies_s(
                p,
                #[trigger] obs.drop_last()[k],
                margin,
            ));
        lemma_avoid_all_far_zero(p, obs.drop_last(), margin);
        assert(!avoid_qualifies_s(p, obs.last(), margin));
    }
}

} // verus!
