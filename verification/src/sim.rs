//! The simulation context: the agent population, the obstacle set, the
//! configuration and the one discrete mode flag, advanced one tick per
//! frame.
//!
//! Each tick freezes the population into a snapshot and computes every
//! agent's new state against that snapshot only, so the frame is
//! independent of processing order.

use vstd::prelude::*;

use crate::agent::create_agents;
use crate::agent::frame_accel_s;
use crate::agent::wrap_s;
use crate::agent::Agent;
use crate::config::SimConfig;
use crate::config::MAX_OBSTACLES;
use crate::config::MAX_POPULATION;
use crate::config::OBSTACLE_RADIUS;
use crate::obstacle::contains_s;
use crate::obstacle::Obstacle;
use crate::vec2::bounded;
use crate::vec2::clamp_range_s;
use crate::vec2::mag_s;
use crate::vec2::V2;
use crate::vec2::Vec2;

verus! {

/// `a1` is `a0` advanced by one integration step against the given
/// snapshot, obstacles, jitter and pointer state.
pub open spec fn stepped_s(
    a0: Agent,
    a1: Agent,
    flock: Seq<Agent>,
    obs: Seq<Obstacle>,
    cfg: SimConfig,
    jitter: V2,
    pointer: Option<Vec2>,
) -> bool {
    &&& a1.velocity@ == clamp_range_s(
        a0.velocity@.plus(frame_accel_s(a0, flock, obs, cfg, jitter, pointer)),
        cfg.min_speed_s(),
        cfg.max_speed as int,
    )
    &&& a1.position@.x == wrap_s(a0.position@.x + a1.velocity@.x, cfg.world_w as int)
    &&& a1.position@.y == wrap_s(a0.position@.y + a1.velocity@.y, cfg.world_h as int)
    &&& a1.acceleration@ == V2::zero()
    &&& a1.wf(cfg)
    &&& cfg.min_speed_s() <= mag_s(a1.velocity@) <= cfg.max_speed as int
}

/// The obstacles whose disc does not contain `p`, in order: what remains
/// after a deletion event at `p`.
pub open spec fn remove_contains_s(obs: Seq<Obstacle>, p: V2) -> Seq<Obstacle>
    decreases obs.len(),
{
    if obs.len() == 0 {
        Seq::empty()
    } else {
        let rest = remove_contains_s(obs.drop_last(), p);
        if contains_s(obs.last(), p) {
            rest
        } else {
            rest.push(obs.last())
        }
    }
}

/// Every remaining obstacle misses `p` and stood in the set before the
/// deletion, which cannot have grown.
pub proof fn lemma_remove_contains_sound(obs: Seq<Obstacle>, p: V2)
    ensures
        remove_contains_s(obs, p).len() <= obs.len(),
        forall|j: int|
            0 <= j < remove_contains_s(obs, p).len() ==> !contains_s(
                #[trigger] remove_contains_s(obs, p)[j],
                p,
            ) && obs.contains(remove_contains_s(obs, p)[j]),
    decreases obs.len(),
{
    if obs.len() > 0 {
        lemma_remove_contains_sound(obs.drop_last(), p);
        let rest = remove_contains_s(obs.drop_last(), p);
        assert forall|j: int| 0 <= j < rest.len() implies obs.contains(rest[j]) by {
            let k = choose|k: int| 0 <= k < obs.drop_last().len() && obs.drop_last()[k]
                == rest[j];
            assert(obs[k] == rest[j]);
        }
        assert(obs.contains(obs.last()));
    }
}

/// An exact copy of the population: the per-frame snapshot.
fn clone_agents(v: &Vec<Agent>) -> (r: Vec<Agent>)
    ensures
        r@ == v@,
{
    let mut out: Vec<Agent> = Vec::new();
    let mut i: usize = 0;
    while i < v.len()
        invariant
            0 <= i <= v@.len(),
            out@ == v@.take(i as int),
        decreases v@.len() - i,
    {
        out.push(v[i]);
        proof {
            assert(v@.take(i as int + 1) =~= v@.take(i as int).push(v@[i as int]));
        }
        i = i + 1;
    }
    proof {
        assert(v@.take(v@.len() as int) =~= v@);
    }
    out
}

/// One running simulation: the whole mutable state, owned by the caller
/// and advanced explicitly.
#[derive(Debug)]
pub struct Simulation {
    pub config: SimConfig,
    pub agents: Vec<Agent>,
    pub obstacles: Vec<Obstacle>,
    /// Whether a placement event deletes instead of placing.
    pub delete_mode: bool,
}

impl Simulation {
    /// The state invariant: a valid configuration, a bounded population
    /// of well-formed agents, a bounded set of well-formed obstacles.
    pub open spec fn wf(self) -> bool {
        &&& self.config.valid()
        &&& self.agents@.len() <= MAX_POPULATION
        &&& forall|k: int| 0 <= k < self.agents@.len() ==> (#[trigger] self.agents@[k]).wf(self.config)
        &&& self.obstacles@.len() <= MAX_OBSTACLES
        &&& forall|k: int| 0 <= k < self.obstacles@.len() ==> (#[trigger] self.obstacles@[k]).wf()
    }

    /// A fresh simulation: a random population of the configured size,
    /// no obstacles, placement mode.
    pub fn new(config: SimConfig) -> (r: Simulation)
        requires
            config.valid(),
        ensures
            r.wf(),
            r.config == config,
            r.agents@.len() == config.population,
            r.obstacles@.len() == 0,
            r.delete_mode == false,
    {
        let agents: Vec<Agent> = create_agents(&config);
        Simulation { config, agents, obstacles: Vec::new(), delete_mode: false }
    }

    /// A simulation over a caller-supplied population.
    pub fn with_agents(config: SimConfig, agents: Vec<Agent>) -> (r: Simulation)
        requires
            config.valid(),
            agents@.len() <= MAX_POPULATION,
            forall|k: int| 0 <= k < agents@.len() ==> (#[trigger] agents@[k]).wf(config),
        ensures
            r.wf(),
            r.config == config,
            r.agents == agents,
            r.obstacles@.len() == 0,
            r.delete_mode == false,
    {
        Simulation { config, agents, obstacles: Vec::new(), delete_mode: false }
    }

    /// One frame with the per-agent jitters passed in: freeze a snapshot
    /// of the population, then advance every agent against it. Each
    /// agent's new state is exactly one integration step; afterwards
    /// every agent's speed lies in `[minSpeed, maxSpeed]` and its
    /// position inside the world rectangle.
    pub fn tick_with_jitter(&mut self, pointer: Option<Vec2>, jitters: &Vec<Vec2>)
        requires
            old(self).wf(),
            jitters@.len() == old(self).agents@.len(),
            forall|k: int|
                0 <= k < jitters@.len() ==> bounded(
                    (#[trigger] jitters@[k])@,
                    old(self).config.jitter_max as int,
                ),
            match pointer {
                Option::Some(m) => bounded(m@, 1_000_000_000),
                Option::None => true,
            },
        ensures
            final(self).wf(),
            final(self).config == old(self).config,
            final(self).obstacles == old(self).obstacles,
            final(self).delete_mode == old(self).delete_mode,
            final(self).agents@.len() == old(self).agents@.len(),
            forall|i: int|
                0 <= i < final(self).agents@.len() ==> stepped_s(
                    old(self).agents@[i],
                    #[trigger] final(self).agents@[i],
                    old(self).agents@,
                    old(self).obstacles@,
                    old(self).config,
                    jitters@[i]@,
                    pointer,
                ),
            forall|i: int|
                0 <= i < final(self).agents@.len() ==> old(self).config.min_speed_s() <= mag_s(
                    (#[trigger] final(self).agents@[i]).velocity@,
                ) <= old(self).config.max_speed,
            forall|i: int|
                0 <= i < final(self).agents@.len() ==> 0 <= (#[trigger] final(self).agents@[i]).position@.x <= old(self).config.world_w
                    && 0 <= final(self).agents@[i].position@.y <= old(self).config.world_h,
    {
        let snapshot: Vec<Agent> = clone_agents(&self.agents);
        proof {
            assert forall|k: int| 0 <= k < snapshot@.len() implies (#[trigger] snapshot@[k]).sane()
            by {
                assert(snapshot@[k].wf(self.config));
            }
        }
        let n: usize = self.agents.len();
        let mut i: usize = 0;
        while i < n
            invariant
                old(self).wf(),
                self.config == old(self).config,
                self.obstacles == old(self).obstacles,
                self.delete_mode == old(self).delete_mode,
                snapshot@ == old(self).agents@,
                n == old(self).agents@.len(),
                self.agents@.len() == n,
                jitters@.len() == n,
                forall|k: int|
                    0 <= k < jitters@.len() ==> bounded(
                        (#[trigger] jitters@[k])@,
                        old(self).config.jitter_max as int,
                    ),
                match pointer {
                    Option::Some(m) => bounded(m@, 1_000_000_000),
                    Option::None => true,
                },
                forall|k: int| 0 <= k < snapshot@.len() ==> (#[trigger] snapshot@[k]).sane(),
                0 <= i <= n,
                forall|j: int| i <= j < n ==> self.agents@[j] == old(self).agents@[j],
                forall|j: int|
                    0 <= j < i ==> stepped_s(
                        old(self).agents@[j],
                        #[trigger] self.agents@[j],
                        old(self).agents@,
                        old(self).obstacles@,
                        old(self).config,
                        jitters@[j]@,
                        pointer,
                    ),
            decreases n - i,
        {
            let mut a: Agent = self.agents[i];
            a.update_with_jitter(&snapshot, &self.obstacles, &self.config, jitters[i], pointer);
            self.agents.set(i, a);
            i = i + 1;
        }
    }

    /// One frame, sampling each agent's random jitter. Whatever the
    /// samples, the simulation stays well-formed, every agent's speed
    /// ends in `[minSpeed, maxSpeed]` and its position inside the world
    /// rectangle.
    pub fn tick(&mut self, pointer: Option<Vec2>)
        requires
            old(self).wf(),
            match pointer {
                Option::Some(m) => bounded(m@, 1_000_000_000),
                Option::None => true,
            },
        ensures
            final(self).wf(),
            final(self).config == old(self).config,
            final(self).obstacles == old(self).obstacles,
            final(self).delete_mode == old(self).delete_mode,
            final(self).agents@.len() == old(self).agents@.len(),
            forall|i: int|
                0 <= i < final(self).agents@.len() ==> old(self).config.min_speed_s() <= mag_s(
                    (#[trigger] final(self).agents@[i]).velocity@,
                ) <= old(self).config.max_speed,
            forall|i: int|
                0 <= i < final(self).agents@.len() ==> 0 <= (#[trigger] final(self).agents@[i]).position@.x <= old(self).config.world_w
                    && 0 <= final(self).agents@[i].position@.y <= old(self).config.world_h,
    {
        let snapshot: Vec<Agent> = clone_agents(&self.agents);
        proof {
            assert forall|k: int| 0 <= k < snapshot@.len() implies (#[trigger] snapshot@[k]).sane()
            by {
                assert(snapshot@[k].wf(self.config));
            }
        }
        let n: usize = self.agents.len();
        let mut i: usize = 0;
        while i < n
            invariant
                old(self).wf(),
                self.config == old(self).config,
                self.obstacles == old(self).obstacles,
                self.delete_mode == old(self).delete_mode,
                snapshot@ == old(self).agents@,
                n == old(self).agents@.len(),
                self.agents@.len() == n,
                match pointer {
                    Option::Some(m) => bounded(m@, 1_000_000_000),
                    Option::None => true,
                },
                forall|k: int| 0 <= k < snapshot@.len() ==> (#[trigger] snapshot@[k]).sane(),
                0 <= i <= n,
                forall|j: int| i <= j < n ==> self.agents@[j] == old(self).agents@[j],
                forall|j: int|
                    0 <= j < i ==> (#[trigger] self.agents@[j]).wf(old(self).config) && old(self).config.min_speed_s() <= mag_s(self.agents@[j].velocity@)
                        <= old(self).config.max_speed
                        && 0 <= self.agents@[j].position@.x <= old(self).config.world_w
                        && 0 <= self.agents@[j].position@.y <= old(self).config.world_h,
            decreases n - i,
        {
            let mut a: Agent = self.agents[i];
            a.update(&snapshot, &self.obstacles, &self.config, pointer);
            self.agents.set(i, a);
            i = i + 1;
        }
    }

    /// A pointer placement event: in placement mode a new obstacle of
    /// the standard radius appears at the point (unless the set is
    /// full, a machine limit); in deletion mode every obstacle whose
    /// disc contains the point disappears.
    pub fn place_or_delete(&mut self, point: Vec2)
        requires
            old(self).wf(),
            bounded(point@, 1_000_000_000),
        ensures
            final(self).wf(),
            final(self).config == old(self).config,
            final(self).agents == old(self).agents,
            final(self).delete_mode == old(self).delete_mode,
            old(self).delete_mode ==> final(self).obstacles@ == remove_contains_s(
                old(self).obstacles@,
                point@,
            ),
            old(self).delete_mode ==> forall|j: int|
                0 <= j < final(self).obstacles@.len() ==> !contains_s(
                    #[trigger] final(self).obstacles@[j],
                    point@,
                ),
            !old(self).delete_mode && old(self).obstacles@.len() < MAX_OBSTACLES
                ==> final(self).obstacles@ == old(self).obstacles@.push(
                Obstacle { position: point, radius: OBSTACLE_RADIUS },
            ),
            !old(self).delete_mode && old(self).obstacles@.len() >= MAX_OBSTACLES
                ==> final(self).obstacles@ == old(self).obstacles@,
    {
        if self.delete_mode {
            let ghost obs0: Seq<Obstacle> = self.obstacles@;
            let mut kept: Vec<Obstacle> = Vec::new();
            let mut i: usize = 0;
            while i < self.obstacles.len()
                invariant
                    old(self).wf(),
                    self.obstacles@ == obs0,
                    obs0.len() <= MAX_OBSTACLES,
                    forall|k: int| 0 <= k < obs0.len() ==> (#[trigger] obs0[k]).wf(),
                    bounded(point@, 1_000_000_000),
                    0 <= i <= obs0.len(),
                    kept@ == remove_contains_s(obs0.take(i as int), point@),
                    kept@.len() <= i,
                    forall|k: int| 0 <= k < kept@.len() ==> (#[trigger] kept@[k]).wf(),
                decreases obs0.len() - i,
            {
                let o: Obstacle = self.obstacles[i];
                if !o.contains(point) {
                    kept.push(o);
                }
                proof {
                    assert(obs0.take(i as int + 1).drop_last() =~= obs0.take(i as int));
                    assert(obs0.take(i as int + 1).last() == obs0[i as int]);
                }
                i = i + 1;
            }
            proof {
                assert(obs0.take(obs0.len() as int) =~= obs0);
                lemma_remove_contains_sound(obs0, point@);
            }
            self.obstacles = kept;
        } else {
            if self.obstacles.len() < MAX_OBSTACLES {
                self.obstacles.push(Obstacle::new(point, OBSTACLE_RADIUS));
            }
        }
    }

    /// Flips between placement mode and deletion mode.
    pub fn toggle_delete_mode(&mut self)
        requires
            old(self).wf(),
        ensures
            final(self).wf(),
            final(self).delete_mode == !old(self).delete_mode,
            final(self).config == old(self).config,
            final(self).agents == old(self).agents,
            final(self).obstacles == old(self).obstacles,
    {
        self.delete_mode = !self.delete_mode;
    }

    /// A bulk-clear event: removes every obstacle.
    pub fn clear_obstacles(&mut self)
        requires
            old(self).wf(),
        ensures
            final(self).wf(),
            final(self).obstacles@.len() == 0,
            final(self).config == old(self).config,
            final(self).agents == old(self).agents,
            final(self).delete_mode == old(self).delete_mode,
    {
        self.obstacles = Vec::new();
    }

    /// A reset event: a fresh random population of the configured size,
    /// and no obstacles.
    pub fn reset(&mut self)
        requires
            old(self).wf(),
        ensures
            final(self).wf(),
            final(self).config == old(self).config,
            final(self).delete_mode == old(self).delete_mode,
            final(self).agents@.len() == old(self).config.population,
            final(self).obstacles@.len() == 0,
    {
        self.agents = create_agents(&self.config);
        self.obstacles = Vec::new();
    }
}

} // verus!
