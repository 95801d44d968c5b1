//! Integration, boundary wrap, and the whole-simulation tick.

use boids::agent::Agent;
use boids::config::SimConfig;
use boids::sim::Simulation;
use boids::vec2::Vec2;

fn agent(px: i64, py: i64, vx: i64, vy: i64) -> Agent {
    Agent::new(Vec2::new(px, py), Vec2::new(vx, vy))
}

#[test]
fn update_clamps_speed_to_floor() {
    // an almost-still agent is pushed back up to the minimum speed:
    // agents can never fully stop
    let c = SimConfig::standard(1_000_000, 1_000_000);
    let mut a = agent(500_000, 500_000, 1, 0);
    let flock = vec![a];
    a.update_with_jitter(&flock, &Vec::new(), &c, Vec2::new(0, 0), None);
    assert_eq!(a.velocity, Vec2::new(3_000, 0));
    assert_eq!(a.acceleration, Vec2::new(0, 0));
}

#[test]
fn update_clamps_speed_to_ceiling() {
    let c = SimConfig::standard(1_000_000, 1_000_000);
    let mut a = agent(500_000, 500_000, 6_000, 0);
    let flock = vec![a];
    // jitter pushes past the ceiling; the clamp scales back onto it
    a.update_with_jitter(&flock, &Vec::new(), &c, Vec2::new(100, 0), None);
    assert_eq!(a.velocity, Vec2::new(6_000, 0));
}

#[test]
fn update_gives_stationary_agent_reference_direction() {
    // a fully stopped agent has no heading to keep; the speed floor
    // restarts it along the reference direction
    let c = SimConfig::standard(1_000_000, 1_000_000);
    let mut a = agent(500_000, 500_000, 0, 0);
    let flock = vec![a];
    a.update_with_jitter(&flock, &Vec::new(), &c, Vec2::new(0, 0), None);
    assert_eq!(a.velocity, Vec2::new(3_000, 0));
}

#[test]
fn update_speed_always_in_band() {
    let c = SimConfig::standard(1_000_000, 1_000_000);
    let starts = [(1i64, 0i64), (0, 0), (-7_000, 50), (4_000, 4_000), (6_000, -6_000), (0, 2)];
    for (vx, vy) in starts {
        let mut a = agent(500_000, 500_000, vx, vy);
        let flock = vec![a];
        a.update_with_jitter(&flock, &Vec::new(), &c, Vec2::new(37, -99), None);
        let m = a.velocity.mag();
        assert!(3_000 <= m && m <= 6_000, "speed {m} out of band");
    }
}

#[test]
fn wrap_right_edge_restarts_at_zero() {
    // an agent carried past the right edge restarts at zero, it is not
    // clamped to the edge
    let c = SimConfig::standard(1_000_000, 1_000_000);
    let mut a = agent(999_000, 500_000, 6_000, 0);
    let flock = vec![a];
    a.update_with_jitter(&flock, &Vec::new(), &c, Vec2::new(0, 0), None);
    assert_eq!(a.position, Vec2::new(0, 500_000));
}

#[test]
fn wrap_left_edge_restarts_at_upper_bound() {
    let c = SimConfig::standard(1_000_000, 1_000_000);
    let mut a = agent(1_000, 500_000, -6_000, 0);
    let flock = vec![a];
    a.update_with_jitter(&flock, &Vec::new(), &c, Vec2::new(0, 0), None);
    assert_eq!(a.position, Vec2::new(1_000_000, 500_000));
}

#[test]
fn update_exact_two_agent_frame() {
    // the full force composition of scenario-style inputs, step by step:
    // separation (-150, 0), alignment (-300, 0), cohesion (200, 0),
    // no obstacles, no jitter; the velocity sum (1750, 0) is below the
    // speed floor and is scaled up onto it
    let c = SimConfig::standard(1_920_000, 1_080_000);
    let mut a = agent(100_000, 100_000, 2_000, 0);
    let b = agent(110_000, 100_000, -2_000, 0);
    let flock = vec![a, b];
    a.update_with_jitter(&flock, &Vec::new(), &c, Vec2::new(0, 0), None);
    assert_eq!(a.velocity, Vec2::new(3_000, 0));
    assert_eq!(a.position, Vec2::new(103_000, 100_000));
    assert_eq!(a.acceleration, Vec2::new(0, 0));
}

#[test]
fn tick_is_order_independent_per_frame() {
    // both agents are updated against the same frozen snapshot: the
    // result equals updating each copy of the starting state alone
    let c = SimConfig::standard(1_920_000, 1_080_000);
    let a = agent(100_000, 100_000, 2_000, 0);
    let b = agent(110_000, 100_000, -2_000, 0);
    let mut sim = Simulation::with_agents(c, vec![a, b]);
    let jitters = vec![Vec2::new(0, 0), Vec2::new(0, 0)];
    sim.tick_with_jitter(None, &jitters);

    let snapshot = vec![a, b];
    let mut a_alone = a;
    a_alone.update_with_jitter(&snapshot, &Vec::new(), &c, Vec2::new(0, 0), None);
    let mut b_alone = b;
    b_alone.update_with_jitter(&snapshot, &Vec::new(), &c, Vec2::new(0, 0), None);
    assert_eq!(sim.agents[0], a_alone);
    assert_eq!(sim.agents[1], b_alone);
}

#[test]
fn long_deterministic_run_stays_well_formed() {
    // 150 agents, no obstacles, 1000 frames with a fixed jitter pattern:
    // every position and velocity stays a well-formed finite value, the
    // speed in its band and the position inside the world
    let c = SimConfig::standard(1_500_000, 1_000_000);
    let mut agents = Vec::new();
    for i in 0..150i64 {
        let px = (i % 15) * 100_000 + 50_000;
        let py = (i / 15) * 100_000 + 50_000;
        let vx = ((i % 5) - 2) * 1_000;
        let vy = (((i / 5) % 5) - 2) * 1_000;
        agents.push(agent(px, py, vx, vy));
    }
    let mut sim = Simulation::with_agents(c, agents);
    for frame in 0..1000i64 {
        let mut jitters = Vec::new();
        for i in 0..150i64 {
            let jx = (i * 7 + frame * 13) % 201 - 100;
            let jy = (i * 11 + frame * 17) % 201 - 100;
            jitters.push(Vec2::new(jx, jy));
        }
        sim.tick_with_jitter(None, &jitters);
    }
    assert_eq!(sim.agents.len(), 150);
    for a in &sim.agents {
        assert!(0 <= a.position.x && a.position.x <= 1_500_000);
        assert!(0 <= a.position.y && a.position.y <= 1_000_000);
        let m = a.velocity.mag();
        assert!(3_000 <= m && m <= 6_000);
        assert_eq!(a.acceleration, Vec2::new(0, 0));
    }
}

#[test]
fn tick_samples_its_own_jitter() {
    let c = SimConfig::standard(1_000_000, 1_000_000);
    let mut sim = Simulation::with_agents(
        c,
        vec![agent(200_000, 200_000, 2_000, 0), agent(700_000, 700_000, 0, -2_000)],
    );
    for _ in 0..20 {
        sim.tick(None);
    }
    for a in &sim.agents {
        assert!(0 <= a.position.x && a.position.x <= 1_000_000);
        assert!(0 <= a.position.y && a.position.y <= 1_000_000);
        let m = a.velocity.mag();
        assert!(3_000 <= m && m <= 6_000);
    }
}

#[test]
fn pointer_attraction_only_inside_radius() {
    let c = SimConfig::standard(1_920_000, 1_080_000);
    // the near agent sits 100 units from the pointer (inside the 150
    // radius), the far agent 500 (outside)
    let near = agent(500_000, 500_000, 0, 3_000);
    let far = agent(1_100_000, 500_000, 0, 3_000);
    let pointer = Vec2::new(600_000, 500_000);
    let snapshot = vec![near, far];
    let mut n2 = near;
    n2.update_with_jitter(&snapshot, &Vec::new(), &c, Vec2::new(0, 0), Some(pointer));
    let mut n3 = near;
    n3.update_with_jitter(&snapshot, &Vec::new(), &c, Vec2::new(0, 0), None);
    // the pointer pulled the near agent toward +x
    assert!(n2.velocity.x > n3.velocity.x);
    let mut f2 = far;
    f2.update_with_jitter(&snapshot, &Vec::new(), &c, Vec2::new(0, 0), Some(pointer));
    let mut f3 = far;
    f3.update_with_jitter(&snapshot, &Vec::new(), &c, Vec2::new(0, 0), None);
    // out of reach: the pointer changed nothing
    assert_eq!(f2, f3);
}

#[test]
fn place_and_clear_obstacles() {
    let c = SimConfig::standard(1_000_000, 1_000_000);
    let mut sim = Simulation::with_agents(c, vec![agent(1_000, 1_000, 2_000, 0)]);
    sim.place_or_delete(Vec2::new(300_000, 300_000));
    sim.place_or_delete(Vec2::new(600_000, 600_000));
    assert_eq!(sim.obstacles.len(), 2);
    assert_eq!(sim.obstacles[0].position, Vec2::new(300_000, 300_000));
    assert_eq!(sim.obstacles[0].radius, 20_000);
    sim.clear_obstacles();
    assert_eq!(sim.obstacles.len(), 0);
}

#[test]
fn delete_mode_removes_hit_obstacles() {
    let c = SimConfig::standard(1_000_000, 1_000_000);
    let mut sim = Simulation::with_agents(c, vec![agent(1_000, 1_000, 2_000, 0)]);
    sim.place_or_delete(Vec2::new(300_000, 300_000));
    sim.place_or_delete(Vec2::new(600_000, 600_000));
    assert!(!sim.delete_mode);
    sim.toggle_delete_mode();
    assert!(sim.delete_mode);
    // a click inside the first obstacle's disc removes it and only it
    sim.place_or_delete(Vec2::new(310_000, 300_000));
    assert_eq!(sim.obstacles.len(), 1);
    assert_eq!(sim.obstacles[0].position, Vec2::new(600_000, 600_000));
    // a click that hits nothing removes nothing
    sim.place_or_delete(Vec2::new(100_000, 100_000));
    assert_eq!(sim.obstacles.len(), 1);
    sim.toggle_delete_mode();
    assert!(!sim.delete_mode);
}

#[test]
fn reset_replaces_population_and_clears_obstacles() {
    let c = SimConfig::standard(1_000_000, 1_000_000);
    let mut sim = Simulation::new(c);
    assert_eq!(sim.agents.len(), 150);
    sim.place_or_delete(Vec2::new(300_000, 300_000));
    sim.reset();
    assert_eq!(sim.agents.len(), 150);
    assert_eq!(sim.obstacles.len(), 0);
    for a in &sim.agents {
        assert!(0 <= a.position.x && a.position.x <= 1_000_000);
        assert!(0 <= a.position.y && a.position.y <= 1_000_000);
        assert!(a.velocity.x.abs() <= 2_000 && a.velocity.y.abs() <= 2_000);
        assert_eq!(a.acceleration, Vec2::new(0, 0));
    }
}
