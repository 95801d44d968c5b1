//! Neighbor perception and the steering forces.

use boids::agent::Agent;
use boids::config::SimConfig;
use boids::obstacle::Obstacle;
use boids::vec2::Vec2;

fn cfg() -> SimConfig {
    SimConfig::standard(1_920_000, 1_080_000)
}

fn agent(px: i64, py: i64, vx: i64, vy: i64) -> Agent {
    Agent::new(Vec2::new(px, py), Vec2::new(vx, vy))
}

#[test]
fn neighbor_query_sees_agent_in_view() {
    let c = cfg();
    let a = agent(100_000, 100_000, 2_000, 0);
    let b = agent(110_000, 100_000, -2_000, 0);
    let flock = vec![a, b];
    let nbrs = a.find_neighbors(&flock, &c);
    assert_eq!(nbrs.len(), 1);
    assert_eq!(nbrs[0].position, b.position);
}

#[test]
fn neighbor_query_never_returns_self() {
    let c = cfg();
    let a = agent(100_000, 100_000, 2_000, 0);
    let flock = vec![a, a, a];
    // even with exact copies of the agent in the population, nothing at
    // the agent's own position is returned
    let nbrs = a.find_neighbors(&flock, &c);
    assert_eq!(nbrs.len(), 0);
}

#[test]
fn neighbor_query_ignores_agents_outside_radius() {
    let c = cfg();
    let a = agent(100_000, 100_000, 2_000, 0);
    let far = agent(500_000, 100_000, 0, 2_000);
    let nbrs = a.find_neighbors(&vec![a, far], &c);
    assert_eq!(nbrs.len(), 0);
}

#[test]
fn neighbor_query_respects_view_cone() {
    let c = cfg();
    // 270 degree field of view: a neighbor straight behind is invisible,
    // one straight to the side is visible
    let a = agent(500_000, 500_000, 2_000, 0);
    let behind = agent(450_000, 500_000, 0, 0);
    let side = agent(500_000, 450_000, 0, 0);
    assert_eq!(a.find_neighbors(&vec![a, behind], &c).len(), 0);
    assert_eq!(a.find_neighbors(&vec![a, side], &c).len(), 1);
}

#[test]
fn separation_two_agents_facing_each_other() {
    // two agents ten units apart, inside the avoidance radius of sixty:
    // each is pushed straight away from the other
    let c = cfg();
    let mut a = agent(100_000, 100_000, 2_000, 0);
    let mut b = agent(110_000, 100_000, -2_000, 0);
    let flock = vec![a, b];
    a.apply_separation(&flock, &c);
    b.apply_separation(&flock, &c);
    assert_eq!(a.acceleration, Vec2::new(-150, 0));
    assert_eq!(b.acceleration, Vec2::new(150, 0));
    assert!(a.acceleration.x < 0 && b.acceleration.x > 0);
}

#[test]
fn alignment_exact_value() {
    let c = cfg();
    let mut a = agent(100_000, 100_000, 2_000, 0);
    let b = agent(110_000, 100_000, 0, 2_000);
    a.apply_alignment(&vec![a, b], &c);
    // neighbor velocity (0, 2000) -> unit (0, 1000) -> at max speed
    // (0, 6000) -> clamped to the 300 cap
    assert_eq!(a.acceleration, Vec2::new(0, 300));
}

#[test]
fn cohesion_exact_value() {
    let c = cfg();
    let mut a = agent(100_000, 100_000, 2_000, 0);
    let b = agent(110_000, 100_000, 0, 2_000);
    a.apply_cohesion(&vec![a, b], &c);
    // pull toward the centroid at max speed (6000, 0), minus the own
    // velocity (2000, 0) -> (4000, 0) -> clamped to the 200 cap
    assert_eq!(a.acceleration, Vec2::new(200, 0));
}

#[test]
fn lone_agent_feels_no_flocking_force() {
    // a population of one agent and no obstacles: separation, alignment
    // and cohesion are all exactly zero
    let c = cfg();
    let mut a = agent(300_000, 300_000, 3_000, 1_000);
    let flock = vec![a];
    a.apply_separation(&flock, &c);
    assert_eq!(a.acceleration, Vec2::new(0, 0));
    a.apply_alignment(&flock, &c);
    assert_eq!(a.acceleration, Vec2::new(0, 0));
    a.apply_cohesion(&flock, &c);
    assert_eq!(a.acceleration, Vec2::new(0, 0));
    a.apply_obstacle_avoidance(&Vec::new(), &c);
    assert_eq!(a.acceleration, Vec2::new(0, 0));
}

#[test]
fn force_caps_hold_in_dense_cluster() {
    // twenty agents packed into a few units: every behavior stays under
    // its cap
    let c = cfg();
    let mut flock: Vec<Agent> = Vec::new();
    for i in 0..20i64 {
        flock.push(agent(500_000 + i * 700, 500_000 + (i % 5) * 900, ((i % 3) - 1) * 4_000, ((i % 7) - 3) * 1_500));
    }
    for i in 0..flock.len() {
        let mut a = flock[i];
        a.apply_separation(&flock, &c);
        let sep = a.acceleration;
        assert!(sep.mag() <= 700);
        let mut a2 = flock[i];
        a2.apply_alignment(&flock, &c);
        assert!(a2.acceleration.mag() <= 300);
        let mut a3 = flock[i];
        a3.apply_cohesion(&flock, &c);
        assert!(a3.acceleration.mag() <= 200);
    }
}

#[test]
fn obstacle_avoidance_opposes_heading() {
    // an obstacle of radius twenty, fifteen units dead ahead: the
    // avoidance force has a component straight against the heading
    let c = cfg();
    let mut a = agent(500_000, 500_000, 3_000, 0);
    let obstacles = vec![Obstacle::new(Vec2::new(515_000, 500_000), 20_000)];
    a.apply_obstacle_avoidance(&obstacles, &c);
    assert_eq!(a.acceleration, Vec2::new(-700, 0));
    // dot with the heading is negative: the push opposes the motion
    let heading = a.velocity.normalize();
    assert!(heading.dot(a.acceleration) < 0);
}

#[test]
fn obstacle_avoidance_cap_holds_with_many_close_obstacles() {
    let c = cfg();
    let mut a = agent(500_000, 500_000, 3_000, 0);
    let mut obstacles = Vec::new();
    for i in 0..10i64 {
        obstacles.push(Obstacle::new(Vec2::new(500_000 + 5_000 + i * 17, 500_000 + i * 31), 20_000));
    }
    a.apply_obstacle_avoidance(&obstacles, &c);
    assert!(a.acceleration.mag() <= 700);
}

#[test]
fn obstacle_avoidance_zero_when_all_far() {
    // every obstacle farther than radius + margin: the force is exactly
    // zero
    let c = cfg();
    let mut a = agent(500_000, 500_000, 3_000, 0);
    let obstacles = vec![
        Obstacle::new(Vec2::new(600_000, 500_000), 20_000),
        Obstacle::new(Vec2::new(500_000, 800_000), 50_000),
        Obstacle::new(Vec2::new(100_000, 100_000), 20_000),
    ];
    a.apply_obstacle_avoidance(&obstacles, &c);
    assert_eq!(a.acceleration, Vec2::new(0, 0));
}

#[test]
fn obstacle_contains_point() {
    let o = Obstacle::new(Vec2::new(100_000, 100_000), 20_000);
    assert!(o.contains(Vec2::new(100_000, 100_000)));
    assert!(o.contains(Vec2::new(110_000, 100_000)));
    assert!(!o.contains(Vec2::new(120_000, 100_000)));
    assert!(!o.contains(Vec2::new(150_000, 150_000)));
}

#[test]
fn mouse_attraction_pulls_toward_pointer() {
    let c = cfg();
    let mut a = agent(100_000, 100_000, 2_000, 0);
    a.apply_mouse_attraction(Vec2::new(100_000, 150_000), &c);
    // unit direction (0, 1000) scaled by strength 400 over SCALE
    assert_eq!(a.acceleration, Vec2::new(0, 400));
}

#[test]
fn random_jitter_stays_in_range() {
    let c = cfg();
    let mut a = agent(100_000, 100_000, 2_000, 0);
    for _ in 0..50 {
        let before = a.acceleration;
        a.apply_random_force(&c);
        let dx = a.acceleration.x - before.x;
        let dy = a.acceleration.y - before.y;
        assert!(-100 <= dx && dx <= 100);
        assert!(-100 <= dy && dy <= 100);
    }
}

#[test]
fn heading_triangle_points_forward() {
    let a = agent(100_000, 100_000, 3_000, 0);
    let (p1, p2, p3) = a.heading_triangle();
    assert_eq!(p1, Vec2::new(110_000, 100_000));
    assert_eq!(p2, Vec2::new(93_000, 105_000));
    assert_eq!(p3, Vec2::new(93_000, 95_000));
}
