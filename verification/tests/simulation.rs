//! End-to-end tests of the flock simulation through its public interface.

use flocking::agent::Agent;
use flocking::config::{Config, FlockError, MAX_AGENTS};
use flocking::flock::Flock;
use flocking::render::{border_vertices, outline_vertices};

fn speed_sq(a: &Agent) -> i64 {
    let v = a.velocity();
    v.x * v.x + v.y * v.y
}

#[test]
fn new_positive_counts_succeed_within_arena() {
    for count in [1usize, 2, 7, 70] {
        let f = Flock::new(count, 1000).expect("construction must succeed");
        assert_eq!(f.agent_count(), count);
        for i in 0..count {
            let p = f.agent(i).position();
            assert!(0 <= p.x && p.x <= 1000, "x out of arena: {}", p.x);
            assert!(0 <= p.y && p.y <= 1000, "y out of arena: {}", p.y);
        }
    }
}

#[test]
fn new_zero_count_fails() {
    match Flock::new(0, 1000) {
        Err(FlockError::ZeroAgents) => {}
        _ => panic!("a zero agent count must be refused"),
    }
}

#[test]
fn new_rejects_bad_arena_and_oversized_count() {
    assert!(matches!(Flock::new(5, 0), Err(FlockError::InvalidArenaSize)));
    assert!(matches!(Flock::new(5, -3), Err(FlockError::InvalidArenaSize)));
    assert!(matches!(
        Flock::new(MAX_AGENTS + 1, 1000),
        Err(FlockError::TooManyAgents)
    ));
}

#[test]
fn update_keeps_speed_in_band() {
    let mut f = Flock::new(40, 1000).unwrap();
    let cfg = f.config();
    let poi = flocking::agent::Vec2::new(500, 500);
    for _ in 0..50 {
        f.update(16, 1000, 50, poi);
        for i in 0..f.agent_count() {
            let s = speed_sq(&f.agent(i));
            assert!(cfg.min_speed * cfg.min_speed <= s);
            assert!(s <= cfg.max_speed * cfg.max_speed);
        }
    }
}

#[test]
fn update_is_order_invariant() {
    let mk = |order: &[usize]| {
        let base = [
            Agent::new(100, 100, 40, 0),
            Agent::new(150, 120, 0, 40),
            Agent::new(200, 90, -40, 10),
            Agent::new(130, 160, 25, -30),
        ];
        let mut v = Vec::new();
        for &i in order {
            v.push(base[i]);
        }
        Flock::from_agents(v, Config::default()).unwrap()
    };
    let mut f1 = mk(&[0, 1, 2, 3]);
    let mut f2 = mk(&[2, 0, 3, 1]);
    let poi = flocking::agent::Vec2::new(900, 900);
    f1.update(100, 1000, 50, poi);
    f2.update(100, 1000, 50, poi);
    // agent k of f1 was placed at slot perm[k] of f2
    let perm = [1usize, 3, 0, 2];
    for k in 0..4 {
        let a = f1.agent(k);
        let b = f2.agent(perm[k]);
        assert_eq!(a.position(), b.position());
        assert_eq!(a.velocity(), b.velocity());
    }
}

#[test]
fn centered_agent_never_leaves_arena() {
    let agents = vec![Agent::new(500, 500, 120, -80)];
    let mut f = Flock::from_agents(agents, Config::default()).unwrap();
    let far = flocking::agent::Vec2::new(-100_000, -100_000);
    for _ in 0..2000 {
        f.update(16, 1000, 50, far);
        let p = f.agent(0).position();
        assert!(0 <= p.x && p.x <= 1000, "left arena at x={}", p.x);
        assert!(0 <= p.y && p.y <= 1000, "left arena at y={}", p.y);
    }
}

#[test]
fn edge_agent_is_pushed_inward_within_one_frame() {
    let agents = vec![Agent::new(0, 500, 0, 0)];
    let mut f = Flock::from_agents(agents, Config::default()).unwrap();
    let far = flocking::agent::Vec2::new(-100_000, -100_000);
    f.update(100, 1000, 50, far);
    let v = f.agent(0).velocity();
    assert!(v.x > 0, "expected an inward push, velocity x = {}", v.x);
}

#[test]
fn isolated_agent_feels_no_flocking_force() {
    // Two agents far apart, away from walls and the point of interest:
    // an in-band velocity must pass through one update unchanged.
    let agents = vec![
        Agent::new(30_000, 30_000, 100, 0),
        Agent::new(70_000, 70_000, 0, 100),
    ];
    let mut f = Flock::from_agents(agents, Config::default()).unwrap();
    let far = flocking::agent::Vec2::new(-100_000, -100_000);
    f.update(100, 100_000, 50, far);
    assert_eq!(f.agent(0).velocity().x, 100);
    assert_eq!(f.agent(0).velocity().y, 0);
    assert_eq!(f.agent(1).velocity().x, 0);
    assert_eq!(f.agent(1).velocity().y, 100);
}

#[test]
fn draw_twice_gives_identical_geometry() {
    let mut f = Flock::new(12, 1000).unwrap();
    f.update(16, 1000, 50, flocking::agent::Vec2::new(200, 300));
    let g1 = f.draw();
    let g2 = f.draw();
    assert_eq!(g1.len(), 36);
    assert_eq!(g1, g2);
}

#[test]
fn scenario_left_border_push() {
    // Arena 1000, border 50, one agent at (5, 500) with zero velocity, the
    // point of interest far away: after update(dt = 0.1 s) the velocity x
    // component is positive and the position stays inside the arena.
    let agents = vec![Agent::new(5, 500, 0, 0)];
    let mut f = Flock::from_agents(agents, Config::default()).unwrap();
    let far = flocking::agent::Vec2::new(100_000, 100_000);
    f.update(100, 1000, 50, far);
    let a = f.agent(0);
    assert!(a.velocity().x > 0);
    let p = a.position();
    assert!(0 <= p.x && p.x <= 1000);
    assert!(0 <= p.y && p.y <= 1000);
}

#[test]
fn from_agents_rejects_empty_and_bad_config() {
    assert!(matches!(
        Flock::from_agents(Vec::new(), Config::default()),
        Err(FlockError::ZeroAgents)
    ));
    let mut bad = Config::default();
    bad.min_speed = 0;
    let agents = vec![Agent::new(1, 1, 0, 0)];
    assert!(matches!(
        Flock::from_agents(agents, bad),
        Err(FlockError::InvalidConfig)
    ));
}

#[test]
fn update_sanitizes_degenerate_inputs() {
    let agents = vec![Agent::new(500, 500, 100, 0)];
    let mut f = Flock::from_agents(agents, Config::default()).unwrap();
    // negative dt, negative arena, negative border: the frame must not
    // corrupt state or panic, and the speed band must still hold
    f.update(-50, -7, -3, flocking::agent::Vec2::new(0, 0));
    let cfg = f.config();
    let s = speed_sq(&f.agent(0));
    assert!(cfg.min_speed * cfg.min_speed <= s && s <= cfg.max_speed * cfg.max_speed);
}

#[test]
fn border_geometry_is_generated_from_sizes() {
    let b = border_vertices(1000, 50);
    assert_eq!(b.len(), 24);
    assert_eq!((b[0].x, b[0].y), (0, 0));
    assert_eq!((b[1].x, b[1].y), (50, 0));
    assert_eq!((b[6].x, b[6].y), (950, 0));
    assert_eq!((b[23].x, b[23].y), (0, 1000));
    let o = outline_vertices(1000, 50);
    assert_eq!(o.len(), 4);
    assert_eq!((o[0].x, o[0].y), (50, 50));
    assert_eq!((o[2].x, o[2].y), (950, 950));
    for v in &b {
        assert_eq!(v.color, 0x222222ff);
    }
    for v in &o {
        assert_eq!(v.color, 0xffffffff);
    }
}
