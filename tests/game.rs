use flappy::entity::{Body, ColorType, Entity, Kind, Rgb, Viewport};
use flappy::burst::ParticleDraw;
use flappy::game::{new_body, Game, GameState, Input, BODY_SIZE, BODY_START_X, PARTICLE_COUNT};
use flappy::spawner::FADE_SPEED;
use flappy::geometry::{collide, isqrt, Vec2};
use flappy::random::Dice;

fn view() -> Viewport {
    Viewport { width: 1_344_000_000, height: 756_000_000 }
}

fn obstacle(x: i64, y: i64, w: i64, h: i64) -> Entity {
    Entity { pos: Vec2::new(x, y), vel: Vec2::zero(), size: Vec2::new(w, h), kind: Kind::Obstacle }
}

fn trigger_at(x: i64, y: i64) -> Entity {
    Entity {
        pos: Vec2::new(x, y),
        vel: Vec2::zero(),
        size: Vec2::new(5_000_000, 155_000_000),
        kind: Kind::Trigger { scored: false, alpha: 1_000_000, fade_speed: FADE_SPEED },
    }
}

fn particle(x: i64, lifetime: i64) -> Entity {
    Entity {
        pos: Vec2::new(x, 0),
        vel: Vec2::zero(),
        size: Vec2::new(1_000_000, 1_000_000),
        kind: Kind::Particle { lifetime },
    }
}

fn count_particles(g: &Game) -> usize {
    g.entities.iter().filter(|e| matches!(e.kind, Kind::Particle { .. })).count()
}

#[test]
fn integer_square_root() {
    assert_eq!(isqrt(0), 0);
    assert_eq!(isqrt(1), 1);
    assert_eq!(isqrt(15), 3);
    assert_eq!(isqrt(16), 4);
    assert_eq!(isqrt(150_000_000_000), 387_298);
    assert_eq!(isqrt(u64::MAX), 4_294_967_295);
}

#[test]
fn body_box_overlap_iff_both_axes_meet() {
    // A 27-unit body shrunk to 95% is 25.65 units wide.
    let p = Vec2::new(0, 0);
    let s = Vec2::new(25_650_000, 25_650_000);
    let o = Vec2::new(60_000_000, 100_000_000);
    // Half extents add up to 42.825 units on x and 62.825 on y.
    assert!(collide(p, s, Vec2::new(42_824_999, 0), o));
    assert!(!collide(p, s, Vec2::new(42_825_000, 0), o));
    assert!(collide(p, s, Vec2::new(0, -62_824_999), o));
    assert!(!collide(p, s, Vec2::new(0, -62_825_000), o));
    // Overlap on one axis only is no collision.
    assert!(!collide(p, s, Vec2::new(0, 200_000_000), o));
    assert!(!collide(p, s, Vec2::new(100_000_000, 0), o));
}

#[test]
fn new_game_starts_with_fresh_body_and_borders() {
    let g = Game::new(view());
    assert_eq!(g.state, GameState::Started);
    let b = g.body.unwrap();
    assert_eq!(b.pos, Vec2::new(BODY_START_X, 0));
    assert_eq!(b.vel, Vec2::zero());
    assert_eq!(b.size, Vec2::new(BODY_SIZE, BODY_SIZE));
    assert_eq!(b.particle_count, PARTICLE_COUNT);
    assert_eq!(g.borders.len(), 2);
    assert_eq!(g.borders[0].pos, Vec2::new(0, -378_000_000));
    assert_eq!(g.borders[1].pos, Vec2::new(0, 378_000_000));
    assert_eq!(g.borders[1].size, Vec2::new(1_344_000_000, 40_000_000));
    assert!(g.entities.is_empty());
    assert_eq!((g.score, g.highscore, g.last_spawn_x), (0, 0, 0));
}

#[test]
fn flap_sets_launch_speed_exactly() {
    let mut g = Game::new(view());
    g.body = Some(Body { vel: Vec2::new(0, -123_456), ..new_body() });
    g.flap();
    // sqrt(2 * 1000 * 75_000_000) = 387298.33...
    assert_eq!(g.body.unwrap().vel.y, 387_298);
    g.flap();
    assert_eq!(g.body.unwrap().vel.y, 387_298);
}

#[test]
fn gravity_and_motion() {
    let mut g = Game::new(view());
    g.apply_gravity(16);
    assert_eq!(g.body.unwrap().vel.y, -16_000);
    g.entities.push(Entity { vel: Vec2::new(-350_000, 0), ..obstacle(0, 5, 1, 1) });
    g.step_physics(10);
    assert_eq!(g.body.unwrap().pos, Vec2::new(BODY_START_X, -160_000));
    assert_eq!(g.entities[0].pos, Vec2::new(-3_500_000, 5));
    g.step_physics(0);
    assert_eq!(g.body.unwrap().pos, Vec2::new(BODY_START_X, -160_000));
}

#[test]
fn spawn_pair_geometry() {
    let mut g = Game::new(view());
    assert!(g.spawn_is_due(view()));
    g.spawn_pair(view(), 500_000);
    assert_eq!(g.entities.len(), 3);
    let upper = g.entities[0];
    let lower = g.entities[1];
    let trig = g.entities[2];
    assert_eq!(upper.pos, Vec2::new(702_000_000, 266_500_000));
    assert_eq!(upper.size, Vec2::new(60_000_000, 378_000_000));
    assert_eq!(lower.pos, Vec2::new(702_000_000, -266_500_000));
    assert_eq!(lower.vel, Vec2::new(-350_000, 0));
    assert_eq!(trig.pos, Vec2::new(702_000_000, 0));
    assert_eq!(trig.size, Vec2::new(5_000_000, 155_000_000));
    assert_eq!(trig.kind, Kind::Trigger { scored: false, alpha: 1_000_000, fade_speed: FADE_SPEED });
    assert_eq!(g.last_spawn_x, 1_374_000_000);
    assert!(!g.spawn_is_due(view()));
}

#[test]
fn spawn_pair_uneven_gap() {
    let mut g = Game::new(view());
    g.spawn_pair(view(), 200_000);
    // Upper segment takes 80% of the height, lower 20%.
    assert_eq!(g.entities[0].size.y, 604_800_000);
    assert_eq!(g.entities[0].pos.y, 455_500_000 - 302_400_000);
    assert_eq!(g.entities[1].size.y, 151_200_000);
    assert_eq!(g.entities[1].pos.y, 75_600_000 - 378_000_000 - 77_500_000);
    assert_eq!(g.entities[2].pos.y, 151_200_000 - 378_000_000);
}

#[test]
fn spawn_cadence() {
    let mut g = Game::new(view());
    let mut dice = Dice::new(7);
    g.run_spawner(view(), 16, &mut dice);
    assert_eq!(g.entities.len(), 3);
    assert_eq!(g.last_spawn_x, 1_374_000_000 - 5_600_000);
    g.run_spawner(view(), 16, &mut dice);
    assert_eq!(g.entities.len(), 3);
    assert_eq!(g.last_spawn_x, 1_374_000_000 - 11_200_000);
    // Due once width - last > 380 units: last < 964 units.
    g.last_spawn_x = 964_000_000;
    g.run_spawner(view(), 0, &mut dice);
    assert_eq!(g.entities.len(), 3);
    g.last_spawn_x = 963_999_999;
    g.run_spawner(view(), 0, &mut dice);
    assert_eq!(g.entities.len(), 6);
    assert_eq!(g.last_spawn_x, 1_374_000_000);
}

#[test]
fn obstacle_hit_ends_round() {
    let mut g = Game::new(view());
    g.state = GameState::Running;
    g.entities.push(obstacle(0, 0, 60_000_000, 100_000_000));
    assert!(!g.check_collisions());
    assert_eq!(g.state, GameState::Running);
    g.entities.push(obstacle(BODY_START_X + 40_000_000, 0, 60_000_000, 100_000_000));
    assert!(g.check_collisions());
    assert_eq!(g.state, GameState::Over);
    assert!(g.body.unwrap().explode);
}

#[test]
fn shrunk_box_tolerates_a_graze() {
    let mut g = Game::new(view());
    g.state = GameState::Running;
    // Touches the full 27-unit box but not the 95% one.
    g.entities.push(obstacle(BODY_START_X + 13_000_000 + 30_000_000, 0, 60_000_000, 10_000_000));
    assert!(!g.check_collisions());
    g.entities.push(trigger_at(BODY_START_X, 0));
    assert!(!g.check_collisions());
}

#[test]
fn border_hit_ends_round() {
    let mut g = Game::new(view());
    g.state = GameState::Running;
    g.body = Some(Body { pos: Vec2::new(BODY_START_X, -370_000_000), ..new_body() });
    assert!(g.check_collisions());
    assert_eq!(g.state, GameState::Over);
}

#[test]
fn trigger_scores_once() {
    let mut g = Game::new(view());
    g.entities.push(trigger_at(BODY_START_X, 0));
    g.entities.push(trigger_at(0, 0));
    g.score_triggers();
    assert_eq!(g.score, 1);
    assert!(matches!(g.entities[0].kind, Kind::Trigger { scored: true, .. }));
    assert!(matches!(g.entities[1].kind, Kind::Trigger { scored: false, .. }));
    for _ in 0..5 {
        g.score_triggers();
    }
    assert_eq!(g.score, 1);
}

#[test]
fn score_saturates() {
    let mut g = Game::new(view());
    g.score = u64::MAX;
    g.entities.push(trigger_at(BODY_START_X, 0));
    g.score_triggers();
    assert_eq!(g.score, u64::MAX);
}

#[test]
fn scored_trigger_fades_to_zero() {
    let mut g = Game::new(view());
    g.entities.push(trigger_at(BODY_START_X, 0));
    g.entities.push(trigger_at(0, 0));
    g.fade(100);
    assert!(matches!(g.entities[0].kind, Kind::Trigger { alpha: 1_000_000, .. }));
    g.score_triggers();
    g.fade(100);
    assert!(matches!(g.entities[0].kind, Kind::Trigger { alpha: 700_000, .. }));
    assert!(matches!(g.entities[1].kind, Kind::Trigger { alpha: 1_000_000, .. }));
    g.fade(1000);
    assert!(matches!(g.entities[0].kind, Kind::Trigger { alpha: 0, .. }));
}

#[test]
fn highscore_ratchets() {
    let mut g = Game::new(view());
    g.score = 5;
    g.update_highscore();
    assert_eq!(g.highscore, 5);
    g.score = 3;
    g.update_highscore();
    assert_eq!(g.highscore, 5);
    g.score = 9;
    g.update_highscore();
    assert_eq!(g.highscore, 9);
}

#[test]
fn restart_clears_round() {
    let mut g = Game::new(view());
    g.state = GameState::Over;
    g.score = 4;
    g.highscore = 6;
    g.body = None;
    g.entities.push(obstacle(0, 0, 1, 1));
    g.entities.push(particle(0, 50));
    let borders = g.borders.clone();
    g.restart();
    assert_eq!(g.state, GameState::Started);
    assert_eq!(g.score, 0);
    assert_eq!(g.highscore, 6);
    assert!(g.entities.is_empty());
    assert_eq!(g.body, Some(new_body()));
    assert_eq!(g.borders, borders);
}

#[test]
fn explosion_from_given_draws() {
    let mut g = Game::new(view());
    g.body = Some(Body { explode: true, particle_count: 2, ..new_body() });
    let d = ParticleDraw { size_frac: 100_000, dir_x: 600_000, dir_y: -800_000, speed: 500_000, lifetime: 500 };
    let z = ParticleDraw { size_frac: 50_000, dir_x: 0, dir_y: 0, speed: 300_000, lifetime: 100 };
    g.explode(&vec![d, z]);
    assert!(g.body.is_none());
    assert_eq!(g.entities.len(), 2);
    let p = g.entities[0];
    assert_eq!(p.pos, Vec2::new(BODY_START_X, 0));
    assert_eq!(p.vel, Vec2::new(300_000, -400_000));
    assert_eq!(p.size, Vec2::new(2_700_000, 2_700_000));
    assert_eq!(p.kind, Kind::Particle { lifetime: 500 });
    assert_eq!(g.entities[1].vel, Vec2::zero());
    assert_eq!(g.entities[1].size, Vec2::new(1_350_000, 1_350_000));
}

#[test]
fn no_explosion_without_flag() {
    let mut g = Game::new(view());
    g.explode(&vec![]);
    assert!(g.body.is_some());
    assert!(g.entities.is_empty());
}

#[test]
fn random_burst_counts_and_ranges() {
    let mut g = Game::new(view());
    g.body = Some(Body { explode: true, ..new_body() });
    let mut dice = Dice::new(42);
    g.explode_with(&mut dice);
    assert!(g.body.is_none());
    assert_eq!(g.entities.len(), PARTICLE_COUNT as usize);
    for e in g.entities.iter() {
        match e.kind {
            Kind::Particle { lifetime } => assert!((100..1000).contains(&lifetime)),
            _ => panic!("not a particle"),
        }
        assert!(e.vel.x.abs() < 850_000 && e.vel.y.abs() < 850_000);
        assert!(e.size.x >= 1_350_000 && e.size.x < 13_500_000);
        assert_eq!(e.pos, Vec2::new(BODY_START_X, 0));
    }
}

#[test]
fn particles_age_and_expire() {
    let mut g = Game::new(view());
    g.entities.push(particle(0, 0));
    g.entities.push(obstacle(0, 0, 1, 1));
    g.entities.push(particle(0, 10));
    g.entities.push(particle(0, -3));
    g.age_particles(16);
    assert_eq!(g.entities.len(), 2);
    assert_eq!(g.entities[0].kind, Kind::Obstacle);
    assert_eq!(g.entities[1].kind, Kind::Particle { lifetime: -6 });
    g.age_particles(16);
    assert_eq!(g.entities.len(), 1);
}

#[test]
fn out_of_bounds_removed() {
    let mut g = Game::new(view());
    // Left edge of the view is at -672 units.
    g.entities.push(obstacle(-700_000_000, 0, 28_000_000, 10));
    g.entities.push(obstacle(-700_000_001, 0, 28_000_000, 10));
    g.entities.push(particle(0, 100));
    g.destroy_out_of_bounds(view());
    assert_eq!(g.entities.len(), 2);
    assert_eq!(g.entities[0].pos.x, -700_000_000);
    assert!(g.body.is_some());
    g.update_borders(Viewport { width: 100_000_000, height: 50_000_000 });
    assert_eq!(g.borders[0].pos, Vec2::new(0, -25_000_000));
    assert_eq!(g.borders[1].size, Vec2::new(100_000_000, 40_000_000));
}

#[test]
fn body_can_leave_a_narrow_view() {
    let mut g = Game::new(view());
    g.destroy_out_of_bounds(Viewport { width: 400_000_000, height: 756_000_000 });
    assert!(g.body.is_none());
}

#[test]
fn palette() {
    assert_eq!(ColorType::Bird.get_color(), Rgb { r: 89, g: 194, b: 255 });
    assert_eq!(ColorType::Pillar.get_color(), Rgb { r: 255, g: 180, b: 84 });
    assert_eq!(ColorType::Bg.get_color(), Rgb { r: 13, g: 16, b: 22 });
    assert_eq!(ColorType::Laser.get_color(), Rgb { r: 240, g: 46, b: 46 });
    assert_eq!(ColorType::Score.get_color(), Rgb { r: 149, g: 230, b: 203 });
}

#[test]
fn dice_is_seeded_and_in_range() {
    let mut a = Dice::new(3);
    let mut b = Dice::new(3);
    let xs: Vec<i64> = (0..50).map(|_| a.range(10, 1000)).collect();
    let ys: Vec<i64> = (0..50).map(|_| b.range(10, 1000)).collect();
    assert_eq!(xs, ys);
    assert!(xs.iter().all(|x| (10..1000).contains(x)));
    assert!(xs.iter().any(|x| *x != 10));
    assert!(xs.iter().any(|x| *x != xs[0]));
}

#[test]
fn full_round() {
    let v = view();
    let mut dice = Dice::new(1);
    let mut g = Game::new(v);
    let idle = Input { pressed: false, held: false };
    let press = Input { pressed: true, held: true };
    g.tick(idle, 16, v, &mut dice);
    assert_eq!(g.state, GameState::Started);
    assert_eq!(g.body.unwrap().pos, Vec2::new(BODY_START_X, 0));
    // Impulse: running, with the flap applied in the same frame.
    g.tick(press, 16, v, &mut dice);
    assert_eq!(g.state, GameState::Running);
    let b = g.body.unwrap();
    assert_eq!(b.vel.y, 387_298 - 16_000);
    assert_eq!(b.pos, Vec2::new(BODY_START_X, (387_298 - 16_000) * 16));
    // Falling: speed drops by gravity each frame, x stays.
    let mut vy = b.vel.y;
    let mut y = b.pos.y;
    for _ in 0..40 {
        g.tick(idle, 16, v, &mut dice);
        vy -= 16_000;
        let prev_y = y;
        y += vy * 16;
        let b = g.body.unwrap();
        if vy < 0 {
            assert!(b.pos.y < prev_y);
        }
        assert_eq!(b.vel.y, vy);
        assert_eq!(b.pos, Vec2::new(BODY_START_X, y));
        assert_eq!(g.state, GameState::Running);
    }
    assert!(vy < 0);
    // An obstacle on the body: over, and the body bursts.
    let before = g.entities.len();
    g.score = 3;
    g.entities.push(obstacle(BODY_START_X, y, 60_000_000, 100_000_000));
    g.tick(idle, 16, v, &mut dice);
    assert_eq!(g.state, GameState::Over);
    assert!(g.body.is_none());
    assert_eq!(count_particles(&g), PARTICLE_COUNT as usize);
    assert!(g.entities.len() >= before + PARTICLE_COUNT as usize);
    g.tick(idle, 16, v, &mut dice);
    assert_eq!(g.state, GameState::Over);
    assert_eq!(g.highscore, 3);
    // Restart.
    g.tick(press, 16, v, &mut dice);
    assert_eq!(g.state, GameState::Started);
    assert_eq!(g.score, 0);
    assert_eq!(g.highscore, 3);
    assert!(g.entities.is_empty());
    assert_eq!(g.body.unwrap().pos, Vec2::new(BODY_START_X, 0));
}

#[test]
fn scoreboard_text() {
    let mut g = Game::new(view());
    assert_eq!(g.score_text(), b"0".to_vec());
    g.score = 305;
    g.highscore = 18446744073709551615;
    assert_eq!(String::from_utf8(g.score_text()).unwrap(), "305");
    assert_eq!(String::from_utf8(g.highscore_text()).unwrap(), "18446744073709551615");
    assert_eq!(flappy::display::decimal_digits(10), b"10".to_vec());
}

#[test]
fn over_without_key_keeps_score() {
    let v = view();
    let mut dice = Dice::new(5);
    let mut g = Game::new(v);
    g.state = GameState::Over;
    g.score = 7;
    g.body = None;
    g.entities.push(obstacle(0, 0, 1, 1));
    g.tick(Input { pressed: false, held: false }, 16, v, &mut dice);
    assert_eq!(g.state, GameState::Over);
    assert_eq!(g.score, 7);
    assert_eq!(g.highscore, 7);
    assert_eq!(g.entities.len(), 1);
}

#[test]
fn held_key_without_press_does_not_flap() {
    let v = view();
    let mut dice = Dice::new(5);
    let mut g = Game::new(v);
    g.tick(Input { pressed: false, held: true }, 16, v, &mut dice);
    assert_eq!(g.state, GameState::Running);
    assert_eq!(g.body.unwrap().vel.y, -16_000);
    g.tick(Input { pressed: false, held: true }, 16, v, &mut dice);
    assert_eq!(g.body.unwrap().vel.y, -32_000);
    g.tick(Input { pressed: true, held: true }, 16, v, &mut dice);
    assert_eq!(g.body.unwrap().vel.y, 387_298 - 16_000);
}

#[test]
fn start_key_crash_in_same_frame_ends_round() {
    let v = view();
    let mut dice = Dice::new(5);
    let mut g = Game::new(v);
    g.entities.push(obstacle(BODY_START_X, 0, 60_000_000, 100_000_000));
    g.tick(Input { pressed: true, held: true }, 16, v, &mut dice);
    assert_eq!(g.state, GameState::Over);
    assert!(g.body.is_none());
    assert_eq!(count_particles(&g), PARTICLE_COUNT as usize);
}
