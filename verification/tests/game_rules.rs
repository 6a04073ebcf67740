use fixed::types::I32F32;
use rust_breakout::fp::Fp;
use rust_breakout::game::{Game, GameState, Particle, Vec2};
use rust_breakout::hud::{color_channels, Overlay};
use rust_breakout::rng::prand;

fn fp(v: i64) -> Fp {
    Fp { bits: v << 32 }
}

fn to_f64(x: Fp) -> f64 {
    I32F32::from_bits(x.bits).to_num::<f64>()
}

fn score_of_broken(g: &Game) -> u32 {
    g.bricks.iter().filter(|b| !b.alive).map(|b| (6 - b.row as u32) * 10).sum()
}

#[test]
fn new_game_layout() {
    let g = Game::new();
    assert_eq!(g.paddle_x, fp(340));
    assert_eq!(g.ball_pos, Vec2 { x: fp(400), y: fp(550) });
    assert_eq!(g.ball_vel, Vec2 { x: fp(0), y: fp(0) });
    assert_eq!(g.ball_speed, fp(350));
    assert_eq!(g.lives, 3);
    assert_eq!(g.score, 0);
    assert_eq!(g.state, GameState::Wait);
    assert_eq!(g.bricks.len(), 72);
    assert_eq!(g.bricks_total, 72);
    assert_eq!(g.particles.len(), 500);
    assert!(g.particles.iter().all(|p| *p == Particle::new()));
    assert!(g.trail.is_empty());
    let b = g.bricks[13];
    assert_eq!((b.x, b.y, b.row, b.alive), (fp(83), fp(88), 1, true));
    let last = g.bricks[71];
    assert_eq!((last.x, last.y, last.row), (fp(19 + 64 * 11), fp(60 + 28 * 5), 5));
}

#[test]
fn mouse_moves_paddle_within_canvas() {
    let mut g = Game::new();
    g.mouse_move(fp(100));
    assert_eq!(g.paddle_x, fp(40));
    g.mouse_move(fp(10));
    assert_eq!(g.paddle_x, fp(0));
    g.mouse_move(fp(900));
    assert_eq!(g.paddle_x, fp(680));
    g.state = GameState::Over;
    g.mouse_move(fp(100));
    assert_eq!(g.paddle_x, fp(680));
}

#[test]
fn keys_hold_and_release() {
    let mut g = Game::new();
    g.key_down("ArrowLeft");
    assert!(g.left_pressed);
    g.key_up("a");
    assert!(!g.left_pressed);
    g.key_down("D");
    assert!(g.right_pressed);
    g.key_up("ArrowRight");
    assert!(!g.right_pressed);
    g.key_down("x");
    assert!(!g.left_pressed && !g.right_pressed);
    assert_eq!(g.state, GameState::Wait);
    g.key_down(" ");
    assert_eq!(g.state, GameState::Play);
}

#[test]
fn launch_sends_ball_upward_at_unit_speed() {
    for frame in [0u64, 1, 7, 12345] {
        let mut g = Game::new();
        g.frame_count = frame;
        g.click();
        assert_eq!(g.state, GameState::Play);
        let (x, y) = (to_f64(g.ball_vel.x), to_f64(g.ball_vel.y));
        assert!(y < -0.69, "frame {}: {}", frame, y);
        assert!(x.abs() <= 0.71, "frame {}: {}", frame, x);
        assert!((x * x + y * y - 1.0).abs() < 0.001);
        // the angle is -π/4 + r·π/2 for the frame's random r
        let r = to_f64(prand(frame));
        let angle = -std::f64::consts::FRAC_PI_4 + r * std::f64::consts::FRAC_PI_2;
        assert!((x - angle.sin()).abs() < 0.001);
    }
}

#[test]
fn click_restarts_finished_game() {
    let mut g = Game::new();
    g.state = GameState::Over;
    g.lives = 0;
    g.score = 120;
    g.bricks[0].alive = false;
    g.particles[3].active = true;
    g.frame_count = 99;
    g.click();
    let fresh = Game::new();
    assert_eq!(g.state, GameState::Wait);
    assert_eq!(g.lives, 3);
    assert_eq!(g.score, 0);
    assert_eq!(g.bricks, fresh.bricks);
    assert_eq!(g.paddle_x, fresh.paddle_x);
    assert_eq!(g.ball_pos, fresh.ball_pos);
    assert!(g.particles.iter().all(|p| !p.active));
    assert_eq!(g.frame_count, 99);
    // clicking in play does nothing
    let mut h = Game::new();
    h.state = GameState::Play;
    h.click();
    assert_eq!(h.state, GameState::Play);
}

#[test]
fn waiting_ball_follows_paddle() {
    let mut g = Game::new();
    g.paddle_x = fp(100);
    g.update(fp(0));
    assert_eq!(g.ball_pos, Vec2 { x: fp(160), y: fp(550) });
    assert_eq!(g.frame_count, 1);
}

#[test]
fn ball_moves_by_velocity_times_speed() {
    let mut g = Game::new();
    g.state = GameState::Play;
    g.ball_pos = Vec2 { x: fp(400), y: fp(300) };
    g.ball_vel = Vec2 { x: fp(0), y: fp(-1) };
    let dt = Fp { bits: I32F32::from_num(0.01).to_bits() };
    g.update(dt);
    let expected = I32F32::from_num(300) - I32F32::from_num(350) * I32F32::from_bits(dt.bits);
    assert_eq!(g.ball_pos.y.bits, expected.to_bits());
    assert_eq!(g.ball_pos.x, fp(400));
    assert_eq!(g.trail.len(), 1);
    assert_eq!(g.trail[0].x, fp(400));
    assert_eq!(g.trail[0].alpha.bits, I32F32::from_num(0.6).to_bits());
}

#[test]
fn paddle_keys_move_paddle_in_play() {
    let mut g = Game::new();
    g.state = GameState::Play;
    g.ball_pos = Vec2 { x: fp(400), y: fp(300) };
    g.left_pressed = true;
    g.update(Fp { bits: 1 << 31 }); // half a second: 300 to the left
    assert_eq!(g.paddle_x, fp(40));
    g.update(Fp { bits: 1 << 31 });
    assert_eq!(g.paddle_x, fp(0));
}

#[test]
fn walls_send_ball_back() {
    let mut g = Game::new();
    g.state = GameState::Play;
    g.ball_pos = Vec2 { x: fp(3), y: fp(300) };
    g.ball_vel = Vec2 { x: fp(-1), y: fp(0) };
    g.update(fp(0));
    assert_eq!(g.ball_pos.x, fp(8));
    assert_eq!(g.ball_vel.x, fp(1));
    g.ball_pos = Vec2 { x: fp(797), y: fp(4) };
    g.ball_vel = Vec2 { x: fp(1), y: fp(-1) };
    g.update(fp(0));
    assert_eq!(g.ball_pos, Vec2 { x: fp(792), y: fp(8) });
    assert_eq!(g.ball_vel, Vec2 { x: fp(-1), y: fp(1) });
}

#[test]
fn lost_ball_costs_a_life() {
    let mut g = Game::new();
    g.state = GameState::Play;
    g.paddle_x = fp(200);
    g.ball_pos = Vec2 { x: fp(400), y: fp(595) };
    g.ball_vel = Vec2 { x: fp(0), y: fp(1) };
    g.bricks[5].alive = false;
    g.bricks_broken = 1;
    g.score = 60;
    g.update(fp(0));
    assert_eq!(g.lives, 2);
    assert_eq!(g.state, GameState::Wait);
    assert_eq!(g.ball_pos, Vec2 { x: fp(260), y: fp(550) });
    assert_eq!(g.ball_speed, fp(354));
    assert!(g.trail.is_empty());
}

#[test]
fn last_life_ends_game() {
    let mut g = Game::new();
    g.state = GameState::Play;
    g.lives = 1;
    g.ball_pos = Vec2 { x: fp(400), y: fp(599) };
    g.ball_vel = Vec2 { x: fp(0), y: fp(1) };
    g.update(fp(0));
    assert_eq!(g.lives, 0);
    assert_eq!(g.state, GameState::Over);
    let before = g.ball_pos;
    g.update(fp(1));
    assert_eq!(g.state, GameState::Over);
    assert_eq!(g.ball_pos, before);
}

#[test]
fn paddle_sends_ball_back_up() {
    let mut g = Game::new();
    g.state = GameState::Play;
    g.paddle_x = fp(300);
    g.ball_pos = Vec2 { x: fp(360), y: fp(555) };
    g.ball_vel = Vec2 { x: fp(0), y: fp(1) };
    g.update(fp(0));
    assert_eq!(g.ball_pos.y, fp(552));
    let (x, y) = (to_f64(g.ball_vel.x), to_f64(g.ball_vel.y));
    assert!(x.abs() < 0.01 && (y + 1.0).abs() < 0.01, "{} {}", x, y);
    // hitting right of centre sends it to the right
    g.ball_vel = Vec2 { x: fp(0), y: fp(1) };
    g.ball_pos = Vec2 { x: fp(410), y: fp(555) };
    g.update(fp(0));
    assert!(to_f64(g.ball_vel.x) > 0.5 && to_f64(g.ball_vel.y) < 0.0);
}

#[test]
fn hitting_a_brick_scores_and_throws_sparks() {
    let mut g = Game::new();
    g.state = GameState::Play;
    g.ball_pos = Vec2 { x: fp(48), y: fp(71) };
    g.ball_vel = Vec2 { x: fp(0), y: fp(1) };
    g.update(fp(0));
    assert!(!g.bricks[0].alive);
    assert_eq!(g.score, 60);
    assert_eq!(g.bricks_broken, 1);
    assert_eq!(g.ball_speed, fp(358));
    assert_eq!(g.ball_vel.y, fp(-1));
    let sparks: Vec<&Particle> = g.particles.iter().filter(|p| p.active).collect();
    assert_eq!(sparks.len(), 15);
    assert!(g.particles[..15].iter().all(|p| p.active && p.color_index == 0));
    assert_eq!((g.particles[0].x, g.particles[0].y), (fp(48), fp(71)));
    let life = to_f64(g.particles[0].life);
    assert!((0.5..1.2).contains(&life));
    assert!(sparks.iter().all(|p| p.max_life.bits >= 1 << 31 && p.alpha().bits == 1 << 32));
    assert_eq!(g.score, score_of_broken(&g));
}

#[test]
fn breaking_the_last_brick_wins() {
    let mut g = Game::new();
    for b in g.bricks.iter_mut() {
        b.alive = false;
    }
    g.bricks[71].alive = true;
    g.bricks_broken = 71;
    g.score = score_of_broken(&g);
    g.state = GameState::Play;
    // brick 71: x = 723, y = 200
    g.ball_pos = Vec2 { x: fp(723 + 29), y: fp(200 + 11) };
    g.ball_vel = Vec2 { x: fp(1), y: fp(0) };
    g.update(fp(0));
    assert_eq!(g.state, GameState::Won);
    assert_eq!(g.bricks_broken, 72);
    assert_eq!(g.score, score_of_broken(&g));
}

#[test]
fn particles_fall_and_fade() {
    let mut g = Game::new();
    g.particles[0] = Particle {
        x: fp(10),
        y: fp(10),
        vx: fp(2),
        vy: fp(0),
        life: fp(1),
        max_life: fp(1),
        size: fp(2),
        color_index: 0,
        active: true,
    };
    g.update(Fp { bits: 1 << 31 });
    let p = g.particles[0];
    assert_eq!(p.x, fp(11));
    assert_eq!(p.vy, fp(75));
    assert_eq!(p.life.bits, 1 << 31);
    assert!(p.active);
    assert_eq!(p.alpha().bits, 1 << 31);
    g.update(Fp { bits: 1 << 31 });
    assert!(!g.particles[0].active);
}

#[test]
fn spawn_uses_free_particles_in_order() {
    let mut g = Game::new();
    g.particles[1].active = true;
    g.spawn_particles(fp(5), fp(6), 4, 3);
    let active: Vec<usize> = (0..500).filter(|&i| g.particles[i].active).collect();
    assert_eq!(active, vec![0, 1, 2, 3]);
    assert_eq!(g.particles[3].color_index, 4);
    assert_eq!(g.particles[1].color_index, 0);
}

#[test]
fn speed_gauge_and_overlay() {
    let mut g = Game::new();
    assert_eq!(g.speed_percent(), 0);
    assert_eq!(g.overlay(), Some(Overlay::Title));
    g.ball_speed = fp(525);
    assert_eq!(g.speed_percent(), 50);
    g.ball_speed = fp(700);
    assert_eq!(g.speed_percent(), 100);
    g.lives = 2;
    assert_eq!(g.overlay(), Some(Overlay::Ready));
    g.state = GameState::Play;
    assert_eq!(g.overlay(), None);
    g.state = GameState::Over;
    assert_eq!(g.overlay(), Some(Overlay::GameOver));
    g.state = GameState::Won;
    assert_eq!(g.overlay(), Some(Overlay::YouWin));
}

#[test]
fn normalize_scales_to_unit_length() {
    let v = Vec2 { x: fp(3), y: fp(4) }.normalize();
    assert!((to_f64(v.x) - 0.6).abs() < 0.001);
    assert!((to_f64(v.y) - 0.8).abs() < 0.001);
    let z = Vec2 { x: fp(0), y: fp(0) };
    assert_eq!(z.normalize(), z);
}

#[test]
fn random_numbers_are_fractions() {
    assert_eq!(prand(0).bits, 924276962);
    assert_eq!(prand(1).bits, 1925004342);
    assert_eq!(prand(7).bits, 4293249309);
    for seed in 0..1000u64 {
        let r = prand(seed * 7919);
        assert!(r.bits >= 0 && r.bits < 1 << 32);
    }
}

#[test]
fn score_matches_broken_bricks_over_many_frames() {
    let mut g = Game::new();
    g.click();
    let dt = Fp { bits: I32F32::from_num(0.016).to_bits() };
    for _ in 0..5000 {
        if g.state == GameState::Wait {
            g.click();
        }
        // keep the paddle under the ball
        let x = g.ball_pos.x;
        g.mouse_move(x);
        g.update(dt);
        assert_eq!(g.score, score_of_broken(&g));
        assert_eq!(g.bricks_broken as usize, g.bricks.iter().filter(|b| !b.alive).count());
        assert!(g.paddle_x.bits >= 0 && g.paddle_x.bits <= 680 << 32);
        assert!(g.ball_speed.bits >= 350 << 32 && g.ball_speed.bits <= 700 << 32);
        assert!(g.trail.len() <= 12);
        assert_eq!(g.state == GameState::Won, g.bricks_broken == 72);
        if g.state == GameState::Won {
            break;
        }
    }
    assert!(g.bricks_broken > 0);
}

#[test]
fn colour_channels_read_hex_pairs() {
    assert_eq!(color_channels("#ff3366"), Some((255, 51, 102)));
    assert_eq!(color_channels("#9966FF"), Some((153, 102, 255)));
    assert_eq!(color_channels("#12"), None);
    assert_eq!(color_channels("#zz+f00"), Some((255, 15, 0)));
    assert_eq!(color_channels("#-10000"), Some((255, 0, 0)));
    for hex in ["#ff3366", "#ff6633", "#ffcc00", "#33ff66", "#33ccff", "#9966ff", "#zz+f-1", "#+0+a+F"] {
        let expected = (
            u8::from_str_radix(&hex[1..3], 16).unwrap_or(255),
            u8::from_str_radix(&hex[3..5], 16).unwrap_or(255),
            u8::from_str_radix(&hex[5..7], 16).unwrap_or(255),
        );
        assert_eq!(color_channels(hex), Some(expected), "{}", hex);
    }
}
