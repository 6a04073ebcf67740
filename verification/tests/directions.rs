use fixed::types::I32F32;
use rust_breakout::fp::Fp;
use rust_breakout::game::{Game, GameState, Vec2};
use rust_breakout::rng::prand;
use rust_breakout::step::{spark_angle_of, spark_toward_exec};

fn fp(v: i64) -> Fp {
    Fp { bits: v << 32 }
}

fn fx(x: Fp) -> I32F32 {
    I32F32::from_bits(x.bits)
}

#[test]
fn direction_from_sine_and_cosine_points_up() {
    let v = Vec2::from_sin_cos(Fp { bits: 1 << 31 }, fp(2));
    assert_eq!(v, Vec2 { x: Fp { bits: 1 << 31 }, y: fp(-2) });
}

#[test]
fn divide_by_divides_both_coordinates() {
    let v = Vec2 { x: fp(3), y: fp(-4) }.divide_by(fp(2));
    assert_eq!(v, Vec2 { x: Fp { bits: 3 << 31 }, y: fp(-2) });
    let w = Vec2 { x: Fp { bits: -1 }, y: Fp { bits: 1 } }.divide_by(fp(2));
    // rounded towards zero
    assert_eq!(w, Vec2 { x: Fp { bits: 0 }, y: Fp { bits: 0 } });
}

#[test]
fn launch_toward_sets_direction_and_plays() {
    let mut g = Game::new();
    g.launch_toward(fp(0), fp(1));
    assert_eq!(g.state, GameState::Play);
    assert_eq!(g.ball_vel, Vec2 { x: fp(0), y: fp(-1) });
}

#[test]
fn launch_angle_spreads_over_a_quarter_turn() {
    let mut g = Game::new();
    g.frame_count = 0;
    let a = g.launch_angle();
    let expected = -I32F32::from_num(std::f64::consts::FRAC_PI_4)
        + fx(prand(0)) * I32F32::from_num(std::f64::consts::FRAC_PI_2);
    assert_eq!(a.bits, expected.to_bits());
    for frame in 0..200u64 {
        g.frame_count = frame;
        let a = fx(g.launch_angle()).to_num::<f64>();
        assert!(a >= -0.786 && a <= 0.786);
    }
}

#[test]
fn bounce_angle_follows_hit_point() {
    let mut g = Game::new();
    g.paddle_x = fp(300);
    g.ball_pos = Vec2 { x: fp(360), y: fp(555) };
    assert_eq!(g.bounce_angle(), fp(0));
    g.ball_pos = Vec2 { x: fp(420), y: fp(555) };
    let a = fx(g.bounce_angle()).to_num::<f64>();
    assert!((a - 0.5 * std::f64::consts::FRAC_PI_3 * 2.5).abs() < 1e-6);
    g.ball_pos = Vec2 { x: fp(300), y: fp(555) };
    let b = fx(g.bounce_angle()).to_num::<f64>();
    assert!((b + 0.5 * std::f64::consts::FRAC_PI_3 * 2.5).abs() < 1e-6);
}

#[test]
fn spark_moves_along_given_direction() {
    // spark 0 of frame 0 draws all its numbers from seed 0
    let p = spark_toward_exec(fp(5), fp(6), 2, 0, 0, fp(1), fp(0));
    let speed = I32F32::from_num(50) + fx(prand(0)) * I32F32::from_num(200);
    assert_eq!(p.vx.bits, speed.to_bits());
    assert_eq!(p.vy, fp(0));
    let life = I32F32::from_num(0.5) + fx(prand(0)) * I32F32::from_num(0.7);
    assert_eq!(p.life.bits, life.to_bits());
    assert_eq!(p.max_life, p.life);
    let size = I32F32::from_num(2) + fx(prand(0)) * I32F32::from_num(4);
    assert_eq!(p.size.bits, size.to_bits());
    assert_eq!((p.x, p.y, p.color_index, p.active), (fp(5), fp(6), 2, true));
    let angle = spark_angle_of(10, 3);
    assert_eq!(angle.bits, (fx(prand(31)) * I32F32::from_num(std::f64::consts::TAU)).to_bits());
}
