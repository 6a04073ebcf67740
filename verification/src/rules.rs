//! The rules of play stated in plain arithmetic on raw bits: how the keys move
//! the paddle, how the ball flies, where the paddle sends it back, how a brick
//! deflects it, and what a click does to a finished game.
use vstd::prelude::*;
use crate::fp::{Fp, fp_int, fp_mul, small, ONE_BITS};
use crate::game::GameView;
use crate::game::{GameState, Vec2, click_spec};
use crate::step::{bricks_spec, first_touch, paddle_bounce_spec, update_spec, moved_paddle, trail_spec, move_ball_spec, walls_spec, play_spec};

verus! {

/// Multiplying by a whole number is exact while the product fits.
pub proof fn lemma_mul_by_int(k: int, f: Fp)
    requires
        small(k),
        i64::MIN <= k * f.bits <= i64::MAX,
    ensures
        fp_mul(fp_int(k), f).bits == k * f.bits,
{
    let p = k * f.bits;
    let wide = (k * ONE_BITS) * f.bits * ONE_BITS;
    assert(wide == p * 0x1_0000_0000_0000_0000) by (nonlinear_arith)
        requires wide == (k * ONE_BITS) * f.bits * ONE_BITS, p == k * f.bits;
    assert(i128::MIN <= wide <= i128::MAX) by (nonlinear_arith)
        requires wide == p * 0x1_0000_0000_0000_0000, i64::MIN <= p <= i64::MAX;
    vstd::arithmetic::div_mod::lemma_div_multiples_vanish(p, 0x1_0000_0000_0000_0000);
    assert(p * 0x1_0000_0000_0000_0000 == 0x1_0000_0000_0000_0000 * p) by (nonlinear_arith);
}

/// In play, each held direction key moves the paddle 600 per second over the
/// frame, right for the right key and left for the left one, and the paddle is
/// then kept within `[0, 680]`. Holding only the right key never moves it left,
/// holding only the left key never moves it right.
pub proof fn lemma_keys_move_paddle(g: GameView, dt: Fp)
    requires
        g.state == GameState::Play,
        0 <= g.paddle_x.bits <= 680 * ONE_BITS,
        0 <= dt.bits,
        600 * dt.bits + 680 * ONE_BITS <= i64::MAX,
    ensures
        update_spec(g, dt).paddle_x.bits == ({
            let step = 600 * dt.bits;
            let target = g.paddle_x.bits + (if g.right_pressed { step } else { 0 })
                - (if g.left_pressed { step } else { 0 });
            if target < 0 {
                0
            } else if target > 680 * ONE_BITS {
                680 * ONE_BITS
            } else {
                target
            }
        }),
        g.right_pressed && !g.left_pressed ==> update_spec(g, dt).paddle_x.bits >= g.paddle_x.bits,
        g.left_pressed && !g.right_pressed ==> update_spec(g, dt).paddle_x.bits <= g.paddle_x.bits,
{
    lemma_mul_by_int(600, dt);
    let g1 = GameView {
        frame_count: (g.frame_count + 1) as u64,
        particles: g.particles.map_values(|p: crate::game::Particle| crate::step::particle_step(p, dt)),
        ..g
    };
    assert(update_spec(g, dt) == play_spec(g1, dt));
    let g2 = GameView {
        paddle_x: moved_paddle(g1, dt),
        trail: trail_spec(g1.trail, g1.ball_pos),
        ..g1
    };
    let g3 = walls_spec(move_ball_spec(g2, dt));
    assert(g3.paddle_x == moved_paddle(g1, dt));
    assert(play_spec(g1, dt).paddle_x == g3.paddle_x);
}

/// A click on a finished game, lost or won, starts a fresh one: waiting for a
/// launch with three lives, no score, no broken brick and all 72 bricks
/// standing; a won game restarts exactly as a lost one does.
pub proof fn lemma_click_restarts(g: GameView)
    requires
        g.state == GameState::Over || g.state == GameState::Won,
    ensures
        click_spec(g).state == GameState::Wait,
        click_spec(g).lives == 3,
        click_spec(g).score == 0,
        click_spec(g).bricks_broken == 0,
        click_spec(g).bricks_total == 72,
        click_spec(g).bricks.len() == 72,
        forall|i: int| 0 <= i < 72 ==> (#[trigger] click_spec(g).bricks[i]).alive,
        click_spec(g) == click_spec(GameView { state: GameState::Over, ..g }),
{
}

/// `|a| · 2^32 / (n · 2^32)` as the fixed-point quotient computes it: `|a| / n`
/// rounded down.
proof fn lemma_div_by_whole(a: int, n: int)
    requires
        0 <= a < 0x4000_0000_0000_0000,
        0 < n < 0x8000_0000,
    ensures
        crate::fp::fp_div(Fp { bits: a as i64 }, fp_int(n)).bits == a / n,
{
    let x = a * ONE_BITS;
    assert(x >= 0) by (nonlinear_arith) requires x == a * ONE_BITS, a >= 0;
    assert(n * ONE_BITS > 0) by (nonlinear_arith) requires n > 0;
    vstd::arithmetic::div_mod::lemma_div_denominator(x, ONE_BITS as int, n);
    vstd::arithmetic::div_mod::lemma_div_multiples_vanish(a, ONE_BITS as int);
    assert(ONE_BITS * a == x) by (nonlinear_arith) requires x == a * ONE_BITS;
    assert(ONE_BITS * n == n * ONE_BITS) by (nonlinear_arith);
    vstd::arithmetic::div_mod::lemma_div_is_ordered_by_denominator(a, 1, n);
}

/// A brick struck by the ball sends it away along the axis on which the ball
/// lies further out from the brick's centre, relative to the brick's size
/// (58 wide, 22 high): with `dx`, `dy` the ball's offset from that centre, if
/// `|dx| / 58 > |dy| / 22` the horizontal speed keeps its size and takes the
/// sign of `dx` while the vertical one is kept; otherwise the vertical speed
/// keeps its size and takes the sign of `dy` while the horizontal one is kept.
pub proof fn lemma_brick_deflects_ball(g: GameView, i: int)
    requires
        first_touch(g.bricks, g.ball_pos) == Some(i),
        -0x1000_0000_0000_0000 < g.ball_pos.x.bits < 0x1000_0000_0000_0000,
        -0x1000_0000_0000_0000 < g.ball_pos.y.bits < 0x1000_0000_0000_0000,
        -0x1000_0000_0000_0000 < g.bricks[i].x.bits < 0x1000_0000_0000_0000,
        -0x1000_0000_0000_0000 < g.bricks[i].y.bits < 0x1000_0000_0000_0000,
        g.ball_vel.x.bits > i64::MIN,
        g.ball_vel.y.bits > i64::MIN,
    ensures
        ({
            let b = g.bricks[i];
            let dx = g.ball_pos.x.bits - (b.x.bits + 29 * ONE_BITS);
            let dy = g.ball_pos.y.bits - (b.y.bits + 11 * ONE_BITS);
            let adx = if dx < 0 { -dx } else { dx };
            let ady = if dy < 0 { -dy } else { dy };
            let vx = g.ball_vel.x.bits as int;
            let vy = g.ball_vel.y.bits as int;
            let avx = if vx < 0 { -vx } else { vx };
            let avy = if vy < 0 { -vy } else { vy };
            let v = bricks_spec(g).ball_vel;
            if adx / 58 > ady / 22 {
                &&& v.x.bits == (if dx > 0 { avx } else { -avx })
                &&& v.y == g.ball_vel.y
            } else {
                &&& v.y.bits == (if dy > 0 { avy } else { -avy })
                &&& v.x == g.ball_vel.x
            }
        }),
{
    let b = g.bricks[i];
    let dx = g.ball_pos.x.bits - (b.x.bits + 29 * ONE_BITS);
    let dy = g.ball_pos.y.bits - (b.y.bits + 11 * ONE_BITS);
    let adx = if dx < 0 { -dx } else { dx };
    let ady = if dy < 0 { -dy } else { dy };
    lemma_div_by_whole(adx, 58);
    lemma_div_by_whole(ady, 22);
}

/// The paddle sends back only a falling ball whose centre lies within a radius
/// of it: a ball more than 8 left of the paddle's left end or more than 8
/// right of its right end (the paddle is 120 wide), or one that is not
/// falling, is left as it is.
pub proof fn lemma_paddle_misses(g: GameView)
    requires
        -0x4000_0000_0000_0000 < g.paddle_x.bits < 0x4000_0000_0000_0000,
        g.ball_pos.x.bits < g.paddle_x.bits - 8 * ONE_BITS
            || g.ball_pos.x.bits > g.paddle_x.bits + 128 * ONE_BITS
            || g.ball_vel.y.bits <= 0,
    ensures
        paddle_bounce_spec(g) == g,
{
}

/// A falling ball whose bottom lies between the paddle's top edge (560) and
/// 18 below it, and whose centre lies within a radius of the paddle, is put
/// back on the paddle's top edge, its centre at 552.
pub proof fn lemma_paddle_catches(g: GameView)
    requires
        -0x4000_0000_0000_0000 < g.paddle_x.bits < 0x4000_0000_0000_0000,
        -0x4000_0000_0000_0000 < g.ball_pos.y.bits < 0x4000_0000_0000_0000,
        g.ball_vel.y.bits > 0,
        560 * ONE_BITS <= g.ball_pos.y.bits + 8 * ONE_BITS <= 578 * ONE_BITS,
        g.paddle_x.bits - 8 * ONE_BITS <= g.ball_pos.x.bits <= g.paddle_x.bits + 128 * ONE_BITS,
    ensures
        paddle_bounce_spec(g).ball_pos.x == g.ball_pos.x,
        paddle_bounce_spec(g).ball_pos.y.bits == 552 * ONE_BITS,
{
}

/// In play, a ball that stays clear of the walls, the paddle and the bricks
/// flies in a straight line: over `dt` each coordinate moves by the velocity's
/// component times the ball's speed times `dt`, and the velocity and the speed
/// are kept.
pub proof fn lemma_ball_flies(g: GameView, dt: Fp)
    requires
        g.state == GameState::Play,
        ({
            let nx = g.ball_pos.x.bits + fp_mul(fp_mul(g.ball_vel.x, g.ball_speed), dt).bits;
            let ny = g.ball_pos.y.bits + fp_mul(fp_mul(g.ball_vel.y, g.ball_speed), dt).bits;
            &&& 8 * ONE_BITS < nx < 792 * ONE_BITS
            &&& 8 * ONE_BITS < ny < 552 * ONE_BITS
            &&& first_touch(g.bricks, Vec2 { x: Fp { bits: nx as i64 }, y: Fp { bits: ny as i64 } }) is None
        }),
    ensures
        update_spec(g, dt).ball_pos.x.bits
            == g.ball_pos.x.bits + fp_mul(fp_mul(g.ball_vel.x, g.ball_speed), dt).bits,
        update_spec(g, dt).ball_pos.y.bits
            == g.ball_pos.y.bits + fp_mul(fp_mul(g.ball_vel.y, g.ball_speed), dt).bits,
        update_spec(g, dt).ball_vel == g.ball_vel,
        update_spec(g, dt).ball_speed == g.ball_speed,
{
    let g1 = GameView {
        frame_count: (g.frame_count + 1) as u64,
        particles: g.particles.map_values(|p: crate::game::Particle| crate::step::particle_step(p, dt)),
        ..g
    };
    assert(update_spec(g, dt) == play_spec(g1, dt));
    let g2 = GameView {
        paddle_x: moved_paddle(g1, dt),
        trail: trail_spec(g1.trail, g1.ball_pos),
        ..g1
    };
    let g3 = walls_spec(move_ball_spec(g2, dt));
    assert(g3 == move_ball_spec(g2, dt));
    assert(paddle_bounce_spec(g3) == g3);
}

/// Breaking the brick the ball strikes: that brick falls and no other, the
/// score rises by 10 for each row it lies above the bottom one counted from
/// one (60 for the top row, 10 for the bottom), one more brick is counted as
/// broken, and the game is won exactly when that was the last one.
pub proof fn lemma_brick_breaks(g: GameView, i: int)
    requires
        first_touch(g.bricks, g.ball_pos) == Some(i),
        g.score + 60 <= u32::MAX,
        g.bricks_broken < u32::MAX,
        g.bricks[i].row <= 6,
    ensures
        0 <= i < g.bricks.len(),
        g.bricks[i].alive,
        !bricks_spec(g).bricks[i].alive,
        bricks_spec(g).bricks.len() == g.bricks.len(),
        forall|j: int| 0 <= j < g.bricks.len() && j != i ==> #[trigger] bricks_spec(g).bricks[j] == g.bricks[j],
        bricks_spec(g).score == g.score + 10 * (6 - g.bricks[i].row),
        bricks_spec(g).bricks_broken == g.bricks_broken + 1,
        (bricks_spec(g).state == GameState::Won) == (g.bricks_broken + 1 >= g.bricks_total || g.state == GameState::Won),
{
    crate::step::lemma_first_touch_from(g.bricks, g.ball_pos, 0);
}

/// The walls send the ball back: touching the left wall it moves right,
/// touching the right wall it moves left, touching the ceiling it moves down,
/// each time at the same speed along that axis, and it is put back a radius
/// from that wall.
pub proof fn lemma_walls_reflect(g: GameView)
    requires
        -0x4000_0000_0000_0000 < g.ball_pos.x.bits < 0x4000_0000_0000_0000,
        -0x4000_0000_0000_0000 < g.ball_pos.y.bits < 0x4000_0000_0000_0000,
        g.ball_vel.x.bits > i64::MIN,
        g.ball_vel.y.bits > i64::MIN,
    ensures
        ({
            let vx = g.ball_vel.x.bits as int;
            let vy = g.ball_vel.y.bits as int;
            let avx = if vx < 0 { -vx } else { vx };
            let avy = if vy < 0 { -vy } else { vy };
            let w = walls_spec(g);
            &&& g.ball_pos.x.bits <= 8 * ONE_BITS ==> w.ball_pos.x.bits == 8 * ONE_BITS && w.ball_vel.x.bits == avx
            &&& g.ball_pos.x.bits >= 792 * ONE_BITS ==> w.ball_pos.x.bits == 792 * ONE_BITS && w.ball_vel.x.bits == -avx
            &&& 8 * ONE_BITS < g.ball_pos.x.bits < 792 * ONE_BITS ==> w.ball_pos.x == g.ball_pos.x && w.ball_vel.x == g.ball_vel.x
            &&& g.ball_pos.y.bits <= 8 * ONE_BITS ==> w.ball_pos.y.bits == 8 * ONE_BITS && w.ball_vel.y.bits == avy
            &&& g.ball_pos.y.bits > 8 * ONE_BITS ==> w.ball_pos.y == g.ball_pos.y && w.ball_vel.y == g.ball_vel.y
        }),
{
}

/// In play, a ball that falls past the bottom of the canvas costs a life:
/// with the last life the game is over, otherwise a new ball waits on the
/// paddle, centred and 2 above its top edge. The score and the wall are kept.
pub proof fn lemma_lost_ball(g: GameView, dt: Fp)
    requires
        g.state == GameState::Play,
        g.lives > 0,
        ({
            let ny = g.ball_pos.y.bits + fp_mul(fp_mul(g.ball_vel.y, g.ball_speed), dt).bits;
            592 * ONE_BITS <= ny < 0x4000_0000_0000_0000
        }),
    ensures
        update_spec(g, dt).lives == g.lives - 1,
        update_spec(g, dt).state == if g.lives == 1 { GameState::Over } else { GameState::Wait },
        g.lives > 1 ==> update_spec(g, dt).ball_pos.x == crate::fp::fp_add(update_spec(g, dt).paddle_x, fp_int(60)),
        g.lives > 1 ==> update_spec(g, dt).ball_pos.y == fp_int(550),
        update_spec(g, dt).score == g.score,
        update_spec(g, dt).bricks == g.bricks,
{
    let g1 = GameView {
        frame_count: (g.frame_count + 1) as u64,
        particles: g.particles.map_values(|p: crate::game::Particle| crate::step::particle_step(p, dt)),
        ..g
    };
    assert(update_spec(g, dt) == play_spec(g1, dt));
    let g2 = GameView {
        paddle_x: moved_paddle(g1, dt),
        trail: trail_spec(g1.trail, g1.ball_pos),
        ..g1
    };
    let g3 = walls_spec(move_ball_spec(g2, dt));
    assert(g3.ball_pos.y == move_ball_spec(g2, dt).ball_pos.y);
    assert(crate::step::ball_out(g3));
}

/// While the ball waits for a launch, a frame puts it on the paddle: centred
/// above it, 2 above its top edge; the paddle does not move.
pub proof fn lemma_waiting_ball_follows(g: GameView, dt: Fp)
    requires
        g.state == GameState::Wait,
    ensures
        update_spec(g, dt).paddle_x == g.paddle_x,
        update_spec(g, dt).ball_pos.x.bits == (g.paddle_x.bits + 60 * ONE_BITS) as i64,
        update_spec(g, dt).ball_pos.y.bits == 550 * ONE_BITS,
        update_spec(g, dt).state == GameState::Wait,
{
}

} // verus!
