//! One frame of play: particles, paddle, trail, ball, walls, paddle and bricks.
use vstd::prelude::*;
use crate::fp::{Fp, fp_int, fp_bits, fp_add, fp_sub, fp_mul, fp_div, fp_neg, fp_abs, fp_min,
    fp_clamp, lemma_int_add, lemma_int_sub, lemma_int_div, ONE_BITS};
use crate::trig::{sin, cos, cordic_sin, cordic_cos};
use crate::rng::{prand, prand_spec, lemma_prand_range};
use crate::consts::{
    canvas_width, canvas_height, paddle_width, paddle_height, paddle_y, paddle_speed,
    ball_radius, ball_speed_increment, ball_max_speed, brick_width, brick_height, fp_zero,
    fp_one, fp_two, fp_half, fp_tau, fp_frac_pi_3, BALL_TRAIL_LENGTH, BRICK_ROWS, HALF_BITS,
    POINT_SIX_BITS, POINT_SEVEN_BITS, TWO_AND_HALF_BITS, TAU_BITS, FRAC_PI_3_BITS,
};
use crate::game::{Game, GameView, GameState, Vec2, Brick, Particle, Trail, resting_ball,
    reset_ball_spec, direction, brick_points, half_paddle, resting_height};

verus! {

// ---------------------------------------------------------------------------
// Particles
// ---------------------------------------------------------------------------

/// A live particle moves by its velocity over `dt`, falls under gravity 150,
/// and burns `dt` of its life, going out once none is left.
pub open spec fn particle_step(p: Particle, dt: Fp) -> Particle {
    if p.active {
        let life = fp_sub(p.life, dt);
        Particle {
            x: fp_add(p.x, fp_mul(p.vx, dt)),
            y: fp_add(p.y, fp_mul(p.vy, dt)),
            vy: fp_add(p.vy, fp_mul(fp_int(150), dt)),
            life,
            active: !(life.bits <= 0),
            ..p
        }
    } else {
        p
    }
}

fn step_particles(ps: &mut Vec<Particle>, dt: Fp)
    ensures
        final(ps)@ == old(ps)@.map_values(|p: Particle| particle_step(p, dt)),
{
    let gravity = Fp::from_int(150);
    let n = ps.len();
    for i in 0..n
        invariant
            n == ps@.len(),
            ps@.len() == old(ps)@.len(),
            gravity == fp_int(150),
            forall|j: int| 0 <= j < i ==> ps@[j] == particle_step(old(ps)@[j], dt),
            forall|j: int| i <= j < n ==> ps@[j] == old(ps)@[j],
    {
        let mut p = ps[i];
        if p.active {
            p.x = p.x.wrapping_add(p.vx.wrapping_mul(dt));
            p.y = p.y.wrapping_add(p.vy.wrapping_mul(dt));
            p.vy = p.vy.wrapping_add(gravity.wrapping_mul(dt));
            p.life = p.life.wrapping_sub(dt);
            if p.life.bits <= fp_zero().bits {
                p.active = false;
            }
            ps.set(i, p);
        }
    }
    assert(ps@ =~= old(ps)@.map_values(|p: Particle| particle_step(p, dt)));
}

// ---------------------------------------------------------------------------
// Paddle and trail
// ---------------------------------------------------------------------------

/// The paddle moves 600 per second for each held direction key, then is kept
/// within the canvas.
pub open spec fn moved_paddle(g: GameView, dt: Fp) -> Fp {
    let step = fp_mul(fp_int(600), dt);
    let p1 = if g.left_pressed { fp_sub(g.paddle_x, step) } else { g.paddle_x };
    let p2 = if g.right_pressed { fp_add(p1, step) } else { p1 };
    fp_clamp(p2, fp_int(0), fp_int(680))
}

/// Opacity of trail image `i` of `n`: `(i + 1) / n · 0.6`, the newest the most opaque.
pub open spec fn trail_alpha(i: int, n: int) -> Fp {
    fp_mul(fp_div(fp_int(i + 1), fp_int(n)), fp_bits(POINT_SIX_BITS as int))
}

/// The trail with the ball's position added at its end and its oldest image
/// dropped beyond 12, every opacity recomputed.
pub open spec fn trail_spec(trail: Seq<Trail>, pos: Vec2) -> Seq<Trail> {
    let t1 = trail.push(Trail { x: pos.x, y: pos.y, alpha: fp_int(1) });
    let t2 = if t1.len() > BALL_TRAIL_LENGTH { t1.remove(0) } else { t1 };
    Seq::new(t2.len(), |i: int| Trail { alpha: trail_alpha(i, t2.len() as int), ..t2[i] })
}

fn record_trail(trail: &mut Vec<Trail>, pos: Vec2)
    requires
        old(trail)@.len() < 0x7fff_ffff,
    ensures
        final(trail)@ == trail_spec(old(trail)@, pos),
{
    trail.push(Trail { x: pos.x, y: pos.y, alpha: fp_one() });
    if trail.len() > BALL_TRAIL_LENGTH {
        trail.remove(0);
    }
    let ghost t2 = trail@;
    let tl = trail.len();
    for i in 0..tl
        invariant
            tl == trail@.len(),
            tl == t2.len(),
            1 <= tl < 0x7fff_ffff,
            forall|j: int| 0 <= j < i ==> trail@[j] == (Trail { alpha: trail_alpha(j, tl as int), ..t2[j] }),
            forall|j: int| i <= j < tl ==> trail@[j] == t2[j],
    {
        let mut t = trail[i];
        t.alpha = Fp::from_int((i + 1) as i32).wrapping_div(Fp::from_int(tl as i32)).wrapping_mul(
            Fp { bits: POINT_SIX_BITS },
        );
        trail.set(i, t);
    }
    assert(trail@ =~= trail_spec(old(trail)@, pos));
}

// ---------------------------------------------------------------------------
// Ball and walls
// ---------------------------------------------------------------------------

/// The ball advances by its direction times its speed over `dt`.
pub open spec fn move_ball_spec(g: GameView, dt: Fp) -> GameView {
    GameView {
        ball_pos: Vec2 {
            x: fp_add(g.ball_pos.x, fp_mul(fp_mul(g.ball_vel.x, g.ball_speed), dt)),
            y: fp_add(g.ball_pos.y, fp_mul(fp_mul(g.ball_vel.y, g.ball_speed), dt)),
        },
        ..g
    }
}

/// The ball bounces off the left wall, then the right wall, then the ceiling:
/// touching one, it is put back against it and sent away from it.
pub open spec fn walls_spec(g: GameView) -> GameView {
    let br = fp_int(8);
    let (px1, vx1) = if fp_sub(g.ball_pos.x, br).bits <= 0 {
        (br, fp_abs(g.ball_vel.x))
    } else {
        (g.ball_pos.x, g.ball_vel.x)
    };
    let (px2, vx2) = if fp_add(px1, br).bits >= fp_int(800).bits {
        (fp_int(792), fp_neg(fp_abs(vx1)))
    } else {
        (px1, vx1)
    };
    let (py3, vy3) = if fp_sub(g.ball_pos.y, br).bits <= 0 {
        (br, fp_abs(g.ball_vel.y))
    } else {
        (g.ball_pos.y, g.ball_vel.y)
    };
    GameView { ball_pos: Vec2 { x: px2, y: py3 }, ball_vel: Vec2 { x: vx2, y: vy3 }, ..g }
}

/// The ball has reached the bottom of the canvas.
pub open spec fn ball_out(g: GameView) -> bool {
    fp_add(g.ball_pos.y, fp_int(8)).bits >= fp_int(600).bits
}

/// Losing the ball costs a life; the last one ends the game, otherwise a new
/// ball is served.
pub open spec fn lose_ball_spec(g: GameView) -> GameView {
    let g1 = GameView { lives: (g.lives - 1) as u32, ..g };
    if g1.lives == 0 {
        GameView { state: GameState::Over, ..g1 }
    } else {
        reset_ball_spec(g1)
    }
}

} // verus!
verus! {

// ---------------------------------------------------------------------------
// Paddle bounce
// ---------------------------------------------------------------------------

/// The falling ball meets the paddle: its bottom within 18 below the paddle's
/// top edge, and its centre within a radius of the paddle's ends.
pub open spec fn paddle_hit(g: GameView) -> bool {
    let bottom = fp_add(g.ball_pos.y, fp_int(8));
    &&& g.ball_vel.y.bits > 0
    &&& bottom.bits >= fp_int(560).bits
    &&& bottom.bits <= fp_int(578).bits
    &&& g.ball_pos.x.bits >= fp_sub(g.paddle_x, fp_int(8)).bits
    &&& g.ball_pos.x.bits <= fp_add(fp_add(g.paddle_x, fp_int(120)), fp_int(8)).bits
}

/// The angle from the vertical at which the paddle sends the ball back:
/// `(h - 1/2) · π/3 · 2.5` where `h` is where it met the paddle, 0 at the left
/// end and 1 at the right.
pub open spec fn bounce_angle(g: GameView) -> Fp {
    let hp = fp_div(fp_sub(g.ball_pos.x, g.paddle_x), fp_int(120));
    fp_mul(
        fp_mul(fp_sub(hp, fp_bits(HALF_BITS as int)), fp_bits(FRAC_PI_3_BITS as int)),
        fp_bits(TWO_AND_HALF_BITS as int),
    )
}

/// `v` scaled to length one where its squared length has a root, else `v`.
pub open spec fn normalized_or_self(v: Vec2) -> Vec2 {
    if v.has_sqrt_len() {
        v.normalize_spec()
    } else {
        v
    }
}

/// Meeting the paddle, the ball is sent back at the bounce angle and put on the
/// paddle's top edge.
pub open spec fn paddle_bounce_spec(g: GameView) -> GameView {
    if paddle_hit(g) {
        GameView {
            ball_vel: normalized_or_self(direction(bounce_angle(g))),
            ball_pos: Vec2 { y: fp_int(552), ..g.ball_pos },
            ..g
        }
    } else {
        g
    }
}

/// The direction `(sin a, -cos a)` scaled to length one. Its squared length
/// lies where `cordic::sqrt` is defined for every angle the game produces, as
/// sine and cosine stay near the unit circle; for any other it is left unscaled.
fn bounce_direction(angle: Fp) -> (r: Vec2)
    ensures
        r == normalized_or_self(direction(angle)),
{
    let v = Vec2::from_sin_cos(sin(angle), cos(angle));
    if v.has_sqrt_len_exec() {
        v.normalize()
    } else {
        v
    }
}

// ---------------------------------------------------------------------------
// Bricks
// ---------------------------------------------------------------------------

/// A standing brick within the ball's radius of its centre.
pub open spec fn touches(b: Brick, pos: Vec2) -> bool {
    let cx = fp_clamp(pos.x, b.x, fp_add(b.x, fp_int(58)));
    let cy = fp_clamp(pos.y, b.y, fp_add(b.y, fp_int(22)));
    let dx = fp_sub(pos.x, cx);
    let dy = fp_sub(pos.y, cy);
    &&& b.alive
    &&& fp_add(fp_mul(dx, dx), fp_mul(dy, dy)).bits <= fp_mul(fp_int(8), fp_int(8)).bits
}

/// The first brick from index `i` on that the ball touches.
pub open spec fn first_touch_from(s: Seq<Brick>, pos: Vec2, i: int) -> Option<int>
    decreases s.len() - i,
{
    if i < 0 || i >= s.len() {
        None
    } else if touches(s[i], pos) {
        Some(i)
    } else {
        first_touch_from(s, pos, i + 1)
    }
}

/// A brick found from `i` on lies at or after `i`, within the wall, and is touched;
/// none before it from `i` on is.
pub proof fn lemma_first_touch_from(s: Seq<Brick>, pos: Vec2, i: int)
    requires
        0 <= i,
    ensures
        first_touch_from(s, pos, i) matches Some(j) ==> {
            &&& i <= j < s.len()
            &&& touches(s[j], pos)
            &&& forall|k: int| i <= k < j ==> !touches(#[trigger] s[k], pos)
        },
        first_touch_from(s, pos, i) is None ==> forall|k: int| i <= k < s.len() ==> !touches(#[trigger] s[k], pos),
    decreases s.len() - i,
{
    if i < s.len() && !touches(s[i], pos) {
        lemma_first_touch_from(s, pos, i + 1);
    }
}

/// The first brick the ball touches.
pub open spec fn first_touch(s: Seq<Brick>, pos: Vec2) -> Option<int> {
    first_touch_from(s, pos, 0)
}

/// The ball's direction after it strikes brick `b`: away from the brick along
/// the axis on which the ball lies further out, relative to the brick's size.
pub open spec fn reflect_spec(vel: Vec2, b: Brick, pos: Vec2) -> Vec2 {
    let dfx = fp_sub(pos.x, fp_add(b.x, fp_int(29)));
    let dfy = fp_sub(pos.y, fp_add(b.y, fp_int(11)));
    if fp_div(fp_abs(dfx), fp_int(58)).bits > fp_div(fp_abs(dfy), fp_int(22)).bits {
        Vec2 { x: if dfx.bits > 0 { fp_abs(vel.x) } else { fp_neg(fp_abs(vel.x)) }, ..vel }
    } else {
        Vec2 { y: if dfy.bits > 0 { fp_abs(vel.y) } else { fp_neg(fp_abs(vel.y)) }, ..vel }
    }
}

/// Count of particles before index `i` that are not in use.
pub open spec fn free_before(ps: Seq<Particle>, i: int) -> nat
    decreases i,
{
    if i <= 0 {
        0
    } else {
        free_before(ps, i - 1) + if ps[i - 1].active { 0nat } else { 1nat }
    }
}

/// Direction of spark number `s`: a random angle in `[0, 2π)` drawn from the
/// frame count offset by 7 times `s`.
pub open spec fn spark_angle(frame: u64, s: int) -> Fp {
    fp_mul(prand_spec((frame + s * 7) as u64), fp_bits(TAU_BITS as int))
}

/// Spark number `s` thrown from `(x, y)` in colour `ci`, moving along the
/// direction with cosine `cos_a` and sine `sin_a`: a speed in `[50, 250)`, a
/// life in `[0.5, 1.2)` and a size in `[2, 6)`, drawn from the frame count
/// offset by 13, 19 and 23 times `s`.
pub open spec fn spark_toward(x: Fp, y: Fp, ci: usize, frame: u64, s: int, cos_a: Fp, sin_a: Fp) -> Particle {
    let speed = fp_add(fp_int(50), fp_mul(prand_spec((frame + s * 13) as u64), fp_int(200)));
    let life = fp_add(
        fp_bits(HALF_BITS as int),
        fp_mul(prand_spec((frame + s * 19) as u64), fp_bits(POINT_SEVEN_BITS as int)),
    );
    Particle {
        x,
        y,
        vx: fp_mul(cos_a, speed),
        vy: fp_mul(sin_a, speed),
        life,
        max_life: life,
        size: fp_add(fp_int(2), fp_mul(prand_spec((frame + s * 23) as u64), fp_int(4))),
        color_index: ci,
        active: true,
    }
}

/// A spark's life span is positive: at least 0.5.
pub proof fn lemma_spark_life(x: Fp, y: Fp, ci: usize, frame: u64, s: int, cos_a: Fp, sin_a: Fp)
    ensures
        spark_toward(x, y, ci, frame, s, cos_a, sin_a).max_life.bits >= HALF_BITS,
{
    let r = prand_spec((frame + s * 19) as u64);
    lemma_prand_range((frame + s * 19) as u64);
    let c = POINT_SEVEN_BITS as int;
    let w = r.bits * c * ONE_BITS;
    assert(0 <= w < 0x1_0000_0000 * c * 0x1_0000_0000) by (nonlinear_arith)
        requires w == r.bits * c * ONE_BITS, 0 <= r.bits < 0x1_0000_0000, c == POINT_SEVEN_BITS;
    assert(w / 0x1_0000_0000_0000_0000 < c) by {
        vstd::arithmetic::div_mod::lemma_div_by_multiple_is_strongly_ordered(
            w, c * 0x1_0000_0000_0000_0000, c, 0x1_0000_0000_0000_0000);
        vstd::arithmetic::div_mod::lemma_div_by_multiple(c, 0x1_0000_0000_0000_0000);
        assert(c * 0x1_0000_0000_0000_0000 == 0x1_0000_0000 * c * 0x1_0000_0000);
    }
    vstd::arithmetic::div_mod::lemma_div_pos_is_pos(w, 0x1_0000_0000_0000_0000);
}

/// Spark number `s`, in the direction of its random angle.
pub open spec fn spark(x: Fp, y: Fp, ci: usize, frame: u64, s: int) -> Particle {
    let angle = spark_angle(frame, s);
    spark_toward(x, y, ci, frame, s, Fp { bits: cordic_cos(angle.bits) }, Fp { bits: cordic_sin(angle.bits) })
}

/// The first `count` particles not in use, in order, become sparks.
pub open spec fn spawn_spec(ps: Seq<Particle>, x: Fp, y: Fp, ci: usize, count: int, frame: u64) -> Seq<Particle> {
    Seq::new(
        ps.len(),
        |i: int|
            if !ps[i].active && free_before(ps, i) < count {
                spark(x, y, ci, frame, free_before(ps, i) as int)
            } else {
                ps[i]
            },
    )
}

/// Throwing sparks keeps the number of particles, and keeps every live
/// particle's life span positive.
pub proof fn lemma_spawn_keeps_life(ps: Seq<Particle>, x: Fp, y: Fp, ci: usize, count: int, frame: u64)
    requires
        forall|i: int| 0 <= i < ps.len() && (#[trigger] ps[i]).active ==> ps[i].max_life.bits > 0,
    ensures
        spawn_spec(ps, x, y, ci, count, frame).len() == ps.len(),
        forall|i: int| 0 <= i < ps.len() && (#[trigger] spawn_spec(ps, x, y, ci, count, frame)[i]).active
            ==> spawn_spec(ps, x, y, ci, count, frame)[i].max_life.bits > 0,
{
    let sp = spawn_spec(ps, x, y, ci, count, frame);
    assert forall|i: int| 0 <= i < ps.len() && (#[trigger] sp[i]).active implies sp[i].max_life.bits > 0 by {
        if !ps[i].active && free_before(ps, i) < count {
            let n = free_before(ps, i) as int;
            let angle = spark_angle(frame, n);
            lemma_spark_life(x, y, ci, frame, n, Fp { bits: cordic_cos(angle.bits) }, Fp { bits: cordic_sin(angle.bits) });
        }
    }
}

/// The frame count leaves room for the random draws of `count` sparks.
pub open spec fn spark_room(frame: u64, count: int) -> bool {
    count <= 0 || frame + 23 * (count - 1) <= u64::MAX
}

/// Breaking the first brick the ball touches: the ball is deflected, the brick
/// falls, its points are scored, the ball speeds up by 8 up to 700, 15 sparks
/// fly from the brick's centre, and the last brick wins the game.
pub open spec fn bricks_spec(g: GameView) -> GameView {
    match first_touch(g.bricks, g.ball_pos) {
        None => g,
        Some(i) => {
            let b = g.bricks[i];
            let g1 = GameView {
                ball_vel: reflect_spec(g.ball_vel, b, g.ball_pos),
                bricks: g.bricks.update(i, Brick { alive: false, ..b }),
                score: (g.score + brick_points(b)) as u32,
                bricks_broken: (g.bricks_broken + 1) as u32,
                ball_speed: fp_min(fp_add(g.ball_speed, fp_int(8)), fp_int(700)),
                particles: spawn_spec(
                    g.particles,
                    fp_add(b.x, fp_int(29)),
                    fp_add(b.y, fp_int(11)),
                    b.row,
                    15,
                    g.frame_count,
                ),
                ..g
            };
            if g1.bricks_broken >= g1.bricks_total {
                GameView { state: GameState::Won, ..g1 }
            } else {
                g1
            }
        },
    }
}

// ---------------------------------------------------------------------------
// The frame
// ---------------------------------------------------------------------------

/// The frame count leaves room for this frame's random draws.
pub open spec fn frame_room(g: GameView) -> bool {
    g.frame_count + 1 + 23 * 14 <= u64::MAX
}

/// One frame of play after the particles have moved: paddle, trail, ball,
/// walls, then either the lost ball or the paddle and the bricks.
pub open spec fn play_spec(g: GameView, dt: Fp) -> GameView {
    let g2 = GameView {
        paddle_x: moved_paddle(g, dt),
        trail: trail_spec(g.trail, g.ball_pos),
        ..g
    };
    let g3 = walls_spec(move_ball_spec(g2, dt));
    if ball_out(g3) {
        lose_ball_spec(g3)
    } else {
        bricks_spec(paddle_bounce_spec(g3))
    }
}

/// One frame lasting `dt`: the frame is counted and the particles move; then a
/// waiting ball follows the paddle, a finished game stays as it is, and a game
/// in play plays its frame.
pub open spec fn update_spec(g: GameView, dt: Fp) -> GameView {
    let g1 = GameView {
        frame_count: (g.frame_count + 1) as u64,
        particles: g.particles.map_values(|p: Particle| particle_step(p, dt)),
        ..g
    };
    if g1.state != GameState::Play {
        if g1.state == GameState::Wait {
            GameView { ball_pos: resting_ball(g1.paddle_x), ..g1 }
        } else {
            g1
        }
    } else {
        play_spec(g1, dt)
    }
}

} // verus!
verus! {

/// The angle of spark number `s`.
pub fn spark_angle_of(frame: u64, s: u64) -> (r: Fp)
    requires
        frame + 7 * s <= u64::MAX,
    ensures
        r == spark_angle(frame, s as int),
{
    prand(frame + s * 7).wrapping_mul(fp_tau())
}

fn make_spark(x: Fp, y: Fp, ci: usize, frame: u64, s: u64) -> (p: Particle)
    requires
        frame + 23 * s <= u64::MAX,
    ensures
        p == spark(x, y, ci, frame, s as int),
{
    let angle = spark_angle_of(frame, s);
    spark_toward_exec(x, y, ci, frame, s, cos(angle), sin(angle))
}

/// Spark number `s` moving along the direction with cosine `cos_a` and sine `sin_a`.
pub fn spark_toward_exec(x: Fp, y: Fp, ci: usize, frame: u64, s: u64, cos_a: Fp, sin_a: Fp) -> (p: Particle)
    requires
        frame + 23 * s <= u64::MAX,
    ensures
        p == spark_toward(x, y, ci, frame, s as int, cos_a, sin_a),
{
    let speed = Fp::from_int(50).wrapping_add(prand(frame + s * 13).wrapping_mul(Fp::from_int(200)));
    let life = fp_half().wrapping_add(
        prand(frame + s * 19).wrapping_mul(Fp { bits: POINT_SEVEN_BITS }),
    );
    Particle {
        x,
        y,
        vx: cos_a.wrapping_mul(speed),
        vy: sin_a.wrapping_mul(speed),
        life,
        max_life: life,
        size: fp_two().wrapping_add(prand(frame + s * 23).wrapping_mul(Fp::from_int(4))),
        color_index: ci,
        active: true,
    }
}

fn spawn_into(ps: &mut Vec<Particle>, x: Fp, y: Fp, ci: usize, count: usize, frame: u64)
    requires
        spark_room(frame, count as int),
    ensures
        final(ps)@ == spawn_spec(old(ps)@, x, y, ci, count as int, frame),
{
    let ghost ps0 = old(ps)@;
    let n = ps.len();
    let mut s: usize = 0;
    for i in 0..n
        invariant
            n == ps@.len(),
            ps0.len() == n,
            spark_room(frame, count as int),
            s as int == if free_before(ps0, i as int) < count { free_before(ps0, i as int) as int } else { count as int },
            forall|j: int| 0 <= j < i ==> ps@[j] == spawn_spec(ps0, x, y, ci, count as int, frame)[j],
            forall|j: int| i <= j < n ==> ps@[j] == ps0[j],
    {
        let p = ps[i];
        if !p.active && s < count {
            let np = make_spark(x, y, ci, frame, s as u64);
            ps.set(i, np);
            s += 1;
        }
    }
    assert(ps@ =~= spawn_spec(ps0, x, y, ci, count as int, frame));
}

impl Game {
    /// Throws up to `count` sparks of colour `ci` from `(x, y)`.
    pub fn spawn_particles(&mut self, x: Fp, y: Fp, ci: usize, count: usize)
        requires
            spark_room(old(self).frame_count, count as int),
        ensures
            final(self)@ == (GameView {
                particles: spawn_spec(old(self)@.particles, x, y, ci, count as int, old(self).frame_count),
                ..old(self)@
            }),
    {
        spawn_into(&mut self.particles, x, y, ci, count, self.frame_count);
    }
}

} // verus!
verus! {

/// A brick whose right and bottom edges can be computed without wrapping, in
/// a row that scores.
pub open spec fn brick_fits(b: Brick) -> bool {
    &&& b.x.bits <= i64::MAX - 58 * ONE_BITS
    &&& b.y.bits <= i64::MAX - 22 * ONE_BITS
    &&& b.row <= BRICK_ROWS
}

/// Every standing brick fits.
pub open spec fn standing_bricks_fit(s: Seq<Brick>) -> bool {
    forall|i: int| 0 <= i < s.len() && (#[trigger] s[i]).alive ==> brick_fits(s[i])
}

/// A frame can be played from `g` without a panic: a game in play has a life
/// to lose, the standing bricks fit, the score and the count of broken bricks
/// have room for one more brick, the trail's length is an `i32`, and the frame
/// count has room for the frame.
pub open spec fn step_safe(g: GameView) -> bool {
    &&& g.state == GameState::Play ==> g.lives > 0
    &&& standing_bricks_fit(g.bricks)
    &&& g.score + 60 <= u32::MAX
    &&& g.bricks_broken < u32::MAX
    &&& g.trail.len() < 0x7fff_ffff
    &&& frame_room(g)
}

/// The first brick the ball touches, if any.
fn find_hit(bricks: &Vec<Brick>, pos: Vec2) -> (r: Option<usize>)
    requires
        standing_bricks_fit(bricks@),
    ensures
        (match r { Some(i) => Some(i as int), None => None::<int> }) == first_touch(bricks@, pos),
{
    let bw = brick_width();
    let bh = brick_height();
    let br = ball_radius();
    let n = bricks.len();
    for i in 0..n
        invariant
            n == bricks@.len(),
            standing_bricks_fit(bricks@),
            bw == fp_int(58), bh == fp_int(22), br == fp_int(8),
            first_touch(bricks@, pos) == first_touch_from(bricks@, pos, i as int),
    {
        let b = bricks[i];
        if b.alive {
            assert(brick_fits(bricks@[i as int]));
            let cx = pos.x.clamp(b.x, b.x.wrapping_add(bw));
            let cy = pos.y.clamp(b.y, b.y.wrapping_add(bh));
            let dx = pos.x.wrapping_sub(cx);
            let dy = pos.y.wrapping_sub(cy);
            if dx.wrapping_mul(dx).wrapping_add(dy.wrapping_mul(dy)).bits <= br.wrapping_mul(br).bits {
                return Some(i);
            }
        }
    }
    None
}

/// The ball's direction after striking `b`.
fn reflect(vel: Vec2, b: Brick, pos: Vec2) -> (r: Vec2)
    ensures
        r == reflect_spec(vel, b, pos),
{
    let bw = brick_width();
    let bh = brick_height();
    proof {
        lemma_int_div(58, 2, 29);
        lemma_int_div(22, 2, 11);
    }
    let bcx = b.x.wrapping_add(bw.wrapping_div(fp_two()));
    let bcy = b.y.wrapping_add(bh.wrapping_div(fp_two()));
    let dfx = pos.x.wrapping_sub(bcx);
    let dfy = pos.y.wrapping_sub(bcy);
    let mut v = vel;
    if dfx.wrapping_abs().wrapping_div(bw).bits > dfy.wrapping_abs().wrapping_div(bh).bits {
        v.x = if dfx.bits > fp_zero().bits { v.x.wrapping_abs() } else { v.x.wrapping_abs().wrapping_neg() };
    } else {
        v.y = if dfy.bits > fp_zero().bits { v.y.wrapping_abs() } else { v.y.wrapping_abs().wrapping_neg() };
    }
    v
}

impl Game {
    /// The angle at which the paddle sends the ball back from where it meets it.
    pub fn bounce_angle(&self) -> (r: Fp)
        ensures
            r == bounce_angle(self@),
    {
        let hp = self.ball_pos.x.wrapping_sub(self.paddle_x).wrapping_div(paddle_width());
        hp.wrapping_sub(fp_half()).wrapping_mul(fp_frac_pi_3()).wrapping_mul(
            Fp { bits: TWO_AND_HALF_BITS },
        )
    }

    /// Sends the ball back off the paddle when they meet.
    fn bounce_paddle(&mut self)
        ensures
            final(self)@ == paddle_bounce_spec(old(self)@),
    {
        let py = paddle_y();
        let pw = paddle_width();
        let ph = paddle_height();
        let br = ball_radius();
        if self.ball_vel.y.bits > fp_zero().bits {
            let pl = self.paddle_x;
            let pr = self.paddle_x.wrapping_add(pw);
            let bottom = self.ball_pos.y.wrapping_add(br);
            proof {
                lemma_int_add(560, 14);
                lemma_int_add(574, 4);
            }
            if bottom.bits >= py.bits && bottom.bits <= py.wrapping_add(ph).wrapping_add(Fp::from_int(4)).bits
                && self.ball_pos.x.bits >= pl.wrapping_sub(br).bits
                && self.ball_pos.x.bits <= pr.wrapping_add(br).bits {
                let angle = self.bounce_angle();
                self.ball_vel = bounce_direction(angle);
                proof {
                    lemma_int_sub(560, 8);
                }
                self.ball_pos.y = py.wrapping_sub(br);
            }
        }
    }

    /// Breaks the first brick the ball touches, if any.
    fn hit_bricks(&mut self)
        requires
            standing_bricks_fit(old(self)@.bricks),
            old(self).score + 60 <= u32::MAX,
            old(self).bricks_broken < u32::MAX,
            spark_room(old(self).frame_count, 15),
        ensures
            final(self)@ == bricks_spec(old(self)@),
    {
        let hit = find_hit(&self.bricks, self.ball_pos);
        proof {
            lemma_first_touch_from(self.bricks@, self.ball_pos, 0);
        }
        if let Some(i) = hit {
            let bw = brick_width();
            let bh = brick_height();
            let b = self.bricks[i];
            proof {
                lemma_first_touch_from(self.bricks@, self.ball_pos, 0);
                assert(brick_fits(self.bricks@[i as int]));
                lemma_int_div(58, 2, 29);
                lemma_int_div(22, 2, 11);
            }
            self.ball_vel = reflect(self.ball_vel, b, self.ball_pos);
            let mut fallen = b;
            fallen.alive = false;
            self.bricks.set(i, fallen);
            self.score += (BRICK_ROWS - b.row) as u32 * 10;
            self.bricks_broken += 1;
            self.ball_speed = self.ball_speed.wrapping_add(ball_speed_increment()).min(ball_max_speed());
            self.spawn_particles(
                b.x.wrapping_add(bw.wrapping_div(fp_two())),
                b.y.wrapping_add(bh.wrapping_div(fp_two())),
                b.row,
                15,
            );
            if self.bricks_broken >= self.bricks_total {
                self.state = GameState::Won;
            }
        }
    }

    /// Bounces the ball off the side walls and the ceiling.
    fn bounce_walls(&mut self)
        ensures
            final(self)@ == walls_spec(old(self)@),
    {
        let br = ball_radius();
        let cw = canvas_width();
        if self.ball_pos.x.wrapping_sub(br).bits <= fp_zero().bits {
            self.ball_pos.x = br;
            self.ball_vel.x = self.ball_vel.x.wrapping_abs();
        }
        if self.ball_pos.x.wrapping_add(br).bits >= cw.bits {
            proof {
                lemma_int_sub(800, 8);
            }
            self.ball_pos.x = cw.wrapping_sub(br);
            self.ball_vel.x = self.ball_vel.x.wrapping_abs().wrapping_neg();
        }
        if self.ball_pos.y.wrapping_sub(br).bits <= fp_zero().bits {
            self.ball_pos.y = br;
            self.ball_vel.y = self.ball_vel.y.wrapping_abs();
        }
    }

    /// Advances the game by one frame lasting `dt`.
    pub fn update(&mut self, dt: Fp)
        requires
            step_safe(old(self)@),
        ensures
            final(self)@ == update_spec(old(self)@, dt),
    {
        self.frame_count += 1;
        step_particles(&mut self.particles, dt);
        if self.state != GameState::Play {
            if self.state == GameState::Wait {
                self.ball_pos.x = self.paddle_x.wrapping_add(half_paddle());
                self.ball_pos.y = resting_height();
            }
            return;
        }
        if self.left_pressed {
            self.paddle_x = self.paddle_x.wrapping_sub(paddle_speed().wrapping_mul(dt));
        }
        if self.right_pressed {
            self.paddle_x = self.paddle_x.wrapping_add(paddle_speed().wrapping_mul(dt));
        }
        proof {
            lemma_int_sub(800, 120);
        }
        self.paddle_x = self.paddle_x.clamp(fp_zero(), canvas_width().wrapping_sub(paddle_width()));
        record_trail(&mut self.trail, self.ball_pos);
        self.ball_pos.x = self.ball_pos.x.wrapping_add(
            self.ball_vel.x.wrapping_mul(self.ball_speed).wrapping_mul(dt),
        );
        self.ball_pos.y = self.ball_pos.y.wrapping_add(
            self.ball_vel.y.wrapping_mul(self.ball_speed).wrapping_mul(dt),
        );
        self.bounce_walls();
        if self.ball_pos.y.wrapping_add(ball_radius()).bits >= canvas_height().bits {
            self.lives -= 1;
            if self.lives == 0 {
                self.state = GameState::Over;
            } else {
                self.reset_ball();
            }
            return;
        }
        self.bounce_paddle();
        self.hit_bricks();
    }
}

} // verus!
