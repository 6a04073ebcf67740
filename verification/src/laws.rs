//! What holds of every game: the invariant `wf` holds of a fresh game and is
//! kept by every move and every frame, and a frame never takes back progress.
use vstd::prelude::*;
use vstd::string::StringSliceAdditionalSpecFns;
use crate::fp::{Fp, fp_int, fp_bits, fp_add, fp_mul, fp_min, lemma_int_add, lemma_int_mul,
    ONE_BITS};
use crate::consts::HALF_BITS;
use crate::game::{GameView, GameState, Brick, Particle, wf, laid_out, new_game, reset_spec,
    launch_spec, reset_ball_spec, served_speed, click_spec, mouse_move_spec, key_down_spec,
    key_up_spec, is_left_key, is_right_key, initial_brick, brick_count, lemma_initial_wall, lemma_dead_bounds, lemma_break_brick};
use crate::step::{update_spec, particle_step, trail_spec, move_ball_spec, walls_spec,
    ball_out, lose_ball_spec, paddle_bounce_spec, bricks_spec, first_touch,
    moved_paddle, frame_room, spark_room, step_safe, brick_fits, lemma_first_touch_from,
    lemma_spawn_keeps_life};

verus! {

/// A new ball's speed lies in `[350, 700]`: `min(350 + 4 · broken, 700)`.
pub proof fn lemma_served_speed(broken: u32)
    requires
        broken <= 72,
    ensures
        served_speed(broken) == fp_min(fp_int(350 + 4 * broken), fp_int(700)),
        fp_int(350).bits <= served_speed(broken).bits <= fp_int(700).bits,
{
    assert(fp_mul(fp_int(8), fp_bits(HALF_BITS as int)) == fp_int(4)) by {
        assert(8 * ONE_BITS * HALF_BITS * ONE_BITS == 4 * ONE_BITS * 0x1_0000_0000_0000_0000);
    }
    lemma_int_mul(broken as int, 4);
    lemma_int_add(350, 4 * broken);
}

/// A fresh game satisfies the invariant.
pub proof fn lemma_new_game_wf()
    ensures
        wf(new_game()),
{
    lemma_initial_wall();
}

/// Restarting yields a game that satisfies the invariant, whatever came before.
pub proof fn lemma_reset_wf(g: GameView)
    requires
        g.particles.len() == 500,
    ensures
        wf(reset_spec(g)),
{
    lemma_initial_wall();
}

/// Launching a waiting ball keeps the invariant.
pub proof fn lemma_launch_wf(g: GameView)
    requires
        wf(g),
        g.state == GameState::Wait,
    ensures
        wf(launch_spec(g)),
{
}

/// Serving a new ball keeps the invariant while lives remain.
pub proof fn lemma_reset_ball_wf(g: GameView)
    requires
        wf(g),
        g.state != GameState::Won,
        g.lives > 0,
    ensures
        wf(reset_ball_spec(g)),
{
    lemma_dead_bounds(g.bricks);
    lemma_served_speed(g.bricks_broken);
}

/// A click keeps the invariant.
pub proof fn lemma_click_wf(g: GameView)
    requires
        wf(g),
    ensures
        wf(click_spec(g)),
{
    match g.state {
        GameState::Wait => lemma_launch_wf(g),
        GameState::Over | GameState::Won => lemma_reset_wf(g),
        GameState::Play => {},
    }
}

/// Moving the mouse keeps the invariant.
pub proof fn lemma_mouse_move_wf(g: GameView, x: Fp)
    requires
        wf(g),
    ensures
        wf(mouse_move_spec(g, x)),
{
}

/// Pressing or releasing a key keeps the invariant.
pub proof fn lemma_keys_wf(g: GameView, k: Seq<u8>)
    requires
        wf(g),
    ensures
        wf(key_down_spec(g, k)),
        wf(key_up_spec(g, k)),
{
    if !is_left_key(k) && !is_right_key(k) && k == " ".spec_bytes() {
        lemma_click_wf(g);
    }
}

/// Losing the ball in play keeps the invariant.
pub proof fn lemma_lose_ball_wf(g: GameView)
    requires
        wf(g),
        g.state == GameState::Play,
    ensures
        wf(lose_ball_spec(g)),
{
    let g1 = GameView { lives: (g.lives - 1) as u32, ..g };
    if g1.lives != 0 {
        lemma_reset_ball_wf(g1);
    }
}

/// Breaking a brick in play keeps the invariant.
pub proof fn lemma_bricks_wf(g: GameView)
    requires
        wf(g),
        g.state == GameState::Play,
        spark_room(g.frame_count, 15),
    ensures
        wf(bricks_spec(g)),
{
    lemma_first_touch_from(g.bricks, g.ball_pos, 0);
    match first_touch(g.bricks, g.ball_pos) {
        None => {},
        Some(i) => {
            let b = g.bricks[i];
            let nb = g.bricks.update(i, Brick { alive: false, ..b });
            lemma_break_brick(g.bricks, i);
            lemma_dead_bounds(nb);
            lemma_dead_bounds(g.bricks);
            assert(b.row == initial_brick(i).row);
            assert(laid_out(nb)) by {
                assert forall|j: int| 0 <= j < brick_count() implies {
                    &&& (#[trigger] nb[j]).x == initial_brick(j).x
                    &&& nb[j].y == initial_brick(j).y
                    &&& nb[j].row == initial_brick(j).row
                } by {
                    if j != i {
                        assert(nb[j] == g.bricks[j]);
                    }
                }
            }
            lemma_spawn_keeps_life(g.particles, fp_add(b.x, fp_int(29)), fp_add(b.y, fp_int(11)), b.row, 15, g.frame_count);
        },
    }
}

/// A game that keeps the invariant can always play a frame without a panic,
/// while its frame count has room.
pub proof fn lemma_wf_step_safe(g: GameView)
    requires
        wf(g),
        frame_room(g),
    ensures
        step_safe(g),
{
    lemma_dead_bounds(g.bricks);
    assert forall|i: int| 0 <= i < g.bricks.len() && (#[trigger] g.bricks[i]).alive implies brick_fits(g.bricks[i]) by {
        assert(g.bricks[i].x == initial_brick(i).x);
        assert(g.bricks[i].y == initial_brick(i).y);
        assert(g.bricks[i].row == initial_brick(i).row);
    }
}

/// One frame keeps the invariant.
pub proof fn lemma_update_wf(g: GameView, dt: Fp)
    requires
        wf(g),
        frame_room(g),
    ensures
        wf(update_spec(g, dt)),
{
    let g1 = GameView {
        frame_count: (g.frame_count + 1) as u64,
        particles: g.particles.map_values(|p: Particle| particle_step(p, dt)),
        ..g
    };
    assert(wf(g1));
    if g1.state == GameState::Play {
        let g2 = GameView {
            paddle_x: moved_paddle(g1, dt),
            trail: trail_spec(g1.trail, g1.ball_pos),
            ..g1
        };
        assert(wf(g2));
        let g3 = walls_spec(move_ball_spec(g2, dt));
        assert(wf(g3));
        if ball_out(g3) {
            lemma_lose_ball_wf(g3);
        } else {
            let g4 = paddle_bounce_spec(g3);
            assert(wf(g4));
            lemma_bricks_wf(g4);
        }
    }
}

/// A frame counts itself and never takes back progress: the score and the
/// count of broken bricks never fall (the count rises by at most one), a
/// broken brick stays broken, lives are never gained and at most one is lost,
/// and a finished game stays finished.
pub proof fn lemma_update_progress(g: GameView, dt: Fp)
    requires
        wf(g),
        frame_room(g),
    ensures
        update_spec(g, dt).frame_count == g.frame_count + 1,
        update_spec(g, dt).score >= g.score,
        g.bricks_broken <= update_spec(g, dt).bricks_broken <= g.bricks_broken + 1,
        forall|i: int| 0 <= i < g.bricks.len() && !g.bricks[i].alive ==> !(#[trigger] update_spec(g, dt).bricks[i]).alive,
        g.lives - 1 <= update_spec(g, dt).lives <= g.lives,
        g.state == GameState::Over ==> update_spec(g, dt) .state == GameState::Over,
        g.state == GameState::Won ==> update_spec(g, dt).state == GameState::Won,
{
    lemma_update_wf(g, dt);
    lemma_first_touch_from(g.bricks, g.ball_pos, 0);
    let g1 = GameView {
        frame_count: (g.frame_count + 1) as u64,
        particles: g.particles.map_values(|p: Particle| particle_step(p, dt)),
        ..g
    };
    if g1.state == GameState::Play {
        let g2 = GameView {
            paddle_x: moved_paddle(g1, dt),
            trail: trail_spec(g1.trail, g1.ball_pos),
            ..g1
        };
        let g3 = walls_spec(move_ball_spec(g2, dt));
        if !ball_out(g3) {
            let g4 = paddle_bounce_spec(g3);
            lemma_first_touch_from(g4.bricks, g4.ball_pos, 0);
            lemma_dead_bounds(g4.bricks);
            match first_touch(g4.bricks, g4.ball_pos) {
                None => {},
                Some(i) => {
                    lemma_break_brick(g4.bricks, i);
                    let b = g4.bricks[i];
                    assert(b.row == initial_brick(i).row);
                },
            }
        }
    }
}

/// Breaking a brick speeds the ball up by 8, up to 700, and scores the brick's
/// points: 10 for the bottom row up to 60 for the top one.
pub proof fn lemma_brick_speeds_up(g: GameView)
    requires
        wf(g),
        g.state == GameState::Play,
        first_touch(g.bricks, g.ball_pos) is Some,
    ensures
        g.ball_speed.bits <= bricks_spec(g).ball_speed.bits <= fp_int(700).bits,
        g.ball_speed.bits + 8 * ONE_BITS <= 700 * ONE_BITS ==>
            bricks_spec(g).ball_speed.bits == g.ball_speed.bits + 8 * ONE_BITS,
        10 <= bricks_spec(g).score - g.score <= 60,
{
    lemma_first_touch_from(g.bricks, g.ball_pos, 0);
    let i = first_touch(g.bricks, g.ball_pos)->0;
    assert(g.bricks[i].row == initial_brick(i).row);
    lemma_dead_bounds(g.bricks);
}

/// The walls keep the ball inside: after bouncing, its centre lies at least a
/// radius from the side walls and the ceiling (for positions well within range).
pub proof fn lemma_walls_contain(g: GameView)
    requires
        -0x4000_0000_0000_0000 < g.ball_pos.x.bits < 0x4000_0000_0000_0000,
        -0x4000_0000_0000_0000 < g.ball_pos.y.bits < 0x4000_0000_0000_0000,
    ensures
        fp_int(8).bits <= walls_spec(g).ball_pos.x.bits <= fp_int(792).bits,
        fp_int(8).bits <= walls_spec(g).ball_pos.y.bits,
{
}

/// Pressing a movement key and releasing it leaves a game as it was before,
/// when that key was not held already.
pub proof fn lemma_key_round_trip(g: GameView, k: Seq<u8>)
    requires
        is_left_key(k) && !g.left_pressed || !is_left_key(k) && is_right_key(k) && !g.right_pressed,
    ensures
        key_up_spec(key_down_spec(g, k), k) == g,
{
}

/// A restart gives a fresh game, keeping only the particles (put out), the
/// keys held and the frame count.
pub proof fn lemma_reset_is_fresh(g: GameView)
    ensures
        reset_spec(g) == (GameView {
            particles: g.particles.map_values(|p: Particle| Particle { active: false, ..p }),
            left_pressed: g.left_pressed,
            right_pressed: g.right_pressed,
            frame_count: g.frame_count,
            ..new_game()
        }),
{
}

/// While a game waits or plays, the paddle's centre goes to the mouse when the
/// paddle then fits within the canvas.
pub proof fn lemma_mouse_centres_paddle(g: GameView, x: int)
    requires
        g.state == GameState::Play || g.state == GameState::Wait,
        60 <= x <= 740,
    ensures
        mouse_move_spec(g, fp_int(x)).paddle_x == fp_int(x - 60),
{
    crate::fp::lemma_int_sub(x, 60);
}

} // verus!
