//! The state of a game of Breakout and the moves that change it outside the
//! frame step: starting, restarting, launching, and the player's input.
use vstd::prelude::*;
use vstd::string::StringSliceAdditionalSpecFns;
use crate::fp::{Fp, fp_int, fp_bits, fp_add, fp_sub, fp_mul, fp_div, fp_neg, fp_min, fp_clamp,
    lemma_int_add, lemma_int_sub, lemma_int_mul, lemma_int_div};
use crate::trig::{sin, cos, sqrt, cordic_sin, cordic_cos, cordic_sqrt, SQRT_BOUND_BITS};
use crate::rng::{prand, prand_spec};
use crate::consts::{
    canvas_width, paddle_width, paddle_y, ball_radius, ball_initial_speed,
    ball_speed_increment, ball_max_speed, brick_width, brick_height, brick_padding,
    brick_offset_top, brick_offset_left, fp_zero, fp_two, fp_half, fp_frac_pi_2, fp_frac_pi_4,
    BRICK_ROWS, BRICK_COLS, MAX_LIVES, MAX_PARTICLES, BALL_TRAIL_LENGTH, HALF_BITS,
    FRAC_PI_2_BITS, FRAC_PI_4_BITS,
};

verus! {

/// A point or a direction in the plane of the canvas.
#[derive(Clone, Copy, Debug, PartialEq, Eq, Structural)]
pub struct Vec2 {
    pub x: Fp,
    pub y: Fp,
}

/// A brick: its top-left corner, whether it still stands, and its row.
#[derive(Clone, Copy, Debug, PartialEq, Eq, Structural)]
pub struct Brick {
    pub x: Fp,
    pub y: Fp,
    pub alive: bool,
    pub row: usize,
}

/// A spark thrown off a broken brick.
#[derive(Clone, Copy, Debug, PartialEq, Eq, Structural)]
pub struct Particle {
    pub x: Fp,
    pub y: Fp,
    pub vx: Fp,
    pub vy: Fp,
    pub life: Fp,
    pub max_life: Fp,
    pub size: Fp,
    pub color_index: usize,
    pub active: bool,
}

/// One of the fading images that follow the ball.
#[derive(Clone, Copy, Debug, PartialEq, Eq, Structural)]
pub struct Trail {
    pub x: Fp,
    pub y: Fp,
    pub alpha: Fp,
}

/// Waiting for a launch, in play, lost, or won.
#[derive(Clone, Copy, Debug, PartialEq, Eq, Structural)]
pub enum GameState {
    Wait,
    Play,
    Over,
    Won,
}

/// The whole state of a game.
pub struct Game {
    pub paddle_x: Fp,
    pub ball_pos: Vec2,
    pub ball_vel: Vec2,
    pub ball_speed: Fp,
    pub bricks: Vec<Brick>,
    pub particles: Vec<Particle>,
    pub trail: Vec<Trail>,
    pub score: u32,
    pub lives: u32,
    pub state: GameState,
    pub left_pressed: bool,
    pub right_pressed: bool,
    pub bricks_broken: u32,
    pub bricks_total: u32,
    pub frame_count: u64,
}

/// A game seen as values: its vectors as sequences.
pub ghost struct GameView {
    pub paddle_x: Fp,
    pub ball_pos: Vec2,
    pub ball_vel: Vec2,
    pub ball_speed: Fp,
    pub bricks: Seq<Brick>,
    pub particles: Seq<Particle>,
    pub trail: Seq<Trail>,
    pub score: u32,
    pub lives: u32,
    pub state: GameState,
    pub left_pressed: bool,
    pub right_pressed: bool,
    pub bricks_broken: u32,
    pub bricks_total: u32,
    pub frame_count: u64,
}

impl View for Game {
    type V = GameView;

    open spec fn view(&self) -> GameView {
        GameView {
            paddle_x: self.paddle_x,
            ball_pos: self.ball_pos,
            ball_vel: self.ball_vel,
            ball_speed: self.ball_speed,
            bricks: self.bricks@,
            particles: self.particles@,
            trail: self.trail@,
            score: self.score,
            lives: self.lives,
            state: self.state,
            left_pressed: self.left_pressed,
            right_pressed: self.right_pressed,
            bricks_broken: self.bricks_broken,
            bricks_total: self.bricks_total,
            frame_count: self.frame_count,
        }
    }
}

// ---------------------------------------------------------------------------
// Layout
// ---------------------------------------------------------------------------

/// Number of bricks: 6 rows of 12.
pub open spec fn brick_count() -> int {
    (BRICK_ROWS * BRICK_COLS) as int
}

/// The standing brick at index `i`, row by row: column `i % 12` at
/// `x = 19 + 64·col`, row `i / 12` at `y = 60 + 28·row`.
pub open spec fn initial_brick(i: int) -> Brick {
    Brick {
        x: fp_int(19 + 64 * (i % 12)),
        y: fp_int(60 + 28 * (i / 12)),
        alive: true,
        row: (i / 12) as usize,
    }
}

/// The full wall of standing bricks.
pub open spec fn initial_bricks() -> Seq<Brick> {
    Seq::new(brick_count() as nat, |i: int| initial_brick(i))
}

/// Where the ball rests on the paddle: centred, 2 above its top edge.
pub open spec fn resting_ball(paddle_x: Fp) -> Vec2 {
    Vec2 { x: fp_add(paddle_x, fp_int(60)), y: fp_int(550) }
}

/// A particle that is not in use.
pub open spec fn idle_particle() -> Particle {
    Particle {
        x: fp_int(0),
        y: fp_int(0),
        vx: fp_int(0),
        vy: fp_int(0),
        life: fp_int(0),
        max_life: fp_int(0),
        size: fp_int(0),
        color_index: 0,
        active: false,
    }
}


// ---------------------------------------------------------------------------
// Score keeping
// ---------------------------------------------------------------------------

/// Points for breaking a brick: 10 per row from the bottom, 60 for the top row.
pub open spec fn brick_points(b: Brick) -> int {
    (BRICK_ROWS as int - b.row as int) * 10
}

/// Number of broken bricks.
pub open spec fn dead_count(s: Seq<Brick>) -> nat
    decreases s.len(),
{
    if s.len() == 0 {
        0
    } else {
        dead_count(s.drop_last()) + if s.last().alive { 0nat } else { 1nat }
    }
}

/// Points of all broken bricks.
pub open spec fn dead_score(s: Seq<Brick>) -> int
    decreases s.len(),
{
    if s.len() == 0 {
        0
    } else {
        dead_score(s.drop_last()) + if s.last().alive { 0 } else { brick_points(s.last()) }
    }
}


/// A wall with every brick standing has no broken brick and no points.
pub proof fn lemma_all_standing(s: Seq<Brick>)
    requires
        forall|i: int| 0 <= i < s.len() ==> (#[trigger] s[i]).alive,
    ensures
        dead_count(s) == 0,
        dead_score(s) == 0,
    decreases s.len(),
{
    if s.len() > 0 {
        lemma_all_standing(s.drop_last());
    }
}

/// The count of broken bricks never exceeds the wall; their points lie between
/// 0 and 60 per brick when every row is at most 6.
pub proof fn lemma_dead_bounds(s: Seq<Brick>)
    requires
        forall|i: int| 0 <= i < s.len() ==> (#[trigger] s[i]).row <= BRICK_ROWS,
    ensures
        dead_count(s) <= s.len(),
        0 <= dead_score(s) <= 60 * dead_count(s),
    decreases s.len(),
{
    if s.len() > 0 {
        lemma_dead_bounds(s.drop_last());
    }
}

/// Breaking a standing brick adds one broken brick and its points.
pub proof fn lemma_break_brick(s: Seq<Brick>, i: int)
    requires
        0 <= i < s.len(),
        s[i].alive,
    ensures
        dead_count(s.update(i, Brick { alive: false, ..s[i] })) == dead_count(s) + 1,
        dead_score(s.update(i, Brick { alive: false, ..s[i] })) == dead_score(s) + brick_points(s[i]),
    decreases s.len(),
{
    let t = s.update(i, Brick { alive: false, ..s[i] });
    if i == s.len() - 1 {
        assert(t.drop_last() =~= s.drop_last());
    } else {
        lemma_break_brick(s.drop_last(), i);
        assert(t.drop_last() =~= s.drop_last().update(i, Brick { alive: false, ..s[i] }));
    }
}

/// The full wall has no broken brick and no points.
pub proof fn lemma_initial_wall()
    ensures
        dead_count(initial_bricks()) == 0,
        dead_score(initial_bricks()) == 0,
        initial_bricks().len() == brick_count(),
{
    lemma_all_standing(initial_bricks());
}

/// The wall has its layout: every brick where and in the row the full wall has it.
pub open spec fn laid_out(s: Seq<Brick>) -> bool {
    &&& s.len() == brick_count()
    &&& forall|i: int| 0 <= i < brick_count() ==> {
        &&& (#[trigger] s[i]).x == initial_brick(i).x
        &&& s[i].y == initial_brick(i).y
        &&& s[i].row == initial_brick(i).row
    }
}

/// The game's invariant: the wall keeps its layout, the score and the count of
/// broken bricks agree with the wall, the state agrees with the lives and the
/// count, and the paddle, the ball's speed and the buffers stay within bounds.
pub open spec fn wf(g: GameView) -> bool {
    &&& laid_out(g.bricks)
    &&& g.bricks_total == brick_count()
    &&& g.bricks_broken == dead_count(g.bricks)
    &&& g.score == dead_score(g.bricks)
    &&& g.lives <= MAX_LIVES
    &&& (g.lives == 0) == (g.state == GameState::Over)
    &&& (g.state == GameState::Won) == (g.bricks_broken == brick_count())
    &&& 0 <= g.paddle_x.bits <= fp_int(680).bits
    &&& fp_int(350).bits <= g.ball_speed.bits <= fp_int(700).bits
    &&& g.particles.len() == MAX_PARTICLES
    &&& g.trail.len() <= BALL_TRAIL_LENGTH
    &&& forall|i: int| 0 <= i < g.particles.len() && (#[trigger] g.particles[i]).active ==> g.particles[i].max_life.bits > 0
}

// ---------------------------------------------------------------------------
// Moves outside the frame step
// ---------------------------------------------------------------------------

/// A fresh game: full wall, three lives, paddle centred, ball resting on it.
pub open spec fn new_game() -> GameView {
    GameView {
        paddle_x: fp_int(340),
        ball_pos: resting_ball(fp_int(340)),
        ball_vel: Vec2 { x: fp_int(0), y: fp_int(0) },
        ball_speed: fp_int(350),
        bricks: initial_bricks(),
        particles: Seq::new(MAX_PARTICLES as nat, |i: int| idle_particle()),
        trail: Seq::empty(),
        score: 0,
        lives: MAX_LIVES,
        state: GameState::Wait,
        left_pressed: false,
        right_pressed: false,
        bricks_broken: 0,
        bricks_total: brick_count() as u32,
        frame_count: 0,
    }
}

/// Restart: a fresh game that keeps its particles (all put out), its keys and
/// its frame count.
pub open spec fn reset_spec(g: GameView) -> GameView {
    GameView {
        paddle_x: fp_int(340),
        ball_pos: resting_ball(fp_int(340)),
        ball_vel: Vec2 { x: fp_int(0), y: fp_int(0) },
        ball_speed: fp_int(350),
        score: 0,
        lives: MAX_LIVES,
        bricks_broken: 0,
        state: GameState::Wait,
        trail: Seq::empty(),
        bricks: initial_bricks(),
        bricks_total: brick_count() as u32,
        particles: g.particles.map_values(|p: Particle| Particle { active: false, ..p }),
        ..g
    }
}

/// The launch angle from the vertical: `-π/4 + r · π/2` for the random `r`
/// drawn from the frame count.
pub open spec fn launch_angle(frame: u64) -> Fp {
    fp_add(fp_neg(fp_bits(FRAC_PI_4_BITS as int)), fp_mul(prand_spec(frame), fp_bits(FRAC_PI_2_BITS as int)))
}

/// The direction `(s, -c)` for the sine `s` and cosine `c` of an angle from the
/// upward vertical.
pub open spec fn from_sin_cos(s: Fp, c: Fp) -> Vec2 {
    Vec2 { x: s, y: fp_neg(c) }
}

/// The direction at `angle` from the upward vertical, by the crate's sine and cosine.
pub open spec fn direction(angle: Fp) -> Vec2 {
    from_sin_cos(Fp { bits: cordic_sin(angle.bits) }, Fp { bits: cordic_cos(angle.bits) })
}

/// Launch: the ball leaves upwards at the launch angle and play starts.
pub open spec fn launch_spec(g: GameView) -> GameView {
    GameView { ball_vel: direction(launch_angle(g.frame_count)), state: GameState::Play, ..g }
}

/// Speed of a new ball: 350 plus 4 per broken brick, at most 700.
pub open spec fn served_speed(broken: u32) -> Fp {
    fp_min(
        fp_add(fp_int(350), fp_mul(fp_int((broken as i32) as int), fp_mul(fp_int(8), fp_bits(HALF_BITS as int)))),
        fp_int(700),
    )
}

/// A new ball rests on the paddle, at the served speed, waiting for a launch.
pub open spec fn reset_ball_spec(g: GameView) -> GameView {
    GameView {
        ball_pos: resting_ball(g.paddle_x),
        ball_vel: Vec2 { x: fp_int(0), y: fp_int(0) },
        ball_speed: served_speed(g.bricks_broken),
        trail: Seq::empty(),
        state: GameState::Wait,
        ..g
    }
}

/// Clicking launches a waiting ball and restarts a finished game.
pub open spec fn click_spec(g: GameView) -> GameView {
    match g.state {
        GameState::Wait => launch_spec(g),
        GameState::Over | GameState::Won => reset_spec(g),
        GameState::Play => g,
    }
}

/// Moving the mouse to `x` centres the paddle there, within the canvas, while
/// a game is waiting or in play.
pub open spec fn mouse_move_spec(g: GameView, x: Fp) -> GameView {
    if g.state == GameState::Play || g.state == GameState::Wait {
        GameView { paddle_x: fp_clamp(fp_sub(x, fp_int(60)), fp_int(0), fp_int(680)), ..g }
    } else {
        g
    }
}

/// Keys that move the paddle left: the left arrow, `a` and `A`.
pub open spec fn is_left_key(k: Seq<u8>) -> bool {
    k == "ArrowLeft".spec_bytes() || k == "a".spec_bytes() || k == "A".spec_bytes()
}

/// Keys that move the paddle right: the right arrow, `d` and `D`.
pub open spec fn is_right_key(k: Seq<u8>) -> bool {
    k == "ArrowRight".spec_bytes() || k == "d".spec_bytes() || k == "D".spec_bytes()
}

/// Pressing a key: a movement key is held, the space bar clicks.
pub open spec fn key_down_spec(g: GameView, k: Seq<u8>) -> GameView {
    if is_left_key(k) {
        GameView { left_pressed: true, ..g }
    } else if is_right_key(k) {
        GameView { right_pressed: true, ..g }
    } else if k == " ".spec_bytes() {
        click_spec(g)
    } else {
        g
    }
}

/// Releasing a key: a movement key is let go.
pub open spec fn key_up_spec(g: GameView, k: Seq<u8>) -> GameView {
    if is_left_key(k) {
        GameView { left_pressed: false, ..g }
    } else if is_right_key(k) {
        GameView { right_pressed: false, ..g }
    } else {
        g
    }
}


impl Vec2 {
    /// Squared length `x·x + y·y`.
    pub open spec fn len_sq_spec(self) -> Fp {
        fp_add(fp_mul(self.x, self.x), fp_mul(self.y, self.y))
    }

    /// The squared length lies where `cordic::sqrt` is defined.
    pub open spec fn has_sqrt_len(self) -> bool {
        0 <= self.len_sq_spec().bits < SQRT_BOUND_BITS
    }

    /// Both coordinates divided by `len`.
    pub open spec fn divided_by(self, len: Fp) -> Vec2 {
        Vec2 { x: fp_div(self.x, len), y: fp_div(self.y, len) }
    }

    /// The vector divided by its length; the zero vector unchanged.
    pub open spec fn normalize_spec(self) -> Vec2 {
        if self.len_sq_spec().bits == 0 {
            self
        } else {
            self.divided_by(Fp { bits: cordic_sqrt(self.len_sq_spec().bits) })
        }
    }

    /// The direction `(sin_a, -cos_a)`.
    pub fn from_sin_cos(sin_a: Fp, cos_a: Fp) -> (r: Vec2)
        ensures
            r == from_sin_cos(sin_a, cos_a),
    {
        Vec2 { x: sin_a, y: cos_a.wrapping_neg() }
    }

    /// Both coordinates divided by a length that is not zero.
    pub fn divide_by(&self, len: Fp) -> (r: Vec2)
        requires
            len.bits != 0,
        ensures
            r == self.divided_by(len),
    {
        Vec2 { x: self.x.wrapping_div(len), y: self.y.wrapping_div(len) }
    }

    pub fn new(x: Fp, y: Fp) -> (r: Vec2)
        ensures
            r == (Vec2 { x, y }),
    {
        Vec2 { x, y }
    }

    /// The vector scaled to length one, the zero vector left as it is.
    pub fn normalize(&self) -> (r: Vec2)
        requires
            self.has_sqrt_len(),
        ensures
            r == self.normalize_spec(),
    {
        let len_sq = self.x.wrapping_mul(self.x).wrapping_add(self.y.wrapping_mul(self.y));
        if len_sq == fp_zero() {
            return *self;
        }
        let len = sqrt(len_sq);
        self.divide_by(len)
    }

    /// The squared length, tested against the domain of `cordic::sqrt`.
    pub fn has_sqrt_len_exec(&self) -> (r: bool)
        ensures
            r == self.has_sqrt_len(),
    {
        let len_sq = self.x.wrapping_mul(self.x).wrapping_add(self.y.wrapping_mul(self.y));
        0 <= len_sq.bits && len_sq.bits < SQRT_BOUND_BITS
    }
}

impl Particle {
    pub fn new() -> (r: Particle)
        ensures
            r == idle_particle(),
    {
        Particle {
            x: fp_zero(),
            y: fp_zero(),
            vx: fp_zero(),
            vy: fp_zero(),
            life: fp_zero(),
            max_life: fp_zero(),
            size: fp_zero(),
            color_index: 0,
            active: false,
        }
    }
}

impl Game {
    /// Fills `bricks` with the full wall, row by row.
    fn fill_bricks(bricks: &mut Vec<Brick>)
        ensures
            final(bricks)@ == initial_bricks(),
    {
        bricks.clear();
        let ol = brick_offset_left();
        let ot = brick_offset_top();
        let bw = brick_width();
        let bh = brick_height();
        let bp = brick_padding();
        for row in 0..BRICK_ROWS
            invariant
                bricks@.len() == row * 12,
                forall|j: int| 0 <= j < bricks@.len() ==> bricks@[j] == initial_brick(j),
                ol == fp_int(19), ot == fp_int(60), bw == fp_int(58), bh == fp_int(22),
                bp == fp_int(6),
        {
            for col in 0..BRICK_COLS
                invariant
                    0 <= row < 6,
                    bricks@.len() == row * 12 + col,
                    forall|j: int| 0 <= j < bricks@.len() ==> bricks@[j] == initial_brick(j),
                    ol == fp_int(19), ot == fp_int(60), bw == fp_int(58), bh == fp_int(22),
                    bp == fp_int(6),
            {
                let x = ol.wrapping_add(Fp::from_int(col as i32).wrapping_mul(bw.wrapping_add(bp)));
                let y = ot.wrapping_add(Fp::from_int(row as i32).wrapping_mul(bh.wrapping_add(bp)));
                proof {
                    lemma_int_add(58, 6);
                    lemma_int_add(22, 6);
                    lemma_int_mul(col as int, 64);
                    lemma_int_mul(row as int, 28);
                    lemma_int_add(19, 64 * col);
                    lemma_int_add(60, 28 * row);
                    let j = (row * 12 + col) as int;
                    assert(j % 12 == col as int && j / 12 == row as int) by {
                        vstd::arithmetic::div_mod::lemma_fundamental_div_mod_converse(
                            j, 12, row as int, col as int);
                    }
                }
                bricks.push(Brick { x, y, alive: true, row });
            }
        }
        assert(bricks@ =~= initial_bricks());
    }

    /// Puts up the full wall of bricks.
    pub fn init_bricks(&mut self)
        ensures
            final(self)@ == (GameView {
                bricks: initial_bricks(),
                bricks_total: brick_count() as u32,
                ..old(self)@
            }),
    {
        Self::fill_bricks(&mut self.bricks);
        self.bricks_total = (BRICK_ROWS * BRICK_COLS) as u32;
    }
}

/// Half the paddle's width, 60.
pub(crate) fn half_paddle() -> (r: Fp)
    ensures
        r == fp_int(60),
{
    proof {
        lemma_int_div(120, 2, 60);
    }
    paddle_width().wrapping_div(fp_two())
}

/// Height at which the ball rests: 2 above the paddle, 550.
pub(crate) fn resting_height() -> (r: Fp)
    ensures
        r == fp_int(550),
{
    proof {
        lemma_int_sub(560, 8);
        lemma_int_sub(552, 2);
    }
    paddle_y().wrapping_sub(ball_radius()).wrapping_sub(fp_two())
}

/// The paddle's leftmost edge when centred, 340.
fn centred_paddle() -> (r: Fp)
    ensures
        r == fp_int(340),
{
    proof {
        lemma_int_div(800, 2, 400);
        lemma_int_sub(400, 60);
    }
    canvas_width().wrapping_div(fp_two()).wrapping_sub(half_paddle())
}

/// Puts out every particle, keeping the rest of each.
fn put_out_particles(ps: &mut Vec<Particle>)
    ensures
        final(ps)@ == old(ps)@.map_values(|p: Particle| Particle { active: false, ..p }),
{
    let n = ps.len();
    for i in 0..n
        invariant
            n == ps@.len(),
            ps@.len() == old(ps)@.len(),
            forall|j: int| 0 <= j < i ==> ps@[j] == (Particle { active: false, ..old(ps)@[j] }),
            forall|j: int| i <= j < n ==> ps@[j] == old(ps)@[j],
    {
        let mut p = ps[i];
        p.active = false;
        ps.set(i, p);
    }
    assert(ps@ =~= old(ps)@.map_values(|p: Particle| Particle { active: false, ..p }));
}

impl Game {
    /// A fresh game.
    pub fn new() -> (g: Game)
        ensures
            g@ == new_game(),
    {
        let particles = vec![Particle::new(); MAX_PARTICLES];
        let mut game = Game {
            paddle_x: centred_paddle(),
            ball_pos: Vec2::new(
                canvas_width().wrapping_div(fp_two()),
                resting_height(),
            ),
            ball_vel: Vec2::new(fp_zero(), fp_zero()),
            ball_speed: ball_initial_speed(),
            bricks: Vec::new(),
            particles,
            trail: Vec::with_capacity(BALL_TRAIL_LENGTH),
            score: 0,
            lives: MAX_LIVES,
            state: GameState::Wait,
            left_pressed: false,
            right_pressed: false,
            bricks_broken: 0,
            bricks_total: 0,
            frame_count: 0,
        };
        proof {
            lemma_int_div(800, 2, 400);
            lemma_int_add(340, 60);
        }
        game.init_bricks();
        assert(game.particles@ =~= Seq::new(MAX_PARTICLES as nat, |i: int| idle_particle()));
        game
    }

    /// Restarts the game.
    pub fn reset(&mut self)
        ensures
            final(self)@ == reset_spec(old(self)@),
    {
        self.paddle_x = centred_paddle();
        proof {
            lemma_int_add(340, 60);
        }
        self.ball_pos = Vec2::new(canvas_width().wrapping_div(fp_two()), resting_height());
        proof {
            lemma_int_div(800, 2, 400);
        }
        self.ball_vel = Vec2::new(fp_zero(), fp_zero());
        self.ball_speed = ball_initial_speed();
        self.score = 0;
        self.lives = MAX_LIVES;
        self.bricks_broken = 0;
        self.state = GameState::Wait;
        self.trail.clear();
        self.init_bricks();
        put_out_particles(&mut self.particles);
    }

    /// The angle at which a ball is launched in this frame.
    pub fn launch_angle(&self) -> (r: Fp)
        ensures
            r == launch_angle(self.frame_count),
    {
        let r = prand(self.frame_count);
        fp_frac_pi_4().wrapping_neg().wrapping_add(r.wrapping_mul(fp_frac_pi_2()))
    }

    /// Sends the ball off in the direction with sine `sin_a` and cosine `cos_a`
    /// and starts play.
    pub fn launch_toward(&mut self, sin_a: Fp, cos_a: Fp)
        ensures
            final(self)@ == (GameView {
                ball_vel: from_sin_cos(sin_a, cos_a),
                state: GameState::Play,
                ..old(self)@
            }),
    {
        self.ball_vel = Vec2::from_sin_cos(sin_a, cos_a);
        self.state = GameState::Play;
    }

    /// Launches the waiting ball.
    pub fn launch(&mut self)
        ensures
            final(self)@ == launch_spec(old(self)@),
    {
        let angle = self.launch_angle();
        self.launch_toward(sin(angle), cos(angle));
    }

    /// Puts a new ball on the paddle.
    pub fn reset_ball(&mut self)
        ensures
            final(self)@ == reset_ball_spec(old(self)@),
    {
        self.ball_pos = Vec2::new(self.paddle_x.wrapping_add(half_paddle()), resting_height());
        self.ball_vel = Vec2::new(fp_zero(), fp_zero());
        self.ball_speed = ball_initial_speed().wrapping_add(
            Fp::from_int(self.bricks_broken as i32).wrapping_mul(
                ball_speed_increment().wrapping_mul(fp_half()),
            ),
        ).min(ball_max_speed());
        self.trail.clear();
        self.state = GameState::Wait;
    }

    /// Follows the mouse at `x` with the paddle's centre.
    pub fn mouse_move(&mut self, x: Fp)
        ensures
            final(self)@ == mouse_move_spec(old(self)@, x),
    {
        if self.state == GameState::Play || self.state == GameState::Wait {
            proof {
                lemma_int_sub(800, 120);
            }
            self.paddle_x = x.wrapping_sub(half_paddle()).clamp(
                fp_zero(),
                canvas_width().wrapping_sub(paddle_width()),
            );
        }
    }

    /// A click: launch, restart, or nothing.
    pub fn click(&mut self)
        ensures
            final(self)@ == click_spec(old(self)@),
    {
        match self.state {
            GameState::Wait => self.launch(),
            GameState::Over | GameState::Won => self.reset(),
            _ => {},
        }
    }

    /// A key pressed.
    pub fn key_down(&mut self, key: &str)
        ensures
            final(self)@ == key_down_spec(old(self)@, key.spec_bytes()),
    {
        let k = key.as_bytes();
        if bytes_equal(k, "ArrowLeft".as_bytes()) || bytes_equal(k, "a".as_bytes())
            || bytes_equal(k, "A".as_bytes()) {
            self.left_pressed = true;
        } else if bytes_equal(k, "ArrowRight".as_bytes()) || bytes_equal(k, "d".as_bytes())
            || bytes_equal(k, "D".as_bytes()) {
            self.right_pressed = true;
        } else if bytes_equal(k, " ".as_bytes()) {
            self.click();
        }
    }

    /// A key released.
    pub fn key_up(&mut self, key: &str)
        ensures
            final(self)@ == key_up_spec(old(self)@, key.spec_bytes()),
    {
        let k = key.as_bytes();
        if bytes_equal(k, "ArrowLeft".as_bytes()) || bytes_equal(k, "a".as_bytes())
            || bytes_equal(k, "A".as_bytes()) {
            self.left_pressed = false;
        } else if bytes_equal(k, "ArrowRight".as_bytes()) || bytes_equal(k, "d".as_bytes())
            || bytes_equal(k, "D".as_bytes()) {
            self.right_pressed = false;
        }
    }
}

/// Whether two byte strings are equal.
fn bytes_equal(a: &[u8], b: &[u8]) -> (r: bool)
    ensures
        r == (a@ == b@),
{
    if a.len() != b.len() {
        return false;
    }
    let mut i: usize = 0;
    while i < a.len()
        invariant
            i <= a.len(),
            a.len() == b.len(),
            forall|j: int| 0 <= j < i ==> a@[j] == b@[j],
        decreases a.len() - i,
    {
        if a[i] != b[i] {
            return false;
        }
        i += 1;
    }
    assert(a@ =~= b@);
    true
}

} // verus!
