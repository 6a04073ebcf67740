//! What the picture shows of a game besides positions: the speed gauge, the
//! overlay over a waiting or finished game, and how bright a particle is.
use vstd::prelude::*;
use vstd::string::StringSliceAdditionalSpecFns;
use crate::fp::{Fp, fp_int, fp_sub, fp_mul, fp_div, ONE_BITS, lemma_int_sub};
use crate::consts::{ball_initial_speed, ball_max_speed, fp_zero, MAX_LIVES};
use crate::game::{Game, GameState, Particle};

verus! {

/// The message drawn over the game.
#[derive(Clone, Copy, Debug, PartialEq, Eq, Structural)]
pub enum Overlay {
    /// "BREAKOUT": a fresh game waiting for its first launch.
    Title,
    /// "READY": a ball waiting for its launch later on.
    Ready,
    /// "GAME OVER" with the score.
    GameOver,
    /// "YOU WIN!" with the score.
    YouWin,
}

/// The overlay for a state: none in play.
pub open spec fn overlay_spec(state: GameState, lives: u32, score: u32) -> Option<Overlay> {
    match state {
        GameState::Wait => if lives == MAX_LIVES && score == 0 {
            Some(Overlay::Title)
        } else {
            Some(Overlay::Ready)
        },
        GameState::Over => Some(Overlay::GameOver),
        GameState::Won => Some(Overlay::YouWin),
        GameState::Play => None,
    }
}

/// How far the ball's speed has risen from 350 towards 700, as a percentage:
/// `(speed - 350) / 350 · 100`.
pub open spec fn speed_fraction(speed: Fp) -> Fp {
    fp_mul(fp_div(fp_sub(speed, fp_int(350)), fp_int(350)), fp_int(100))
}

impl Game {
    /// The overlay to draw, if any.
    pub fn overlay(&self) -> (r: Option<Overlay>)
        ensures
            r == overlay_spec(self.state, self.lives, self.score),
    {
        match self.state {
            GameState::Wait => if self.lives == MAX_LIVES && self.score == 0 {
                Some(Overlay::Title)
            } else {
                Some(Overlay::Ready)
            },
            GameState::Over => Some(Overlay::GameOver),
            GameState::Won => Some(Overlay::YouWin),
            GameState::Play => None,
        }
    }

    /// The whole part of the speed gauge's percentage, between 0 and 100 for a
    /// speed between 350 and 700, the speeds a game keeps to.
    pub fn speed_percent(&self) -> (r: u32)
        requires
            fp_int(350).bits <= self.ball_speed.bits <= fp_int(700).bits,
        ensures
            r == speed_fraction(self.ball_speed).bits / ONE_BITS,
            r <= 100,
    {
        proof {
            lemma_int_sub(700, 350);
            lemma_speed_fraction(self.ball_speed);
        }
        let speed_range = ball_max_speed().wrapping_sub(ball_initial_speed());
        if speed_range.bits > fp_zero().bits {
            let pct = self.ball_speed.wrapping_sub(ball_initial_speed()).wrapping_div(speed_range).wrapping_mul(
                Fp::from_int(100),
            );
            (pct.bits / ONE_BITS) as u32
        } else {
            0
        }
    }
}

/// For a speed in `[350, 700]` the gauge's fraction lies in `[0, 100]`.
proof fn lemma_speed_fraction(speed: Fp)
    requires
        fp_int(350).bits <= speed.bits <= fp_int(700).bits,
    ensures
        0 <= speed_fraction(speed).bits <= 100 * ONE_BITS,
{
    let d = fp_sub(speed, fp_int(350));
    assert(0 <= d.bits <= 350 * ONE_BITS);
    let n = d.bits * ONE_BITS;
    let z = 350 * ONE_BITS;
    let q = n / z;
    assert(0 <= n <= ONE_BITS * z) by (nonlinear_arith)
        requires n == d.bits * ONE_BITS, 0 <= d.bits <= 350 * ONE_BITS, z == 350 * ONE_BITS;
    vstd::arithmetic::div_mod::lemma_div_is_ordered(n, ONE_BITS * z, z);
    vstd::arithmetic::div_mod::lemma_div_by_multiple(ONE_BITS as int, z);
    vstd::arithmetic::div_mod::lemma_div_pos_is_pos(n, z);
    assert(fp_div(d, fp_int(350)).bits == q);
    let p = q * (100 * ONE_BITS) * ONE_BITS;
    assert(p == (q * 100) * 0x1_0000_0000_0000_0000) by (nonlinear_arith)
        requires p == q * (100 * ONE_BITS) * ONE_BITS;
    assert(0 <= p <= 100 * ONE_BITS * 0x1_0000_0000_0000_0000) by (nonlinear_arith)
        requires p == (q * 100) * 0x1_0000_0000_0000_0000, 0 <= q <= ONE_BITS;
    vstd::arithmetic::div_mod::lemma_div_multiples_vanish(q * 100, 0x1_0000_0000_0000_0000);
    assert((q * 100) * 0x1_0000_0000_0000_0000 == 0x1_0000_0000_0000_0000 * (q * 100)) by (nonlinear_arith);
}

/// How bright a particle is: its remaining share of its life, at least 0.
pub open spec fn particle_alpha(p: Particle) -> Fp {
    let q = fp_div(p.life, p.max_life);
    if q.bits <= 0 {
        fp_int(0)
    } else {
        q
    }
}

impl Particle {
    /// Remaining share of the particle's life, at least 0; it has a life to
    /// share only when `max_life` is not zero.
    pub fn alpha(&self) -> (r: Fp)
        requires
            self.max_life.bits != 0,
        ensures
            r == particle_alpha(*self),
    {
        let q = self.life.wrapping_div(self.max_life);
        let zero = fp_zero();
        if q.bits <= zero.bits {
            zero
        } else {
            q
        }
    }
}

} // verus!

verus! {

/// Value of a hexadecimal digit: `0-9`, `a-f`, `A-F`.
pub open spec fn hex_digit(b: u8) -> Option<u8> {
    if 48 <= b <= 57 {
        Some((b - 48) as u8)
    } else if 97 <= b <= 102 {
        Some((b - 87) as u8)
    } else if 65 <= b <= 70 {
        Some((b - 55) as u8)
    } else {
        None
    }
}

/// `u8::from_str_radix` in base 16 on two bytes: a `+` and one digit, or two
/// digits; anything else does not parse.
pub open spec fn hex_pair(b0: u8, b1: u8) -> Option<u8> {
    if b0 == 43 {
        hex_digit(b1)
    } else {
        match (hex_digit(b0), hex_digit(b1)) {
            (Some(h), Some(l)) => Some((16 * h + l) as u8),
            _ => None,
        }
    }
}

/// A colour channel: the two bytes from `i` read in base 16, or 255 when they
/// do not parse.
pub open spec fn channel(s: Seq<u8>, i: int) -> u8 {
    match hex_pair(s[i], s[i + 1]) {
        Some(v) => v,
        None => 255,
    }
}

/// The red, green and blue channels of a `#rrggbb` colour; none for a string
/// shorter than 7 bytes.
pub open spec fn color_channels_spec(s: Seq<u8>) -> Option<(u8, u8, u8)> {
    if s.len() < 7 {
        None
    } else {
        Some((channel(s, 1), channel(s, 3), channel(s, 5)))
    }
}

fn hex_digit_exec(b: u8) -> (r: Option<u8>)
    ensures
        r == hex_digit(b),
{
    if 48 <= b && b <= 57 {
        Some(b - 48)
    } else if 97 <= b && b <= 102 {
        Some(b - 87)
    } else if 65 <= b && b <= 70 {
        Some(b - 55)
    } else {
        None
    }
}

fn channel_exec(s: &[u8], i: usize) -> (r: u8)
    requires
        i + 1 < s@.len(),
    ensures
        r == channel(s@, i as int),
{
    let parsed = if s[i] == 43 {
        hex_digit_exec(s[i + 1])
    } else {
        match (hex_digit_exec(s[i]), hex_digit_exec(s[i + 1])) {
            (Some(h), Some(l)) => Some(16 * h + l),
            _ => None,
        }
    };
    match parsed {
        Some(v) => v,
        None => 255,
    }
}

/// The channels of a `#rrggbb` colour, each pair of bytes read as
/// `u8::from_str_radix(.., 16)` does and 255 where it does not parse. The
/// pairs are slices of the string, so they must start and end on character
/// boundaries.
pub fn color_channels(hex: &str) -> (r: Option<(u8, u8, u8)>)
    requires
        hex.spec_bytes().len() >= 7 ==> {
            &&& vstd::utf8::is_char_boundary(hex.spec_bytes(), 1)
            &&& vstd::utf8::is_char_boundary(hex.spec_bytes(), 3)
            &&& vstd::utf8::is_char_boundary(hex.spec_bytes(), 5)
            &&& vstd::utf8::is_char_boundary(hex.spec_bytes(), 7)
        },
    ensures
        r == color_channels_spec(hex.spec_bytes()),
{
    let s = hex.as_bytes();
    if s.len() < 7 {
        return None;
    }
    Some((channel_exec(s, 1), channel_exec(s, 3), channel_exec(s, 5)))
}

} // verus!
