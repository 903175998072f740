//! The RGB color model of the automaton: blending and the bounded fade that
//! animates dying cells.
//!
//! Fading is not a straight interpolation. Each channel moves toward the
//! target by at most `fading_speed` units per step and never overshoots: once
//! the remaining distance is smaller than the speed the channel snaps onto
//! the target. A speed of 0 freezes the channel, and a negative speed pushes
//! it *away* from the target, wrapping around the 8-bit range — a documented
//! "funny colors" mode, not an error.

use vstd::arithmetic::div_mod::{lemma_fundamental_div_mod, lemma_fundamental_div_mod_converse_mod, lemma_small_mod};
use vstd::prelude::*;

use crate::common::ParseError;

verus! {

/// An 8-bit-per-channel color with alpha.
#[derive(Clone, Copy, Debug, Eq, PartialEq, Structural)]
pub struct Rgba {
    pub r: u8,
    pub g: u8,
    pub b: u8,
    pub a: u8,
}

/// How far a single channel actually moves in one fade step: the distance to
/// the target, clamped to `fading_speed` in magnitude. A negative speed makes
/// the step point away from the target.
pub open spec fn fade_step(fading_speed: int, color_delta: int) -> int {
    if color_delta < 0 {
        if -fading_speed >= color_delta {
            -fading_speed
        } else {
            color_delta
        }
    } else if color_delta > 0 {
        if fading_speed <= color_delta {
            fading_speed
        } else {
            color_delta
        }
    } else {
        0
    }
}

/// One fade step of a single channel with value `c` toward target `t`,
/// reduced into the 8-bit range (the reduction only matters for negative
/// speeds, which may push the channel out of range).
pub open spec fn fade_channel(c: u8, t: u8, fading_speed: int) -> u8 {
    (((c + fade_step(fading_speed, t - c)) % 256) as u8)
}

/// A channel blend of `c1` over `c2` weighted by alpha `a`.
pub open spec fn blend_channel(a: int, c1: int, c2: int) -> int {
    (a * c1 + (255 - a) * c2) / 255
}

impl Rgba {
    /// The whole-color blend of `self` over `other`: transparent yields
    /// `other`, opaque yields `self`, anything between mixes each channel by
    /// `self`'s alpha and yields an opaque result.
    pub open spec fn blended(self, other: Rgba) -> Rgba {
        if self.a == 0 {
            other
        } else if self.a == 255 {
            self
        } else {
            Rgba {
                r: blend_channel(self.a as int, self.r as int, other.r as int) as u8,
                g: blend_channel(self.a as int, self.g as int, other.g as int) as u8,
                b: blend_channel(self.a as int, self.b as int, other.b as int) as u8,
                a: 255,
            }
        }
    }

    /// One bounded fade step of the whole color toward `target`: each color
    /// channel moves by at most `fading_speed`, the alpha channel stays.
    pub open spec fn faded(self, target: Rgba, fading_speed: int) -> Rgba {
        Rgba {
            r: fade_channel(self.r, target.r, fading_speed),
            g: fade_channel(self.g, target.g, fading_speed),
            b: fade_channel(self.b, target.b, fading_speed),
            a: self.a,
        }
    }

    /// The value `default` returns: opaque black.
    pub open spec fn default_spec() -> Rgba {
        Rgba { r: 0, g: 0, b: 0, a: 255 }
    }

    pub fn new(r: u8, g: u8, b: u8, a: u8) -> (c: Self)
        ensures
            c == (Rgba { r, g, b, a }),
    {
        Self { r, g, b, a }
    }

    /// Alpha-blend `self` over `other`.
    pub fn blend(&self, other: &Rgba) -> (c: Rgba)
        ensures
            c == self.blended(*other),
    {
        if self.a == 0 {
            return *other;
        }

        if self.a == 255 {
            return *self;
        }

        let a = self.a as i32;
        let r = blend_one(a, self.r as i32, other.r as i32);
        let g = blend_one(a, self.g as i32, other.g as i32);
        let b = blend_one(a, self.b as i32, other.b as i32);
        Rgba { r, g, b, a: 255 }
    }

    /// Move every color channel one bounded step toward `target`; the alpha
    /// channel is left alone.
    pub fn fade(&mut self, target: &Rgba, fading_speed: i32)
        requires
            fading_speed >= i32::MIN + 256,
        ensures
            *final(self) == old(self).faded(*target, fading_speed as int),
    {
        let f_r = Self::calc_real_fading_speed(fading_speed, target.r as i32 - self.r as i32);
        let f_g = Self::calc_real_fading_speed(fading_speed, target.g as i32 - self.g as i32);
        let f_b = Self::calc_real_fading_speed(fading_speed, target.b as i32 - self.b as i32);
        self.r = wrap_u8(self.r as i32 + f_r);
        self.g = wrap_u8(self.g as i32 + f_g);
        self.b = wrap_u8(self.b as i32 + f_b);
    }

    fn calc_real_fading_speed(fading_speed: i32, color_delta: i32) -> (r: i32)
        requires
            fading_speed > i32::MIN,
        ensures
            r == fade_step(fading_speed as int, color_delta as int),
    {
        if color_delta < 0 {
            let neg = -fading_speed;
            if neg >= color_delta {
                neg
            } else {
                color_delta
            }
        } else if color_delta > 0 {
            if fading_speed <= color_delta {
                fading_speed
            } else {
                color_delta
            }
        } else {
            0
        }
    }
}

impl Default for Rgba {
    /// Opaque black, the foreground every cell keeps in this engine.
    fn default() -> (c: Self)
        ensures
            c == Rgba::default_spec(),
    {
        Self { r: 0, g: 0, b: 0, a: 255 }
    }
}

/// One channel of an alpha blend.
fn blend_one(a: i32, c1: i32, c2: i32) -> (r: u8)
    requires
        0 <= a <= 255,
        0 <= c1 <= 255,
        0 <= c2 <= 255,
    ensures
        r == blend_channel(a as int, c1 as int, c2 as int),
{
    proof {
        assert(0 <= a * c1 + (255 - a) * c2 <= 255 * 255) by (nonlinear_arith)
            requires 0 <= a <= 255 && 0 <= c1 <= 255 && 0 <= c2 <= 255;
        assert((a * c1 + (255 - a) * c2) / 255 <= 255) by (nonlinear_arith)
            requires 0 <= a * c1 + (255 - a) * c2 <= 255 * 255;
    }
    ((a * c1 + (255 - a) * c2) / 255) as u8
}

/// The signed value reduced into the 8-bit range, as a wrapping `u8` cast
/// would do it.
fn wrap_u8(v: i32) -> (r: u8)
    ensures
        r == v as int % 256,
{
    let m = v % 256;

    proof {
        if v < 0 {
            let r0 = (-(v as int)) % 256;
            let q0 = (-(v as int)) / 256;
            lemma_fundamental_div_mod(-(v as int), 256);
            if r0 == 0 {
                assert(v as int == (-q0) * 256 + 0) by (nonlinear_arith)
                    requires -(v as int) == q0 * 256;
                lemma_fundamental_div_mod_converse_mod(v as int, 256, -q0, 0);
            } else {
                assert(v as int == (-q0 - 1) * 256 + (256 - r0)) by (nonlinear_arith)
                    requires -(v as int) == q0 * 256 + r0;
                lemma_fundamental_div_mod_converse_mod(v as int, 256, -q0 - 1, 256 - r0);
            }
        }
    }

    let m2: i32 = if m < 0 { m + 256 } else { m };
    m2 as u8
}

/// The channel value after `k` fade steps toward `t` at speed `f`.
pub open spec fn fade_iter(c: u8, t: u8, f: int, k: nat) -> u8
    decreases k,
{
    if k == 0 {
        c
    } else {
        fade_iter(fade_channel(c, t, f), t, f, (k - 1) as nat)
    }
}

/// How far a channel value is from its target.
pub open spec fn channel_dist(c: u8, t: u8) -> int {
    if c >= t {
        c - t
    } else {
        t - c
    }
}

/// With a nonnegative speed one fade step shortens the distance to the
/// target by exactly `f`, stopping at zero, and never overshoots: the new
/// value stays between the old value and the target.
pub proof fn lemma_fade_bounded_step(c: u8, t: u8, f: int)
    requires
        f >= 0,
    ensures
        channel_dist(fade_channel(c, t, f), t) == if channel_dist(c, t) >= f {
            channel_dist(c, t) - f
        } else {
            0
        },
        c <= t ==> c <= fade_channel(c, t, f) <= t,
        c >= t ==> t <= fade_channel(c, t, f) <= c,
{
    let v = c + fade_step(f, t - c);
    assert(0 <= v < 256);
    lemma_small_mod(v as nat, 256);
}

/// A fading speed of zero freezes the channel forever.
pub proof fn lemma_fade_speed_zero_freezes(c: u8, t: u8)
    ensures
        fade_channel(c, t, 0) == c,
{
    lemma_small_mod(c as nat, 256);
}

/// With a positive speed `f`, a channel that starts `d` away from its target
/// reaches it exactly within `ceil(d / f)` steps — that is, after any `k`
/// steps with `k * f >= d` — and stays there.
pub proof fn lemma_fade_converges(c: u8, t: u8, f: int, k: nat)
    requires
        f > 0,
        k * f >= channel_dist(c, t),
    ensures
        fade_iter(c, t, f, k) == t,
    decreases k,
{
    if k == 0 {
        assert(k * f == 0) by (nonlinear_arith)
            requires k == 0;
        assert(c == t);
    } else {
        let c1 = fade_channel(c, t, f);
        lemma_fade_bounded_step(c, t, f);
        assert((k - 1) * f >= channel_dist(c, t) - f) by (nonlinear_arith)
            requires k * f >= channel_dist(c, t) && k >= 1;
        lemma_fade_converges(c1, t, f, (k - 1) as nat);
    }
}

/// The color after `k` whole-color fade steps toward `target` at speed `f`.
pub open spec fn faded_iter(c: Rgba, target: Rgba, f: int, k: nat) -> Rgba
    decreases k,
{
    if k == 0 {
        c
    } else {
        faded_iter(c, target, f, (k - 1) as nat).faded(target, f)
    }
}

/// Each channel of an iterated whole-color fade is the iterated fade of
/// that channel.
proof fn lemma_faded_iter_channels(c: Rgba, target: Rgba, f: int, k: nat)
    ensures
        faded_iter(c, target, f, k) == (Rgba {
            r: fade_iter(c.r, target.r, f, k),
            g: fade_iter(c.g, target.g, f, k),
            b: fade_iter(c.b, target.b, f, k),
            a: c.a,
        }),
    decreases k,
{
    if k > 0 {
        lemma_faded_iter_channels(c, target, f, (k - 1) as nat);
        lemma_fade_iter_unfold_back(c.r, target.r, f, k);
        lemma_fade_iter_unfold_back(c.g, target.g, f, k);
        lemma_fade_iter_unfold_back(c.b, target.b, f, k);
    }
}

/// An iterated channel fade can be peeled from the back: `k` steps are
/// `k - 1` steps followed by one.
proof fn lemma_fade_iter_unfold_back(c: u8, t: u8, f: int, k: nat)
    requires
        k > 0,
    ensures
        fade_iter(c, t, f, k) == fade_channel(fade_iter(c, t, f, (k - 1) as nat), t, f),
    decreases k,
{
    if k == 1 {
        assert(fade_iter(c, t, f, 1) == fade_iter(fade_channel(c, t, f), t, f, 0));
        assert(fade_iter(fade_channel(c, t, f), t, f, 0) == fade_channel(c, t, f));
    } else {
        lemma_fade_iter_unfold_back(fade_channel(c, t, f), t, f, (k - 1) as nat);
    }
}

/// With a positive speed `f`, a color whose channels each start at most `d`
/// away from the target's reaches the target's color channels exactly
/// within `ceil(d / f)` whole-color fade steps; the alpha channel is
/// untouched throughout.
pub proof fn lemma_rgba_fade_converges(c: Rgba, target: Rgba, f: int, d: int, k: nat)
    requires
        f > 0,
        channel_dist(c.r, target.r) <= d,
        channel_dist(c.g, target.g) <= d,
        channel_dist(c.b, target.b) <= d,
        k * f >= d,
    ensures
        faded_iter(c, target, f, k) == (Rgba {
            r: target.r,
            g: target.g,
            b: target.b,
            a: c.a,
        }),
{
    lemma_faded_iter_channels(c, target, f, k);
    lemma_fade_converges(c.r, target.r, f, k);
    lemma_fade_converges(c.g, target.g, f, k);
    lemma_fade_converges(c.b, target.b, f, k);
}

/// A foreground/background pair of colors, the full color state of one
/// terminal cell.
#[derive(Clone, Copy, Debug, Eq, PartialEq, Structural)]
pub struct Color {
    pub bg: Rgba,
    pub fg: Rgba,
}

impl Color {
    /// The value `default` returns: opaque black on opaque black.
    pub open spec fn default_spec() -> Color {
        Color { bg: Rgba::default_spec(), fg: Rgba::default_spec() }
    }
}

impl Default for Color {
    fn default() -> (c: Self)
        ensures
            c == Color::default_spec(),
    {
        Self { bg: Rgba::default(), fg: Rgba::default() }
    }
}

/// The numeric value of a hexadecimal digit, or 16 for any other character.
pub open spec fn hex_digit_val(c: char) -> int {
    let u = c as int;
    if 48 <= u <= 57 {
        u - 48
    } else if 97 <= u <= 102 {
        u - 97 + 10
    } else if 65 <= u <= 70 {
        u - 65 + 10
    } else {
        16
    }
}

pub open spec fn is_hex_digit(c: char) -> bool {
    hex_digit_val(c) < 16
}

/// Whether a string is an acceptable `#RRGGBB` color code: exactly seven
/// characters, a leading `#`, then six hexadecimal digits.
pub open spec fn valid_hex_code(s: Seq<char>) -> bool {
    s.len() == 7 && s[0] == '#' && forall|i: int| 1 <= i < 7 ==> is_hex_digit(#[trigger] s[i])
}

/// The channel value written at positions `i` and `i + 1` of a hex code:
/// sixteen times the first digit plus the second.
pub open spec fn hex_pair_val(s: Seq<char>, i: int) -> int {
    16 * hex_digit_val(s[i]) + hex_digit_val(s[i + 1])
}

/// Parses `#RRGGBB` color codes into [`Rgba`] values.
#[derive(Clone, Copy, Debug, Eq, PartialEq, Structural)]
pub struct RgbaParser {}

impl RgbaParser {
    /// Reads a 7-character `#RRGGBB` code — a leading `#`, then two hex
    /// digits per channel — as an opaque color; anything else is rejected.
    pub fn parse(hex_code: &str) -> (res: Result<Rgba, ParseError>)
        ensures
            res is Ok <==> valid_hex_code(hex_code@),
            res matches Ok(c) ==> {
                &&& c.r == hex_pair_val(hex_code@, 1)
                &&& c.g == hex_pair_val(hex_code@, 3)
                &&& c.b == hex_pair_val(hex_code@, 5)
                &&& c.a == 255
            },
    {
        if hex_code.unicode_len() != 7 {
            return Err(ParseError::InvalidValue);
        }
        if hex_code.get_char(0) != '#' {
            return Err(ParseError::InvalidValue);
        }

        let r = match Self::parse_hex_pair(hex_code, 1) {
            Some(v) => v,
            None => {
                return Err(ParseError::InvalidValue);
            },
        };
        let g = match Self::parse_hex_pair(hex_code, 3) {
            Some(v) => v,
            None => {
                return Err(ParseError::InvalidValue);
            },
        };
        let b = match Self::parse_hex_pair(hex_code, 5) {
            Some(v) => v,
            None => {
                return Err(ParseError::InvalidValue);
            },
        };

        Ok(Rgba { r, g, b, a: 255 })
    }

    fn parse_hex_pair(s: &str, i: usize) -> (res: Option<u8>)
        requires
            i + 2 <= s@.len(),
            s@.len() <= usize::MAX,
        ensures
            res is Some <==> is_hex_digit(s@[i as int]) && is_hex_digit(s@[i + 1]),
            res matches Some(v) ==> v == hex_pair_val(s@, i as int),
    {
        let hi = match hex_digit(s.get_char(i)) {
            Some(v) => v,
            None => {
                return None;
            },
        };
        let lo = match hex_digit(s.get_char(i + 1)) {
            Some(v) => v,
            None => {
                return None;
            },
        };
        Some(16 * hi + lo)
    }
}

/// The value of one hexadecimal digit, `None` for any other character.
fn hex_digit(c: char) -> (res: Option<u8>)
    ensures
        res is Some <==> is_hex_digit(c),
        res matches Some(v) ==> v == hex_digit_val(c),
{
    let u = c as u32;
    if u >= 48 && u <= 57 {
        Some((u - 48) as u8)
    } else if u >= 97 && u <= 102 {
        Some((u - 97 + 10) as u8)
    } else if u >= 65 && u <= 70 {
        Some((u - 65 + 10) as u8)
    } else {
        None
    }
}

} // verus!
