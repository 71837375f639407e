//! RGB colours and an integer HSV conversion.
use vstd::prelude::*;

verus! {

/// A 24-bit colour: one byte for each of red, green and blue.
#[derive(Clone, Copy, Debug, PartialEq, Eq, Structural)]
pub struct Colour {
    pub r: u8,
    pub g: u8,
    pub b: u8,
}

/// The colour with the given channels.
pub open spec fn rgb_spec(r: u8, g: u8, b: u8) -> Colour {
    Colour { r, g, b }
}

/// `(v * x) >> 8`: an 8-bit fixed-point product.
pub open spec fn scale(v: int, x: int) -> int {
    (v * x) / 256
}

/// The colour that the integer HSV conversion gives for hue, saturation and
/// value. The hue byte falls into one of six regions of width 43; the part of
/// the hue inside its region, scaled by 6, weighs the two channels that vary.
pub open spec fn hsv_spec(h: u8, s: u8, v: u8) -> Colour {
    if s == 0 {
        rgb_spec(v, v, v)
    } else {
        let region = h / 43;
        let remainder = (h - region * 43) * 6;
        let p = scale(v as int, 255 - s) as u8;
        let q = scale(v as int, 255 - scale(s as int, remainder)) as u8;
        let t = scale(v as int, 255 - scale(s as int, 255 - remainder)) as u8;
        if region == 0 {
            rgb_spec(v, t, p)
        } else if region == 1 {
            rgb_spec(q, v, p)
        } else if region == 2 {
            rgb_spec(p, v, t)
        } else if region == 3 {
            rgb_spec(p, q, v)
        } else if region == 4 {
            rgb_spec(t, p, v)
        } else {
            rgb_spec(v, p, q)
        }
    }
}

proof fn lemma_scale_bounds(v: int, x: int)
    requires
        0 <= v <= 255,
        0 <= x <= 255,
    ensures
        0 <= scale(v, x) <= 254,
{
    assert(0 <= v * x <= 255 * 255) by (nonlinear_arith)
        requires
            0 <= v <= 255,
            0 <= x <= 255,
    ;
}

/// A saturation of zero gives a grey whose three channels are the value,
/// whatever the hue.
pub proof fn lemma_hsv_grey(h: u8, v: u8)
    ensures
        hsv_spec(h, 0, v) == rgb_spec(v, v, v),
{
}

impl Colour {
    /// The colour with the given channels.
    pub fn rgb(r: u8, g: u8, b: u8) -> (c: Colour)
        ensures
            c == rgb_spec(r, g, b),
    {
        Colour { r: r, g: g, b: b }
    }

    /// Converts hue, saturation and value bytes to RGB in integer arithmetic;
    /// every product is shifted right by 8 and truncated.
    pub fn hsv(h: u8, s: u8, v: u8) -> (c: Colour)
        ensures
            c == hsv_spec(h, s, v),
    {
        if s == 0 {
            return Colour { r: v, g: v, b: v };
        }
        let region: u8 = h / 43;
        let remainder: u8 = (h - region * 43) * 6;
        let s32: u32 = s as u32;
        let v32: u32 = v as u32;
        let rem32: u32 = remainder as u32;
        proof {
            lemma_scale_bounds(v as int, 255 - s);
            lemma_scale_bounds(s as int, remainder as int);
            lemma_scale_bounds(s as int, 255 - remainder);
            lemma_scale_bounds(v as int, 255 - scale(s as int, remainder as int));
            lemma_scale_bounds(v as int, 255 - scale(s as int, 255 - remainder));
        }
        assert(s32 * rem32 <= 255 * 255) by (nonlinear_arith)
            requires s32 <= 255, rem32 <= 255;
        assert(s32 * (255 - rem32) <= 255 * 255) by (nonlinear_arith)
            requires s32 <= 255, rem32 <= 255;
        assert(v32 * (255 - s32) <= 255 * 255) by (nonlinear_arith)
            requires v32 <= 255, s32 <= 255;
        let p: u8 = ((v32 * (255 - s32)) / 256) as u8;
        let sr: u32 = (s32 * rem32) / 256;
        let st: u32 = (s32 * (255 - rem32)) / 256;
        assert(v32 * (255 - sr) <= 255 * 255) by (nonlinear_arith)
            requires v32 <= 255, sr <= 255;
        assert(v32 * (255 - st) <= 255 * 255) by (nonlinear_arith)
            requires v32 <= 255, st <= 255;
        let q: u8 = ((v32 * (255 - sr)) / 256) as u8;
        let t: u8 = ((v32 * (255 - st)) / 256) as u8;
        match region {
            0 => Colour { r: v, g: t, b: p },
            1 => Colour { r: q, g: v, b: p },
            2 => Colour { r: p, g: v, b: t },
            3 => Colour { r: p, g: q, b: v },
            4 => Colour { r: t, g: p, b: v },
            _ => Colour { r: v, g: p, b: q },
        }
    }

    pub fn black() -> (c: Colour)
        ensures
            c == rgb_spec(0, 0, 0),
    {
        Self::rgb(0, 0, 0)
    }

    pub fn white() -> (c: Colour)
        ensures
            c == rgb_spec(255, 255, 255),
    {
        Self::rgb(255, 255, 255)
    }

    pub fn red() -> (c: Colour)
        ensures
            c == rgb_spec(255, 0, 0),
    {
        Self::rgb(255, 0, 0)
    }

    pub fn green() -> (c: Colour)
        ensures
            c == rgb_spec(0, 255, 0),
    {
        Self::rgb(0, 255, 0)
    }

    pub fn blue() -> (c: Colour)
        ensures
            c == rgb_spec(0, 0, 255),
    {
        Self::rgb(0, 0, 255)
    }

    pub fn yellow() -> (c: Colour)
        ensures
            c == rgb_spec(255, 255, 0),
    {
        Self::rgb(255, 255, 0)
    }

    pub fn purple() -> (c: Colour)
        ensures
            c == rgb_spec(255, 0, 255),
    {
        Self::rgb(255, 0, 255)
    }

    pub fn light_blue() -> (c: Colour)
        ensures
            c == rgb_spec(0, 255, 255),
    {
        Self::rgb(0, 255, 255)
    }
}

} // verus!
