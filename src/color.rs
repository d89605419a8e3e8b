//! Colors: per-channel tolerance matching and luma brightness.
use vstd::prelude::*;

verus! {

/// One pixel in canonical RGB order.
#[derive(Clone, Copy, Debug, PartialEq, Eq, Structural)]
pub struct Rgb {
    pub r: u8,
    pub g: u8,
    pub b: u8,
}

/// A reference color and the largest per-channel distance still accepted.
#[derive(Clone, Copy, Debug, PartialEq, Eq, Structural)]
pub struct ColorTarget {
    pub color: Rgb,
    pub variation: u8,
}

/// Distance between two channel values.
pub open spec fn channel_distance(a: u8, b: u8) -> int {
    if a >= b {
        a - b
    } else {
        b - a
    }
}

/// Luma-weighted brightness of a pixel, on the scale of one channel.
pub open spec fn luma(p: Rgb) -> int {
    (299 * p.r + 587 * p.g + 114 * p.b) / 1000
}

fn distance(a: u8, b: u8) -> (r: u8)
    ensures
        r == channel_distance(a, b),
{
    if a >= b {
        a - b
    } else {
        b - a
    }
}

impl ColorTarget {
    /// Whether every channel of `p` lies within `variation` of the reference.
    pub open spec fn accepts(&self, p: Rgb) -> bool {
        &&& channel_distance(p.r, self.color.r) <= self.variation
        &&& channel_distance(p.g, self.color.g) <= self.variation
        &&& channel_distance(p.b, self.color.b) <= self.variation
    }

    pub fn matches(&self, pixel: Rgb) -> (r: bool)
        ensures
            r == self.accepts(pixel),
    {
        distance(pixel.r, self.color.r) <= self.variation && distance(pixel.g, self.color.g)
            <= self.variation && distance(pixel.b, self.color.b) <= self.variation
    }

    /// Brightness used for segmentation: 0.299 R + 0.587 G + 0.114 B, rounded down.
    pub fn brightness(pixel: &Rgb) -> (r: u8)
        ensures
            r == luma(*pixel),
    {
        let s: u32 = 299 * (pixel.r as u32) + 587 * (pixel.g as u32) + 114 * (pixel.b as u32);
        (s / 1000) as u8
    }
}

/// Whether some target of `targets` accepts `p`.
pub open spec fn any_accepts(targets: Seq<ColorTarget>, p: Rgb) -> bool {
    exists|i: int| 0 <= i < targets.len() && (#[trigger] targets[i]).accepts(p)
}

/// Whether some target of `targets` matches `pixel`.
pub fn any_matches(targets: &[ColorTarget], pixel: Rgb) -> (r: bool)
    ensures
        r == any_accepts(targets@, pixel),
{
    let mut i: usize = 0;
    while i < targets.len()
        invariant
            0 <= i <= targets@.len(),
            forall|j: int| 0 <= j < i ==> !(#[trigger] targets@[j]).accepts(pixel),
        decreases targets@.len() - i,
    {
        if targets[i].matches(pixel) {
            return true;
        }
        i = i + 1;
    }
    false
}


pub open spec fn target(r: u8, g: u8, b: u8, variation: u8) -> ColorTarget {
    ColorTarget { color: Rgb { r, g, b }, variation }
}

fn make_target(r: u8, g: u8, b: u8, variation: u8) -> (t: ColorTarget)
    ensures
        t == target(r, g, b, variation),
{
    ColorTarget { color: Rgb { r, g, b }, variation }
}

/// The fish marker's shades.
pub open spec fn fish_palette() -> Seq<ColorTarget> {
    seq![target(0x43, 0x4b, 0x5b, 3), target(0x4a, 0x4a, 0x5c, 4), target(0x47, 0x51, 0x5d, 4)]
}

/// The hook bar's shades and its white highlight.
pub open spec fn hook_palette() -> Seq<ColorTarget> {
    seq![
        target(0x84, 0x85, 0x87, 4),
        target(0x78, 0x77, 0x73, 4),
        target(0x7a, 0x78, 0x73, 4),
        target(0xff, 0xff, 0xff, 15),
    ]
}

/// The direction arrows at both ends of the minigame bar.
pub open spec fn arrow_palette() -> Seq<ColorTarget> {
    seq![target(0x5f, 0x3b, 0x34, 4)]
}

/// The bright marker of the shake task: every channel above 250.
pub open spec fn shake_palette() -> Seq<ColorTarget> {
    seq![target(0xff, 0xff, 0xff, 4)]
}

pub fn fish_colors() -> (r: Vec<ColorTarget>)
    ensures
        r@ == fish_palette(),
{
    let r = vec![
        make_target(0x43, 0x4b, 0x5b, 3),
        make_target(0x4a, 0x4a, 0x5c, 4),
        make_target(0x47, 0x51, 0x5d, 4),
    ];
    assert(r@ =~= fish_palette());
    r
}

pub fn hook_colors() -> (r: Vec<ColorTarget>)
    ensures
        r@ == hook_palette(),
{
    let r = vec![
        make_target(0x84, 0x85, 0x87, 4),
        make_target(0x78, 0x77, 0x73, 4),
        make_target(0x7a, 0x78, 0x73, 4),
        make_target(0xff, 0xff, 0xff, 15),
    ];
    assert(r@ =~= hook_palette());
    r
}

pub fn arrow_colors() -> (r: Vec<ColorTarget>)
    ensures
        r@ == arrow_palette(),
{
    let r = vec![make_target(0x5f, 0x3b, 0x34, 4)];
    assert(r@ =~= arrow_palette());
    r
}

pub fn shake_colors() -> (r: Vec<ColorTarget>)
    ensures
        r@ == shake_palette(),
{
    let r = vec![make_target(0xff, 0xff, 0xff, 4)];
    assert(r@ =~= shake_palette());
    r
}

/// A pixel matches a target exactly when each of its channels lies within the
/// target's tolerance of the reference; a channel exactly the tolerance away still
/// matches, one step further does not.
pub proof fn lemma_match_tolerance(t: ColorTarget, p: Rgb)
    ensures
        t.accepts(p) <==> (channel_distance(p.r, t.color.r) <= t.variation && channel_distance(
            p.g,
            t.color.g,
        ) <= t.variation && channel_distance(p.b, t.color.b) <= t.variation),
        channel_distance(p.r, t.color.r) == t.variation && channel_distance(p.g, t.color.g)
            == t.variation && channel_distance(p.b, t.color.b) == t.variation ==> t.accepts(p),
        channel_distance(p.r, t.color.r) == t.variation + 1 ==> !t.accepts(p),
{
}

} // verus!
