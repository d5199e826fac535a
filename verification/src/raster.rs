//! The pixel model of the rendering engine: premultiplied RGBA pixels,
//! "over" alpha compositing in integer arithmetic, background fill, the
//! two gradient fade bands, and the decorative rule. Each operation's
//! contract gives the new value of every pixel.
use vstd::prelude::*;
use crate::colors::hex_color_spec;
use crate::colors::parse_hex_color;

verus! {

/// A premultiplied RGBA pixel: each color channel is scaled by coverage,
/// so no channel exceeds the alpha.
#[derive(Debug, Clone, Copy, PartialEq, Eq, Structural)]
pub struct Pixel {
    pub r: u8,
    pub g: u8,
    pub b: u8,
    pub a: u8,
}

/// Premultiplied well-formedness: no channel above the alpha.
pub open spec fn pixel_wf(p: Pixel) -> bool {
    p.r <= p.a && p.g <= p.a && p.b <= p.a
}

/// A fully transparent pixel.
pub open spec fn transparent() -> Pixel {
    Pixel { r: 0, g: 0, b: 0, a: 0 }
}

/// An opaque pixel of the given color.
pub open spec fn opaque(r: u8, g: u8, b: u8) -> Pixel {
    Pixel { r, g, b, a: 255 }
}

/// The "over" operator in integer arithmetic: the destination is
/// un-premultiplied, blended with the source color at the given coverage,
/// and re-premultiplied. Zero coverage leaves the destination untouched; a
/// transparent destination takes the premultiplied source directly.
pub open spec fn blend_spec(dst: Pixel, r: u8, g: u8, b: u8, alpha: u8) -> Pixel {
    if alpha == 0 {
        dst
    } else if dst.a == 0 {
        Pixel {
            r: (r * alpha / 255) as u8,
            g: (g * alpha / 255) as u8,
            b: (b * alpha / 255) as u8,
            a: alpha,
        }
    } else {
        let er = dst.r as int * 255 / dst.a as int;
        let eg = dst.g as int * 255 / dst.a as int;
        let eb = dst.b as int * 255 / dst.a as int;
        let na = alpha + dst.a as int * (255 - alpha) / 255;
        let nr = (r * alpha + er * (255 - alpha)) / 255;
        let ng = (g * alpha + eg * (255 - alpha)) / 255;
        let nb = (b * alpha + eb * (255 - alpha)) / 255;
        Pixel {
            r: (nr * na / 255) as u8,
            g: (ng * na / 255) as u8,
            b: (nb * na / 255) as u8,
            a: na as u8,
        }
    }
}

proof fn lemma_mul_div_le(x: int, y: int, d: int)
    requires
        0 <= x,
        0 <= y <= d,
        0 < d,
    ensures
        x * y / d <= x,
    decreases 0int,
{
    assert(x * y <= x * d) by (nonlinear_arith)
        requires
            0 <= x,
            y <= d,
    ;
    assert(x * d / d == x) by (nonlinear_arith)
        requires
            0 < d,
    ;
    assert(x * y / d <= x * d / d) by (nonlinear_arith)
        requires
            x * y <= x * d,
            0 < d,
    ;
}

/// Blending produces a well-formed pixel, and its channels fit in a byte.
pub proof fn lemma_blend_wf(dst: Pixel, r: u8, g: u8, b: u8, alpha: u8)
    requires
        pixel_wf(dst),
    ensures
        pixel_wf(blend_spec(dst, r, g, b, alpha)),
{
    if alpha != 0 && dst.a == 0 {
        lemma_mul_div_le(alpha as int, r as int, 255);
        assert(r * alpha == alpha as int * r) by (nonlinear_arith);
        lemma_mul_div_le(alpha as int, g as int, 255);
        assert(g * alpha == alpha as int * g) by (nonlinear_arith);
        lemma_mul_div_le(alpha as int, b as int, 255);
        assert(b * alpha == alpha as int * b) by (nonlinear_arith);
    }
    if alpha != 0 && dst.a != 0 {
        let er = dst.r as int * 255 / dst.a as int;
        let eg = dst.g as int * 255 / dst.a as int;
        let eb = dst.b as int * 255 / dst.a as int;
        let na = alpha + dst.a as int * (255 - alpha) / 255;
        lemma_mul_div_le(255, dst.r as int, dst.a as int);
        assert(dst.r as int * 255 == 255 * dst.r as int) by (nonlinear_arith);
        assert(er <= 255);
        lemma_mul_div_le(255, dst.g as int, dst.a as int);
        assert(dst.g as int * 255 == 255 * dst.g as int) by (nonlinear_arith);
        assert(eg <= 255);
        lemma_mul_div_le(255, dst.b as int, dst.a as int);
        assert(dst.b as int * 255 == 255 * dst.b as int) by (nonlinear_arith);
        assert(eb <= 255);
        lemma_mul_div_le(255 - alpha, dst.a as int, 255);
        assert(dst.a as int * (255 - alpha) == (255 - alpha) * dst.a as int) by (nonlinear_arith);
        assert(dst.a as int * (255 - alpha) / 255 <= 255 - alpha);
        assert(na <= 255);
        let nr = (r * alpha + er * (255 - alpha)) / 255;
        assert(r * alpha + er * (255 - alpha) <= 255 * 255) by (nonlinear_arith)
            requires
                r <= 255 && alpha <= 255 && er <= 255,
        ;
        assert(nr <= 255);
        lemma_mul_div_le(na, nr, 255);
        assert(nr * na == na * nr) by (nonlinear_arith);
        let ng = (g * alpha + eg * (255 - alpha)) / 255;
        assert(g * alpha + eg * (255 - alpha) <= 255 * 255) by (nonlinear_arith)
            requires
                g <= 255 && alpha <= 255 && eg <= 255,
        ;
        lemma_mul_div_le(na, ng, 255);
        assert(ng * na == na * ng) by (nonlinear_arith);
        let nb = (b * alpha + eb * (255 - alpha)) / 255;
        assert(b * alpha + eb * (255 - alpha) <= 255 * 255) by (nonlinear_arith)
            requires
                b <= 255 && alpha <= 255 && eb <= 255,
        ;
        lemma_mul_div_le(na, nb, 255);
        assert(nb * na == na * nb) by (nonlinear_arith);
    }
}

/// Compositing at zero coverage is the identity: the band edges where the
/// gradient alpha reaches zero leave the image untouched.
pub proof fn lemma_blend_zero_alpha(dst: Pixel, r: u8, g: u8, b: u8)
    ensures
        blend_spec(dst, r, g, b, 0) == dst,
{
}

/// Compositing at full coverage replaces the pixel outright with the
/// opaque source color.
pub proof fn lemma_blend_full_alpha(dst: Pixel, r: u8, g: u8, b: u8)
    requires
        pixel_wf(dst),
    ensures
        blend_spec(dst, r, g, b, 255) == opaque(r, g, b),
{
    assert(r * 255 / 255 == r) by (nonlinear_arith);
    assert(g * 255 / 255 == g) by (nonlinear_arith);
    assert(b * 255 / 255 == b) by (nonlinear_arith);
    if dst.a != 0 {
        let er = dst.r as int * 255 / dst.a as int;
        assert(dst.a as int * (255 - 255) / 255 == 0);
        assert(er * (255 - 255) == 0) by (nonlinear_arith);
        assert((r * 255 + er * 0) / 255 == r as int) by (nonlinear_arith);
        let eg = dst.g as int * 255 / dst.a as int;
        assert((g * 255 + eg * 0) / 255 == g as int) by (nonlinear_arith);
        let eb = dst.b as int * 255 / dst.a as int;
        assert((b * 255 + eb * 0) / 255 == b as int) by (nonlinear_arith);
    }
}

/// Blend a color onto an existing pixel using alpha compositing.
pub fn blend_pixel(dst: Pixel, r: u8, g: u8, b: u8, alpha: u8) -> (out: Pixel)
    requires
        pixel_wf(dst),
    ensures
        out == blend_spec(dst, r, g, b, alpha),
        pixel_wf(out),
{
    proof {
        lemma_blend_wf(dst, r, g, b, alpha);
        assert(r as int * alpha as int <= 65025 && g as int * alpha as int <= 65025 && b as int
            * alpha as int <= 65025) by (nonlinear_arith)
            requires
                r <= 255 && g <= 255 && b <= 255 && alpha <= 255,
        ;
    }
    if alpha == 0 {
        return dst;
    }
    if dst.a == 0 {
        return Pixel {
            r: ((r as u32) * (alpha as u32) / 255) as u8,
            g: ((g as u32) * (alpha as u32) / 255) as u8,
            b: ((b as u32) * (alpha as u32) / 255) as u8,
            a: alpha,
        };
    }
    proof {
        assert(dst.r as int * 255 <= 65025 && dst.g as int * 255 <= 65025 && dst.b as int * 255
            <= 65025) by (nonlinear_arith)
            requires
                dst.r <= 255 && dst.g <= 255 && dst.b <= 255,
        ;
        lemma_mul_div_le(255, dst.r as int, dst.a as int);
        lemma_mul_div_le(255, dst.g as int, dst.a as int);
        lemma_mul_div_le(255, dst.b as int, dst.a as int);
        assert(dst.r as int * 255 == 255 * dst.r as int && dst.g as int * 255 == 255
            * dst.g as int && dst.b as int * 255 == 255 * dst.b as int) by (nonlinear_arith);
    }
    let er: u32 = (dst.r as u32) * 255 / (dst.a as u32);
    let eg: u32 = (dst.g as u32) * 255 / (dst.a as u32);
    let eb: u32 = (dst.b as u32) * 255 / (dst.a as u32);
    let inv: u32 = 255 - (alpha as u32);
    proof {
        assert(er <= 255 && eg <= 255 && eb <= 255);
        assert(er * inv <= 65025 && eg * inv <= 65025 && eb * inv <= 65025 && dst.a as int * inv
            <= 65025) by (nonlinear_arith)
            requires
                er <= 255 && eg <= 255 && eb <= 255 && inv <= 255 && dst.a <= 255,
        ;
        lemma_mul_div_le(inv as int, dst.a as int, 255);
        assert(dst.a as int * inv == inv * dst.a as int) by (nonlinear_arith);
    }
    let na: u32 = (alpha as u32) + (dst.a as u32) * inv / 255;
    let nr: u32 = ((r as u32) * (alpha as u32) + er * inv) / 255;
    let ng: u32 = ((g as u32) * (alpha as u32) + eg * inv) / 255;
    let nb: u32 = ((b as u32) * (alpha as u32) + eb * inv) / 255;
    proof {
        assert(na <= 255);
        assert(nr <= 255 && ng <= 255 && nb <= 255) by (nonlinear_arith)
            requires
                nr == ((r as int) * (alpha as int) + er * inv) / 255,
                ng == ((g as int) * (alpha as int) + eg * inv) / 255,
                nb == ((b as int) * (alpha as int) + eb * inv) / 255,
                r <= 255 && g <= 255 && b <= 255,
                er <= 255 && eg <= 255 && eb <= 255,
                inv == 255 - alpha,
                alpha <= 255,
        ;
        assert(nr * na <= 65025 && ng * na <= 65025 && nb * na <= 65025) by (nonlinear_arith)
            requires
                nr <= 255 && ng <= 255 && nb <= 255 && na <= 255,
        ;
    }
    Pixel { r: (nr * na / 255) as u8, g: (ng * na / 255) as u8, b: (nb * na / 255) as u8, a: (
    na) as u8 }
}

/// Location for gradient fade.
#[derive(Debug, Clone, Copy, PartialEq, Eq, Structural)]
pub enum GradientLocation {
    Top,
    Bottom,
}

/// The height of each fade band: a quarter of the canvas.
pub open spec fn band_height(height: int) -> int {
    height / 4
}

/// Whether row `y` lies in the fade band.
pub open spec fn in_band(loc: GradientLocation, y: int, height: int) -> bool {
    match loc {
        GradientLocation::Top => y < band_height(height),
        GradientLocation::Bottom => y >= height - band_height(height),
    }
}

/// The coverage of the fade at row `y`: full at the canvas edge, falling
/// linearly to nothing at the inner edge of the band.
pub open spec fn band_alpha(loc: GradientLocation, y: int, height: int) -> int {
    let gh = band_height(height);
    match loc {
        GradientLocation::Top => 255 * (gh - y) / gh,
        GradientLocation::Bottom => 255 * (y - (height - gh) + 1) / gh,
    }
}

/// A pixel buffer in row-major order, top row first.
#[derive(Debug)]
pub struct PixelBuffer {
    pub width: usize,
    pub height: usize,
    pub data: Vec<Pixel>,
}

/// The image after a fade band is composited over it.
pub open spec fn faded(
    data: Seq<Pixel>,
    width: int,
    height: int,
    r: u8,
    g: u8,
    b: u8,
    loc: GradientLocation,
) -> Seq<Pixel> {
    Seq::new(
        data.len(),
        |idx: int|
            if in_band(loc, idx / width, height) {
                blend_spec(data[idx], r, g, b, band_alpha(loc, idx / width, height) as u8)
            } else {
                data[idx]
            },
    )
}

impl PixelBuffer {
    /// The size is consistent, within the canvas limit, and every pixel is
    /// premultiplied.
    pub open spec fn wf(self) -> bool {
        &&& self.data@.len() == self.width * self.height
        &&& 1 <= self.width <= 100000
        &&& 1 <= self.height <= 100000
        &&& self.width * self.height <= 100000000
        &&& forall|i: int| 0 <= i < self.data@.len() ==> pixel_wf(#[trigger] self.data@[i])
    }

    /// A transparent buffer of the given size.
    pub fn new(width: usize, height: usize) -> (r: Self)
        requires
            1 <= width <= 100000,
            1 <= height <= 100000,
            width * height <= 100000000,
        ensures
            r.wf(),
            r.width == width && r.height == height,
            forall|i: int| 0 <= i < r.data@.len() ==> r.data@[i] == transparent(),
    {
        let n = width * height;
        let p = Pixel { r: 0, g: 0, b: 0, a: 0 };
        let data: Vec<Pixel> = vec![p; n];
        PixelBuffer { width, height, data }
    }

    /// Fill the entire canvas with a color; a string that is not a hex
    /// color leaves the canvas untouched.
    pub fn fill_background(&mut self, hex_color: &str)
        requires
            old(self).wf(),
        ensures
            final(self).wf(),
            final(self).width == old(self).width && final(self).height == old(self).height,
            match hex_color_spec(hex_color@) {
                Some(c) => forall|i: int|
                    0 <= i < final(self).data@.len() ==> final(self).data@[i] == opaque(
                        c.0,
                        c.1,
                        c.2,
                    ),
                None => final(self).data@ == old(self).data@,
            },
            final(self).data@.len() == old(self).data@.len(),
    {
        match parse_hex_color(hex_color) {
            Some((r, g, b)) => {
                let n = self.data.len();
                let p = Pixel { r, g, b, a: 255 };
                self.data = vec![p; n];
            },
            None => {},
        }
    }

    /// Apply a gradient fade overlay: within the band each pixel is
    /// composited with the color at the row's coverage; outside the band
    /// nothing changes. A string that is not a hex color does nothing.
    pub fn apply_gradient_fade(&mut self, hex_color: &str, location: GradientLocation)
        requires
            old(self).wf(),
        ensures
            final(self).wf(),
            final(self).width == old(self).width && final(self).height == old(self).height,
            match hex_color_spec(hex_color@) {
                Some(c) => final(self).data@ == faded(
                    old(self).data@,
                    old(self).width as int,
                    old(self).height as int,
                    c.0,
                    c.1,
                    c.2,
                    location,
                ),
                None => final(self).data@ == old(self).data@,
            },
    {
        let (r, g, b) = match parse_hex_color(hex_color) {
            Some(c) => c,
            None => {
                return ;
            },
        };
        let ghost orig = self.data@;
        let gh = self.height / 4;
        let n = self.data.len();
        let mut idx: usize = 0;
        while idx < n
            invariant
                self.wf(),
                self.width == old(self).width && self.height == old(self).height,
                n == self.data@.len() == orig.len(),
                idx <= n,
                gh == band_height(self.height as int),
                hex_color_spec(hex_color@) == Some::<(u8, u8, u8)>((r, g, b)),
                forall|i: int|
                    idx <= i < n ==> #[trigger] self.data@[i] == orig[i],
                forall|i: int|
                    0 <= i < idx ==> #[trigger] self.data@[i] == (if in_band(
                        location,
                        i / self.width as int,
                        self.height as int,
                    ) {
                        blend_spec(
                            orig[i],
                            r,
                            g,
                            b,
                            band_alpha(location, i / self.width as int, self.height as int) as u8,
                        )
                    } else {
                        orig[i]
                    }),
            decreases n - idx,
        {
            let y = idx / self.width;
            proof {
                assert(y <= idx && y < self.height) by (nonlinear_arith)
                    requires
                        y == idx as int / self.width as int,
                        self.width >= 1,
                        0 <= idx < self.width * self.height,
                ;
            }
            let hit = match location {
                GradientLocation::Top => y < gh,
                GradientLocation::Bottom => y + gh >= self.height,
            };
            if hit {
                let alpha_wide: usize = match location {
                    GradientLocation::Top => 255 * (gh - y) / gh,
                    GradientLocation::Bottom => 255 * (y - (self.height - gh) + 1) / gh,
                };
                proof {
                    assert(gh >= 1);
                    match location {
                        GradientLocation::Top => {
                            lemma_mul_div_le(255, gh - y as int, gh as int);
                            assert(255 * (gh - y as int) == 255 * (gh - y as int));
                        },
                        GradientLocation::Bottom => {
                            lemma_mul_div_le(
                                255,
                                y as int - (self.height - gh) + 1,
                                gh as int,
                            );
                        },
                    }
                }
                let alpha: u8 = alpha_wide as u8;
                let cur = self.data[idx];
                let np = blend_pixel(cur, r, g, b, alpha);
                self.data.set(idx, np);
            }
            idx = idx + 1;
        }
        proof {
            assert(self.data@ =~= faded(
                orig,
                self.width as int,
                self.height as int,
                r,
                g,
                b,
                location,
            ));
        }
    }

    /// Apply both gradient fades: the bottom band, then the top band.
    pub fn apply_gradient_fades(&mut self, hex_color: &str)
        requires
            old(self).wf(),
        ensures
            final(self).wf(),
            final(self).width == old(self).width && final(self).height == old(self).height,
            match hex_color_spec(hex_color@) {
                Some(c) => final(self).data@ == faded(
                    faded(
                        old(self).data@,
                        old(self).width as int,
                        old(self).height as int,
                        c.0,
                        c.1,
                        c.2,
                        GradientLocation::Bottom,
                    ),
                    old(self).width as int,
                    old(self).height as int,
                    c.0,
                    c.1,
                    c.2,
                    GradientLocation::Top,
                ),
                None => final(self).data@ == old(self).data@,
            },
    {
        self.apply_gradient_fade(hex_color, GradientLocation::Bottom);
        self.apply_gradient_fade(hex_color, GradientLocation::Top);
    }

    /// Draw the decorative horizontal rule: a solid bar of the color,
    /// centered, spanning the given share of the width, `thickness` rows
    /// tall starting at row `y`. A string that is not a hex color does
    /// nothing.
    pub fn render_line(
        &mut self,
        hex_color: &str,
        y: usize,
        width_percent: usize,
        thickness: usize,
    )
        requires
            old(self).wf(),
            width_percent <= 100,
            y <= 100000,
            thickness <= 100000,
        ensures
            final(self).wf(),
            final(self).width == old(self).width && final(self).height == old(self).height,
            final(self).data@.len() == old(self).data@.len(),
            match hex_color_spec(hex_color@) {
                Some(c) => forall|i: int|
                    0 <= i < final(self).data@.len() ==> #[trigger] final(self).data@[i] == (
                    if rule_covers(
                        i,
                        old(self).width as int,
                        old(self).height as int,
                        y as int,
                        width_percent as int,
                        thickness as int,
                    ) {
                        opaque(c.0, c.1, c.2)
                    } else {
                        old(self).data@[i]
                    }),
                None => final(self).data@ == old(self).data@,
            },
    {
        let (r, g, b) = match parse_hex_color(hex_color) {
            Some(c) => c,
            None => {
                return ;
            },
        };
        let ghost orig = self.data@;
        proof {
            assert(self.width * width_percent <= 10000000 && self.width * width_percent / 100
                <= self.width) by (nonlinear_arith)
                requires
                    self.width <= 100000,
                    width_percent <= 100,
        ;
        }
        let line_width = self.width * width_percent / 100;
        let start_x = (self.width - line_width) / 2;
        let end_x = start_x + line_width;
        let end_y = if y + thickness < self.height {
            y + thickness
        } else {
            self.height
        };
        let n = self.data.len();
        let mut idx: usize = 0;
        while idx < n
            invariant
                self.wf(),
                self.width == old(self).width && self.height == old(self).height,
                n == self.data@.len() == orig.len(),
                idx <= n,
                line_width == self.width * width_percent as int / 100,
                start_x == (self.width - line_width) as int / 2,
                end_x == start_x + line_width,
                end_y == (if y + thickness < self.height {
                    y as int + thickness
                } else {
                    self.height as int
                }),
                hex_color_spec(hex_color@) == Some::<(u8, u8, u8)>((r, g, b)),
                width_percent <= 100,
                forall|i: int| idx <= i < n ==> #[trigger] self.data@[i] == orig[i],
                forall|i: int|
                    0 <= i < idx ==> #[trigger] self.data@[i] == (if rule_covers(
                        i,
                        self.width as int,
                        self.height as int,
                        y as int,
                        width_percent as int,
                        thickness as int,
                    ) {
                        opaque(r, g, b)
                    } else {
                        orig[i]
                    }),
            decreases n - idx,
        {
            let row = idx / self.width;
            let col = idx % self.width;
            if y <= row && row < end_y && start_x <= col && col < end_x {
                self.data.set(idx, Pixel { r, g, b, a: 255 });
            }
            idx = idx + 1;
        }
    }
}

/// The image after the rule is drawn over it.
pub open spec fn ruled(
    data: Seq<Pixel>,
    width: int,
    height: int,
    y: int,
    width_percent: int,
    thickness: int,
    r: u8,
    g: u8,
    b: u8,
) -> Seq<Pixel> {
    Seq::new(
        data.len(),
        |i: int|
            if rule_covers(i, width, height, y, width_percent, thickness) {
                opaque(r, g, b)
            } else {
                data[i]
            },
    )
}

/// Whether the rule covers the pixel at index `i`: its row lies within
/// `thickness` rows from `y` (clipped to the canvas) and its column within
/// the centered span.
pub open spec fn rule_covers(
    i: int,
    width: int,
    height: int,
    y: int,
    width_percent: int,
    thickness: int,
) -> bool {
    let line_width = width * width_percent / 100;
    let start_x = (width - line_width) / 2;
    let end_x = start_x + line_width;
    let end_y = if y + thickness < height {
        y + thickness
    } else {
        height
    };
    let row = i / width;
    let col = i % width;
    y <= row < end_y && start_x <= col < end_x
}

} // verus!
