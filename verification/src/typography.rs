//! Typography: glyph-level text layout and compositing. Glyphs arrive
//! pre-rasterized as coverage bitmaps with integer metrics (the host
//! rasterizes them from its fonts); the library lays them out — summing
//! advances for centering, placing each bitmap by its bearings — and
//! composites every covered pixel onto the canvas with the same blend rule
//! the gradients use.
use vstd::prelude::*;
use vstd::string::StringExecFns;
use crate::colors::{hex_color_spec, parse_hex_color};
use crate::raster::{blend_pixel, blend_spec, ruled, Pixel, PixelBuffer};

verus! {

/// The uppercase form of a string. What `str::to_uppercase` returns
/// depends on the characters alone.
pub uninterp spec fn upper_of(s: Seq<char>) -> Seq<char>;

/// Relies on `str::to_uppercase`: the Unicode uppercase mapping of the
/// characters, in order; empty input gives empty output.
#[verifier::external_body]
pub fn to_upper(s: &str) -> (r: String)
    ensures
        r@ == upper_of(s@),
        s@.len() == 0 ==> r@.len() == 0,
{
    s.to_uppercase()
}

/// The attribution line drawn in the poster's bottom-right corner.
pub fn attribution_text() -> (r: String)
    ensures
        r@ == "Map data © OpenStreetMap"@,
{
    String::from_str("Map data © OpenStreetMap")
}

/// A rasterized glyph: a coverage bitmap in row-major order, its bearings
/// in whole pixels, and its advance width in hundredths of a pixel.
#[derive(Debug)]
pub struct Glyph {
    pub width: usize,
    pub height: usize,
    pub bitmap: Vec<u8>,
    pub xmin: i64,
    pub ymin: i64,
    pub advance_centi: u64,
}

impl Glyph {
    /// The bitmap matches the box, and the metrics are within reason for
    /// any canvas this library accepts.
    pub open spec fn wf(self) -> bool {
        &&& self.bitmap@.len() == self.width * self.height
        &&& self.width <= 10000
        &&& self.height <= 10000
        &&& -100000 <= self.xmin <= 100000
        &&& -100000 <= self.ymin <= 100000
        &&& self.advance_centi <= 10000000
    }
}

/// The sum of advances and letter spacing over a glyph run, in hundredths
/// of a pixel.
pub open spec fn total_advance(glyphs: Seq<Glyph>, spacing: int) -> int
    decreases glyphs.len(),
{
    if glyphs.len() == 0 {
        0
    } else {
        total_advance(glyphs.drop_last(), spacing) + glyphs.last().advance_centi + spacing
    }
}

/// The image after one glyph is composited with its top-left pixel at
/// `(gx0, gy0)`: every covered in-bounds pixel is blended at the bitmap's
/// coverage, everything else stays.
pub open spec fn apply_glyph(
    data: Seq<Pixel>,
    bufw: int,
    g: Glyph,
    gx0: int,
    gy0: int,
    r: u8,
    gr: u8,
    b: u8,
) -> Seq<Pixel> {
    Seq::new(
        data.len(),
        |idx: int|
            {
                let py = idx / bufw;
                let px = idx % bufw;
                if gx0 <= px < gx0 + g.width && gy0 <= py < gy0 + g.height && g.bitmap@[(py - gy0)
                    * g.width + (px - gx0)] > 0 {
                    blend_spec(
                        data[idx],
                        r,
                        gr,
                        b,
                        g.bitmap@[(py - gy0) * g.width + (px - gx0)],
                    )
                } else {
                    data[idx]
                }
            },
    )
}

/// The image after a glyph run is composited left to right from the given
/// cursor: each glyph lands at the cursor plus its bearing, and the cursor
/// advances by the glyph's advance plus the letter spacing.
pub open spec fn apply_run(
    data: Seq<Pixel>,
    bufw: int,
    glyphs: Seq<Glyph>,
    cursor: int,
    y: int,
    spacing: int,
    r: u8,
    g: u8,
    b: u8,
) -> Seq<Pixel>
    decreases glyphs.len(),
{
    if glyphs.len() == 0 {
        data
    } else {
        let gl = glyphs[0];
        let gx0 = glyph_x_px(cursor, gl);
        let gy0 = y - gl.ymin - gl.height;
        apply_run(
            apply_glyph(data, bufw, gl, gx0, gy0, r, g, b),
            bufw,
            glyphs.drop_first(),
            cursor + gl.advance_centi + spacing,
            y,
            spacing,
            r,
            g,
            b,
        )
    }
}

/// The whole-pixel column a glyph starts at: the cursor plus the bearing,
/// rounded toward zero.
pub open spec fn glyph_x_px(cursor: int, g: Glyph) -> int {
    crate::projection::div_trunc(cursor + g.xmin * 100, 100)
}

/// The cursor a run starts from: centered runs first subtract half the
/// total advance from the anchor.
pub open spec fn run_start(x_centi: int, glyphs: Seq<Glyph>, spacing: int, centered: bool) -> int {
    if centered {
        x_centi - total_advance(glyphs, spacing) / 2
    } else {
        x_centi
    }
}

fn glyph_x_px_exec(cursor: i64, g: &Glyph) -> (r: i64)
    requires
        -1000000000000 <= cursor <= 1000000000000,
        g.wf(),
    ensures
        r == glyph_x_px(cursor as int, *g),
        -1000000000000 <= r <= 1000000000000,
{
    let shifted = cursor + g.xmin * 100;
    if shifted >= 0 {
        shifted / 100
    } else {
        -((-shifted) / 100)
    }
}

/// Render a glyph run onto the canvas: layout as `apply_run` describes,
/// starting from the anchor (centered runs center on it). A color string
/// that is not a hex color renders nothing.
pub fn render_text(
    buf: &mut PixelBuffer,
    glyphs: &Vec<Glyph>,
    hex_color: &str,
    x_centi: i64,
    y: i64,
    centered: bool,
    letter_spacing_centi: u64,
)
    requires
        old(buf).wf(),
        forall|i: int| 0 <= i < glyphs@.len() ==> (#[trigger] glyphs@[i]).wf(),
        glyphs@.len() <= 10000,
        -1000000000 <= x_centi <= 1000000000,
        -1000000000 <= y <= 1000000000,
        letter_spacing_centi <= 10000000,
    ensures
        final(buf).wf(),
        final(buf).width == old(buf).width && final(buf).height == old(buf).height,
        match hex_color_spec(hex_color@) {
            Some(c) => final(buf).data@ == apply_run(
                old(buf).data@,
                old(buf).width as int,
                glyphs@,
                run_start(x_centi as int, glyphs@, letter_spacing_centi as int, centered),
                y as int,
                letter_spacing_centi as int,
                c.0,
                c.1,
                c.2,
            ),
            None => final(buf).data@ == old(buf).data@,
        },
{
    let (cr, cg, cb) = match parse_hex_color(hex_color) {
        Some(c) => c,
        None => {
            return ;
        },
    };
    let total = total_advance_exec(glyphs, letter_spacing_centi);
    let start: i64 = if centered {
        x_centi - (total / 2) as i64
    } else {
        x_centi
    };
    let ghost gstart = start as int;
    let mut cursor: i64 = start;
    let mut i: usize = 0;
    proof {
        assert(glyphs@.skip(0) =~= glyphs@);
    }
    while i < glyphs.len()
        invariant
            buf.wf(),
            buf.width == old(buf).width && buf.height == old(buf).height,
            forall|k: int| 0 <= k < glyphs@.len() ==> (#[trigger] glyphs@[k]).wf(),
            glyphs@.len() <= 10000,
            i <= glyphs@.len(),
            letter_spacing_centi <= 10000000,
            -1000000000 <= y <= 1000000000,
            -201000000000 <= gstart <= 201000000000,
            apply_run(
                buf.data@,
                buf.width as int,
                glyphs@.skip(i as int),
                cursor as int,
                y as int,
                letter_spacing_centi as int,
                cr,
                cg,
                cb,
            ) == apply_run(
                old(buf).data@,
                old(buf).width as int,
                glyphs@,
                gstart,
                y as int,
                letter_spacing_centi as int,
                cr,
                cg,
                cb,
            ),
            cursor >= gstart,
            cursor <= gstart + 20000000 * i,
        decreases glyphs@.len() - i,
    {
        let g = &glyphs[i];
        proof {
            assert(glyphs@.skip(i as int)[0] == glyphs@[i as int]);
            assert(glyphs@.skip(i as int).drop_first() =~= glyphs@.skip(i as int + 1));
            assert(20000000 * i <= 200000000000 && 20000000 * (i + 1) <= 200000000000)
                by (nonlinear_arith)
                requires
                    0 <= i < 10000,
            ;
        }
        let gx0 = glyph_x_px_exec(cursor, g);
        let gy0 = y - g.ymin - g.height as i64;
        composite_glyph(buf, g, gx0, gy0, cr, cg, cb);
        cursor = cursor + g.advance_centi as i64 + letter_spacing_centi as i64;
        i = i + 1;
    }
    proof {
        assert(glyphs@.skip(glyphs@.len() as int) =~= Seq::<Glyph>::empty());
    }
}

fn total_advance_exec(glyphs: &Vec<Glyph>, spacing: u64) -> (r: u64)
    requires
        forall|i: int| 0 <= i < glyphs@.len() ==> (#[trigger] glyphs@[i]).wf(),
        glyphs@.len() <= 10000,
        spacing <= 10000000,
    ensures
        r == total_advance(glyphs@, spacing as int),
        r <= 200000000000,
{
    let mut total: u64 = 0;
    let mut i: usize = 0;
    proof {
        assert(glyphs@.take(0) =~= Seq::<Glyph>::empty());
    }
    while i < glyphs.len()
        invariant
            forall|k: int| 0 <= k < glyphs@.len() ==> (#[trigger] glyphs@[k]).wf(),
            glyphs@.len() <= 10000,
            spacing <= 10000000,
            i <= glyphs@.len(),
            total == total_advance(glyphs@.take(i as int), spacing as int),
            total <= 20000000 * i,
        decreases glyphs@.len() - i,
    {
        proof {
            assert(glyphs@.take(i as int + 1).drop_last() =~= glyphs@.take(i as int));
            assert(glyphs@.take(i as int + 1).last() == glyphs@[i as int]);
        }
        total = total + glyphs[i].advance_centi + spacing;
        i = i + 1;
    }
    proof {
        assert(glyphs@.take(glyphs@.len() as int) =~= glyphs@);
    }
    total
}

fn composite_glyph(buf: &mut PixelBuffer, g: &Glyph, gx0: i64, gy0: i64, cr: u8, cg: u8, cb: u8)
    requires
        old(buf).wf(),
        g.wf(),
        -2000000000000 <= gx0 <= 2000000000000,
        -2000000000000 <= gy0 <= 2000000000000,
    ensures
        final(buf).wf(),
        final(buf).width == old(buf).width && final(buf).height == old(buf).height,
        final(buf).data@ == apply_glyph(
            old(buf).data@,
            old(buf).width as int,
            *g,
            gx0 as int,
            gy0 as int,
            cr,
            cg,
            cb,
        ),
{
    let ghost orig = buf.data@;
    let n = buf.data.len();
    let mut idx: usize = 0;
    while idx < n
        invariant
            buf.wf(),
            buf.width == old(buf).width && buf.height == old(buf).height,
            g.wf(),
            n == buf.data@.len() == orig.len(),
            idx <= n,
            -2000000000000 <= gx0 <= 2000000000000,
            -2000000000000 <= gy0 <= 2000000000000,
            forall|i: int| idx <= i < n ==> #[trigger] buf.data@[i] == orig[i],
            forall|i: int|
                0 <= i < idx ==> #[trigger] buf.data@[i] == apply_glyph(
                    orig,
                    buf.width as int,
                    *g,
                    gx0 as int,
                    gy0 as int,
                    cr,
                    cg,
                    cb,
                )[i],
        decreases n - idx,
    {
        let py = (idx / buf.width) as i64;
        let px = (idx % buf.width) as i64;
        proof {
            assert(py <= idx && py >= 0) by (nonlinear_arith)
                requires
                    py == idx as int / buf.width as int,
                    buf.width >= 1,
                    idx >= 0,
            ;
        }
        if gx0 <= px && px < gx0 + g.width as i64 && gy0 <= py && py < gy0 + g.height as i64 {
            let gy = (py - gy0) as usize;
            let gx = (px - gx0) as usize;
            proof {
                assert(gy * g.width + gx < g.width * g.height && gy * g.width <= 100000000 && g
                    .width * g.height <= 100000000) by (nonlinear_arith)
                    requires
                        gy < g.height,
                        gx < g.width,
                        g.width >= 1,
                        g.width <= 10000,
                        g.height <= 10000,
                ;
            }
            let coverage = g.bitmap[gy * g.width + gx];
            if coverage > 0 {
                let cur = buf.data[idx];
                let np = blend_pixel(cur, cr, cg, cb, coverage);
                buf.data.set(idx, np);
            }
        }
        idx = idx + 1;
    }
    proof {
        assert(buf.data@ =~= apply_glyph(
            orig,
            buf.width as int,
            *g,
            gx0 as int,
            gy0 as int,
            cr,
            cg,
            cb,
        ));
    }
}


/// The sizes poster text is rasterized at, in hundredths of a pixel, and
/// the letter spacing of the place and country lines.
#[derive(Debug, Clone, Copy, PartialEq, Eq, Structural)]
pub struct TypographyPlan {
    pub city_size_centi: u64,
    pub city_spacing_centi: u64,
    pub country_size_centi: u64,
    pub country_spacing_centi: u64,
    pub coords_size_centi: u64,
    pub attr_size_centi: u64,
}

/// The poster's type sizes for a canvas height: the place name at 4% of
/// the height with letter spacing at 30% of the size, the country at 1.5%
/// with 20% spacing, the coordinates at 1%, and the attribution at 0.6%.
pub fn typography_plan(height: u64) -> (r: TypographyPlan)
    requires
        height <= 100000,
    ensures
        r.city_size_centi == 4 * height,
        r.city_spacing_centi == 4 * height * 30 / 100,
        r.country_size_centi == 15 * height / 10,
        r.country_spacing_centi == (15 * height / 10) * 20 / 100,
        r.coords_size_centi == height,
        r.attr_size_centi == 6 * height / 10,
{
    let city_size_centi = 4 * height;
    let country_size_centi = 15 * height / 10;
    TypographyPlan {
        city_size_centi,
        city_spacing_centi: city_size_centi * 30 / 100,
        country_size_centi,
        country_spacing_centi: country_size_centi * 20 / 100,
        coords_size_centi: height,
        attr_size_centi: 6 * height / 10,
    }
}

/// The image after the poster's whole typography is composited: the place
/// name centered at 86% of the height, the rule at 87.5%, the country at
/// 90%, the coordinates at 93%, and the attribution right-aligned at 98%.
pub open spec fn poster_typography_spec(
    data: Seq<Pixel>,
    w: int,
    h: int,
    city: Seq<Glyph>,
    country: Seq<Glyph>,
    coords: Seq<Glyph>,
    attr: Seq<Glyph>,
    r: u8,
    g: u8,
    b: u8,
) -> Seq<Pixel> {
    let city_spacing = 4 * h * 30 / 100;
    let country_spacing = (15 * h / 10) * 20 / 100;
    let d1 = apply_run(
        data,
        w,
        city,
        run_start(50 * w, city, city_spacing, true),
        h * 86 / 100,
        city_spacing,
        r,
        g,
        b,
    );
    let d2 = ruled(d1, w, h, h * 875 / 1000, 20, 2, r, g, b);
    let d3 = apply_run(
        d2,
        w,
        country,
        run_start(50 * w, country, country_spacing, true),
        h * 90 / 100,
        country_spacing,
        r,
        g,
        b,
    );
    let d4 = apply_run(d3, w, coords, run_start(50 * w, coords, 0, true), h * 93 / 100, 0, r, g, b);
    apply_run(d4, w, attr, run_start(98 * w, attr, 0, false), h * 98 / 100, 0, r, g, b)
}

/// Render all poster typography (city, country, coordinates, attribution)
/// from pre-rasterized glyph runs. A text color that is not a hex color
/// leaves the canvas untouched.
pub fn render_poster_typography(
    buf: &mut PixelBuffer,
    city: &Vec<Glyph>,
    country: &Vec<Glyph>,
    coords: &Vec<Glyph>,
    attr: &Vec<Glyph>,
    text_color: &str,
)
    requires
        old(buf).wf(),
        forall|i: int| 0 <= i < city@.len() ==> (#[trigger] city@[i]).wf(),
        forall|i: int| 0 <= i < country@.len() ==> (#[trigger] country@[i]).wf(),
        forall|i: int| 0 <= i < coords@.len() ==> (#[trigger] coords@[i]).wf(),
        forall|i: int| 0 <= i < attr@.len() ==> (#[trigger] attr@[i]).wf(),
        city@.len() <= 10000,
        country@.len() <= 10000,
        coords@.len() <= 10000,
        attr@.len() <= 10000,
    ensures
        final(buf).wf(),
        final(buf).width == old(buf).width && final(buf).height == old(buf).height,
        match hex_color_spec(text_color@) {
            Some(c) => final(buf).data@ == poster_typography_spec(
                old(buf).data@,
                old(buf).width as int,
                old(buf).height as int,
                city@,
                country@,
                coords@,
                attr@,
                c.0,
                c.1,
                c.2,
            ),
            None => final(buf).data@ == old(buf).data@,
        },
{
    let w = buf.width;
    let h = buf.height;
    let center_x_centi: i64 = 50 * w as i64;
    let city_spacing: u64 = 4 * (h as u64) * 30 / 100;
    let country_spacing: u64 = (15 * (h as u64) / 10) * 20 / 100;

    let ghost d0 = buf.data@;
    let city_y: i64 = (h as i64) * 86 / 100;
    render_text(buf, city, text_color, center_x_centi, city_y, true, city_spacing);
    let ghost d1 = buf.data@;

    let line_y: usize = h * 875 / 1000;
    buf.render_line(text_color, line_y, 20, 2);
    let ghost d2 = buf.data@;
    proof {
        if hex_color_spec(text_color@) is Some {
            let c = hex_color_spec(text_color@)->Some_0;
            assert(d2 =~= ruled(
                d1,
                w as int,
                h as int,
                (h as int) * 875 / 1000,
                20,
                2,
                c.0,
                c.1,
                c.2,
            ));
        }
    }

    let country_y: i64 = (h as i64) * 90 / 100;
    render_text(buf, country, text_color, center_x_centi, country_y, true, country_spacing);

    let coords_y: i64 = (h as i64) * 93 / 100;
    render_text(buf, coords, text_color, center_x_centi, coords_y, true, 0);

    let attr_y: i64 = (h as i64) * 98 / 100;
    let attr_x_centi: i64 = 98 * w as i64;
    render_text(buf, attr, text_color, attr_x_centi, attr_y, false, 0);
}


} // verus!
