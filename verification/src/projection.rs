//! The locally linear map from geographic coordinates to pixel
//! coordinates: the street bounding box is padded by 5% on each axis,
//! scaled uniformly to fit the canvas, and centered on it. The scale is
//! kept as an exact rational (pixels per coordinate unit), and the padded
//! center is kept doubled so that no precision is lost to halving.
use vstd::prelude::*;
use crate::geometry::Bounds;

verus! {

/// A projection from fixed-point geographic coordinates to pixels.
#[derive(Debug, Clone, Copy, PartialEq, Eq, Structural)]
pub struct Projection {
    /// Twice the latitude of the padded center, in coordinate units.
    pub center2_lat: i64,
    /// Twice the longitude of the padded center, in coordinate units.
    pub center2_lon: i64,
    /// Scale numerator: together with the denominator, pixels per unit.
    pub scale_num: i64,
    /// Scale denominator; always positive.
    pub scale_den: i64,
    /// Canvas width in pixels.
    pub width: i64,
    /// Canvas height in pixels.
    pub height: i64,
}

/// The largest canvas side the projection accepts, in pixels.
pub const MAX_CANVAS: i64 = 100000;

/// Truncating division: the quotient rounded toward zero, as the machine
/// computes it for signed integers.
pub open spec fn div_trunc(a: int, b: int) -> int {
    if a >= 0 {
        a / b
    } else {
        -((-a) / b)
    }
}

impl Projection {
    pub open spec fn wf(self) -> bool {
        &&& 1 <= self.width <= MAX_CANVAS
        &&& 1 <= self.height <= MAX_CANVAS
        &&& 1 <= self.scale_num <= MAX_CANVAS
        &&& 1 <= self.scale_den <= 8000000
        &&& -4000000 <= self.center2_lat <= 4000000
        &&& -4000000 <= self.center2_lon <= 4000000
    }

    /// The identity-like projection a canvas starts with, before street
    /// bounds are known.
    pub fn initial(width: i64, height: i64) -> (r: Self)
        requires
            1 <= width <= MAX_CANVAS,
            1 <= height <= MAX_CANVAS,
        ensures
            r.wf(),
            r.center2_lat == 0 && r.center2_lon == 0,
            r.scale_num == 1 && r.scale_den == 1,
            r.width == width && r.height == height,
    {
        Projection {
            center2_lat: 0,
            center2_lon: 0,
            scale_num: 1,
            scale_den: 1,
            width,
            height,
        }
    }
}

/// The projection derived from a street bounding box and a canvas size:
/// the box is padded by one twentieth of its extent on each side, the
/// scale is the smaller of width over longitude range and height over
/// latitude range, and the padded center is mapped to the canvas center.
/// A box with no extent on either axis gets a unit scale.
pub open spec fn projection_for(bounds: Bounds, width: int, height: int) -> Projection {
    let lat_range = bounds.max_lat - bounds.min_lat;
    let lon_range = bounds.max_lon - bounds.min_lon;
    let lat_pad = lat_range / 20;
    let lon_pad = lon_range / 20;
    let lat_range_p = lat_range + 2 * lat_pad;
    let lon_range_p = lon_range + 2 * lon_pad;
    let c2_lat = (bounds.min_lat - lat_pad) + (bounds.max_lat + lat_pad);
    let c2_lon = (bounds.min_lon - lon_pad) + (bounds.max_lon + lon_pad);
    let scale = if lat_range_p == 0 && lon_range_p == 0 {
        (1int, 1int)
    } else if width * lat_range_p <= height * lon_range_p {
        (width, lon_range_p)
    } else {
        (height, lat_range_p)
    };
    Projection {
        center2_lat: c2_lat as i64,
        center2_lon: c2_lon as i64,
        scale_num: scale.0 as i64,
        scale_den: scale.1 as i64,
        width: width as i64,
        height: height as i64,
    }
}

/// Set the coordinate transform for the given geographic bounds and canvas.
pub fn establish_projection(bounds: &Bounds, width: i64, height: i64) -> (r: Projection)
    requires
        bounds.wf(),
        1 <= width <= MAX_CANVAS,
        1 <= height <= MAX_CANVAS,
    ensures
        r == projection_for(*bounds, width as int, height as int),
        r.wf(),
{
    let lat_range = bounds.max_lat - bounds.min_lat;
    let lon_range = bounds.max_lon - bounds.min_lon;
    let lat_pad = lat_range / 20;
    let lon_pad = lon_range / 20;
    let lat_range_p = lat_range + 2 * lat_pad;
    let lon_range_p = lon_range + 2 * lon_pad;
    let c2_lat = (bounds.min_lat - lat_pad) + (bounds.max_lat + lat_pad);
    let c2_lon = (bounds.min_lon - lon_pad) + (bounds.max_lon + lon_pad);
    proof {
        assert(width * lat_range_p <= 100000 * 3960000) by (nonlinear_arith)
            requires
                0 <= width <= 100000,
                0 <= lat_range_p <= 3960000,
        ;
        assert(height * lon_range_p <= 100000 * 7920000) by (nonlinear_arith)
            requires
                0 <= height <= 100000,
                0 <= lon_range_p <= 7920000,
        ;
    }
    let (num, den): (i64, i64) = if lat_range_p == 0 && lon_range_p == 0 {
        (1, 1)
    } else if width * lat_range_p <= height * lon_range_p {
        proof {
            assert(lon_range_p >= 1) by (nonlinear_arith)
                requires
                    width >= 1,
                    lat_range_p >= 0,
                    lon_range_p >= 0,
                    width * lat_range_p <= height * lon_range_p,
                    !(lat_range_p == 0 && lon_range_p == 0),
            ;
        }
        (width, lon_range_p)
    } else {
        proof {
            assert(lat_range_p >= 1) by (nonlinear_arith)
                requires
                    height >= 1,
                    lat_range_p >= 0,
                    lon_range_p >= 0,
                    !(width * lat_range_p <= height * lon_range_p),
            ;
        }
        (height, lat_range_p)
    };
    Projection {
        center2_lat: c2_lat,
        center2_lon: c2_lon,
        scale_num: num,
        scale_den: den,
        width,
        height,
    }
}

/// The horizontal pixel of a longitude under a projection: the offset from
/// the padded center, scaled, plus half the canvas width.
pub open spec fn project_x_spec(p: Projection, lon: int) -> int {
    div_trunc((2 * lon - p.center2_lon) * p.scale_num, 2 * p.scale_den) + p.width / 2
}

/// The vertical pixel of a latitude under a projection: north is up, so
/// the latitude offset is negated before scaling.
pub open spec fn project_y_spec(p: Projection, lat: int) -> int {
    div_trunc((p.center2_lat - 2 * lat) * p.scale_num, 2 * p.scale_den) + p.height / 2
}

/// `project_x_spec` refined to hundredths of a pixel.
pub open spec fn project_x_centi_spec(p: Projection, lon: int) -> int {
    div_trunc((2 * lon - p.center2_lon) * p.scale_num * 100, 2 * p.scale_den) + 100 * (p.width
        / 2)
}

/// `project_y_spec` refined to hundredths of a pixel.
pub open spec fn project_y_centi_spec(p: Projection, lat: int) -> int {
    div_trunc((p.center2_lat - 2 * lat) * p.scale_num * 100, 2 * p.scale_den) + 100 * (p.height
        / 2)
}

/// How far from the padded center a coordinate may lie, in units.
pub open spec fn coord_in_range(p: Projection, lat: int, lon: int) -> bool {
    -8000000 <= 2 * lat - p.center2_lat <= 8000000 && -8000000 <= 2 * lon - p.center2_lon
        <= 8000000
}

fn mul_div_trunc(d2: i64, num: i64, den: i64, hundredths: bool) -> (r: i64)
    requires
        -8000000 <= d2 <= 8000000,
        1 <= num <= MAX_CANVAS,
        1 <= den <= 8000000,
    ensures
        r == div_trunc(
            d2 * num * if hundredths {
                100int
            } else {
                1int
            },
            2 * den,
        ),
        -80000000000000 <= r <= 80000000000000,
{
    let scale: u64 = if hundredths {
        100
    } else {
        1
    };
    let mag: u64 = if d2 >= 0 {
        d2 as u64
    } else {
        (-d2) as u64
    };
    proof {
        assert((mag as int) * (num as int) * (scale as int) <= 80000000000000)
            by (nonlinear_arith)
            requires
                0 <= mag <= 8000000,
                0 <= num <= 100000,
                0 <= scale <= 100,
        ;
    }
    let prod: u64 = mag * (num as u64) * scale;
    let q: u64 = prod / (2 * (den as u64));
    proof {
        assert(q <= prod) by (nonlinear_arith)
            requires
                q == prod as int / (2 * (den as int)),
                den >= 1,
                prod >= 0,
        ;
        let si = scale as int;
        if d2 >= 0 {
            assert((d2 as int) * (num as int) * si == (mag as int) * (num as int) * si);
        } else {
            assert((d2 as int) * (num as int) * si == -((mag as int) * (num as int) * si))
                by (nonlinear_arith)
                requires
                    (d2 as int) == -(mag as int),
            ;
        }
    }
    if d2 >= 0 {
        q as i64
    } else {
        -(q as i64)
    }
}

/// Convert geographic coordinates to screen coordinates, in whole pixels.
/// X grows with longitude; y grows as latitude falls (screen y goes down).
pub fn geo_to_screen(p: &Projection, lat: i64, lon: i64) -> (r: (i64, i64))
    requires
        p.wf(),
        coord_in_range(*p, lat as int, lon as int),
    ensures
        r.0 == project_x_spec(*p, lon as int),
        r.1 == project_y_spec(*p, lat as int),
{
    let dx2 = 2 * lon - p.center2_lon;
    let dy2 = p.center2_lat - 2 * lat;
    let x = mul_div_trunc(dx2, p.scale_num, p.scale_den, false) + p.width / 2;
    let y = mul_div_trunc(dy2, p.scale_num, p.scale_den, false) + p.height / 2;
    (x, y)
}

/// Convert geographic coordinates to screen coordinates, in hundredths of
/// a pixel, for sub-pixel drawing.
pub fn geo_to_screen_centi(p: &Projection, lat: i64, lon: i64) -> (r: (i64, i64))
    requires
        p.wf(),
        coord_in_range(*p, lat as int, lon as int),
    ensures
        r.0 == project_x_centi_spec(*p, lon as int),
        r.1 == project_y_centi_spec(*p, lat as int),
{
    let dx2 = 2 * lon - p.center2_lon;
    let dy2 = p.center2_lat - 2 * lat;
    let x = mul_div_trunc(dx2, p.scale_num, p.scale_den, true) + 100 * (p.width / 2);
    let y = mul_div_trunc(dy2, p.scale_num, p.scale_den, true) + 100 * (p.height / 2);
    (x, y)
}

/// The padded center projects exactly to the canvas center.
pub proof fn lemma_center_projects_to_center(p: Projection, lat: int, lon: int)
    requires
        p.wf(),
        2 * lat == p.center2_lat,
        2 * lon == p.center2_lon,
    ensures
        project_x_spec(p, lon) == p.width / 2,
        project_y_spec(p, lat) == p.height / 2,
{
}

/// Two coordinates at opposite offsets from the padded center project to
/// pixels symmetric about the integer canvas center, on both axes; on a
/// canvas with even sides the coordinate pairs sum to the full width and
/// height.
pub proof fn lemma_projection_symmetric(p: Projection, lat1: int, lon1: int, lat2: int, lon2: int)
    requires
        p.wf(),
        (2 * lon1 - p.center2_lon) == -(2 * lon2 - p.center2_lon),
        (2 * lat1 - p.center2_lat) == -(2 * lat2 - p.center2_lat),
    ensures
        project_x_spec(p, lon1) + project_x_spec(p, lon2) == 2 * (p.width / 2),
        project_y_spec(p, lat1) + project_y_spec(p, lat2) == 2 * (p.height / 2),
        p.width % 2 == 0 ==> project_x_spec(p, lon1) + project_x_spec(p, lon2) == p.width,
        p.height % 2 == 0 ==> project_y_spec(p, lat1) + project_y_spec(p, lat2) == p.height,
{
    let dx = 2 * lon1 - p.center2_lon;
    let dy = p.center2_lat - 2 * lat1;
    assert(div_trunc(dx * p.scale_num, 2 * p.scale_den) + div_trunc(
        (2 * lon2 - p.center2_lon) * p.scale_num,
        2 * p.scale_den,
    ) == 0) by {
        assert((2 * lon2 - p.center2_lon) * p.scale_num == -(dx * p.scale_num))
            by (nonlinear_arith)
            requires
                (2 * lon2 - p.center2_lon) == -dx,
        ;
    }
    assert(div_trunc(dy * p.scale_num, 2 * p.scale_den) + div_trunc(
        (p.center2_lat - 2 * lat2) * p.scale_num,
        2 * p.scale_den,
    ) == 0) by {
        assert((p.center2_lat - 2 * lat2) * p.scale_num == -(dy * p.scale_num))
            by (nonlinear_arith)
            requires
                (p.center2_lat - 2 * lat2) == -dy,
        ;
    }
}

} // verus!
