//! The geometry the rasterizer is handed: water and park rings projected
//! to sub-pixel canvas coordinates, and road strokes with their resolved
//! color, their distance-scaled width, and their drawing order (minor
//! roads first, so major roads sit on top).
use vstd::prelude::*;
use vstd::multiset::Multiset;
use vstd::seq_lib::group_to_multiset_ensures;
use crate::colors::{hex_color_spec, parse_hex_color};
use crate::geometry::{AreaFeature, GeoPoint, RoadSegment};
use crate::highway::{
    default_road_color_spec, draw_priority, draw_priority_spec, line_width_tenths_spec,
    theme_key_spec, RoadStyle,
};
use crate::numeric::isqrt_u64;
use crate::projection::{
    geo_to_screen_centi, project_x_centi_spec, project_y_centi_spec, Projection,
};
use crate::theme::{get_theme_color, theme_color_spec, Theme};

verus! {

broadcast use group_to_multiset_ensures;

/// A filled polygon in hundredths of a pixel.
#[derive(Debug)]
pub struct PolygonOp {
    pub points: Vec<(i64, i64)>,
    pub color: (u8, u8, u8),
}

/// A stroked polyline in hundredths of a pixel, with its stroke width in
/// hundredths of a pixel and its drawing priority.
#[derive(Debug)]
pub struct StrokeOp {
    pub points: Vec<(i64, i64)>,
    pub color: (u8, u8, u8),
    pub width_centi: u64,
    pub priority: u8,
}

/// Where a geographic point lands on the canvas, in hundredths of a pixel.
pub open spec fn projected_centi(proj: Projection, p: GeoPoint) -> (i64, i64) {
    (
        project_x_centi_spec(proj, p.lon as int) as i64,
        project_y_centi_spec(proj, p.lat as int) as i64,
    )
}

fn project_points(proj: &Projection, points: &Vec<GeoPoint>) -> (r: Vec<(i64, i64)>)
    requires
        proj.wf(),
        forall|i: int| 0 <= i < points@.len() ==> (#[trigger] points@[i]).wf(),
    ensures
        r@.len() == points@.len(),
        forall|i: int| 0 <= i < points@.len() ==> r@[i] == projected_centi(*proj, points@[i]),
{
    let mut out: Vec<(i64, i64)> = Vec::new();
    let mut i: usize = 0;
    while i < points.len()
        invariant
            proj.wf(),
            forall|k: int| 0 <= k < points@.len() ==> (#[trigger] points@[k]).wf(),
            i <= points@.len(),
            out@.len() == i,
            forall|k: int| 0 <= k < i ==> out@[k] == projected_centi(*proj, points@[k]),
        decreases points@.len() - i,
    {
        let p = points[i];
        let xy = geo_to_screen_centi(proj, p.lat, p.lon);
        out.push(xy);
        i = i + 1;
    }
    out
}

/// Build the fill operations for water or park rings: every ring projected
/// point for point, all in the given color. A color string that is not a
/// hex color yields nothing, and nothing is drawn.
pub fn polygon_ops(features: &Vec<AreaFeature>, proj: &Projection, hex_color: &str) -> (r: Vec<
    PolygonOp,
>)
    requires
        proj.wf(),
        forall|i: int| 0 <= i < features@.len() ==> (#[trigger] features@[i]).wf(),
    ensures
        match hex_color_spec(hex_color@) {
            None => r@.len() == 0,
            Some(c) => {
                &&& r@.len() == features@.len()
                &&& forall|i: int|
                    0 <= i < features@.len() ==> {
                        &&& (#[trigger] r@[i]).color == c
                        &&& r@[i].points@.len() == features@[i].points@.len()
                        &&& forall|j: int|
                            0 <= j < features@[i].points@.len() ==> r@[i].points@[j]
                                == projected_centi(*proj, #[trigger] features@[i].points@[j])
                    }
            },
        },
{
    let color = match parse_hex_color(hex_color) {
        Some(c) => c,
        None => {
            return Vec::new();
        },
    };
    let mut out: Vec<PolygonOp> = Vec::new();
    let mut i: usize = 0;
    while i < features.len()
        invariant
            proj.wf(),
            forall|k: int| 0 <= k < features@.len() ==> (#[trigger] features@[k]).wf(),
            i <= features@.len(),
            out@.len() == i,
            forall|k: int|
                0 <= k < i ==> {
                    &&& (#[trigger] out@[k]).color == color
                    &&& out@[k].points@.len() == features@[k].points@.len()
                    &&& forall|j: int|
                        0 <= j < features@[k].points@.len() ==> out@[k].points@[j]
                            == projected_centi(*proj, #[trigger] features@[k].points@[j])
                },
        decreases features@.len() - i,
    {
        let pts = project_points(proj, &features[i].points);
        out.push(PolygonOp { points: pts, color });
        i = i + 1;
    }
    out
}

/// The squared stroke width of a road, in hundredths of a pixel: the base
/// class width doubled and scaled by the square root of the reference
/// radius over the requested one, so smaller radii give thicker strokes.
pub open spec fn stroke_width_sq(width_tenths: int, distance: int) -> int {
    6000000 * width_tenths * width_tenths / distance
}

/// The stroke width of a highway class at a radius: the integer square
/// root of `stroke_width_sq`.
pub fn stroke_width_centi(width_tenths: u64, distance: u32) -> (r: u64)
    requires
        1 <= width_tenths <= 12,
        distance >= 1,
    ensures
        r * r <= stroke_width_sq(width_tenths as int, distance as int),
        stroke_width_sq(width_tenths as int, distance as int) < (r + 1) * (r + 1),
{
    proof {
        assert(6000000 * width_tenths as int * width_tenths as int <= 864000000)
            by (nonlinear_arith)
            requires
                1 <= width_tenths <= 12,
        ;
        assert(6000000 * width_tenths as int * width_tenths as int >= 0) by (nonlinear_arith)
            requires
                width_tenths >= 1,
        ;
        assert(6000000 * (width_tenths as int * width_tenths as int) == 6000000 * width_tenths as int
            * width_tenths as int) by (nonlinear_arith);
        assert(864000000int / distance as int <= 864000000 && 6000000 * width_tenths as int
            * width_tenths as int / distance as int <= 864000000int / 1) by (nonlinear_arith)
            requires
                distance >= 1,
                0 <= 6000000 * width_tenths as int * width_tenths as int <= 864000000,
        ;
    }
    let q: u64 = 6000000 * width_tenths * width_tenths / (distance as u64);
    isqrt_u64(q)
}

/// What a road segment contributes before sorting: its projected points,
/// its color resolved from the theme by its class key (falling back to the
/// documented per-class default), its drawing priority, and its class
/// width. A segment whose resolved color is not a hex color contributes
/// nothing.
pub open spec fn road_models(
    segments: Seq<RoadSegment>,
    theme: Theme,
    proj: Projection,
) -> Seq<(Seq<(i64, i64)>, (u8, u8, u8), u8, u64)>
    decreases segments.len(),
{
    if segments.len() == 0 {
        Seq::empty()
    } else {
        let rest = road_models(segments.drop_last(), theme, proj);
        let seg = segments.last();
        let hex = theme_color_spec(
            theme,
            theme_key_spec(seg.highway_type),
            default_road_color_spec(seg.highway_type),
        );
        match hex_color_spec(hex) {
            Some(c) => rest.push(
                (
                    Seq::new(seg.points@.len(), |j: int| projected_centi(proj, seg.points@[j])),
                    c,
                    draw_priority_spec(seg.highway_type),
                    line_width_tenths_spec(seg.highway_type),
                ),
            ),
            None => rest,
        }
    }
}

/// Whether the operations are in drawing order: priorities never decrease.
pub open spec fn strokes_sorted(s: Seq<StrokeOp>) -> bool {
    forall|i: int, j: int|
        0 <= i < j < s.len() ==> (#[trigger] s[i]).priority <= (#[trigger] s[j]).priority
}

/// Whether an operation sequence realises the road models at a radius: the
/// same points, colors and priorities, with each width the rounded-down
/// scaled class width.
pub open spec fn strokes_match_models(
    ops: Seq<StrokeOp>,
    models: Seq<(Seq<(i64, i64)>, (u8, u8, u8), u8, u64)>,
    distance: int,
) -> bool {
    &&& ops.len() == models.len()
    &&& forall|i: int|
        0 <= i < ops.len() ==> {
            let m = #[trigger] models[i];
            let op = ops[i];
            &&& op.points@ == m.0
            &&& op.color == m.1
            &&& op.priority == m.2
            &&& op.width_centi * op.width_centi <= stroke_width_sq(m.3 as int, distance)
            &&& stroke_width_sq(m.3 as int, distance) < (op.width_centi + 1) * (op.width_centi
                + 1)
        }
}

/// Build the stroke operations for the road network: one per segment whose
/// theme color resolves, ordered minor-to-major by drawing priority. The
/// result is a permutation, sorted by priority, of operations that realise
/// the road models exactly.
pub fn road_ops(segments: &Vec<RoadSegment>, theme: &Theme, distance: u32, proj: &Projection) -> (
    r: Vec<StrokeOp>)
    requires
        proj.wf(),
        distance >= 1,
        forall|i: int| 0 <= i < segments@.len() ==> (#[trigger] segments@[i]).wf(),
    ensures
        strokes_sorted(r@),
        exists|mid: Seq<StrokeOp>|
            #![auto]
            strokes_match_models(mid, road_models(segments@, *theme, *proj), distance as int)
                && r@.to_multiset() == mid.to_multiset(),
{
    let mut unsorted: Vec<StrokeOp> = Vec::new();
    let mut i: usize = 0;
    proof {
        assert(segments@.take(0) =~= Seq::<RoadSegment>::empty());
    }
    while i < segments.len()
        invariant
            proj.wf(),
            distance >= 1,
            forall|k: int| 0 <= k < segments@.len() ==> (#[trigger] segments@[k]).wf(),
            i <= segments@.len(),
            strokes_match_models(
                unsorted@,
                road_models(segments@.take(i as int), *theme, *proj),
                distance as int,
            ),
        decreases segments@.len() - i,
    {
        let seg = &segments[i];
        proof {
            assert(segments@.take(i as int + 1).drop_last() =~= segments@.take(i as int));
            assert(segments@.take(i as int + 1).last() == segments@[i as int]);
        }
        let style = RoadStyle::for_highway(seg.highway_type);
        let hex = get_theme_color(theme, style.color_key, style.default_color);
        match parse_hex_color(hex.as_str()) {
            Some(color) => {
                let pts = project_points(proj, &seg.points);
                let width = stroke_width_centi(seg.highway_type.line_width_tenths(), distance);
                let op = StrokeOp {
                    points: pts,
                    color,
                    width_centi: width,
                    priority: draw_priority(seg.highway_type),
                };
                proof {
                    let m = road_models(segments@.take(i as int + 1), *theme, *proj);
                    assert(m.drop_last() =~= road_models(segments@.take(i as int), *theme, *proj));
                    assert(op.points@ =~= m.last().0);
                }
                unsorted.push(op);
            },
            None => {},
        }
        i = i + 1;
    }
    proof {
        assert(segments@.take(segments@.len() as int) =~= segments@);
    }
    let ghost mid = unsorted@;
    let r = sort_strokes(unsorted);
    r
}

/// Sort stroke operations by priority ascending, keeping exactly the same
/// operations.
fn sort_strokes(input: Vec<StrokeOp>) -> (r: Vec<StrokeOp>)
    ensures
        strokes_sorted(r@),
        r@.to_multiset() == input@.to_multiset(),
{
    let ghost orig = input@;
    let mut work = input;
    let mut out: Vec<StrokeOp> = Vec::new();
    while work.len() > 0
        invariant
            out@.to_multiset().add(work@.to_multiset()) =~= orig.to_multiset(),
            strokes_sorted(out@),
            forall|i: int, j: int|
                0 <= i < out@.len() && 0 <= j < work@.len() ==> (#[trigger] out@[i]).priority <= (
                #[trigger] work@[j]).priority,
        decreases work@.len(),
    {
        let mut m: usize = 0;
        let mut k: usize = 1;
        while k < work.len()
            invariant
                work@.len() >= 1,
                m < k <= work@.len(),
                forall|j: int|
                    0 <= j < k ==> work@[m as int].priority <= (#[trigger] work@[j]).priority,
            decreases work@.len() - k,
        {
            if work[k].priority < work[m].priority {
                m = k;
            }
            k = k + 1;
        }
        let ghost pre = work@;
        let x = work.remove(m);
        proof {
            assert(pre.remove(m as int).to_multiset() =~= pre.to_multiset().remove(pre[m as int]));
            assert(out@.push(x).to_multiset() =~= out@.to_multiset().insert(x));
            assert(out@.to_multiset().insert(x).add(pre.to_multiset().remove(x)) =~= out@
                .to_multiset().add(pre.to_multiset())) by {
                assert(pre.to_multiset().contains(x)) by {
                    assert(pre.to_multiset().count(x) > 0);
                }
            }
            assert(forall|j: int|
                0 <= j < work@.len() ==> x.priority <= (#[trigger] work@[j]).priority) by {
                assert(forall|j: int| 0 <= j < m ==> work@[j] == pre[j]);
                assert(forall|j: int|
                    m <= j < work@.len() ==> #[trigger] work@[j] == pre[j + 1]);
            }
        }
        out.push(x);
    }
    proof {
        assert(work@.to_multiset() =~= Multiset::<StrokeOp>::empty());
        assert(out@.to_multiset() =~= orig.to_multiset());
    }
    out
}

} // verus!
