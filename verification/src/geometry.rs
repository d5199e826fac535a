//! Geographic primitives. Coordinates are fixed-point: latitude and
//! longitude are held in ten-thousandths of a degree, so `407128` stands
//! for 40.7128 degrees. This keeps every computation over the integers
//! while matching the four-decimal precision the service displays.
use vstd::prelude::*;
use vstd::string::StringExecFns;
use crate::highway::HighwayType;
use crate::numeric::{dec_str, u64_to_string};

verus! {

/// A geographic point in ten-thousandths of a degree.
#[derive(Debug, Clone, Copy, PartialEq, Eq, Structural)]
pub struct GeoPoint {
    pub lat: i64,
    pub lon: i64,
}

/// The largest latitude a `GeoPoint` may hold, in ten-thousandths of a degree.
pub const MAX_LAT_UNITS: i64 = 900000;

/// The largest longitude a `GeoPoint` may hold, in ten-thousandths of a degree.
pub const MAX_LON_UNITS: i64 = 1800000;

impl GeoPoint {
    /// A point on the globe: both coordinates within their degree range.
    pub open spec fn wf(self) -> bool {
        -MAX_LAT_UNITS <= self.lat <= MAX_LAT_UNITS && -MAX_LON_UNITS <= self.lon
            <= MAX_LON_UNITS
    }
}

/// A road segment with coordinates and type. A valid segment has at least
/// two points.
#[derive(Debug)]
pub struct RoadSegment {
    pub points: Vec<GeoPoint>,
    pub highway_type: HighwayType,
}

impl RoadSegment {
    pub open spec fn wf(self) -> bool {
        self.points@.len() >= 2 && forall|i: int|
            0 <= i < self.points@.len() ==> (#[trigger] self.points@[i]).wf()
    }
}

impl Clone for RoadSegment {
    fn clone(&self) -> (r: Self)
        ensures
            r.points@ == self.points@,
            r.highway_type == self.highway_type,
    {
        RoadSegment { points: clone_points(&self.points), highway_type: self.highway_type }
    }
}

/// Copy a point list, keeping the points.
pub fn clone_points(points: &Vec<GeoPoint>) -> (r: Vec<GeoPoint>)
    ensures
        r@ == points@,
{
    let mut out: Vec<GeoPoint> = Vec::new();
    let mut i: usize = 0;
    while i < points.len()
        invariant
            i <= points@.len(),
            out@ == points@.take(i as int),
        decreases points@.len() - i,
    {
        out.push(points[i]);
        proof {
            assert(points@.take(i as int + 1) =~= points@.take(i as int).push(points@[i as int]));
        }
        i = i + 1;
    }
    proof {
        assert(points@.take(i as int) =~= points@);
    }
    out
}

/// Whether two road segment lists carry the same geometry and classes.
pub open spec fn segs_eq(a: Seq<RoadSegment>, b: Seq<RoadSegment>) -> bool {
    a.len() == b.len() && forall|i: int|
        0 <= i < a.len() ==> (#[trigger] a[i]).points@ == (#[trigger] b[i]).points@
            && a[i].highway_type == b[i].highway_type
}

/// Copy a road segment list, keeping geometry and classes.
pub fn clone_segments(segments: &Vec<RoadSegment>) -> (r: Vec<RoadSegment>)
    ensures
        segs_eq(r@, segments@),
{
    let mut out: Vec<RoadSegment> = Vec::new();
    let mut i: usize = 0;
    while i < segments.len()
        invariant
            i <= segments@.len(),
            out@.len() == i,
            forall|j: int|
                0 <= j < i ==> (#[trigger] out@[j]).points@ == (
                #[trigger] segments@[j]).points@ && out@[j].highway_type
                    == segments@[j].highway_type,
        decreases segments@.len() - i,
    {
        out.push(segments[i].clone());
        i = i + 1;
    }
    out
}

/// Water or park polygon feature. A valid feature is a ring of at least
/// three points.
#[derive(Debug)]
pub struct AreaFeature {
    pub points: Vec<GeoPoint>,
    pub feature_type: String,
}

impl AreaFeature {
    pub open spec fn wf(self) -> bool {
        self.points@.len() >= 3 && forall|i: int|
            0 <= i < self.points@.len() ==> (#[trigger] self.points@[i]).wf()
    }
}

impl Clone for AreaFeature {
    fn clone(&self) -> (r: Self)
        ensures
            r.points@ == self.points@,
            r.feature_type@ == self.feature_type@,
    {
        AreaFeature { points: clone_points(&self.points), feature_type: self.feature_type.clone() }
    }
}

/// Whether two feature lists carry the same rings and kinds.
pub open spec fn feats_eq(a: Seq<AreaFeature>, b: Seq<AreaFeature>) -> bool {
    a.len() == b.len() && forall|i: int|
        0 <= i < a.len() ==> (#[trigger] a[i]).points@ == (#[trigger] b[i]).points@
            && a[i].feature_type@ == b[i].feature_type@
}

/// Copy a feature list, keeping rings and kinds.
pub fn clone_features(features: &Vec<AreaFeature>) -> (r: Vec<AreaFeature>)
    ensures
        feats_eq(r@, features@),
{
    let mut out: Vec<AreaFeature> = Vec::new();
    let mut i: usize = 0;
    while i < features.len()
        invariant
            i <= features@.len(),
            out@.len() == i,
            forall|j: int|
                0 <= j < i ==> (#[trigger] out@[j]).points@ == (
                #[trigger] features@[j]).points@ && out@[j].feature_type@
                    == features@[j].feature_type@,
        decreases features@.len() - i,
    {
        out.push(features[i].clone());
        i = i + 1;
    }
    out
}

/// A geographic bounding box.
#[derive(Debug, Clone, Copy, PartialEq, Eq, Structural)]
pub struct Bounds {
    pub min_lat: i64,
    pub min_lon: i64,
    pub max_lat: i64,
    pub max_lon: i64,
}

impl Bounds {
    pub open spec fn wf(self) -> bool {
        -MAX_LAT_UNITS <= self.min_lat <= self.max_lat <= MAX_LAT_UNITS && -MAX_LON_UNITS
            <= self.min_lon <= self.max_lon <= MAX_LON_UNITS
    }

    /// Whether the box contains the point.
    pub open spec fn contains(self, p: GeoPoint) -> bool {
        self.min_lat <= p.lat <= self.max_lat && self.min_lon <= p.lon <= self.max_lon
    }
}

fn point_bounds(p: GeoPoint) -> (b: Bounds)
    ensures
        b.min_lat == p.lat && b.max_lat == p.lat && b.min_lon == p.lon && b.max_lon == p.lon,
{
    Bounds { min_lat: p.lat, min_lon: p.lon, max_lat: p.lat, max_lon: p.lon }
}

fn extend_bounds(b: &mut Bounds, p: GeoPoint)
    ensures
        final(b).min_lat == if p.lat < old(b).min_lat { p.lat } else { old(b).min_lat },
        final(b).max_lat == if p.lat > old(b).max_lat { p.lat } else { old(b).max_lat },
        final(b).min_lon == if p.lon < old(b).min_lon { p.lon } else { old(b).min_lon },
        final(b).max_lon == if p.lon > old(b).max_lon { p.lon } else { old(b).max_lon },
{
    if p.lat < b.min_lat {
        b.min_lat = p.lat;
    }
    if p.lat > b.max_lat {
        b.max_lat = p.lat;
    }
    if p.lon < b.min_lon {
        b.min_lon = p.lon;
    }
    if p.lon > b.max_lon {
        b.max_lon = p.lon;
    }
}

/// Whether `b` is the bounding box of all points of the segments: no
/// point lies outside it and each side is attained.
pub open spec fn is_bounds_of(segments: Seq<RoadSegment>, b: Bounds) -> bool {
    &&& forall|i: int, j: int|
        0 <= i < segments.len() && 0 <= j < (#[trigger] segments[i]).points@.len() ==> b.contains(
            #[trigger] segments[i].points@[j],
        )
    &&& exists|i: int, j: int|
        0 <= i < segments.len() && 0 <= j < segments[i].points@.len() && (
        #[trigger] segments[i].points@[j]).lat == b.min_lat
    &&& exists|i: int, j: int|
        0 <= i < segments.len() && 0 <= j < segments[i].points@.len() && (
        #[trigger] segments[i].points@[j]).lat == b.max_lat
    &&& exists|i: int, j: int|
        0 <= i < segments.len() && 0 <= j < segments[i].points@.len() && (
        #[trigger] segments[i].points@[j]).lon == b.min_lon
    &&& exists|i: int, j: int|
        0 <= i < segments.len() && 0 <= j < segments[i].points@.len() && (
        #[trigger] segments[i].points@[j]).lon == b.max_lon
}

/// The bounding box of well-formed segments is itself well-formed.
pub proof fn lemma_bounds_wf(segments: Seq<RoadSegment>, b: Bounds)
    requires
        segments.len() > 0,
        forall|i: int| 0 <= i < segments.len() ==> (#[trigger] segments[i]).wf(),
        is_bounds_of(segments, b),
    ensures
        b.wf(),
{
    let (i1, j1) = choose|i: int, j: int|
        0 <= i < segments.len() && 0 <= j < segments[i].points@.len() && (
        #[trigger] segments[i].points@[j]).lat == b.min_lat;
    assert(segments[i1].points@[j1].wf());
    assert(b.contains(segments[i1].points@[j1]));
    let (i2, j2) = choose|i: int, j: int|
        0 <= i < segments.len() && 0 <= j < segments[i].points@.len() && (
        #[trigger] segments[i].points@[j]).lat == b.max_lat;
    assert(segments[i2].points@[j2].wf());
    assert(b.contains(segments[i2].points@[j2]));
    let (i3, j3) = choose|i: int, j: int|
        0 <= i < segments.len() && 0 <= j < segments[i].points@.len() && (
        #[trigger] segments[i].points@[j]).lon == b.min_lon;
    assert(segments[i3].points@[j3].wf());
    assert(b.contains(segments[i3].points@[j3]));
    let (i4, j4) = choose|i: int, j: int|
        0 <= i < segments.len() && 0 <= j < segments[i].points@.len() && (
        #[trigger] segments[i].points@[j]).lon == b.max_lon;
    assert(segments[i4].points@[j4].wf());
    assert(b.contains(segments[i4].points@[j4]));
}

/// Calculate the bounding box of all points of all road segments: `None`
/// exactly when there are no segments; otherwise each side of the box is
/// attained by some point and no point lies outside it.
pub fn calculate_bounds(segments: &Vec<RoadSegment>) -> (r: Option<Bounds>)
    requires
        forall|i: int| 0 <= i < segments@.len() ==> (#[trigger] segments@[i]).points@.len() >= 1,
    ensures
        r is None <==> segments@.len() == 0,
        r matches Some(b) ==> is_bounds_of(segments@, b),
        r matches Some(b) ==> {
            &&& forall|i: int, j: int|
                0 <= i < segments@.len() && 0 <= j < (#[trigger] segments@[i]).points@.len()
                    ==> b.contains(#[trigger] segments@[i].points@[j])
            &&& exists|i: int, j: int|
                0 <= i < segments@.len() && 0 <= j < segments@[i].points@.len()
                    && (#[trigger] segments@[i].points@[j]).lat == b.min_lat
            &&& exists|i: int, j: int|
                0 <= i < segments@.len() && 0 <= j < segments@[i].points@.len()
                    && (#[trigger] segments@[i].points@[j]).lat == b.max_lat
            &&& exists|i: int, j: int|
                0 <= i < segments@.len() && 0 <= j < segments@[i].points@.len()
                    && (#[trigger] segments@[i].points@[j]).lon == b.min_lon
            &&& exists|i: int, j: int|
                0 <= i < segments@.len() && 0 <= j < segments@[i].points@.len()
                    && (#[trigger] segments@[i].points@[j]).lon == b.max_lon
        },
{
    if segments.len() == 0 {
        return None;
    }
    let first = segments[0].points[0];
    let mut b = point_bounds(first);
    assert(segments@[0].points@[0] == first);
    let mut i: usize = 0;
    while i < segments.len()
        invariant
            forall|k: int|
                0 <= k < segments@.len() ==> (#[trigger] segments@[k]).points@.len() >= 1,
            segments@.len() > 0,
            i <= segments@.len(),
            forall|k: int, j: int|
                0 <= k < i && 0 <= j < (#[trigger] segments@[k]).points@.len() ==> b.contains(
                    #[trigger] segments@[k].points@[j],
                ),
            exists|k: int, j: int|
                0 <= k < segments@.len() && 0 <= j < segments@[k].points@.len()
                    && (#[trigger] segments@[k].points@[j]).lat == b.min_lat,
            exists|k: int, j: int|
                0 <= k < segments@.len() && 0 <= j < segments@[k].points@.len()
                    && (#[trigger] segments@[k].points@[j]).lat == b.max_lat,
            exists|k: int, j: int|
                0 <= k < segments@.len() && 0 <= j < segments@[k].points@.len()
                    && (#[trigger] segments@[k].points@[j]).lon == b.min_lon,
            exists|k: int, j: int|
                0 <= k < segments@.len() && 0 <= j < segments@[k].points@.len()
                    && (#[trigger] segments@[k].points@[j]).lon == b.max_lon,
        decreases segments@.len() - i,
    {
        let seg = &segments[i];
        let mut j: usize = 0;
        while j < seg.points.len()
            invariant
                forall|k: int|
                    0 <= k < segments@.len() ==> (#[trigger] segments@[k]).points@.len() >= 1,
                i < segments@.len(),
                seg == segments@[i as int],
                j <= seg.points@.len(),
                forall|k: int, l: int|
                    0 <= k < i && 0 <= l < (#[trigger] segments@[k]).points@.len() ==> b.contains(
                        #[trigger] segments@[k].points@[l],
                    ),
                forall|l: int| 0 <= l < j ==> b.contains(#[trigger] seg.points@[l]),
                exists|k: int, l: int|
                    0 <= k < segments@.len() && 0 <= l < segments@[k].points@.len()
                        && (#[trigger] segments@[k].points@[l]).lat == b.min_lat,
                exists|k: int, l: int|
                    0 <= k < segments@.len() && 0 <= l < segments@[k].points@.len()
                        && (#[trigger] segments@[k].points@[l]).lat == b.max_lat,
                exists|k: int, l: int|
                    0 <= k < segments@.len() && 0 <= l < segments@[k].points@.len()
                        && (#[trigger] segments@[k].points@[l]).lon == b.min_lon,
                exists|k: int, l: int|
                    0 <= k < segments@.len() && 0 <= l < segments@[k].points@.len()
                        && (#[trigger] segments@[k].points@[l]).lon == b.max_lon,
            decreases seg.points@.len() - j,
        {
            let p = seg.points[j];
            let ghost prev = b;
            extend_bounds(&mut b, p);
            proof {
                if b.min_lat != prev.min_lat {
                    assert(seg.points@[j as int].lat == b.min_lat);
                }
                if b.max_lat != prev.max_lat {
                    assert(seg.points@[j as int].lat == b.max_lat);
                }
                if b.min_lon != prev.min_lon {
                    assert(seg.points@[j as int].lon == b.min_lon);
                }
                if b.max_lon != prev.max_lon {
                    assert(seg.points@[j as int].lon == b.max_lon);
                }
            }
            j = j + 1;
        }
        i = i + 1;
    }
    Some(b)
}

/// Zero padding that brings a fractional part below 10000 to four digits.
pub open spec fn frac4_pad(f: nat) -> Seq<char> {
    (if f < 1000 {
        seq!['0']
    } else {
        Seq::<char>::empty()
    }) + (if f < 100 {
        seq!['0']
    } else {
        Seq::<char>::empty()
    }) + (if f < 10 {
        seq!['0']
    } else {
        Seq::<char>::empty()
    })
}

/// The decimal form of a fixed-point coordinate magnitude: whole degrees,
/// a dot, and exactly four fractional digits.
pub open spec fn fixed4_str(v: nat) -> Seq<char> {
    dec_str(v / 10000) + seq!['.'] + frac4_pad(v % 10000) + dec_str(v % 10000)
}

/// Format a nonnegative fixed-point value with four decimals.
pub fn fixed4_string(v: u64) -> (s: String)
    ensures
        s@ == fixed4_str(v as nat),
{
    let mut s = u64_to_string(v / 10000);
    s.append(".");
    let f = v % 10000;
    if f < 1000 {
        s.append("0");
    }
    if f < 100 {
        s.append("0");
    }
    if f < 10 {
        s.append("0");
    }
    let fs = u64_to_string(f);
    let r = s.concat(fs.as_str());
    proof {
        reveal_strlit(".");
        reveal_strlit("0");
        assert(r@ =~= fixed4_str(v as nat));
    }
    r
}

/// The signed decimal form of a fixed-point coordinate: a minus sign for
/// negative values, then the magnitude with four decimals.
pub open spec fn signed_fixed4_str(v: int) -> Seq<char> {
    if v < 0 {
        seq!['-'] + fixed4_str((-v) as nat)
    } else {
        fixed4_str(v as nat)
    }
}

/// Format a fixed-point coordinate with its sign and four decimals.
pub fn signed_fixed4_string(v: i64) -> (s: String)
    requires
        -MAX_LON_UNITS <= v <= MAX_LON_UNITS,
    ensures
        s@ == signed_fixed4_str(v as int),
{
    if v < 0 {
        let mut s = String::from_str("-");
        let m = fixed4_string((-v) as u64);
        s.append(m.as_str());
        proof {
            reveal_strlit("-");
            assert(s@ =~= signed_fixed4_str(v as int));
        }
        s
    } else {
        fixed4_string(v as u64)
    }
}

/// What coordinate formatting produces: absolute values to four decimals,
/// each with its cardinal letter.
pub open spec fn format_coordinates_spec(lat: int, lon: int) -> Seq<char> {
    fixed4_str(if lat >= 0 {
        lat as nat
    } else {
        (-lat) as nat
    }) + "° "@ + (if lat >= 0 {
        "N"@
    } else {
        "S"@
    }) + ", "@ + fixed4_str(
        if lon >= 0 {
            lon as nat
        } else {
            (-lon) as nat
        },
    ) + "° "@ + (if lon >= 0 {
        "E"@
    } else {
        "W"@
    })
}

/// Format coordinates for display, e.g. `40.7128° N, 74.0060° W`. The
/// inputs are in ten-thousandths of a degree.
pub fn format_coordinates(lat: i64, lon: i64) -> (s: String)
    requires
        -MAX_LAT_UNITS <= lat <= MAX_LAT_UNITS,
        -MAX_LON_UNITS <= lon <= MAX_LON_UNITS,
    ensures
        s@ == format_coordinates_spec(lat as int, lon as int),
{
    let lat_abs: u64 = if lat >= 0 {
        lat as u64
    } else {
        (-lat) as u64
    };
    let lon_abs: u64 = if lon >= 0 {
        lon as u64
    } else {
        (-lon) as u64
    };
    let lat_dir = if lat >= 0 {
        "N"
    } else {
        "S"
    };
    let lon_dir = if lon >= 0 {
        "E"
    } else {
        "W"
    };
    let mut s = fixed4_string(lat_abs);
    s.append("° ");
    s.append(lat_dir);
    s.append(", ");
    let t = fixed4_string(lon_abs);
    s.append(t.as_str());
    s.append("° ");
    s.append(lon_dir);
    proof {
        assert(s@ =~= format_coordinates_spec(lat as int, lon as int));
    }
    s
}

} // verus!
