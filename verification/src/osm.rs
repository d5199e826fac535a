//! The data-acquisition layer's logic: the queries sent to the geocoding
//! and geometry endpoints, and the parsing of geometry responses — node
//! references resolved to coordinate sequences, short ways discarded. The
//! HTTP transport and JSON decoding live with the host; this module works
//! on the decoded elements as plain values.
use vstd::prelude::*;
use vstd::string::{StrSliceExecFns, StringExecFns, StringSliceAdditionalSpecFns};
use crate::errors::AppError;
use crate::geometry::{signed_fixed4_str, signed_fixed4_string, AreaFeature, GeoPoint, RoadSegment};
use crate::highway::{highway_from_str_spec, HighwayType};
use crate::models::{LocationResult, LocationSearchResponse};
use crate::numeric::{dec_str, u64_to_string};

verus! {

/// A node of the geometry response: an id and its coordinates.
#[derive(Debug, Clone, Copy, PartialEq, Eq, Structural)]
pub struct OsmNode {
    pub id: i64,
    pub point: GeoPoint,
}

/// A way of the geometry response: an id, its node references in order,
/// and its highway tag if it has one.
#[derive(Debug)]
pub struct OsmWay {
    pub id: i64,
    pub nodes: Vec<i64>,
    pub highway: Option<String>,
}

/// A decoded geometry response.
#[derive(Debug)]
pub struct OverpassData {
    pub nodes: Vec<OsmNode>,
    pub ways: Vec<OsmWay>,
}

/// A location candidate from the geocoding service.
#[derive(Debug)]
pub struct LocationData {
    pub lat: i64,
    pub lon: i64,
    pub display_name: String,
    pub city: Option<String>,
    pub country: Option<String>,
}

/// The coordinates of a node id: the last node with that id wins, the way
/// repeated ids overwrite one another in a lookup table.
pub open spec fn node_coord(nodes: Seq<OsmNode>, id: i64) -> Option<GeoPoint>
    decreases nodes.len(),
{
    if nodes.len() == 0 {
        None
    } else if nodes.last().id == id {
        Some(nodes.last().point)
    } else {
        node_coord(nodes.drop_last(), id)
    }
}

/// The coordinate sequence of a way: each node reference that resolves, in
/// order; references to unknown nodes are dropped.
pub open spec fn resolve_points(nodes: Seq<OsmNode>, ids: Seq<i64>) -> Seq<GeoPoint>
    decreases ids.len(),
{
    if ids.len() == 0 {
        Seq::empty()
    } else {
        resolve_points(nodes, ids.drop_last()) + (match node_coord(nodes, ids.last()) {
            Some(p) => seq![p],
            None => Seq::<GeoPoint>::empty(),
        })
    }
}

/// The highway class of a way: its tag parsed, or the stock class.
pub open spec fn way_class(w: OsmWay) -> HighwayType {
    match w.highway {
        Some(s) => highway_from_str_spec(s@),
        None => HighwayType::Default,
    }
}

/// What road parsing produces: for each way with at least two resolved
/// points, in order, those points and the way's class.
pub open spec fn road_segments_spec(nodes: Seq<OsmNode>, ways: Seq<OsmWay>) -> Seq<
    (Seq<GeoPoint>, HighwayType),
>
    decreases ways.len(),
{
    if ways.len() == 0 {
        Seq::empty()
    } else {
        let rest = road_segments_spec(nodes, ways.drop_last());
        let pts = resolve_points(nodes, ways.last().nodes@);
        if pts.len() >= 2 {
            rest.push((pts, way_class(ways.last())))
        } else {
            rest
        }
    }
}

/// What area parsing produces: the point rings of the ways with at least
/// three resolved points, in order.
pub open spec fn area_features_spec(nodes: Seq<OsmNode>, ways: Seq<OsmWay>) -> Seq<Seq<GeoPoint>>
    decreases ways.len(),
{
    if ways.len() == 0 {
        Seq::empty()
    } else {
        let rest = area_features_spec(nodes, ways.drop_last());
        let pts = resolve_points(nodes, ways.last().nodes@);
        if pts.len() >= 3 {
            rest.push(pts)
        } else {
            rest
        }
    }
}

fn lookup_node(nodes: &Vec<OsmNode>, id: i64) -> (r: Option<GeoPoint>)
    ensures
        r == node_coord(nodes@, id),
{
    let mut i: usize = nodes.len();
    proof {
        assert(nodes@.take(i as int) =~= nodes@);
    }
    while i > 0
        invariant
            i <= nodes@.len(),
            node_coord(nodes@.take(i as int), id) == node_coord(nodes@, id),
        decreases i,
    {
        i = i - 1;
        proof {
            assert(nodes@.take(i as int + 1).last() == nodes@[i as int]);
            assert(nodes@.take(i as int + 1).drop_last() =~= nodes@.take(i as int));
        }
        if nodes[i].id == id {
            return Some(nodes[i].point);
        }
    }
    None
}

fn resolve_way_points(nodes: &Vec<OsmNode>, ids: &Vec<i64>) -> (r: Vec<GeoPoint>)
    ensures
        r@ == resolve_points(nodes@, ids@),
{
    let mut out: Vec<GeoPoint> = Vec::new();
    let mut i: usize = 0;
    proof {
        assert(ids@.take(0) =~= Seq::<i64>::empty());
    }
    while i < ids.len()
        invariant
            i <= ids@.len(),
            out@ == resolve_points(nodes@, ids@.take(i as int)),
        decreases ids@.len() - i,
    {
        proof {
            assert(ids@.take(i as int + 1).drop_last() =~= ids@.take(i as int));
            assert(ids@.take(i as int + 1).last() == ids@[i as int]);
        }
        match lookup_node(nodes, ids[i]) {
            Some(p) => {
                out.push(p);
                proof {
                    assert(out@ =~= resolve_points(nodes@, ids@.take(i as int + 1)));
                }
            },
            None => {
                proof {
                    assert(out@ =~= resolve_points(nodes@, ids@.take(i as int + 1)));
                }
            },
        }
        i = i + 1;
    }
    proof {
        assert(ids@.take(ids@.len() as int) =~= ids@);
    }
    out
}

/// Parse road segments from a geometry response: each way's node
/// references resolved against the node table, ways with fewer than two
/// resolved points discarded, the highway tag parsed into its class.
pub fn parse_road_segments(data: &OverpassData) -> (r: Vec<RoadSegment>)
    ensures
        ({
            let model = road_segments_spec(data.nodes@, data.ways@);
            &&& r@.len() == model.len()
            &&& forall|i: int|
                0 <= i < model.len() ==> (#[trigger] r@[i]).points@ == model[i].0
                    && r@[i].highway_type == model[i].1
            &&& forall|i: int| 0 <= i < model.len() ==> (#[trigger] r@[i]).points@.len() >= 2
        }),
{
    let mut out: Vec<RoadSegment> = Vec::new();
    let mut i: usize = 0;
    proof {
        assert(data.ways@.take(0) =~= Seq::<OsmWay>::empty());
    }
    while i < data.ways.len()
        invariant
            i <= data.ways@.len(),
            ({
                let model = road_segments_spec(data.nodes@, data.ways@.take(i as int));
                &&& out@.len() == model.len()
                &&& forall|k: int|
                    0 <= k < model.len() ==> (#[trigger] out@[k]).points@ == model[k].0
                        && out@[k].highway_type == model[k].1
                &&& forall|k: int| 0 <= k < model.len() ==> (#[trigger] out@[k]).points@.len() >= 2
            }),
        decreases data.ways@.len() - i,
    {
        proof {
            assert(data.ways@.take(i as int + 1).drop_last() =~= data.ways@.take(i as int));
            assert(data.ways@.take(i as int + 1).last() == data.ways@[i as int]);
        }
        let way = &data.ways[i];
        let points = resolve_way_points(&data.nodes, &way.nodes);
        if points.len() >= 2 {
            let highway_type = match &way.highway {
                Some(s) => HighwayType::from_str(s.as_str()),
                None => HighwayType::Default,
            };
            out.push(RoadSegment { points, highway_type });
        }
        i = i + 1;
    }
    proof {
        assert(data.ways@.take(data.ways@.len() as int) =~= data.ways@);
    }
    out
}

/// Parse area features from a geometry response: rings with fewer than
/// three resolved points are discarded, and each feature carries the given
/// kind.
pub fn parse_area_features(data: &OverpassData, feature_type: &str) -> (r: Vec<AreaFeature>)
    ensures
        ({
            let model = area_features_spec(data.nodes@, data.ways@);
            &&& r@.len() == model.len()
            &&& forall|i: int|
                0 <= i < model.len() ==> (#[trigger] r@[i]).points@ == model[i]
                    && r@[i].feature_type@ == feature_type@
            &&& forall|i: int| 0 <= i < model.len() ==> (#[trigger] r@[i]).points@.len() >= 3
        }),
{
    let mut out: Vec<AreaFeature> = Vec::new();
    let mut i: usize = 0;
    proof {
        assert(data.ways@.take(0) =~= Seq::<OsmWay>::empty());
    }
    while i < data.ways.len()
        invariant
            i <= data.ways@.len(),
            ({
                let model = area_features_spec(data.nodes@, data.ways@.take(i as int));
                &&& out@.len() == model.len()
                &&& forall|k: int|
                    0 <= k < model.len() ==> (#[trigger] out@[k]).points@ == model[k]
                        && out@[k].feature_type@ == feature_type@
                &&& forall|k: int| 0 <= k < model.len() ==> (#[trigger] out@[k]).points@.len() >= 3
            }),
        decreases data.ways@.len() - i,
    {
        proof {
            assert(data.ways@.take(i as int + 1).drop_last() =~= data.ways@.take(i as int));
            assert(data.ways@.take(i as int + 1).last() == data.ways@[i as int]);
        }
        let way = &data.ways[i];
        let points = resolve_way_points(&data.nodes, &way.nodes);
        if points.len() >= 3 {
            out.push(AreaFeature { points, feature_type: String::from_str(feature_type) });
        }
        i = i + 1;
    }
    proof {
        assert(data.ways@.take(data.ways@.len() as int) =~= data.ways@);
    }
    out
}

/// Whether a byte passes through percent-encoding unchanged: ASCII
/// alphanumerics and `-`, `.`, `_`, `~`.
pub open spec fn url_safe_byte(b: u8) -> bool {
    (48 <= b <= 57) || (65 <= b <= 90) || (97 <= b <= 122) || b == 45 || b == 46 || b == 95 || b
        == 126
}

/// An uppercase hexadecimal digit character.
pub open spec fn hex_digit_upper(d: nat) -> char {
    if d < 10 {
        ((48 + d) as u8) as char
    } else {
        ((55 + d) as u8) as char
    }
}

/// The percent-encoding of a byte sequence: safe bytes stand as their
/// characters, every other byte as `%` and two uppercase hex digits.
pub open spec fn percent_encoded(bytes: Seq<u8>) -> Seq<char>
    decreases bytes.len(),
{
    if bytes.len() == 0 {
        Seq::empty()
    } else {
        let b = bytes.last();
        percent_encoded(bytes.drop_last()) + (if url_safe_byte(b) {
            seq![b as char]
        } else {
            seq!['%', hex_digit_upper((b >> 4) as nat), hex_digit_upper((b & 15) as nat)]
        })
    }
}

/// Relies on `urlencoding::encode`: percent-encodes every byte of the
/// string's UTF-8 form except ASCII alphanumerics and `-`, `.`, `_`, `~`,
/// with uppercase hex digits.
#[verifier::external_body]
fn url_encode(s: &str) -> (r: String)
    ensures
        r@ == percent_encoded(s.spec_bytes()),
{
    urlencoding::encode(s).into_owned()
}

/// The geocoding query for a place: the city and country joined by a
/// comma and a space.
pub open spec fn geocode_query_spec(city: Seq<char>, country: Seq<char>) -> Seq<char> {
    city + ", "@ + country
}

/// The query text geocoding a place sends: `city, country`.
pub fn geocode_query(city: &str, country: &str) -> (r: String)
    ensures
        r@ == geocode_query_spec(city@, country@),
{
    let mut q = String::from_str(city);
    q.append(", ");
    q.append(country);
    q
}

/// The search URL for a query: the geocoding endpoint with the
/// percent-encoded query, JSON output, the result limit, and address
/// details.
pub open spec fn search_url_spec(query: &str, limit: int) -> Seq<char> {
    "https://nominatim.openstreetmap.org/search?q="@ + percent_encoded(query.spec_bytes())
        + "&format=json&limit="@ + dec_str(limit as nat) + "&addressdetails=1"@
}

/// Build the search URL for a location query.
pub fn build_search_url(query: &str, limit: u32) -> (r: String)
    ensures
        r@ == search_url_spec(query, limit as int),
{
    let mut url = String::from_str("https://nominatim.openstreetmap.org/search?q=");
    let enc = url_encode(query);
    url.append(enc.as_str());
    url.append("&format=json&limit=");
    let l = u64_to_string(limit as u64);
    url.append(l.as_str());
    url.append("&addressdetails=1");
    proof {
        assert(url@ =~= search_url_spec(query, limit as int));
    }
    url
}

/// The first geocoding candidate's coordinates, or the not-found error
/// naming the place.
pub fn first_candidate(results: &Vec<LocationData>, city: &str, country: &str) -> (r: Result<
    (i64, i64),
    AppError,
>)
    ensures
        results@.len() == 0 ==> (r matches Err(e) && e matches AppError::Geocoding(m) && m@
            == "Location not found: "@ + city@ + ", "@ + country@),
        results@.len() > 0 ==> r == Ok::<(i64, i64), AppError>(
            (results@[0].lat, results@[0].lon),
        ),
{
    if results.len() == 0 {
        let mut m = String::from_str("Location not found: ");
        m.append(city);
        m.append(", ");
        m.append(country);
        Err(AppError::Geocoding(m))
    } else {
        Ok((results[0].lat, results[0].lon))
    }
}

/// The place name of a candidate: the first of city, town, village and
/// municipality that the address carries.
pub fn resolve_city(
    city: Option<String>,
    town: Option<String>,
    village: Option<String>,
    municipality: Option<String>,
) -> (r: Option<String>)
    ensures
        r == (if city is Some {
            city
        } else if town is Some {
            town
        } else if village is Some {
            village
        } else {
            municipality
        }),
{
    if city.is_some() {
        city
    } else if town.is_some() {
        town
    } else if village.is_some() {
        village
    } else {
        municipality
    }
}

/// Package search candidates as the search response, field for field.
pub fn locations_response(results: Vec<LocationData>) -> (r: LocationSearchResponse)
    ensures
        r.count == results@.len(),
        r.results@.len() == results@.len(),
        forall|i: int|
            0 <= i < results@.len() ==> {
                let a = #[trigger] r.results@[i];
                let d = results@[i];
                &&& a.display_name@ == d.display_name@
                &&& a.lat == d.lat
                &&& a.lon == d.lon
                &&& crate::orchestrator::opt_str_eq(a.city, d.city)
                &&& crate::orchestrator::opt_str_eq(a.country, d.country)
            },
{
    let mut out: Vec<LocationResult> = Vec::new();
    let mut i: usize = 0;
    while i < results.len()
        invariant
            i <= results@.len(),
            out@.len() == i,
            forall|k: int|
                0 <= k < i ==> {
                    let a = #[trigger] out@[k];
                    let d = results@[k];
                    &&& a.display_name@ == d.display_name@
                    &&& a.lat == d.lat
                    &&& a.lon == d.lon
                    &&& crate::orchestrator::opt_str_eq(a.city, d.city)
                    &&& crate::orchestrator::opt_str_eq(a.country, d.country)
                },
        decreases results@.len() - i,
    {
        let d = &results[i];
        out.push(
            LocationResult {
                display_name: String::from_str(d.display_name.as_str()),
                lat: d.lat,
                lon: d.lon,
                city: crate::jobs::clone_opt_string(&d.city),
                country: crate::jobs::clone_opt_string(&d.country),
            },
        );
        i = i + 1;
    }
    let count = out.len();
    LocationSearchResponse { results: out, count }
}

/// The radius query for the street network: the highway classes the
/// poster styles, fetched around the center.
pub open spec fn streets_query_spec(lat: int, lon: int, distance: int) -> Seq<char> {
    "[out:json][timeout:90];\n(\n  way[\"highway\"~\"^(motorway|motorway_link|trunk|primary|primary_link|secondary|secondary_link|tertiary|tertiary_link|residential|living_street|service|unclassified)$\"](around:"@
        + dec_str(distance as nat) + ","@ + signed_fixed4_str(lat) + ","@ + signed_fixed4_str(lon)
        + ");\n);\nout body;\n>;\nout skel qt;"@
}

/// Build the street-network query for a center and radius.
pub fn build_streets_query(center: (i64, i64), distance: u32) -> (r: String)
    requires
        -900000 <= center.0 <= 900000,
        -1800000 <= center.1 <= 1800000,
    ensures
        r@ == streets_query_spec(center.0 as int, center.1 as int, distance as int),
{
    let mut q = String::from_str(
        "[out:json][timeout:90];\n(\n  way[\"highway\"~\"^(motorway|motorway_link|trunk|primary|primary_link|secondary|secondary_link|tertiary|tertiary_link|residential|living_street|service|unclassified)$\"](around:",
    );
    let d = u64_to_string(distance as u64);
    q.append(d.as_str());
    q.append(",");
    let la = signed_fixed4_string(center.0);
    q.append(la.as_str());
    q.append(",");
    let lo = signed_fixed4_string(center.1);
    q.append(lo.as_str());
    q.append(");\n);\nout body;\n>;\nout skel qt;");
    proof {
        assert(q@ =~= streets_query_spec(center.0 as int, center.1 as int, distance as int));
    }
    q
}

/// One clause of an area query: a tag filter around the center.
pub open spec fn around_clause_spec(
    head: Seq<char>,
    lat: int,
    lon: int,
    distance: int,
) -> Seq<char> {
    head + "(around:"@ + dec_str(distance as nat) + ","@ + signed_fixed4_str(lat) + ","@
        + signed_fixed4_str(lon) + ");\n"@
}

fn append_around_clause(q: &mut String, head: &str, center: (i64, i64), distance: u32)
    requires
        -900000 <= center.0 <= 900000,
        -1800000 <= center.1 <= 1800000,
    ensures
        final(q)@ == old(q)@ + around_clause_spec(
            head@,
            center.0 as int,
            center.1 as int,
            distance as int,
        ),
{
    q.append(head);
    q.append("(around:");
    let d = u64_to_string(distance as u64);
    q.append(d.as_str());
    q.append(",");
    let la = signed_fixed4_string(center.0);
    q.append(la.as_str());
    q.append(",");
    let lo = signed_fixed4_string(center.1);
    q.append(lo.as_str());
    q.append(");\n");
    proof {
        assert(q@ =~= old(q)@ + around_clause_spec(
            head@,
            center.0 as int,
            center.1 as int,
            distance as int,
        ));
    }
}

/// The radius query for water features: water areas, riverbanks, and
/// water relations around the center.
pub open spec fn water_query_spec(lat: int, lon: int, distance: int) -> Seq<char> {
    "[out:json][timeout:60];\n(\n"@ + around_clause_spec(
        "  way[\"natural\"=\"water\"]"@,
        lat,
        lon,
        distance,
    ) + around_clause_spec("  way[\"waterway\"=\"riverbank\"]"@, lat, lon, distance)
        + around_clause_spec("  relation[\"natural\"=\"water\"]"@, lat, lon, distance)
        + ");\nout body;\n>;\nout skel qt;"@
}

/// Build the water-features query for a center and radius.
pub fn build_water_query(center: (i64, i64), distance: u32) -> (r: String)
    requires
        -900000 <= center.0 <= 900000,
        -1800000 <= center.1 <= 1800000,
    ensures
        r@ == water_query_spec(center.0 as int, center.1 as int, distance as int),
{
    let mut q = String::from_str("[out:json][timeout:60];\n(\n");
    append_around_clause(&mut q, "  way[\"natural\"=\"water\"]", center, distance);
    append_around_clause(&mut q, "  way[\"waterway\"=\"riverbank\"]", center, distance);
    append_around_clause(&mut q, "  relation[\"natural\"=\"water\"]", center, distance);
    q.append(");\nout body;\n>;\nout skel qt;");
    proof {
        assert(q@ =~= water_query_spec(center.0 as int, center.1 as int, distance as int));
    }
    q
}

/// The radius query for park features: parks, grass and forest, and park
/// relations around the center.
pub open spec fn parks_query_spec(lat: int, lon: int, distance: int) -> Seq<char> {
    "[out:json][timeout:60];\n(\n"@ + around_clause_spec(
        "  way[\"leisure\"=\"park\"]"@,
        lat,
        lon,
        distance,
    ) + around_clause_spec("  way[\"landuse\"=\"grass\"]"@, lat, lon, distance)
        + around_clause_spec("  way[\"landuse\"=\"forest\"]"@, lat, lon, distance)
        + around_clause_spec("  relation[\"leisure\"=\"park\"]"@, lat, lon, distance)
        + ");\nout body;\n>;\nout skel qt;"@
}

/// Build the park-features query for a center and radius.
pub fn build_parks_query(center: (i64, i64), distance: u32) -> (r: String)
    requires
        -900000 <= center.0 <= 900000,
        -1800000 <= center.1 <= 1800000,
    ensures
        r@ == parks_query_spec(center.0 as int, center.1 as int, distance as int),
{
    let mut q = String::from_str("[out:json][timeout:60];\n(\n");
    append_around_clause(&mut q, "  way[\"leisure\"=\"park\"]", center, distance);
    append_around_clause(&mut q, "  way[\"landuse\"=\"grass\"]", center, distance);
    append_around_clause(&mut q, "  way[\"landuse\"=\"forest\"]", center, distance);
    append_around_clause(&mut q, "  relation[\"leisure\"=\"park\"]", center, distance);
    q.append(");\nout body;\n>;\nout skel qt;");
    proof {
        assert(q@ =~= parks_query_spec(center.0 as int, center.1 as int, distance as int));
    }
    q
}

} // verus!
