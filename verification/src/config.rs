//! Service configuration: the documented defaults, radius validation, the
//! generation-time estimate, and filename sanitizing. Loading overrides
//! from the environment is left to the host program.
use vstd::prelude::*;
use vstd::string::{StrSliceExecFns, StringExecFns};
use crate::numeric::{dec_str, u64_to_string};

verus! {

/// Application configuration. Durations are in milliseconds; directories
/// are carried as path strings.
#[derive(Clone, Debug)]
pub struct Settings {
    /// Server port.
    pub port: u16,
    /// Path to themes directory.
    pub themes_dir: String,
    /// Path to fonts directory.
    pub fonts_dir: String,
    /// Path to static output directory.
    pub static_dir: String,
    /// Path to frontend directory.
    pub frontend_dir: String,
    /// Default theme name.
    pub default_theme: String,
    /// Default map distance in meters.
    pub default_distance: u32,
    /// Minimum allowed distance.
    pub min_distance: u32,
    /// Maximum allowed distance.
    pub max_distance: u32,
    /// Output DPI.
    pub output_dpi: u32,
    /// Preview DPI (lower quality, for speed).
    pub preview_dpi: u32,
    /// Geocoding endpoint delay in milliseconds.
    pub nominatim_delay_ms: u64,
    /// Geocoding endpoint timeout in milliseconds.
    pub nominatim_timeout_ms: u64,
    /// Geometry endpoint delay in milliseconds.
    pub osm_delay_ms: u64,
    /// Geometry endpoint timeout in milliseconds.
    pub osm_timeout_ms: u64,
    /// Maximum concurrent jobs.
    pub max_concurrent_jobs: usize,
    /// Job time-to-live in hours.
    pub job_ttl_hours: u32,
}

/// The message rejecting a distance under the minimum.
pub open spec fn below_min_msg(distance: int, min: int) -> Seq<char> {
    "Distance "@ + dec_str(distance as nat) + " is below minimum of "@ + dec_str(min as nat)
}

/// The message rejecting a distance over the maximum.
pub open spec fn above_max_msg(distance: int, max: int) -> Seq<char> {
    "Distance "@ + dec_str(distance as nat) + " is above maximum of "@ + dec_str(max as nat)
}

impl Settings {
    /// Validate that a distance is within allowed bounds: the distance
    /// itself when it is, the exact complaint when it is not.
    pub fn validate_distance(&self, distance: u32) -> (r: Result<u32, String>)
        ensures
            distance < self.min_distance ==> (r matches Err(m) && m@ == below_min_msg(
                distance as int,
                self.min_distance as int,
            )),
            distance > self.max_distance && distance >= self.min_distance ==> (r matches Err(m)
                && m@ == above_max_msg(distance as int, self.max_distance as int)),
            self.min_distance <= distance <= self.max_distance ==> r == Ok::<u32, String>(
                distance,
            ),
    {
        if distance < self.min_distance {
            let mut m = String::from_str("Distance ");
            let d = u64_to_string(distance as u64);
            m.append(d.as_str());
            m.append(" is below minimum of ");
            let b = u64_to_string(self.min_distance as u64);
            m.append(b.as_str());
            Err(m)
        } else if distance > self.max_distance {
            let mut m = String::from_str("Distance ");
            let d = u64_to_string(distance as u64);
            m.append(d.as_str());
            m.append(" is above maximum of ");
            let b = u64_to_string(self.max_distance as u64);
            m.append(b.as_str());
            Err(m)
        } else {
            Ok(distance)
        }
    }
}

/// Whether a character is alphanumeric in the Unicode sense.
/// The result of `char::is_alphanumeric` depends on the character alone.
pub uninterp spec fn char_alnum(c: char) -> bool;

pub assume_specification[ char::is_alphanumeric ](c: char) -> (r: bool)
    ensures
        r == char_alnum(c),
;

/// Relies on `String::from_iter`: collects exactly the given characters,
/// in order.
#[verifier::external_body]
pub fn chars_to_string(v: Vec<char>) -> (r: String)
    ensures
        r@ == v@,
{
    v.into_iter().collect()
}

/// What sanitizing leaves of each character: alphanumerics, hyphens and
/// underscores stay; everything else becomes an underscore.
pub open spec fn sanitize_char(c: char) -> char {
    if char_alnum(c) || c == '-' || c == '_' {
        c
    } else {
        '_'
    }
}

/// Sanitize a filename for safe storage: every character outside
/// alphanumerics, `-` and `_` is replaced by `_`.
pub fn sanitize_filename(name: &str) -> (r: String)
    ensures
        r@ == name@.map(|_i: int, c: char| sanitize_char(c)),
{
    let n = name.unicode_len();
    let mut out: Vec<char> = Vec::new();
    let mut i: usize = 0;
    while i < n
        invariant
            n == name@.len(),
            i <= n,
            out@ == name@.take(i as int).map(|_j: int, c: char| sanitize_char(c)),
        decreases n - i,
    {
        let c = name.get_char(i);
        let keep = c.is_alphanumeric() || c == '-' || c == '_';
        if keep {
            out.push(c);
        } else {
            out.push('_');
        }
        proof {
            assert(name@.take(i as int + 1).map(|_j: int, c: char| sanitize_char(c)) =~= name@.take(
                i as int,
            ).map(|_j: int, c: char| sanitize_char(c)).push(sanitize_char(name@[i as int])));
        }
        i = i + 1;
    }
    proof {
        assert(name@.take(n as int) =~= name@);
    }
    chars_to_string(out)
}

/// Estimate generation time in seconds based on distance: half a minute
/// plus a second per kilometer of radius.
pub fn estimate_generation_time(distance: u32) -> (r: u32)
    ensures
        r == 30 + distance / 1000,
{
    30 + distance / 1000
}

impl Default for Settings {
    /// The documented defaults: port 8000, the stock directories and
    /// theme, radii between 2 and 50 kilometers with a 15 kilometer
    /// default, print and preview resolutions, one geocoding request per
    /// second, two geometry requests per second, five concurrent jobs, and
    /// a day of job retention.
    fn default() -> (r: Self)
        ensures
            r.port == 8000,
            r.themes_dir@ == "themes"@,
            r.fonts_dir@ == "fonts"@,
            r.static_dir@ == "static"@,
            r.frontend_dir@ == "frontend"@,
            r.default_theme@ == "feature_based"@,
            r.default_distance == 15000,
            r.min_distance == 2000,
            r.max_distance == 50000,
            r.output_dpi == 300,
            r.preview_dpi == 72,
            r.nominatim_delay_ms == 1000,
            r.nominatim_timeout_ms == 10000,
            r.osm_delay_ms == 500,
            r.osm_timeout_ms == 60000,
            r.max_concurrent_jobs == 5,
            r.job_ttl_hours == 24,
    {
        Settings {
            port: 8000,
            themes_dir: String::from_str("themes"),
            fonts_dir: String::from_str("fonts"),
            static_dir: String::from_str("static"),
            frontend_dir: String::from_str("frontend"),
            default_theme: String::from_str("feature_based"),
            default_distance: 15000,
            min_distance: 2000,
            max_distance: 50000,
            output_dpi: 300,
            preview_dpi: 72,
            nominatim_delay_ms: 1000,
            nominatim_timeout_ms: 10000,
            osm_delay_ms: 500,
            osm_timeout_ms: 60000,
            max_concurrent_jobs: 5,
            job_ttl_hours: 24,
        }
    }
}

} // verus!
