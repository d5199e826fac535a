//! Request and response shapes of the service's external interface, and
//! the job status enumeration. Progress fractions are held in thousandths.
use vstd::prelude::*;
use vstd::string::StringExecFns;

verus! {

/// Job status enumeration.
#[derive(Debug, Clone, Copy, PartialEq, Eq, Structural)]
pub enum JobStatus {
    Queued,
    Processing,
    Completed,
    Failed,
}

/// The lowercase label of a job status, as responses carry it.
pub open spec fn status_label_spec(s: JobStatus) -> Seq<char> {
    match s {
        JobStatus::Queued => "queued"@,
        JobStatus::Processing => "processing"@,
        JobStatus::Completed => "completed"@,
        JobStatus::Failed => "failed"@,
    }
}

impl JobStatus {
    /// The lowercase label of this status.
    pub fn label(&self) -> (r: &'static str)
        ensures
            r@ == status_label_spec(*self),
    {
        match self {
            JobStatus::Queued => "queued",
            JobStatus::Processing => "processing",
            JobStatus::Completed => "completed",
            JobStatus::Failed => "failed",
        }
    }
}

/// Request to create a new poster.
#[derive(Debug, Clone)]
pub struct PosterCreateRequest {
    pub city: String,
    pub country: String,
    pub theme: String,
    pub distance: u32,
}

/// The theme used when a creation request names none.
pub fn default_theme() -> (r: String)
    ensures
        r@ == "feature_based"@,
{
    String::from_str("feature_based")
}

/// The radius used when a creation request names none.
pub fn default_distance() -> (r: u32)
    ensures
        r == 15000,
{
    15000
}

/// The number of results a location search returns when none is asked for.
pub fn default_limit() -> (r: u32)
    ensures
        r == 5,
{
    5
}

/// Response when a poster job is created.
#[derive(Debug, Clone)]
pub struct PosterCreateResponse {
    pub job_id: String,
    pub status: String,
    pub estimated_time: u32,
}

/// Job status response.
#[derive(Debug, Clone)]
pub struct JobStatusResponse {
    pub job_id: String,
    pub status: JobStatus,
    pub progress_milli: u32,
    pub current_step: Option<String>,
    pub message: Option<String>,
    pub download_url: Option<String>,
    pub error: Option<String>,
}

/// Theme information response.
#[derive(Debug, Clone)]
pub struct ThemeInfo {
    pub id: String,
    pub name: String,
    pub description: Option<String>,
    pub bg: String,
    pub text: String,
    pub gradient_color: String,
    pub water: String,
    pub parks: String,
    pub road_motorway: Option<String>,
    pub road_primary: Option<String>,
    pub road_default: Option<String>,
}

/// Theme list response.
#[derive(Debug)]
pub struct ThemeListResponse {
    pub themes: Vec<ThemeInfo>,
    pub count: usize,
}

/// Location search result.
#[derive(Debug, Clone)]
pub struct LocationResult {
    pub display_name: String,
    pub lat: i64,
    pub lon: i64,
    pub city: Option<String>,
    pub country: Option<String>,
}

/// Location search response.
#[derive(Debug)]
pub struct LocationSearchResponse {
    pub results: Vec<LocationResult>,
    pub count: usize,
}

/// Query parameters for location search.
#[derive(Debug)]
pub struct LocationSearchQuery {
    pub q: String,
    pub limit: u32,
}

/// Health check response.
#[derive(Debug)]
pub struct HealthResponse {
    pub status: String,
    pub version: String,
}

/// Readiness check response.
#[derive(Debug)]
pub struct ReadinessResponse {
    pub status: String,
    pub checks: ReadinessChecks,
}

/// Individual readiness checks.
#[derive(Debug)]
pub struct ReadinessChecks {
    pub themes: bool,
    pub fonts: bool,
    pub static_dir: bool,
}

/// What a readiness check reports: ready exactly when every check passed.
pub fn readiness_response(themes: bool, fonts: bool, static_dir: bool) -> (r: ReadinessResponse)
    ensures
        r.status@ == if themes && fonts && static_dir {
            "ready"@
        } else {
            "not_ready"@
        },
        r.checks.themes == themes,
        r.checks.fonts == fonts,
        r.checks.static_dir == static_dir,
{
    let all_ok = themes && fonts && static_dir;
    ReadinessResponse {
        status: if all_ok {
            String::from_str("ready")
        } else {
            String::from_str("not_ready")
        },
        checks: ReadinessChecks { themes, fonts, static_dir },
    }
}

/// Progress update for streaming.
#[derive(Debug, Clone)]
pub struct ProgressUpdate {
    pub job_id: String,
    pub status: JobStatus,
    pub progress_milli: u32,
    pub step: String,
    pub message: String,
}

/// Request for poster generation.
#[derive(Debug, Clone)]
pub struct PosterRequest {
    pub city: String,
    pub country: String,
    pub theme_name: String,
    pub distance: u32,
    pub dpi: u32,
}

impl Default for PosterRequest {
    /// An empty place with the stock theme, the stock radius, and print
    /// resolution.
    fn default() -> (r: Self)
        ensures
            r.city@ == Seq::<char>::empty(),
            r.country@ == Seq::<char>::empty(),
            r.theme_name@ == "feature_based"@,
            r.distance == 15000,
            r.dpi == 300,
    {
        proof {
            reveal_strlit("");
        }
        PosterRequest {
            city: String::from_str(""),
            country: String::from_str(""),
            theme_name: String::from_str("feature_based"),
            distance: 15000,
            dpi: 300,
        }
    }
}

} // verus!
