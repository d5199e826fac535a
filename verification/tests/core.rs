use maptoposter::cache::Cache;
use maptoposter::config::Settings;
use maptoposter::errors::AppError;
use maptoposter::geometry::{GeoPoint, RoadSegment};
use maptoposter::highway::HighwayType;
use maptoposter::models::{JobStatus, PosterCreateRequest};
use maptoposter::orchestrator::{AppState, CachedMapData, StreamEvent};
use maptoposter::rate_limiter::{ApiRateLimiters, RateLimiter};

fn default_settings() -> Settings {
    Settings::default()
}

fn sample_request(distance: u32) -> PosterCreateRequest {
    PosterCreateRequest {
        city: "Berlin".to_string(),
        country: "Germany".to_string(),
        theme: "feature_based".to_string(),
        distance,
    }
}

fn sample_street() -> RoadSegment {
    RoadSegment {
        points: vec![GeoPoint { lat: 0, lon: 0 }, GeoPoint { lat: 10000, lon: 10000 }],
        highway_type: HighwayType::Primary,
    }
}

#[test]
fn test_cache_basic() {
    let mut cache: Cache<String> = Cache::new(60, 100);

    cache.insert("key1".to_string(), "value1".to_string(), 0);
    assert_eq!(cache.get("key1", 0), Some("value1".to_string()));
    assert_eq!(cache.get("key2", 0), None);
}

#[test]
fn test_cache_max_entries() {
    let mut cache: Cache<i32> = Cache::new(60, 2);

    cache.insert("key1".to_string(), 1, 0);
    cache.insert("key2".to_string(), 2, 1);
    cache.insert("key3".to_string(), 3, 2);

    // Should have evicted oldest entry
    assert!(cache.len() <= 2);
}

#[test]
fn cache_capacity_never_exceeded() {
    let mut cache: Cache<u32> = Cache::new(60, 3);
    for (i, key) in ["a", "b", "c", "d"].iter().enumerate() {
        cache.insert(key.to_string(), i as u32, i as u64);
    }
    assert!(cache.len() <= 3);
    // The newest entry is present; the oldest was the one evicted.
    assert_eq!(cache.get("d", 4), Some(3));
    assert_eq!(cache.get("a", 4), None);
}

#[test]
fn cache_ttl_expiry() {
    let mut cache: Cache<String> = Cache::new(60, 10);
    cache.insert("k".to_string(), "v".to_string(), 0);
    // Just before the TTL elapses the inserted value comes back.
    assert_eq!(cache.get("k", 59_999), Some("v".to_string()));
    // Once the TTL has elapsed the entry is a miss and is removed.
    assert_eq!(cache.get("k", 60_000), None);
    assert_eq!(cache.len(), 0);
}

#[test]
fn cache_overwrite_same_key() {
    let mut cache: Cache<u32> = Cache::new(60, 2);
    cache.insert("k".to_string(), 1, 0);
    cache.insert("k".to_string(), 2, 1);
    assert_eq!(cache.len(), 1);
    assert_eq!(cache.get("k", 2), Some(2));
    cache.clear();
    assert!(cache.is_empty());
}

#[test]
fn rate_limiter_pacing() {
    let mut rl = RateLimiter::new(1000);
    // A key never seen needs no delay.
    assert_eq!(rl.wait_delay("osm", 500), 0);
    rl.record("osm", 500);
    // Within the interval, the remainder must be waited out.
    assert_eq!(rl.wait_delay("osm", 900), 600);
    // Sequential paced calls: each fires at least the interval after the
    // one before, so K calls take at least (K-1) times the interval.
    let mut fires = vec![500u64];
    for _ in 0..3 {
        let now = *fires.last().unwrap();
        let d = rl.wait_delay("osm", now);
        let fire = now + d;
        rl.record("osm", fire);
        fires.push(fire);
    }
    assert!(fires[3] - fires[0] >= 3 * 1000);
    // Another key paces independently.
    assert_eq!(rl.wait_delay("nominatim", 900), 0);
}

#[test]
fn rate_limiter_defaults() {
    let limiters = ApiRateLimiters::default();
    assert_eq!(limiters.nominatim.min_delay_ms, 1000);
    assert_eq!(limiters.overpass.min_delay_ms, 500);
}

#[test]
fn job_lifecycle() {
    let mut state = AppState::new(default_settings());
    let job = state.create_job(
        maptoposter::jobs::JobRequest {
            city: "Berlin".to_string(),
            country: "Germany".to_string(),
            theme: "feature_based".to_string(),
            distance: 15000,
        },
        1000,
    );
    assert_eq!(job.status, JobStatus::Queued);
    assert_eq!(job.progress_milli, 0);

    state.update_job_status(job.id, JobStatus::Processing, 1500);
    assert_eq!(state.get_job(job.id).unwrap().status, JobStatus::Processing);

    state.complete_job(job.id, "static/out.png".to_string(), 2000);
    let done = state.get_job(job.id).unwrap();
    assert_eq!(done.status, JobStatus::Completed);
    assert_eq!(done.progress_milli, 1000);

    let response = done.to_response();
    assert!(response.download_url.is_some());
    assert_eq!(response.status, JobStatus::Completed);
}

#[test]
fn job_failure_records_error() {
    let mut state = AppState::new(default_settings());
    let job = state.create_job(
        maptoposter::jobs::JobRequest {
            city: "X".to_string(),
            country: "Y".to_string(),
            theme: "t".to_string(),
            distance: 2000,
        },
        0,
    );
    state.fail_job(job.id, "Generation timed out - try a smaller area".to_string(), 10);
    let failed = state.get_job(job.id).unwrap();
    assert_eq!(failed.status, JobStatus::Failed);
    assert_eq!(
        failed.error.as_deref(),
        Some("Generation timed out - try a smaller area")
    );
}

#[test]
fn unknown_job_is_not_found() {
    let state = AppState::new(default_settings());
    assert!(state.get_job(42).is_none());
    assert!(matches!(state.stream_event(42), StreamEvent::Gone));
    assert!(matches!(state.download_info(42), Err(AppError::JobNotFound(_))));
}

#[test]
fn download_of_unfinished_job_is_rejected() {
    let mut state = AppState::new(default_settings());
    let job = state
        .prepare_create(sample_request(15000), true, 0)
        .expect("valid request")
        .0;
    match state.download_info(job.id) {
        Err(AppError::Internal(m)) => assert!(m.contains("is not completed")),
        _ => panic!("expected an internal error"),
    }
    state.complete_job(job.id, "static/p.png".to_string(), 5);
    let info = state.download_info(job.id).expect("completed job downloads");
    assert_eq!(info.path, "static/p.png");
    assert_eq!(info.filename, "Berlin_feature_based.png");
}

#[test]
fn create_rejects_bad_distance_before_any_job() {
    let mut state = AppState::new(default_settings());
    let r = state.prepare_create(sample_request(999), true, 0);
    match r {
        Err(AppError::InvalidDistance(m)) => {
            assert_eq!(m, "Distance 999 is below minimum of 2000");
        }
        _ => panic!("expected an invalid-distance rejection"),
    }
    assert_eq!(state.jobs.len(), 0);

    let r = state.prepare_create(sample_request(90000), true, 1);
    match r {
        Err(AppError::InvalidDistance(m)) => {
            assert_eq!(m, "Distance 90000 is above maximum of 50000");
        }
        _ => panic!("expected an invalid-distance rejection"),
    }
    assert_eq!(state.jobs.len(), 0);
}

#[test]
fn create_rejects_unknown_theme() {
    let mut state = AppState::new(default_settings());
    let r = state.prepare_create(sample_request(15000), false, 0);
    assert!(matches!(r, Err(AppError::ThemeNotFound(_))));
    assert_eq!(state.jobs.len(), 0);
}

#[test]
fn end_to_end_generation_with_mocked_acquisition() {
    let mut state = AppState::new(default_settings());
    let (job, response) = state
        .prepare_create(sample_request(15000), true, 0)
        .expect("valid request");
    assert_eq!(response.status, "queued");
    assert_eq!(response.estimated_time, 45);

    // The mocked acquisition layer returns one street segment and nothing else.
    let streets = vec![sample_street()];
    let water = Vec::new();
    let parks = Vec::new();
    let theme = maptoposter::theme::Theme::empty();
    let plan =
        maptoposter::generation::render_plan(&theme, &streets, &water, &parks, 15000, 100, 100)
            .expect("streets present");
    assert_eq!(plan.background, "#FFFFFF");

    state.cache_map_data(
        job.id,
        CachedMapData {
            city: "Berlin".to_string(),
            country: "Germany".to_string(),
            lat: 5000,
            lon: 5000,
            distance: 15000,
            streets,
            water,
            parks,
        },
    );
    state.complete_job(job.id, "static/done.png".to_string(), 60);

    let finished = state.get_job(job.id).unwrap();
    assert_eq!(finished.status, JobStatus::Completed);
    let snapshot = finished.to_response();
    let url = snapshot.download_url.expect("completed jobs have a download reference");
    assert!(!url.is_empty());

    match state.stream_event(job.id) {
        StreamEvent::Completed(update, stream_url) => {
            assert_eq!(update.status, JobStatus::Completed);
            assert_eq!(update.progress_milli, 1000);
            assert_eq!(stream_url, url);
        }
        _ => panic!("a completed job streams a completion event"),
    }
}

#[test]
fn render_plan_requires_street_data() {
    let theme = maptoposter::theme::Theme::empty();
    let streets: Vec<RoadSegment> = Vec::new();
    let r = maptoposter::generation::render_plan(
        &theme,
        &streets,
        &Vec::new(),
        &Vec::new(),
        15000,
        100,
        100,
    );
    match r {
        Err(AppError::DataFetch(m)) => {
            assert_eq!(m, "No street data found for this location");
        }
        _ => panic!("empty street data must be fatal"),
    }
}

#[test]
fn rerender_needs_cached_data_and_theme() {
    let mut state = AppState::new(default_settings());
    let r = state.prepare_rerender(7, "noir".to_string(), true, 0);
    assert!(matches!(r, Err(AppError::Internal(_))));

    let (job, _) = state.prepare_create(sample_request(15000), true, 0).unwrap();
    state.cache_map_data(
        job.id,
        CachedMapData {
            city: "Berlin".to_string(),
            country: "Germany".to_string(),
            lat: 5000,
            lon: 5000,
            distance: 15000,
            streets: vec![sample_street()],
            water: Vec::new(),
            parks: Vec::new(),
        },
    );
    let r = state.prepare_rerender(job.id, "noir".to_string(), false, 1);
    assert!(matches!(r, Err(AppError::ThemeNotFound(_))));

    let (new_job, response) = state
        .prepare_rerender(job.id, "noir".to_string(), true, 2)
        .expect("cached data and theme present");
    assert_eq!(new_job.request.theme, "noir");
    assert_eq!(new_job.request.city, "Berlin");
    assert_eq!(new_job.request.distance, 15000);
    assert_eq!(response.estimated_time, 5);
    assert!(state.get_cached_map_data(new_job.id).is_some());
}

#[test]
fn sweep_removes_old_jobs_and_their_data() {
    let mut state = AppState::new(default_settings());
    let ttl_ms: u64 = 24 * 3600 * 1000;
    let (old_job, _) = state.prepare_create(sample_request(15000), true, 0).unwrap();
    state.cache_map_data(
        old_job.id,
        CachedMapData {
            city: "Old".to_string(),
            country: "X".to_string(),
            lat: 0,
            lon: 0,
            distance: 15000,
            streets: vec![sample_street()],
            water: Vec::new(),
            parks: Vec::new(),
        },
    );
    let (young_job, _) = state.prepare_create(sample_request(15000), true, ttl_ms).unwrap();

    state.cleanup_old_jobs(ttl_ms);
    assert!(state.get_job(old_job.id).is_none());
    assert!(state.get_cached_map_data(old_job.id).is_none());
    assert!(state.get_job(young_job.id).is_some());
}

#[test]
fn geocode_cache_round_trip() {
    let mut state = AppState::new(default_settings());
    assert!(state.lookup_geocode("Berlin", "Germany", 0).is_none());
    state.store_geocode("Berlin", "Germany", 525200, 134050, 0);
    let hit = state.lookup_geocode("Berlin", "Germany", 1000).unwrap();
    assert_eq!(hit.lat, 525200);
    assert_eq!(hit.lon, 134050);
    // A day later the entry has expired.
    assert!(state.lookup_geocode("Berlin", "Germany", 24 * 3600 * 1000).is_none());
}

#[test]
fn stream_event_reports_failure_text() {
    let mut state = AppState::new(default_settings());
    let (job, _) = state.prepare_create(sample_request(15000), true, 0).unwrap();
    state.fail_job(job.id, "boom".to_string(), 1);
    match state.stream_event(job.id) {
        StreamEvent::Error(m) => assert_eq!(m, "boom"),
        _ => panic!("a failed job streams an error event"),
    }
}
