use maptoposter::colors::{parse_hex_color, parse_hex_color_rgba};
use maptoposter::config::{estimate_generation_time, sanitize_filename, Settings};
use maptoposter::errors::AppError;
use maptoposter::geometry::{format_coordinates, GeoPoint};
use maptoposter::highway::{highway_priority, HighwayType, RoadStyle};
use maptoposter::jobs::format_job_id;
use maptoposter::models::{
    default_distance, default_limit, default_theme, readiness_response, JobStatus,
};
use maptoposter::numeric::{isqrt_u64, u64_to_string};
use maptoposter::osm::{
    build_parks_query, build_search_url, build_streets_query, build_water_query, first_candidate,
    geocode_query, locations_response, parse_area_features, parse_road_segments, resolve_city,
    LocationData, OsmNode, OsmWay, OverpassData,
};
use maptoposter::progress::GenerationProgress;
use maptoposter::theme::{get_theme_color, theme_info, Theme};
use maptoposter::typography::{attribution_text, to_upper};

#[test]
fn test_format_coordinates() {
    assert_eq!(
        format_coordinates(407128, -740060),
        "40.7128° N, 74.0060° W"
    );
    assert_eq!(
        format_coordinates(-338688, 1512093),
        "33.8688° S, 151.2093° E"
    );
}

#[test]
fn format_coordinates_pads_fractions() {
    assert_eq!(format_coordinates(10000, -5), "1.0000° N, 0.0005° W");
    assert_eq!(format_coordinates(0, 0), "0.0000° N, 0.0000° E");
}

#[test]
fn test_parse_hex_color() {
    assert_eq!(parse_hex_color("#FFFFFF"), Some((255, 255, 255)));
    assert_eq!(parse_hex_color("#000000"), Some((0, 0, 0)));
    assert_eq!(parse_hex_color("#FF0000"), Some((255, 0, 0)));
    assert_eq!(parse_hex_color("FFFFFF"), Some((255, 255, 255)));
    assert_eq!(parse_hex_color("#FFF"), None); // Invalid length
}

#[test]
fn parse_hex_color_rejects_bad_digits() {
    assert_eq!(parse_hex_color("#GGGGGG"), None);
    assert_eq!(parse_hex_color("#1a2B3c"), Some((26, 43, 60)));
    assert_eq!(parse_hex_color_rgba("#102030", 77), Some((16, 32, 48, 77)));
    assert_eq!(parse_hex_color_rgba("#XYZ", 77), None);
}

#[test]
fn decimal_formatting() {
    assert_eq!(u64_to_string(0), "0");
    assert_eq!(u64_to_string(7), "7");
    assert_eq!(u64_to_string(15000), "15000");
    assert_eq!(u64_to_string(u64::MAX), "18446744073709551615");
}

#[test]
fn integer_square_root() {
    assert_eq!(isqrt_u64(0), 0);
    assert_eq!(isqrt_u64(57600), 240);
    assert_eq!(isqrt_u64(57601), 240);
    assert_eq!(isqrt_u64(99), 9);
}

#[test]
fn highway_classification() {
    assert_eq!(HighwayType::from_str("motorway"), HighwayType::Motorway);
    assert_eq!(HighwayType::from_str("living_street"), HighwayType::LivingStreet);
    assert_eq!(HighwayType::from_str("towpath"), HighwayType::Default);
    assert_eq!(HighwayType::Motorway.theme_key(), "road_motorway");
    assert_eq!(HighwayType::Service.theme_key(), "road_residential");
    assert_eq!(highway_priority(HighwayType::Motorway), 10);
    assert_eq!(highway_priority(HighwayType::Trunk), 9);
    assert_eq!(highway_priority(HighwayType::Default), 1);
    let style = RoadStyle::for_highway(HighwayType::Tertiary);
    assert_eq!(style.width_tenths, 6);
    assert_eq!(style.color_key, "road_tertiary");
    assert_eq!(style.default_color, "#3A3A3A");
}

#[test]
fn theme_lookup_and_defaults() {
    let theme = Theme::new(vec![
        ("bg".to_string(), "#101010".to_string()),
        ("text".to_string(), "#EEEEEE".to_string()),
        ("road_motorway".to_string(), "#202020".to_string()),
    ]);
    assert_eq!(get_theme_color(&theme, "bg", "#FFFFFF"), "#101010");
    assert_eq!(get_theme_color(&theme, "water", "#C0C0C0"), "#C0C0C0");
    let info = theme_info("noir", &theme);
    assert_eq!(info.id, "noir");
    assert_eq!(info.name, "noir");
    assert_eq!(info.bg, "#101010");
    assert_eq!(info.text, "#EEEEEE");
    assert_eq!(info.gradient_color, "#FFFFFF");
    assert_eq!(info.water, "#C0C0C0");
    assert_eq!(info.parks, "#F0F0F0");
    assert!(info.description.is_none());
    assert_eq!(info.road_motorway.as_deref(), Some("#202020"));
    assert!(info.road_primary.is_none());
    assert!(info.road_default.is_none());
}

#[test]
fn theme_list_is_sorted_by_name() {
    let themes = vec![
        ("noir".to_string(), Theme::empty()),
        ("autumn".to_string(), Theme::empty()),
        ("marine".to_string(), Theme::empty()),
    ];
    let listed = maptoposter::theme::theme_list(&themes);
    assert_eq!(listed.count, 3);
    let names: Vec<&str> = listed.themes.iter().map(|t| t.name.as_str()).collect();
    assert_eq!(names, vec!["autumn", "marine", "noir"]);
}

#[test]
fn settings_validation_messages() {
    let settings = Settings::default();
    assert_eq!(settings.validate_distance(15000), Ok(15000));
    assert_eq!(
        settings.validate_distance(100),
        Err("Distance 100 is below minimum of 2000".to_string())
    );
    assert_eq!(
        settings.validate_distance(60000),
        Err("Distance 60000 is above maximum of 50000".to_string())
    );
}

#[test]
fn filename_sanitizing() {
    assert_eq!(sanitize_filename("New York"), "New_York");
    assert_eq!(sanitize_filename("a-b_c"), "a-b_c");
    assert_eq!(sanitize_filename("x/y:z"), "x_y_z");
}

#[test]
fn generation_time_estimate() {
    assert_eq!(estimate_generation_time(15000), 45);
    assert_eq!(estimate_generation_time(2000), 32);
    assert_eq!(default_distance(), 15000);
    assert_eq!(default_theme(), "feature_based");
    assert_eq!(default_limit(), 5);
}

#[test]
fn error_http_parts() {
    let e = AppError::ThemeNotFound("noir".to_string());
    let (status, kind, message) = e.http_parts();
    assert_eq!(status, 404);
    assert_eq!(kind, "theme_not_found");
    assert_eq!(message, "Theme 'noir' not found");
    assert_eq!(e.message(), "Theme not found: noir");

    let e = AppError::Geocoding("no match".to_string());
    let (status, kind, message) = e.http_parts();
    assert_eq!(status, 400);
    assert_eq!(kind, "geocoding_error");
    assert_eq!(message, "no match");
    assert_eq!(e.message(), "Geocoding failed: no match");
}

#[test]
fn job_id_formatting() {
    assert_eq!(format_job_id(0), "00000000-0000-0000-0000-000000000000");
    assert_eq!(
        format_job_id(0x0123456789abcdef0123456789abcdefu128),
        "01234567-89ab-cdef-0123-456789abcdef"
    );
}

#[test]
fn progress_steps() {
    assert_eq!(GenerationProgress::geocoding().progress_milli, 50);
    assert_eq!(GenerationProgress::geocoding().step, "geocoding");
    assert_eq!(GenerationProgress::rendering_roads().progress_milli, 700);
    let done = GenerationProgress::completed();
    assert_eq!(done.progress_milli, 1000);
    assert_eq!(done.message, "Poster generated successfully!");
}

#[test]
fn readiness_statuses() {
    assert_eq!(readiness_response(true, true, true).status, "ready");
    assert_eq!(readiness_response(true, false, true).status, "not_ready");
    assert_eq!(JobStatus::Queued.label(), "queued");
    assert_eq!(JobStatus::Failed.label(), "failed");
}

#[test]
fn search_url_percent_encodes_the_query() {
    assert_eq!(
        build_search_url("hello world", 5),
        "https://nominatim.openstreetmap.org/search?q=hello%20world&format=json&limit=5&addressdetails=1"
    );
    assert_eq!(
        build_search_url("Aix-en-Provence, France", 1),
        "https://nominatim.openstreetmap.org/search?q=Aix-en-Provence%2C%20France&format=json&limit=1&addressdetails=1"
    );
    assert_eq!(geocode_query("Berlin", "Germany"), "Berlin, Germany");
}

#[test]
fn uppercasing_goes_through_the_library() {
    assert_eq!(to_upper("berlin"), "BERLIN");
    assert_eq!(to_upper(""), "");
    assert_eq!(attribution_text(), "Map data © OpenStreetMap");
}

#[test]
fn overpass_queries_interpolate_center_and_radius() {
    let q = build_streets_query((407128, -740060), 15000);
    assert!(q.starts_with("[out:json][timeout:90];"));
    assert!(q.contains("(around:15000,40.7128,-74.0060);"));
    assert!(q.ends_with("out skel qt;"));

    let q = build_water_query((407128, -740060), 2000);
    assert!(q.contains("way[\"natural\"=\"water\"](around:2000,40.7128,-74.0060);"));
    assert!(q.contains("way[\"waterway\"=\"riverbank\"](around:2000,40.7128,-74.0060);"));
    assert!(q.contains("relation[\"natural\"=\"water\"](around:2000,40.7128,-74.0060);"));

    let q = build_parks_query((0, 0), 2000);
    assert!(q.contains("way[\"leisure\"=\"park\"](around:2000,0.0000,0.0000);"));
    assert!(q.contains("way[\"landuse\"=\"forest\"](around:2000,0.0000,0.0000);"));
}

fn sample_overpass() -> OverpassData {
    OverpassData {
        nodes: vec![
            OsmNode { id: 1, point: GeoPoint { lat: 10, lon: 20 } },
            OsmNode { id: 2, point: GeoPoint { lat: 30, lon: 40 } },
            OsmNode { id: 3, point: GeoPoint { lat: 50, lon: 60 } },
        ],
        ways: vec![
            OsmWay { id: 100, nodes: vec![1, 2], highway: Some("primary".to_string()) },
            OsmWay { id: 101, nodes: vec![1], highway: Some("service".to_string()) },
            OsmWay { id: 102, nodes: vec![1, 99, 3], highway: None },
        ],
    }
}

#[test]
fn road_parsing_resolves_and_filters() {
    let data = sample_overpass();
    let segments = parse_road_segments(&data);
    // The one-node way is dropped; the unknown reference is skipped.
    assert_eq!(segments.len(), 2);
    assert_eq!(segments[0].highway_type, HighwayType::Primary);
    assert_eq!(segments[0].points.len(), 2);
    assert_eq!(segments[1].highway_type, HighwayType::Default);
    assert_eq!(segments[1].points.len(), 2);
    assert_eq!(segments[1].points[1], GeoPoint { lat: 50, lon: 60 });
}

#[test]
fn area_parsing_needs_three_points() {
    let data = OverpassData {
        nodes: vec![
            OsmNode { id: 1, point: GeoPoint { lat: 0, lon: 0 } },
            OsmNode { id: 2, point: GeoPoint { lat: 10, lon: 0 } },
            OsmNode { id: 3, point: GeoPoint { lat: 10, lon: 10 } },
        ],
        ways: vec![
            OsmWay { id: 7, nodes: vec![1, 2, 3], highway: None },
            OsmWay { id: 8, nodes: vec![1, 2], highway: None },
        ],
    };
    let features = parse_area_features(&data, "water");
    assert_eq!(features.len(), 1);
    assert_eq!(features[0].feature_type, "water");
    assert_eq!(features[0].points.len(), 3);
}

#[test]
fn geocoding_candidates() {
    let empty: Vec<LocationData> = Vec::new();
    match first_candidate(&empty, "Atlantis", "Nowhere") {
        Err(AppError::Geocoding(m)) => {
            assert_eq!(m, "Location not found: Atlantis, Nowhere");
        }
        _ => panic!("no candidates must be a geocoding error"),
    }
    let results = vec![LocationData {
        lat: 525200,
        lon: 134050,
        display_name: "Berlin, Germany".to_string(),
        city: Some("Berlin".to_string()),
        country: Some("Germany".to_string()),
    }];
    assert_eq!(first_candidate(&results, "Berlin", "Germany").unwrap(), (525200, 134050));

    let response = locations_response(results);
    assert_eq!(response.count, 1);
    assert_eq!(response.results[0].display_name, "Berlin, Germany");
}

#[test]
fn city_fallback_chain() {
    assert_eq!(
        resolve_city(None, Some("town".to_string()), Some("village".to_string()), None),
        Some("town".to_string())
    );
    assert_eq!(
        resolve_city(None, None, None, Some("muni".to_string())),
        Some("muni".to_string())
    );
    assert_eq!(resolve_city(None, None, None, None), None);
}
