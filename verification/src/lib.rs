//! Core library for a map-poster generation service: job orchestration,
//! rate-limited data acquisition with a TTL cache, and a rendering engine
//! (projection, compositing, typography) over fixed-point coordinates.
pub mod numeric;
pub mod colors;
pub mod highway;
pub mod progress;
pub mod geometry;
pub mod projection;
pub mod cache;
pub mod rate_limiter;
pub mod models;
pub mod errors;
pub mod theme;
pub mod config;
pub mod jobs;
pub mod orchestrator;
pub mod raster;
pub mod canvas;
pub mod draw;
pub mod typography;
pub mod osm;
pub mod generation;
