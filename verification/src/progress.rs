//! Progress reporting for poster generation: the named steps and the
//! progress fraction (in thousandths) reached at each one.
use vstd::prelude::*;
use vstd::string::StringExecFns;

verus! {

/// Progress update for poster generation. The fraction is held in
/// thousandths, so `1000` stands for a finished job.
#[derive(Debug, Clone)]
pub struct GenerationProgress {
    pub step: String,
    pub progress_milli: u32,
    pub message: String,
}

impl GenerationProgress {
    pub fn new(step: &str, progress_milli: u32, message: &str) -> (r: Self)
        ensures
            r.step@ == step@,
            r.progress_milli == progress_milli,
            r.message@ == message@,
    {
        Self {
            step: String::from_str(step),
            progress_milli,
            message: String::from_str(message),
        }
    }

    pub fn geocoding() -> (r: Self)
        ensures
            r.step@ == "geocoding"@,
            r.progress_milli == 50,
            r.message@ == "Geocoding location..."@,
    {
        Self::new("geocoding", 50, "Geocoding location...")
    }

    pub fn fetching_streets() -> (r: Self)
        ensures
            r.step@ == "fetching_streets"@,
            r.progress_milli == 150,
            r.message@ == "Fetching street network..."@,
    {
        Self::new("fetching_streets", 150, "Fetching street network...")
    }

    pub fn fetching_water() -> (r: Self)
        ensures
            r.step@ == "fetching_water"@,
            r.progress_milli == 300,
            r.message@ == "Fetching water features..."@,
    {
        Self::new("fetching_water", 300, "Fetching water features...")
    }

    pub fn fetching_parks() -> (r: Self)
        ensures
            r.step@ == "fetching_parks"@,
            r.progress_milli == 400,
            r.message@ == "Fetching park features..."@,
    {
        Self::new("fetching_parks", 400, "Fetching park features...")
    }

    pub fn rendering_background() -> (r: Self)
        ensures
            r.step@ == "rendering_background"@,
            r.progress_milli == 500,
            r.message@ == "Rendering background..."@,
    {
        Self::new("rendering_background", 500, "Rendering background...")
    }

    pub fn rendering_water() -> (r: Self)
        ensures
            r.step@ == "rendering_water"@,
            r.progress_milli == 550,
            r.message@ == "Rendering water features..."@,
    {
        Self::new("rendering_water", 550, "Rendering water features...")
    }

    pub fn rendering_parks() -> (r: Self)
        ensures
            r.step@ == "rendering_parks"@,
            r.progress_milli == 600,
            r.message@ == "Rendering park features..."@,
    {
        Self::new("rendering_parks", 600, "Rendering park features...")
    }

    pub fn rendering_roads() -> (r: Self)
        ensures
            r.step@ == "rendering_roads"@,
            r.progress_milli == 700,
            r.message@ == "Rendering road network..."@,
    {
        Self::new("rendering_roads", 700, "Rendering road network...")
    }

    pub fn rendering_gradients() -> (r: Self)
        ensures
            r.step@ == "rendering_gradients"@,
            r.progress_milli == 850,
            r.message@ == "Applying gradient fades..."@,
    {
        Self::new("rendering_gradients", 850, "Applying gradient fades...")
    }

    pub fn rendering_text() -> (r: Self)
        ensures
            r.step@ == "rendering_text"@,
            r.progress_milli == 900,
            r.message@ == "Rendering typography..."@,
    {
        Self::new("rendering_text", 900, "Rendering typography...")
    }

    pub fn saving() -> (r: Self)
        ensures
            r.step@ == "saving"@,
            r.progress_milli == 950,
            r.message@ == "Saving poster..."@,
    {
        Self::new("saving", 950, "Saving poster...")
    }

    pub fn completed() -> (r: Self)
        ensures
            r.step@ == "completed"@,
            r.progress_milli == 1000,
            r.message@ == "Poster generated successfully!"@,
    {
        Self::new("completed", 1000, "Poster generated successfully!")
    }
}

} // verus!
