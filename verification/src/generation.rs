//! The pure heart of poster generation: from fetched geometry and a theme
//! to everything the rasterizer needs — resolved colors, the projection,
//! and the projected, styled draw operations. Street data is mandatory;
//! water and park fetches may degrade to nothing.
use vstd::prelude::*;
use vstd::string::StringExecFns;
use crate::draw::{
    polygon_ops, projected_centi, road_models, road_ops, strokes_match_models, strokes_sorted,
    PolygonOp, StrokeOp,
};
use crate::errors::AppError;
use crate::geometry::{calculate_bounds, is_bounds_of, lemma_bounds_wf, AreaFeature, RoadSegment};
use crate::projection::{establish_projection, projection_for, Projection};
use crate::theme::{get_theme_color, theme_color_spec, Theme};

verus! {

/// Everything the rasterizer needs to draw the map layers of a poster.
#[derive(Debug)]
pub struct RenderPlan {
    pub width: u32,
    pub height: u32,
    /// The theme's background color.
    pub background: String,
    /// The theme's gradient color; it falls back to the background.
    pub gradient_color: String,
    /// The theme's text color.
    pub text_color: String,
    pub projection: Projection,
    pub water_ops: Vec<PolygonOp>,
    pub park_ops: Vec<PolygonOp>,
    pub road_ops: Vec<StrokeOp>,
}

/// A degraded fetch: water and park failures are non-fatal, an error
/// stands for no features.
pub fn features_or_empty(result: Result<Vec<AreaFeature>, AppError>) -> (r: Vec<AreaFeature>)
    ensures
        match result {
            Ok(v) => r == v,
            Err(_) => r@.len() == 0,
        },
{
    match result {
        Ok(v) => v,
        Err(_) => Vec::new(),
    }
}

/// Build the render plan for a poster: the theme's colors resolved with
/// their documented defaults, the projection fitted to the street bounds,
/// and the water, park and road draw operations. An empty street network
/// cannot be rendered and is fatal.
pub fn render_plan(
    theme: &Theme,
    streets: &Vec<RoadSegment>,
    water: &Vec<AreaFeature>,
    parks: &Vec<AreaFeature>,
    distance: u32,
    width: u32,
    height: u32,
) -> (r: Result<RenderPlan, AppError>)
    requires
        forall|i: int| 0 <= i < streets@.len() ==> (#[trigger] streets@[i]).wf(),
        forall|i: int| 0 <= i < water@.len() ==> (#[trigger] water@[i]).wf(),
        forall|i: int| 0 <= i < parks@.len() ==> (#[trigger] parks@[i]).wf(),
        distance >= 1,
        1 <= width <= 10000,
        1 <= height <= 10000,
    ensures
        streets@.len() == 0 ==> (r matches Err(e) && e matches AppError::DataFetch(m) && m@
            == "No street data found for this location"@),
        streets@.len() > 0 ==> (r matches Ok(plan) && {
            &&& plan.width == width && plan.height == height
            &&& plan.background@ == theme_color_spec(*theme, "bg"@, "#FFFFFF"@)
            &&& plan.gradient_color@ == theme_color_spec(
                *theme,
                "gradient_color"@,
                theme_color_spec(*theme, "bg"@, "#FFFFFF"@),
            )
            &&& plan.text_color@ == theme_color_spec(*theme, "text"@, "#000000"@)
            &&& exists|b: crate::geometry::Bounds|
                #![auto]
                is_bounds_of(streets@, b) && plan.projection == projection_for(
                    b,
                    width as int,
                    height as int,
                )
            &&& plan.projection.wf()
            &&& polygon_ops_match(
                plan.water_ops@,
                water@,
                plan.projection,
                theme_color_spec(*theme, "water"@, "#C0C0C0"@),
            )
            &&& polygon_ops_match(
                plan.park_ops@,
                parks@,
                plan.projection,
                theme_color_spec(*theme, "parks"@, "#F0F0F0"@),
            )
            &&& strokes_sorted(plan.road_ops@)
            &&& exists|mid: Seq<StrokeOp>|
                #![auto]
                strokes_match_models(
                    mid,
                    road_models(streets@, *theme, plan.projection),
                    distance as int,
                ) && plan.road_ops@.to_multiset() == mid.to_multiset()
        }),
{
    if streets.len() == 0 {
        return Err(
            AppError::DataFetch(String::from_str("No street data found for this location")),
        );
    }
    let bounds = match calculate_bounds(streets) {
        Some(b) => b,
        None => {
            return Err(
                AppError::DataFetch(String::from_str("No street data found for this location")),
            );
        },
    };
    proof {
        lemma_bounds_wf(streets@, bounds);
    }
    let projection = establish_projection(&bounds, width as i64, height as i64);
    let background = get_theme_color(theme, "bg", "#FFFFFF");
    let gradient_color = get_theme_color(theme, "gradient_color", background.as_str());
    let text_color = get_theme_color(theme, "text", "#000000");
    let water_color = get_theme_color(theme, "water", "#C0C0C0");
    let parks_color = get_theme_color(theme, "parks", "#F0F0F0");
    let water_ops = polygon_ops(water, &projection, water_color.as_str());
    let park_ops = polygon_ops(parks, &projection, parks_color.as_str());
    let roads = road_ops(streets, theme, distance, &projection);
    Ok(
        RenderPlan {
            width,
            height,
            background,
            gradient_color,
            text_color,
            projection,
            water_ops,
            park_ops,
            road_ops: roads,
        },
    )
}

/// Whether the fill operations realise the features under a projection, in
/// the given color: nothing when the color string is not a hex color, else
/// one operation per feature, point for point.
pub open spec fn polygon_ops_match(
    ops: Seq<PolygonOp>,
    features: Seq<AreaFeature>,
    proj: Projection,
    hex: Seq<char>,
) -> bool {
    match crate::colors::hex_color_spec(hex) {
        None => ops.len() == 0,
        Some(c) => {
            &&& ops.len() == features.len()
            &&& forall|i: int|
                0 <= i < features.len() ==> {
                    &&& (#[trigger] ops[i]).color == c
                    &&& ops[i].points@.len() == features[i].points@.len()
                    &&& forall|j: int|
                        0 <= j < features[i].points@.len() ==> ops[i].points@[j] == projected_centi(
                            proj,
                            #[trigger] features[i].points@[j],
                        )
                }
        },
    }
}

} // verus!
