use maptoposter::canvas::Canvas;
use maptoposter::draw::{polygon_ops, road_ops, stroke_width_centi};
use maptoposter::geometry::{calculate_bounds, AreaFeature, Bounds, GeoPoint, RoadSegment};
use maptoposter::highway::HighwayType;
use maptoposter::projection::establish_projection;
use maptoposter::raster::{blend_pixel, GradientLocation, Pixel, PixelBuffer};
use maptoposter::theme::Theme;
use maptoposter::typography::{render_text, typography_plan, Glyph};

fn unit_square_bounds() -> Bounds {
    // One degree square, in ten-thousandths of a degree.
    Bounds { min_lat: 0, min_lon: 0, max_lat: 10000, max_lon: 10000 }
}

#[test]
fn projection_center_maps_to_canvas_center() {
    let proj = establish_projection(&unit_square_bounds(), 1000, 1000);
    let (x, y) = maptoposter::projection::geo_to_screen(&proj, 5000, 5000);
    assert_eq!((x, y), (500, 500));
}

#[test]
fn projection_padded_corners_are_symmetric() {
    let proj = establish_projection(&unit_square_bounds(), 1000, 1000);
    // The padded box runs from -500 to 10500 on both axes.
    let (x1, y1) = maptoposter::projection::geo_to_screen(&proj, -500, -500);
    let (x2, y2) = maptoposter::projection::geo_to_screen(&proj, 10500, 10500);
    assert_eq!(x1 + x2, 1000);
    assert_eq!(y1 + y2, 1000);
    assert_eq!((x1, y1), (0, 1000));
    assert_eq!((x2, y2), (1000, 0));
}

#[test]
fn bounds_of_segments() {
    let segments = vec![
        RoadSegment {
            points: vec![GeoPoint { lat: 10, lon: -5 }, GeoPoint { lat: 30, lon: 15 }],
            highway_type: HighwayType::Primary,
        },
        RoadSegment {
            points: vec![GeoPoint { lat: -20, lon: 0 }, GeoPoint { lat: 5, lon: 40 }],
            highway_type: HighwayType::Residential,
        },
    ];
    let b = calculate_bounds(&segments).unwrap();
    assert_eq!(b.min_lat, -20);
    assert_eq!(b.max_lat, 30);
    assert_eq!(b.min_lon, -5);
    assert_eq!(b.max_lon, 40);
    let empty: Vec<RoadSegment> = Vec::new();
    assert!(calculate_bounds(&empty).is_none());
}

#[test]
fn blend_is_identity_at_zero_and_replaces_at_full() {
    let black = Pixel { r: 0, g: 0, b: 0, a: 255 };
    assert_eq!(blend_pixel(black, 255, 255, 255, 0), black);
    assert_eq!(
        blend_pixel(black, 255, 255, 255, 255),
        Pixel { r: 255, g: 255, b: 255, a: 255 }
    );
    // Half coverage of white over black gives mid grey.
    let mid = blend_pixel(black, 255, 255, 255, 128);
    assert_eq!(mid, Pixel { r: 128, g: 128, b: 128, a: 255 });
}

#[test]
fn gradient_fades_cover_the_edge_rows() {
    let mut buf = PixelBuffer::new(4, 8);
    buf.fill_background("#000000");
    buf.apply_gradient_fades("#FFFFFF");
    // The band is a quarter of the height: two rows at each edge. The very
    // top and bottom rows are fully replaced by the gradient color.
    let top = buf.data[0];
    assert_eq!(top, Pixel { r: 255, g: 255, b: 255, a: 255 });
    let bottom = buf.data[7 * 4];
    assert_eq!(bottom, Pixel { r: 255, g: 255, b: 255, a: 255 });
    // The middle rows are untouched.
    let middle = buf.data[4 * 4];
    assert_eq!(middle, Pixel { r: 0, g: 0, b: 0, a: 255 });
}

#[test]
fn gradient_band_is_one_sided() {
    let mut buf = PixelBuffer::new(2, 8);
    buf.fill_background("#000000");
    buf.apply_gradient_fade("#FFFFFF", GradientLocation::Top);
    assert_eq!(buf.data[0].r, 255);
    // The bottom edge is untouched by a top fade.
    assert_eq!(buf.data[7 * 2].r, 0);
}

#[test]
fn rule_line_is_drawn_centered() {
    let mut buf = PixelBuffer::new(10, 10);
    buf.fill_background("#000000");
    buf.render_line("#FF0000", 5, 20, 2);
    // 20% of 10 columns is 2, centered at columns 4 and 5, rows 5 and 6.
    let red = Pixel { r: 255, g: 0, b: 0, a: 255 };
    assert_eq!(buf.data[5 * 10 + 4], red);
    assert_eq!(buf.data[5 * 10 + 5], red);
    assert_eq!(buf.data[6 * 10 + 4], red);
    assert_eq!(buf.data[5 * 10 + 3].r, 0);
    assert_eq!(buf.data[4 * 10 + 4].r, 0);
}

#[test]
fn glyph_compositing_places_the_bitmap() {
    let mut buf = PixelBuffer::new(4, 4);
    buf.fill_background("#000000");
    let glyph = Glyph {
        width: 1,
        height: 1,
        bitmap: vec![255],
        xmin: 0,
        ymin: 0,
        advance_centi: 100,
    };
    render_text(&mut buf, &vec![glyph], "#FFFFFF", 100, 1, false, 0);
    // The glyph lands at column 1, row y - height = 0.
    assert_eq!(buf.data[1], Pixel { r: 255, g: 255, b: 255, a: 255 });
    assert_eq!(buf.data[0].r, 0);
}

#[test]
fn typography_plan_sizes() {
    let plan = typography_plan(4800);
    assert_eq!(plan.city_size_centi, 19200); // 4% of the height, in hundredths
    assert_eq!(plan.city_spacing_centi, 5760); // 30% of the size
    assert_eq!(plan.country_size_centi, 7200);
    assert_eq!(plan.country_spacing_centi, 1440);
    assert_eq!(plan.coords_size_centi, 4800);
    assert_eq!(plan.attr_size_centi, 2880);
}

#[test]
fn stroke_widths_scale_with_radius() {
    // At the reference radius the motorway stroke is 2.4 pixels.
    assert_eq!(stroke_width_centi(12, 15000), 240);
    // A smaller radius gives proportionally thicker strokes.
    assert!(stroke_width_centi(12, 2000) > 240);
    // Residential roads are thinner than motorways.
    assert!(stroke_width_centi(4, 15000) < 240);
}

#[test]
fn road_ops_are_sorted_minor_first() {
    let proj = establish_projection(&unit_square_bounds(), 1000, 1000);
    let segments = vec![
        RoadSegment {
            points: vec![GeoPoint { lat: 0, lon: 0 }, GeoPoint { lat: 100, lon: 100 }],
            highway_type: HighwayType::Motorway,
        },
        RoadSegment {
            points: vec![GeoPoint { lat: 200, lon: 200 }, GeoPoint { lat: 300, lon: 300 }],
            highway_type: HighwayType::Residential,
        },
        RoadSegment {
            points: vec![GeoPoint { lat: 400, lon: 400 }, GeoPoint { lat: 500, lon: 500 }],
            highway_type: HighwayType::Secondary,
        },
    ];
    let theme = Theme::empty();
    let ops = road_ops(&segments, &theme, 15000, &proj);
    assert_eq!(ops.len(), 3);
    for w in ops.windows(2) {
        assert!(w[0].priority <= w[1].priority);
    }
    assert_eq!(ops[0].priority, 2); // residential first
    assert_eq!(ops[2].priority, 10); // motorway last, on top
    // With no theme entries, each class falls back to its documented default.
    assert_eq!(ops[0].color, (74, 74, 74)); // residential: #4A4A4A
    assert_eq!(ops[1].color, (42, 42, 42)); // secondary: #2A2A2A
    assert_eq!(ops[2].color, (10, 10, 10)); // motorway: #0A0A0A
}

#[test]
fn polygon_ops_project_each_ring() {
    let proj = establish_projection(&unit_square_bounds(), 1000, 1000);
    let features = vec![AreaFeature {
        points: vec![
            GeoPoint { lat: 0, lon: 0 },
            GeoPoint { lat: 10000, lon: 0 },
            GeoPoint { lat: 10000, lon: 10000 },
        ],
        feature_type: "water".to_string(),
    }];
    let ops = polygon_ops(&features, &proj, "#C0C0C0");
    assert_eq!(ops.len(), 1);
    assert_eq!(ops[0].points.len(), 3);
    assert_eq!(ops[0].color, (192, 192, 192));
    // A bad color draws nothing.
    assert!(polygon_ops(&features, &proj, "#GGG").is_empty());
}

#[test]
fn canvas_round_trip_and_png_signature() {
    let mut canvas = Canvas::new(16, 16).unwrap();
    canvas.fill_background("#FF0000");
    let png = canvas.to_png_bytes().expect("a small canvas encodes");
    assert_eq!(&png[0..8], &[137, 80, 78, 71, 13, 10, 26, 10]);

    let bytes = canvas.buffer.to_rgba_bytes();
    let rebuilt = PixelBuffer::from_rgba_bytes(16, 16, &bytes).unwrap();
    assert_eq!(rebuilt.data[0], Pixel { r: 255, g: 0, b: 0, a: 255 });
}

#[test]
fn canvas_rejects_empty_dimensions() {
    assert!(Canvas::new(0, 100).is_err());
    assert!(Canvas::new(100, 0).is_err());
    assert!(Canvas::new(3600, 4800).is_ok());
}
