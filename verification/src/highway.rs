//! Highway classification: parsing of OpenStreetMap highway tags and the
//! per-class rendering style (stroke width, theme color key, priority).
use vstd::prelude::*;
use crate::numeric::str_eq;

verus! {

/// Highway types with their rendering priority.
#[derive(Debug, Clone, Copy, PartialEq, Eq, Structural, Hash)]
pub enum HighwayType {
    Motorway,
    MotorwayLink,
    Trunk,
    Primary,
    PrimaryLink,
    Secondary,
    SecondaryLink,
    Tertiary,
    TertiaryLink,
    Residential,
    LivingStreet,
    Service,
    Unclassified,
    Default,
}

/// Which highway type a tag value names; anything unrecognised is `Default`.
pub open spec fn highway_from_str_spec(s: Seq<char>) -> HighwayType {
    if s == "motorway"@ {
        HighwayType::Motorway
    } else if s == "motorway_link"@ {
        HighwayType::MotorwayLink
    } else if s == "trunk"@ {
        HighwayType::Trunk
    } else if s == "primary"@ {
        HighwayType::Primary
    } else if s == "primary_link"@ {
        HighwayType::PrimaryLink
    } else if s == "secondary"@ {
        HighwayType::Secondary
    } else if s == "secondary_link"@ {
        HighwayType::SecondaryLink
    } else if s == "tertiary"@ {
        HighwayType::Tertiary
    } else if s == "tertiary_link"@ {
        HighwayType::TertiaryLink
    } else if s == "residential"@ {
        HighwayType::Residential
    } else if s == "living_street"@ {
        HighwayType::LivingStreet
    } else if s == "service"@ {
        HighwayType::Service
    } else if s == "unclassified"@ {
        HighwayType::Unclassified
    } else {
        HighwayType::Default
    }
}

/// The stroke width of a highway class, in tenths of a pixel before scaling.
pub open spec fn line_width_tenths_spec(t: HighwayType) -> u64 {
    match t {
        HighwayType::Motorway | HighwayType::MotorwayLink => 12,
        HighwayType::Trunk | HighwayType::Primary | HighwayType::PrimaryLink => 10,
        HighwayType::Secondary | HighwayType::SecondaryLink => 8,
        HighwayType::Tertiary | HighwayType::TertiaryLink => 6,
        HighwayType::Residential | HighwayType::LivingStreet => 4,
        HighwayType::Service | HighwayType::Unclassified => 3,
        HighwayType::Default => 4,
    }
}

impl HighwayType {
    pub fn from_str(s: &str) -> (r: Self)
        ensures
            r == highway_from_str_spec(s@),
    {
        if str_eq(s, "motorway") {
            Self::Motorway
        } else if str_eq(s, "motorway_link") {
            Self::MotorwayLink
        } else if str_eq(s, "trunk") {
            Self::Trunk
        } else if str_eq(s, "primary") {
            Self::Primary
        } else if str_eq(s, "primary_link") {
            Self::PrimaryLink
        } else if str_eq(s, "secondary") {
            Self::Secondary
        } else if str_eq(s, "secondary_link") {
            Self::SecondaryLink
        } else if str_eq(s, "tertiary") {
            Self::Tertiary
        } else if str_eq(s, "tertiary_link") {
            Self::TertiaryLink
        } else if str_eq(s, "residential") {
            Self::Residential
        } else if str_eq(s, "living_street") {
            Self::LivingStreet
        } else if str_eq(s, "service") {
            Self::Service
        } else if str_eq(s, "unclassified") {
            Self::Unclassified
        } else {
            Self::Default
        }
    }

    /// The line width for this highway type, in tenths of a pixel.
    pub fn line_width_tenths(&self) -> (r: u64)
        ensures
            r == line_width_tenths_spec(*self),
            1 <= r <= 12,
    {
        match self {
            Self::Motorway | Self::MotorwayLink => 12,
            Self::Trunk | Self::Primary | Self::PrimaryLink => 10,
            Self::Secondary | Self::SecondaryLink => 8,
            Self::Tertiary | Self::TertiaryLink => 6,
            Self::Residential | Self::LivingStreet => 4,
            Self::Service | Self::Unclassified => 3,
            Self::Default => 4,
        }
    }

    /// The theme color key for this highway type.
    pub fn theme_key(&self) -> (r: &'static str)
        ensures
            r@ == theme_key_spec(*self),
    {
        let r = match self {
            Self::Motorway | Self::MotorwayLink => "road_motorway",
            Self::Trunk | Self::Primary | Self::PrimaryLink => "road_primary",
            Self::Secondary | Self::SecondaryLink => "road_secondary",
            Self::Tertiary | Self::TertiaryLink => "road_tertiary",
            Self::Residential | Self::LivingStreet | Self::Service | Self::Unclassified => {
                "road_residential"
            },
            Self::Default => "road_default",
        };
        r
    }
}

/// The theme color key of a highway class.
pub open spec fn theme_key_spec(t: HighwayType) -> Seq<char> {
    match t {
        HighwayType::Motorway | HighwayType::MotorwayLink => "road_motorway"@,
        HighwayType::Trunk | HighwayType::Primary | HighwayType::PrimaryLink => "road_primary"@,
        HighwayType::Secondary | HighwayType::SecondaryLink => "road_secondary"@,
        HighwayType::Tertiary | HighwayType::TertiaryLink => "road_tertiary"@,
        HighwayType::Residential | HighwayType::LivingStreet | HighwayType::Service
            | HighwayType::Unclassified => "road_residential"@,
        HighwayType::Default => "road_default"@,
    }
}

/// Road style configuration.
#[derive(Debug, Clone)]
pub struct RoadStyle {
    pub width_tenths: u64,
    pub color_key: &'static str,
    pub default_color: &'static str,
}

/// The fallback hex color of a highway class, used when the theme omits its key.
pub open spec fn default_road_color_spec(t: HighwayType) -> Seq<char> {
    match t {
        HighwayType::Motorway | HighwayType::MotorwayLink => "#0A0A0A"@,
        HighwayType::Trunk | HighwayType::Primary | HighwayType::PrimaryLink => "#1A1A1A"@,
        HighwayType::Secondary | HighwayType::SecondaryLink => "#2A2A2A"@,
        HighwayType::Tertiary | HighwayType::TertiaryLink => "#3A3A3A"@,
        HighwayType::Residential | HighwayType::LivingStreet | HighwayType::Service
            | HighwayType::Unclassified => "#4A4A4A"@,
        HighwayType::Default => "#3A3A3A"@,
    }
}

impl RoadStyle {
    pub fn for_highway(highway_type: HighwayType) -> (r: Self)
        ensures
            r.width_tenths == line_width_tenths_spec(highway_type),
            r.color_key@ == theme_key_spec(highway_type),
            r.default_color@ == default_road_color_spec(highway_type),
    {
        match highway_type {
            HighwayType::Motorway | HighwayType::MotorwayLink => Self {
                width_tenths: 12,
                color_key: "road_motorway",
                default_color: "#0A0A0A",
            },
            HighwayType::Trunk | HighwayType::Primary | HighwayType::PrimaryLink => Self {
                width_tenths: 10,
                color_key: "road_primary",
                default_color: "#1A1A1A",
            },
            HighwayType::Secondary | HighwayType::SecondaryLink => Self {
                width_tenths: 8,
                color_key: "road_secondary",
                default_color: "#2A2A2A",
            },
            HighwayType::Tertiary | HighwayType::TertiaryLink => Self {
                width_tenths: 6,
                color_key: "road_tertiary",
                default_color: "#3A3A3A",
            },
            HighwayType::Residential | HighwayType::LivingStreet => Self {
                width_tenths: 4,
                color_key: "road_residential",
                default_color: "#4A4A4A",
            },
            HighwayType::Service | HighwayType::Unclassified => Self {
                width_tenths: 3,
                color_key: "road_residential",
                default_color: "#4A4A4A",
            },
            HighwayType::Default => Self {
                width_tenths: 4,
                color_key: "road_default",
                default_color: "#3A3A3A",
            },
        }
    }
}

/// The drawing priority of a highway class: higher is drawn later, on top.
pub open spec fn highway_priority_spec(t: HighwayType) -> u8 {
    match t {
        HighwayType::Motorway | HighwayType::MotorwayLink => 10,
        HighwayType::Trunk => 9,
        HighwayType::Primary | HighwayType::PrimaryLink => 8,
        HighwayType::Secondary | HighwayType::SecondaryLink => 6,
        HighwayType::Tertiary | HighwayType::TertiaryLink => 4,
        HighwayType::Residential | HighwayType::LivingStreet => 2,
        HighwayType::Service | HighwayType::Unclassified | HighwayType::Default => 1,
    }
}

/// Get the drawing priority for a highway type (higher = drawn later = on top).
pub fn highway_priority(highway_type: HighwayType) -> (r: u8)
    ensures
        r == highway_priority_spec(highway_type),
{
    match highway_type {
        HighwayType::Motorway | HighwayType::MotorwayLink => 10,
        HighwayType::Trunk => 9,
        HighwayType::Primary | HighwayType::PrimaryLink => 8,
        HighwayType::Secondary | HighwayType::SecondaryLink => 6,
        HighwayType::Tertiary | HighwayType::TertiaryLink => 4,
        HighwayType::Residential | HighwayType::LivingStreet => 2,
        HighwayType::Service | HighwayType::Unclassified | HighwayType::Default => 1,
    }
}

/// The priority used to order strokes before drawing: minor roads first.
pub open spec fn draw_priority_spec(t: HighwayType) -> u8 {
    match t {
        HighwayType::Motorway | HighwayType::MotorwayLink => 10,
        HighwayType::Trunk | HighwayType::Primary | HighwayType::PrimaryLink => 8,
        HighwayType::Secondary | HighwayType::SecondaryLink => 6,
        HighwayType::Tertiary | HighwayType::TertiaryLink => 4,
        _ => 2,
    }
}

/// The sort key used when ordering road segments for drawing.
pub fn draw_priority(highway_type: HighwayType) -> (r: u8)
    ensures
        r == draw_priority_spec(highway_type),
{
    match highway_type {
        HighwayType::Motorway | HighwayType::MotorwayLink => 10,
        HighwayType::Trunk | HighwayType::Primary | HighwayType::PrimaryLink => 8,
        HighwayType::Secondary | HighwayType::SecondaryLink => 6,
        HighwayType::Tertiary | HighwayType::TertiaryLink => 4,
        _ => 2,
    }
}

} // verus!
