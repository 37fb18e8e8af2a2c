//! Lane classification for road segments and the marking plans that are drawn
//! along each lane.
//!
//! Distances along a lane are whole centimetres throughout.

mod draw;
mod lane_type;
mod lanes;
mod markings;
mod road_spec;
mod text;

pub use draw::{
    lane_fill, rank_tier, AlmostDrawLane, Area, AreaFill, AreaID, AreaType, CreateGridlock,
    DrawArea, DrawLane, Fill, Lane, LaneID, RankTier, Road, DEFAULT_ZORDER,
};
pub use lane_type::LaneType;
pub use lanes::{
    get_lane_specs, get_lanes, EditRoad, LaneSpec, LaneSpecError, RawRoad, RoadEdits, RoadID,
};
pub use markings::{
    calculate_driving_lines, calculate_parking_lines, calculate_sidewalk_lines,
    calculate_turn_markings, dashed_lines, Leg, Mark, Side, Span, TurnType, EDGE_DASH_LEN,
    EDGE_DASH_SEPARATION, EPSILON_DIST, LANE_THICKNESS, PARKING_SPOT_LENGTH, TURN_BASE_END_BEFORE,
    TURN_BASE_START_BEFORE,
};
pub use road_spec::RoadSpec;
pub use text::str_eq;
