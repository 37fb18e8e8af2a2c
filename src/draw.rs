use crate::lane_type::LaneType;
use crate::markings::{
    calculate_driving_lines, calculate_parking_lines, calculate_sidewalk_lines,
    calculate_turn_markings, edge_marks_ok, parking_marks, tick_marks_ok, turn_marks, Mark, Side,
    TurnType, PARKING_SPOT_LENGTH,
};
use vstd::prelude::*;

verus! {

/// The layer of anything drawn that has no layer of its own: low, so that
/// sunken roads are not drawn over.
pub const DEFAULT_ZORDER: isize = -5;

/// Road classes, from a road's rank, that pick its colours.
#[derive(Clone, Copy, Debug, PartialEq, Eq, Structural)]
pub enum RankTier {
    High,
    Mid,
    Low,
}

pub open spec fn tier_of(rank: nat) -> RankTier {
    if rank >= 16 {
        RankTier::High
    } else if rank >= 6 {
        RankTier::Mid
    } else {
        RankTier::Low
    }
}

/// The class of a road of `rank`: from 16 up, from 6 up, or below.
pub fn rank_tier(rank: usize) -> (r: RankTier)
    ensures
        r == tier_of(rank as nat),
{
    if rank >= 16 {
        RankTier::High
    } else if rank >= 6 {
        RankTier::Mid
    } else {
        RankTier::Low
    }
}

/// How a lane's surface is filled.
#[derive(Clone, Copy, Debug, PartialEq, Eq, Structural)]
pub enum Fill {
    /// Road surface in the colour of the road's class.
    Road(RankTier),
    BusLane,
    Sidewalk,
    BikeLane,
    ConstructionBackground,
}

pub open spec fn fill_of(lane_type: LaneType, rank: nat) -> Fill {
    match lane_type {
        LaneType::Driving | LaneType::Parking | LaneType::SharedLeftTurn => Fill::Road(
            tier_of(rank),
        ),
        LaneType::Bus => Fill::BusLane,
        LaneType::Sidewalk => Fill::Sidewalk,
        LaneType::Biking => Fill::BikeLane,
        LaneType::Construction => Fill::ConstructionBackground,
    }
}

/// The surface fill of a lane of `lane_type` on a road of `rank`.
pub fn lane_fill(lane_type: LaneType, rank: usize) -> (r: Fill)
    ensures
        r == fill_of(lane_type, rank as nat),
{
    match lane_type {
        LaneType::Driving | LaneType::Parking | LaneType::SharedLeftTurn => Fill::Road(
            rank_tier(rank),
        ),
        LaneType::Bus => Fill::BusLane,
        LaneType::Sidewalk => Fill::Sidewalk,
        LaneType::Biking => Fill::BikeLane,
        LaneType::Construction => Fill::ConstructionBackground,
    }
}

/// A lane's identity within its map.
#[derive(Clone, Copy, Debug, PartialEq, Eq, Structural, Hash)]
pub struct LaneID(pub usize);

/// What the marking plan reads of one lane and its surroundings; distances
/// are in centimetres.
pub struct Lane {
    pub id: LaneID,
    pub lane_type: LaneType,
    /// Length of the centreline.
    pub length: u64,
    /// Length of the inner edge, half a lane from the centreline.
    pub edge_length: u64,
    /// Parking stalls that fit on the lane.
    pub parking_spots: usize,
    /// Whether the lane runs in the road's direction.
    pub fwd: bool,
    /// Place on its own side, counted from the road's centre.
    pub offset: usize,
    /// Whether another driving lane runs beside it in the same direction.
    pub has_driving_neighbour: bool,
    /// The turns out of the lane.
    pub turns: Vec<TurnType>,
}

/// What the marking plan reads of a lane's road.
pub struct Road {
    pub rank: usize,
    pub zorder: isize,
    /// The types of the forward lanes, from the centre out.
    pub forward_lanes: Vec<LaneType>,
}

impl Lane {
    /// A driving or bus lane's place agrees with its road, and a parking
    /// lane's stalls fit in a length.
    pub open spec fn fits(&self, road: &Road) -> bool {
        &&& (self.lane_type == LaneType::Driving || self.lane_type == LaneType::Bus) && self.fwd
            ==> self.offset <= road.forward_lanes.len()
        &&& self.lane_type == LaneType::Parking ==> (self.parking_spots + 1) * PARKING_SPOT_LENGTH
            <= u64::MAX
    }
}

/// `m` are the markings of `lane` on `road`, by the lane's type.
pub open spec fn lane_marks_ok(m: Seq<Mark>, lane: Lane, road: Road) -> bool {
    match lane.lane_type {
        LaneType::Sidewalk => tick_marks_ok(m, lane.length as nat),
        LaneType::Parking => m == parking_marks(lane.parking_spots as nat),
        LaneType::Driving | LaneType::Bus => {
            let t = turn_marks(lane.has_driving_neighbour, lane.length as nat, lane.turns@);
            &&& m.len() >= t.len()
            &&& m.subrange(m.len() - t.len(), m.len() as int) == t
            &&& edge_marks_ok(
                m.subrange(0, m.len() - t.len()),
                lane.fwd,
                lane.offset as nat,
                road.forward_lanes@,
                lane.edge_length as nat,
            )
        },
        LaneType::Biking => m.len() == 0,
        LaneType::SharedLeftTurn => m == seq![
            Mark::CenterLine(Side::Right),
            Mark::CenterLine(Side::Left),
        ],
        LaneType::Construction => m == seq![Mark::Hatching],
    }
}

/// A lane's drawing, worked out and not yet uploaded.
pub struct AlmostDrawLane {
    pub id: LaneID,
    pub zorder: isize,
    pub fill: Fill,
    /// The polygons drawn over the fill, in drawing order.
    pub marks: Vec<Mark>,
}

/// A lane's drawing, uploaded: `D` is the handle that the upload returned.
pub struct DrawLane<D> {
    pub id: LaneID,
    pub zorder: isize,
    pub fill: Fill,
    pub draw_default: D,
}

impl AlmostDrawLane {
    /// Keeps what the lane needs once its drawing is uploaded as `draw_default`.
    pub fn finish<D>(self, draw_default: D) -> (r: DrawLane<D>)
        ensures
            r.id == self.id,
            r.zorder == self.zorder,
            r.fill == self.fill,
            r.draw_default == draw_default,
    {
        DrawLane { id: self.id, zorder: self.zorder, fill: self.fill, draw_default }
    }
}

impl<D> DrawLane<D> {
    /// Plans the drawing of `lane`: its fill, in the colour of its type, and,
    /// where markings are wanted, the markings of its type.
    pub fn new(lane: &Lane, road: &Road, draw_lane_markings: bool) -> (r: AlmostDrawLane)
        requires
            lane.fits(road),
        ensures
            r.id == lane.id,
            r.zorder == road.zorder,
            r.fill == fill_of(lane.lane_type, road.rank as nat),
            !draw_lane_markings ==> r.marks@.len() == 0,
            draw_lane_markings ==> lane_marks_ok(r.marks@, *lane, *road),
    {
        let fill = lane_fill(lane.lane_type, road.rank);
        let mut marks: Vec<Mark> = Vec::new();
        if draw_lane_markings {
            match lane.lane_type {
                LaneType::Sidewalk => {
                    marks = calculate_sidewalk_lines(lane.length);
                },
                LaneType::Parking => {
                    marks = calculate_parking_lines(lane.parking_spots);
                },
                LaneType::Driving | LaneType::Bus => {
                    marks =
                    calculate_driving_lines(
                        lane.fwd,
                        lane.offset,
                        &road.forward_lanes,
                        lane.edge_length,
                    );
                    let ghost edges = marks@;
                    let mut turns = calculate_turn_markings(
                        lane.has_driving_neighbour,
                        lane.length,
                        &lane.turns,
                    );
                    let ghost t = turns@;
                    marks.append(&mut turns);
                    assert(marks@.subrange(0, marks@.len() - t.len()) =~= edges);
                    assert(marks@.subrange(marks@.len() - t.len(), marks@.len() as int) =~= t);
                },
                LaneType::Biking => {},
                LaneType::SharedLeftTurn => {
                    marks.push(Mark::CenterLine(Side::Right));
                    marks.push(Mark::CenterLine(Side::Left));
                    assert(marks@ =~= seq![
                        Mark::CenterLine(Side::Right),
                        Mark::CenterLine(Side::Left),
                    ]);
                },
                LaneType::Construction => {
                    marks.push(Mark::Hatching);
                    assert(marks@ =~= seq![Mark::Hatching]);
                },
            }
        }
        AlmostDrawLane { id: lane.id, zorder: road.zorder, fill, marks }
    }

    /// The layer that the lane is drawn in: its road's.
    pub fn get_zorder(&self) -> (r: isize)
        ensures
            r == self.zorder,
    {
        self.zorder
    }
}

/// An area's identity within its map.
#[derive(Clone, Copy, Debug, PartialEq, Eq, Structural, Hash)]
pub struct AreaID(pub usize);

#[derive(Clone, Copy, Debug, PartialEq, Eq, Structural)]
pub enum AreaType {
    Park,
    Water,
    PedestrianIsland,
}

/// How an area is filled.
#[derive(Clone, Copy, Debug, PartialEq, Eq, Structural)]
pub enum AreaFill {
    GrassTexture,
    WaterTexture,
    Grey,
}

pub open spec fn area_fill_of(t: AreaType) -> AreaFill {
    match t {
        AreaType::Park => AreaFill::GrassTexture,
        AreaType::Water => AreaFill::WaterTexture,
        AreaType::PedestrianIsland => AreaFill::Grey,
    }
}

/// What the drawing reads of an area.
#[derive(Clone, Copy, Debug, PartialEq, Eq, Structural)]
pub struct Area {
    pub id: AreaID,
    pub area_type: AreaType,
}

/// An area as drawn: all areas share one batch of fills.
#[derive(Clone, Copy, Debug, PartialEq, Eq, Structural)]
pub struct DrawArea {
    pub id: AreaID,
}

impl DrawArea {
    /// Adds the area's fill to the shared batch `all_areas`.
    pub fn new(area: &Area, all_areas: &mut Vec<(AreaFill, AreaID)>) -> (r: DrawArea)
        ensures
            r.id == area.id,
            final(all_areas)@ == old(all_areas)@.push((area_fill_of(area.area_type), area.id)),
    {
        let fill = match area.area_type {
            AreaType::Park => AreaFill::GrassTexture,
            AreaType::Water => AreaFill::WaterTexture,
            AreaType::PedestrianIsland => AreaFill::Grey,
        };
        all_areas.push((fill, area.id));
        DrawArea { id: area.id }
    }
}

/// The state of the game mode that asks the player to cause gridlock: the
/// simulation time, in tenths of a second, that its panel was last built for.
pub struct CreateGridlock {
    time: u64,
}

impl CreateGridlock {
    pub closed spec fn time_spec(&self) -> u64 {
        self.time
    }

    pub fn new() -> (r: CreateGridlock)
        ensures
            r.time_spec() == 0,
    {
        CreateGridlock { time: 0 }
    }

    /// Notes the simulation time `now`; says whether the panel must be built
    /// again, which it must when the time moved.
    pub fn observe_time(&mut self, now: u64) -> (refresh: bool)
        ensures
            refresh == (old(self).time_spec() != now),
            final(self).time_spec() == now,
    {
        if self.time != now {
            self.time = now;
            true
        } else {
            false
        }
    }
}

} // verus!
