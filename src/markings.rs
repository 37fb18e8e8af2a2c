use crate::lane_type::LaneType;
use vstd::prelude::*;

verus! {

/// Width of one lane, in centimetres.
pub const LANE_THICKNESS: u64 = 250;

/// Length of one parking stall, in centimetres.
pub const PARKING_SPOT_LENGTH: u64 = 800;

/// The smallest length that counts, in centimetres.
pub const EPSILON_DIST: u64 = 1;

/// Dashes along a lane edge: length of a dash, in centimetres.
pub const EDGE_DASH_LEN: u64 = 100;

/// Dashes along a lane edge: gap between two dashes, in centimetres.
pub const EDGE_DASH_SEPARATION: u64 = 150;

/// The turn arrows start from a base that ends this far before the lane's end.
pub const TURN_BASE_END_BEFORE: u64 = 500;

/// The turn base starts this far before the lane's end; a shorter lane gets no
/// turn arrows.
pub const TURN_BASE_START_BEFORE: u64 = 700;

/// A stretch of a line, by distance from its start, in centimetres.
#[derive(Clone, Copy, Debug, PartialEq, Eq, Structural)]
pub struct Span {
    pub start: u64,
    pub end: u64,
}

/// The three legs of the "T" that brackets a parking stall.
#[derive(Clone, Copy, Debug, PartialEq, Eq, Structural)]
pub enum Leg {
    /// Back toward the lane's outer edge.
    Across,
    /// Along the lane, in its direction.
    Ahead,
    /// Along the lane, against its direction.
    Behind,
}

/// Which side of the centreline a line is shifted to.
#[derive(Clone, Copy, Debug, PartialEq, Eq, Structural)]
pub enum Side {
    Left,
    Right,
}

/// One polygon to be drawn on a lane.
#[derive(Clone, Copy, Debug, PartialEq, Eq, Structural)]
pub enum Mark {
    /// A short line across the lane at this distance along it.
    Tick(u64),
    /// One leg of a parking "T" whose foot is at this distance along the lane.
    StallLeg(u64, Leg),
    /// The whole inner edge of a parking lane.
    ParkingEdge,
    /// A piece of the inner edge of a lane, by distance along that edge.
    EdgeDash(Span),
    /// The stretch of the centreline that the turn arrows start from.
    TurnBase(Span),
    /// An arrow for the turn at this index of the lane's turns.
    TurnArrow(usize),
    /// The centreline shifted half a lane to one side.
    CenterLine(Side),
    /// Hatching over the whole lane.
    Hatching,
}

/// The number of dashes that fit on a stretch of `length`: dash `k` starts at
/// `k * (dash_len + gap)` and is kept while it ends strictly before the end.
pub open spec fn is_dash_count(n: nat, length: nat, dash_len: nat, gap: nat) -> bool {
    &&& forall|k: nat| k < n ==> #[trigger] (k * (dash_len + gap)) + dash_len < length
    &&& n * (dash_len + gap) + dash_len >= length
}

/// The dashes of a line of `length`: one solid piece if the line is too
/// short, else dashes over the line with `gap` left free at each end.
pub open spec fn dash_spans_ok(
    r: Seq<Span>,
    length: nat,
    dash_len: nat,
    gap: nat,
) -> bool {
    if length < 2 * gap + EPSILON_DIST {
        r == seq![Span { start: 0, end: length as u64 }]
    } else {
        &&& is_dash_count(r.len(), (length - 2 * gap) as nat, dash_len, gap)
        &&& forall|k: int|
            0 <= k < r.len() ==> #[trigger] r[k] == (Span {
                start: (gap + k * (dash_len + gap)) as u64,
                end: (gap + k * (dash_len + gap) + dash_len) as u64,
            })
    }
}

/// Splits a line of `length` into dashes of `dash_len` with `dash_separation`
/// between them, keeping one gap free at each end; a line shorter than two
/// gaps is one solid piece.
pub fn dashed_lines(length: u64, dash_len: u64, dash_separation: u64) -> (r: Vec<Span>)
    requires
        dash_len + dash_separation > 0 || length < 2 * dash_separation + EPSILON_DIST,
    ensures
        dash_spans_ok(r@, length as nat, dash_len as nat, dash_separation as nat),
{
    let total = length as u128;
    let gap = dash_separation as u128;
    let d = dash_len as u128;
    if total < 2 * gap + EPSILON_DIST as u128 {
        let r = vec![Span { start: 0, end: length }];
        assert(r@ =~= seq![Span { start: 0, end: length }]);
        return r;
    }
    // Don't draw the dashes too close to the ends.
    let inner = total - 2 * gap;
    let step = d + gap;
    let mut r: Vec<Span> = Vec::new();
    let mut start: u128 = 0;
    let ghost mut k: nat = 0;
    while start + d < inner
        invariant
            total == length,
            gap == dash_separation,
            d == dash_len,
            step == d + gap,
            step > 0,
            inner == total - 2 * gap,
            inner <= u64::MAX,
            d <= u64::MAX,
            gap <= u64::MAX,
            start <= inner + step,
            start == k * step,
            r@.len() == k,
            forall|j: nat| j < k ==> #[trigger] (j * (d + gap)) + d < inner,
            forall|j: int|
                0 <= j < k ==> #[trigger] r@[j] == (Span {
                    start: (gap + j * (d + gap)) as u64,
                    end: (gap + j * (d + gap) + d) as u64,
                }),
        decreases inner + step - start,
    {
        r.push(Span { start: (gap + start) as u64, end: (gap + start + d) as u64 });
        assert forall|j: nat| j < k + 1 implies #[trigger] (j * (d + gap)) + d < inner by {
            if j == k {
            }
        }
        start = start + step;
        assert((k + 1) * step == k * step + step) by (nonlinear_arith);
        proof {
            k = k + 1;
        }
    }
    r
}

/// How many ticks fit on a sidewalk of `length`: tick `k` stands at
/// `(k + 1) * tile` and is kept while it stands more than a tile before the end.
pub open spec fn is_tick_count(n: nat, length: nat, tile: nat) -> bool {
    &&& forall|k: nat| k < n ==> #[trigger] ((k + 1) * tile) + tile < length
    &&& (n + 1) * tile + tile >= length
}

/// `r` are the ticks of a sidewalk of `length`, one lane width apart.
pub open spec fn tick_marks_ok(r: Seq<Mark>, length: nat) -> bool {
    &&& is_tick_count(r.len(), length, LANE_THICKNESS as nat)
    &&& forall|k: int|
        0 <= k < r.len() ==> #[trigger] r[k] == Mark::Tick(((k + 1) * LANE_THICKNESS) as u64)
}

/// Ticks across a sidewalk, one lane width apart, kept away from both ends.
pub fn calculate_sidewalk_lines(length: u64) -> (r: Vec<Mark>)
    ensures
        tick_marks_ok(r@, length as nat),
{
    let tile_every = LANE_THICKNESS;
    let mut result: Vec<Mark> = Vec::new();
    // Start away from the intersections.
    let mut dist_along: u64 = tile_every;
    let ghost mut k: nat = 0;
    while (dist_along as u128) + (tile_every as u128) < length as u128
        invariant
            tile_every == LANE_THICKNESS,
            dist_along == (k + 1) * LANE_THICKNESS,
            result@.len() == k,
            forall|j: nat| j < k ==> #[trigger] ((j + 1) * LANE_THICKNESS) + LANE_THICKNESS < length,
            forall|j: int|
                0 <= j < k ==> #[trigger] result@[j] == Mark::Tick(
                    ((j + 1) * LANE_THICKNESS) as u64,
                ),
        decreases length - dist_along,
    {
        result.push(Mark::Tick(dist_along));
        assert forall|j: nat| j < k + 1 implies #[trigger] ((j + 1) * LANE_THICKNESS)
            + LANE_THICKNESS < length by {
            if j == k {
            }
        }
        dist_along = dist_along + tile_every;
        proof {
            k = k + 1;
        }
    }
    result
}

/// The marks of a parking lane with `num_spots` stalls: a "T" of three legs
/// at the end of each stall and at the start of the first, then the lane's
/// inner edge; with no stall, the edge alone.
pub open spec fn parking_marks(num_spots: nat) -> Seq<Mark> {
    if num_spots > 0 {
        Seq::new(
            3 * (num_spots + 1),
            |i: int|
                {
                    let at = (PARKING_SPOT_LENGTH * (1 + i / 3)) as u64;
                    if i % 3 == 0 {
                        Mark::StallLeg(at, Leg::Across)
                    } else if i % 3 == 1 {
                        Mark::StallLeg(at, Leg::Ahead)
                    } else {
                        Mark::StallLeg(at, Leg::Behind)
                    }
                },
        ).push(Mark::ParkingEdge)
    } else {
        seq![Mark::ParkingEdge]
    }
}

/// The stall marks and the inner edge of a parking lane.
pub fn calculate_parking_lines(num_spots: usize) -> (r: Vec<Mark>)
    requires
        (num_spots + 1) * PARKING_SPOT_LENGTH <= u64::MAX,
    ensures
        r@ == parking_marks(num_spots as nat),
{
    let mut result: Vec<Mark> = Vec::new();
    if num_spots > 0 {
        let ghost legs = parking_marks(num_spots as nat).drop_last();
        let mut idx: u64 = 0;
        while idx <= num_spots as u64
            invariant
                0 < num_spots,
                (num_spots + 1) * PARKING_SPOT_LENGTH <= u64::MAX,
                idx <= num_spots + 1,
                legs.len() == 3 * (num_spots + 1),
                legs == parking_marks(num_spots as nat).drop_last(),
                result@ == legs.subrange(0, 3 * idx),
            decreases num_spots + 1 - idx,
        {
            assert((1 + idx) * PARKING_SPOT_LENGTH <= (num_spots + 1) * PARKING_SPOT_LENGTH)
                by (nonlinear_arith)
                requires
                    idx <= num_spots,
            ;
            let at: u64 = PARKING_SPOT_LENGTH * (1 + idx);
            assert(legs[3 * idx] == Mark::StallLeg(at, Leg::Across));
            assert(legs[3 * idx + 1] == Mark::StallLeg(at, Leg::Ahead));
            assert(legs[3 * idx + 2] == Mark::StallLeg(at, Leg::Behind));
            result.push(Mark::StallLeg(at, Leg::Across));
            result.push(Mark::StallLeg(at, Leg::Ahead));
            result.push(Mark::StallLeg(at, Leg::Behind));
            assert(result@ =~= legs.subrange(0, 3 * (idx + 1)));
            idx = idx + 1;
        }
        assert(result@ =~= legs);
    }
    result.push(Mark::ParkingEdge);
    assert(result@ =~= parking_marks(num_spots as nat));
    result
}

/// A line shorter than two gaps becomes one solid piece over its whole
/// length, whatever the dash length.
pub proof fn lemma_short_line_is_solid(r: Seq<Span>, length: nat, dash_len: nat, gap: nat)
    requires
        dash_spans_ok(r, length, dash_len, gap),
        length < 2 * gap,
    ensures
        r.len() == 1,
        r[0] == (Span { start: 0, end: length as u64 }),
{
}

/// The kind of a turn out of a lane.
#[derive(Clone, Copy, Debug, PartialEq, Eq, Structural)]
pub enum TurnType {
    Crosswalk,
    SharedSidewalkCorner,
    Straight,
    LaneChangeLeft,
    LaneChangeRight,
    Right,
    Left,
}

pub open spec fn is_lane_change(t: TurnType) -> bool {
    t == TurnType::LaneChangeLeft || t == TurnType::LaneChangeRight
}

/// One arrow for each turn that is not a lane change, in the turns' order.
pub open spec fn turn_arrows(turns: Seq<TurnType>) -> Seq<Mark>
    decreases turns.len(),
{
    if turns.len() == 0 {
        Seq::empty()
    } else {
        let before = turn_arrows(turns.drop_last());
        if is_lane_change(turns.last()) {
            before
        } else {
            before.push(Mark::TurnArrow((turns.len() - 1) as usize))
        }
    }
}

/// The turn markings of a driving lane of `length`: none if it has no driving
/// neighbour on its side, if it is too short, or if none of its turns is more
/// than a lane change; else the base and one arrow per such turn.
pub open spec fn turn_marks(has_driving_neighbour: bool, length: nat, turns: Seq<TurnType>) -> Seq<
    Mark,
> {
    if !has_driving_neighbour || length < TURN_BASE_START_BEFORE || turn_arrows(turns).len()
        == 0 {
        Seq::empty()
    } else {
        seq![
            Mark::TurnBase(
                Span {
                    start: (length - TURN_BASE_START_BEFORE) as u64,
                    end: (length - TURN_BASE_END_BEFORE) as u64,
                },
            ),
        ] + turn_arrows(turns)
    }
}

/// Arrows near the end of a driving lane, one for each turn out of it that is
/// not a lane change.
pub fn calculate_turn_markings(has_driving_neighbour: bool, length: u64, turns: &Vec<TurnType>) -> (r:
    Vec<Mark>)
    ensures
        r@ == turn_marks(has_driving_neighbour, length as nat, turns@),
{
    let mut results: Vec<Mark> = Vec::new();
    // Are there multiple driving lanes on this side of the road?
    if !has_driving_neighbour {
        return results;
    }
    if length < TURN_BASE_START_BEFORE {
        return results;
    }
    results.push(
        Mark::TurnBase(
            Span { start: length - TURN_BASE_START_BEFORE, end: length - TURN_BASE_END_BEFORE },
        ),
    );
    let mut i: usize = 0;
    while i < turns.len()
        invariant
            i <= turns.len(),
            length >= TURN_BASE_START_BEFORE,
            results@ == seq![
                Mark::TurnBase(
                    Span {
                        start: (length - TURN_BASE_START_BEFORE) as u64,
                        end: (length - TURN_BASE_END_BEFORE) as u64,
                    },
                ),
            ] + turn_arrows(turns@.subrange(0, i as int)),
        decreases turns.len() - i,
    {
        let ghost done = turns@.subrange(0, i as int);
        assert(turns@.subrange(0, i + 1).drop_last() =~= done);
        let t = turns[i];
        if t != TurnType::LaneChangeLeft && t != TurnType::LaneChangeRight {
            results.push(Mark::TurnArrow(i));
        }
        i = i + 1;
        assert(results@ =~= seq![
            Mark::TurnBase(
                Span {
                    start: (length - TURN_BASE_START_BEFORE) as u64,
                    end: (length - TURN_BASE_END_BEFORE) as u64,
                },
            ),
        ] + turn_arrows(turns@.subrange(0, i as int)));
    }
    assert(turns@.subrange(0, i as int) =~= turns@);
    // Only lane changes after all: nothing worth an arrow.
    if results.len() == 1 {
        return Vec::new();
    }
    results
}

/// A lane with no driving neighbour on its side, or shorter than the turn
/// base, gets no turn markings.
pub proof fn lemma_no_turn_marks(has_driving_neighbour: bool, length: nat, turns: Seq<TurnType>)
    requires
        !has_driving_neighbour || length < TURN_BASE_START_BEFORE,
    ensures
        turn_marks(has_driving_neighbour, length, turns).len() == 0,
{
}

/// The dashes along the inner edge of a driving or bus lane, or none for the
/// lane nearest the road's centre and for a forward lane just outside a shared
/// left-turn lane.
pub open spec fn edge_dashes_skipped(fwd: bool, offset: nat, forward_lanes: Seq<LaneType>) -> bool {
    offset == 0 || (fwd && forward_lanes[offset - 1] == LaneType::SharedLeftTurn)
}

pub open spec fn edge_marks(dashes: Seq<Span>) -> Seq<Mark> {
    dashes.map_values(|s: Span| Mark::EdgeDash(s))
}

/// `r` are the edge dashes of a lane at `offset` on its side whose inner edge
/// is `edge_length` long.
pub open spec fn edge_marks_ok(
    r: Seq<Mark>,
    fwd: bool,
    offset: nat,
    forward_lanes: Seq<LaneType>,
    edge_length: nat,
) -> bool {
    if edge_dashes_skipped(fwd, offset, forward_lanes) {
        r.len() == 0
    } else {
        exists|d: Seq<Span>|
            dash_spans_ok(d, edge_length, EDGE_DASH_LEN as nat, EDGE_DASH_SEPARATION as nat) && r
                == edge_marks(d)
    }
}

/// The dashed inner edge of a driving or bus lane whose inner edge is
/// `edge_length` long.
pub fn calculate_driving_lines(
    fwd: bool,
    offset: usize,
    forward_lanes: &Vec<LaneType>,
    edge_length: u64,
) -> (r: Vec<Mark>)
    requires
        fwd ==> offset <= forward_lanes.len(),
    ensures
        edge_marks_ok(r@, fwd, offset as nat, forward_lanes@, edge_length as nat),
{
    // The innermost lanes don't have dashed lines.
    if offset == 0 || (fwd && forward_lanes[offset - 1] == LaneType::SharedLeftTurn) {
        return Vec::new();
    }
    let dashes = dashed_lines(edge_length, EDGE_DASH_LEN, EDGE_DASH_SEPARATION);
    let mut r: Vec<Mark> = Vec::new();
    let mut i: usize = 0;
    while i < dashes.len()
        invariant
            i <= dashes.len(),
            r@ == edge_marks(dashes@.subrange(0, i as int)),
        decreases dashes.len() - i,
    {
        r.push(Mark::EdgeDash(dashes[i]));
        i = i + 1;
        assert(r@ =~= edge_marks(dashes@.subrange(0, i as int)));
    }
    assert(dashes@.subrange(0, i as int) =~= dashes@);
    r
}

} // verus!
