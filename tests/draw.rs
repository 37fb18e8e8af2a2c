use road_lanes::{
    lane_fill, rank_tier, AlmostDrawLane, Area, AreaFill, AreaID, AreaType, CreateGridlock,
    DrawArea, DrawLane, Fill, Lane, LaneID, LaneType, Mark, RankTier, Road, Side, Span, TurnType,
    DEFAULT_ZORDER,
};

fn lane(lane_type: LaneType) -> Lane {
    Lane {
        id: LaneID(11),
        lane_type,
        length: 1000,
        edge_length: 1000,
        parking_spots: 0,
        fwd: true,
        offset: 1,
        has_driving_neighbour: true,
        turns: vec![TurnType::Straight],
    }
}

fn road(rank: usize) -> Road {
    Road { rank, zorder: -1, forward_lanes: vec![LaneType::Driving, LaneType::Driving] }
}

fn build(lane_type: LaneType, markings: bool) -> AlmostDrawLane {
    DrawLane::<()>::new(&lane(lane_type), &road(3), markings)
}

#[test]
fn rank_tiers() {
    assert_eq!(rank_tier(0), RankTier::Low);
    assert_eq!(rank_tier(5), RankTier::Low);
    assert_eq!(rank_tier(6), RankTier::Mid);
    assert_eq!(rank_tier(15), RankTier::Mid);
    assert_eq!(rank_tier(16), RankTier::High);
}

#[test]
fn fills() {
    assert_eq!(lane_fill(LaneType::Driving, 20), Fill::Road(RankTier::High));
    assert_eq!(lane_fill(LaneType::Parking, 7), Fill::Road(RankTier::Mid));
    assert_eq!(lane_fill(LaneType::SharedLeftTurn, 1), Fill::Road(RankTier::Low));
    assert_eq!(lane_fill(LaneType::Bus, 20), Fill::BusLane);
    assert_eq!(lane_fill(LaneType::Sidewalk, 20), Fill::Sidewalk);
    assert_eq!(lane_fill(LaneType::Biking, 20), Fill::BikeLane);
    assert_eq!(lane_fill(LaneType::Construction, 20), Fill::ConstructionBackground);
}

#[test]
fn lane_without_markings_is_fill_only() {
    let built = build(LaneType::Driving, false);
    assert_eq!(built.id, LaneID(11));
    assert_eq!(built.zorder, -1);
    assert_eq!(built.fill, Fill::Road(RankTier::Low));
    assert!(built.marks.is_empty());
}

#[test]
fn lane_markings_by_type() {
    assert_eq!(build(LaneType::Sidewalk, true).marks, vec![Mark::Tick(250), Mark::Tick(500)]);
    assert_eq!(build(LaneType::Parking, true).marks, vec![Mark::ParkingEdge]);
    assert!(build(LaneType::Biking, true).marks.is_empty());
    assert_eq!(build(LaneType::Construction, true).marks, vec![Mark::Hatching]);
    assert_eq!(
        build(LaneType::SharedLeftTurn, true).marks,
        vec![Mark::CenterLine(Side::Right), Mark::CenterLine(Side::Left)]
    );
    let span = |start, end| Span { start, end };
    assert_eq!(
        build(LaneType::Bus, true).marks,
        vec![
            Mark::EdgeDash(span(150, 250)),
            Mark::EdgeDash(span(400, 500)),
            Mark::EdgeDash(span(650, 750)),
            Mark::TurnBase(span(300, 500)),
            Mark::TurnArrow(0),
        ]
    );
}

#[test]
fn short_driving_lane_gets_no_turn_markings() {
    let mut l = lane(LaneType::Driving);
    l.length = 500;
    l.edge_length = 500;
    l.offset = 0;
    assert!(DrawLane::<()>::new(&l, &road(3), true).marks.is_empty());
}

#[test]
fn finish_keeps_the_lane() {
    let done: DrawLane<u32> = build(LaneType::Bus, true).finish(42);
    assert_eq!(done.id, LaneID(11));
    assert_eq!(done.get_zorder(), -1);
    assert_eq!(done.fill, Fill::BusLane);
    assert_eq!(done.draw_default, 42);
    assert_eq!(DEFAULT_ZORDER, -5);
}

#[test]
fn areas_share_one_batch() {
    let mut batch = Vec::new();
    let a = DrawArea::new(&Area { id: AreaID(1), area_type: AreaType::Park }, &mut batch);
    let b = DrawArea::new(&Area { id: AreaID(2), area_type: AreaType::Water }, &mut batch);
    let c = DrawArea::new(&Area { id: AreaID(3), area_type: AreaType::PedestrianIsland }, &mut batch);
    assert_eq!((a.id, b.id, c.id), (AreaID(1), AreaID(2), AreaID(3)));
    assert_eq!(
        batch,
        vec![
            (AreaFill::GrassTexture, AreaID(1)),
            (AreaFill::WaterTexture, AreaID(2)),
            (AreaFill::Grey, AreaID(3)),
        ]
    );
}

#[test]
fn gridlock_panel_refreshes_when_time_moves() {
    let mut state = CreateGridlock::new();
    assert!(!state.observe_time(0));
    assert!(state.observe_time(5));
    assert!(!state.observe_time(5));
    assert!(state.observe_time(4));
}
