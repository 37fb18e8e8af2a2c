use road_lanes::{
    get_lane_specs, get_lanes, EditRoad, LaneSpec, LaneSpecError, LaneType, RawRoad, RoadEdits,
    RoadID, RoadSpec,
};
use LaneType::{Biking, Bus, Driving, Parking, Sidewalk};

fn road(tags: &[(&str, &str)]) -> RawRoad {
    RawRoad {
        osm_tags: tags
            .iter()
            .map(|(k, v)| (k.to_string(), v.to_string()))
            .collect(),
    }
}

fn no_edits() -> RoadEdits {
    RoadEdits { roads: Vec::new() }
}

#[test]
fn road_spec_round_trip() {
    let all = vec![Driving, Parking, Sidewalk, Biking, Bus];
    let cases = vec![
        (Vec::new(), Vec::new()),
        (all.clone(), Vec::new()),
        (Vec::new(), all.clone()),
        (all.clone(), vec![Bus, Bus, Driving]),
    ];
    for (fwd, back) in cases {
        let spec = RoadSpec { fwd: fwd.clone(), back: back.clone() };
        let parsed = RoadSpec::parse(spec.to_string()).unwrap();
        assert_eq!(parsed.fwd, fwd);
        assert_eq!(parsed.back, back);
    }
}

#[test]
fn road_spec_writes_compact_form() {
    let spec = RoadSpec { fwd: vec![Driving, Parking, Sidewalk, Biking, Bus], back: vec![Bus] };
    assert_eq!(spec.to_string(), "dpsbu/u");
    let empty = RoadSpec { fwd: Vec::new(), back: Vec::new() };
    assert_eq!(empty.to_string(), "/");
}

#[test]
fn road_spec_parse_accepts_and_rejects() {
    let s = RoadSpec::parse("dd/s".to_string()).unwrap();
    assert_eq!(s.fwd, vec![Driving, Driving]);
    assert_eq!(s.back, vec![Sidewalk]);
    let s = RoadSpec::parse("/".to_string()).unwrap();
    assert!(s.fwd.is_empty() && s.back.is_empty());
    assert!(RoadSpec::parse("ds".to_string()).is_none());
    assert!(RoadSpec::parse("".to_string()).is_none());
    assert!(RoadSpec::parse("d/s/".to_string()).is_none());
    assert!(RoadSpec::parse("dx/s".to_string()).is_none());
    assert!(RoadSpec::parse("d/S".to_string()).is_none());
}

#[test]
fn oneway_four_lanes() {
    let (fwd, back) = get_lanes(&road(&[("oneway", "yes"), ("lanes", "4")])).unwrap();
    assert_eq!(fwd.iter().filter(|lt| **lt == Driving).count(), 4);
    assert_eq!(fwd, vec![Driving, Driving, Driving, Driving, Parking, Sidewalk]);
    assert!(back.is_empty());
}

#[test]
fn oneway_residential_keeps_far_sidewalk() {
    let (fwd, back) =
        get_lanes(&road(&[("highway", "residential"), ("oneway", "reversible")])).unwrap();
    assert_eq!(fwd, vec![Driving, Driving, Parking, Sidewalk]);
    assert_eq!(back, vec![Sidewalk]);
}

#[test]
fn two_way_default() {
    let (fwd, back) = get_lanes(&road(&[])).unwrap();
    assert_eq!(fwd, vec![Driving, Parking, Sidewalk]);
    assert_eq!(fwd, back);
}

#[test]
fn bus_lane_steals_a_driving_lane() {
    let (fwd, back) = get_lanes(&road(&[("lanes", "4"), ("bus:lanes", "|designated")])).unwrap();
    assert_eq!(fwd, vec![Driving, Bus, Parking, Sidewalk]);
    assert_eq!(fwd, back);
}

#[test]
fn bus_lane_keeps_a_lone_driving_lane() {
    let (fwd, _) = get_lanes(&road(&[("lanes", "2"), ("bus:lanes", "")])).unwrap();
    assert_eq!(fwd, vec![Driving, Bus, Parking, Sidewalk]);
}

#[test]
fn motorway_has_no_sidewalk_or_parking() {
    let (fwd, back) =
        get_lanes(&road(&[("highway", "motorway"), ("lanes", "6"), ("cycleway", "lane")])).unwrap();
    assert_eq!(fwd, vec![Driving, Driving, Driving, Biking]);
    assert_eq!(fwd, back);
    let (fwd, _) = get_lanes(&road(&[("highway", "motorway_link")])).unwrap();
    assert_eq!(fwd, vec![Driving]);
}

#[test]
fn special_cases() {
    let (fwd, back) = get_lanes(&road(&[("junction", "roundabout"), ("lanes", "4")])).unwrap();
    assert_eq!(fwd, vec![Driving, Sidewalk]);
    assert!(back.is_empty());
    let (fwd, back) = get_lanes(&road(&[("highway", "footway")])).unwrap();
    assert_eq!(fwd, vec![Sidewalk]);
    assert!(back.is_empty());
}

#[test]
fn lane_count_parsing() {
    let (fwd, _) = get_lanes(&road(&[("lanes", "+3"), ("oneway", "yes")])).unwrap();
    assert_eq!(fwd, vec![Driving, Driving, Driving, Parking, Sidewalk]);
    let (fwd, _) = get_lanes(&road(&[("lanes", "three"), ("oneway", "yes")])).unwrap();
    assert_eq!(fwd, vec![Driving, Driving, Parking, Sidewalk]);
    let (fwd, _) = get_lanes(&road(&[("lanes", "-3"), ("oneway", "yes")])).unwrap();
    assert_eq!(fwd, vec![Driving, Driving, Parking, Sidewalk]);
    let (fwd, _) = get_lanes(&road(&[("lanes", "0")])).unwrap();
    assert_eq!(fwd, vec![Driving, Parking, Sidewalk]);
    let (fwd, _) = get_lanes(&road(&[("lanes", "0"), ("oneway", "yes")])).unwrap();
    assert_eq!(fwd, vec![Parking, Sidewalk]);
}

#[test]
fn first_tag_of_a_name_counts() {
    let (fwd, _) = get_lanes(&road(&[("oneway", "no"), ("oneway", "yes")])).unwrap();
    assert_eq!(fwd, vec![Driving, Parking, Sidewalk]);
}

#[test]
fn synthetic_lanes_win() {
    let (fwd, back) =
        get_lanes(&road(&[("highway", "footway"), ("synthetic_lanes", "dbu/pp")])).unwrap();
    assert_eq!(fwd, vec![Driving, Biking, Bus]);
    assert_eq!(back, vec![Parking, Parking]);
}

#[test]
fn bad_synthetic_lanes_are_an_error() {
    let r = road(&[("synthetic_lanes", "dd")]);
    assert!(matches!(get_lanes(&r), Err(LaneSpecError::BadSyntheticLanes)));
    assert_eq!(get_lane_specs(&r, RoadID(3), &no_edits()), Err(LaneSpecError::BadSyntheticLanes));
}

#[test]
fn lane_specs_from_tags() {
    let specs = get_lane_specs(&road(&[]), RoadID(1), &no_edits()).unwrap();
    let spec = |lane_type, offset, reverse_pts| LaneSpec { lane_type, offset, reverse_pts };
    assert_eq!(
        specs,
        vec![
            spec(Driving, 0, false),
            spec(Parking, 1, false),
            spec(Sidewalk, 2, false),
            spec(Driving, 0, true),
            spec(Parking, 1, true),
            spec(Sidewalk, 2, true),
        ]
    );
}

#[test]
fn lane_specs_from_edits() {
    let edits = RoadEdits {
        roads: vec![
            (RoadID(7), EditRoad { forwards_lanes: vec![Bus], backwards_lanes: Vec::new() }),
            (RoadID(8), EditRoad { forwards_lanes: Vec::new(), backwards_lanes: vec![Biking] }),
        ],
    };
    let specs = get_lane_specs(&road(&[("lanes", "6")]), RoadID(8), &edits).unwrap();
    assert_eq!(specs, vec![LaneSpec { lane_type: Biking, offset: 0, reverse_pts: true }]);
    let specs = get_lane_specs(&road(&[("oneway", "yes")]), RoadID(9), &edits).unwrap();
    assert_eq!(specs.len(), 4);
}

#[test]
fn road_with_no_lanes_is_refused() {
    let edits = RoadEdits {
        roads: vec![(RoadID(2), EditRoad { forwards_lanes: Vec::new(), backwards_lanes: Vec::new() })],
    };
    assert_eq!(get_lane_specs(&road(&[]), RoadID(2), &edits), Err(LaneSpecError::NoLanes));
    let r = road(&[("synthetic_lanes", "/")]);
    assert_eq!(get_lane_specs(&r, RoadID(4), &no_edits()), Err(LaneSpecError::NoLanes));
}

#[test]
fn tag_lookup() {
    let r = road(&[("a", "1"), ("b", "2"), ("a", "3")]);
    assert_eq!(r.get_tag("a").map(|s| s.as_str()), Some("1"));
    assert_eq!(r.get_tag("b").map(|s| s.as_str()), Some("2"));
    assert_eq!(r.get_tag("c"), None);
    assert!(road_lanes::str_eq("lane", "lane"));
    assert!(!road_lanes::str_eq("lane", "lanes"));
    assert!(!road_lanes::str_eq("lane", "lune"));
}
