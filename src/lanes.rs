use crate::lane_type::LaneType;
use crate::road_spec::{decode, RoadSpec};
use crate::text::{parse_usize, parsed_usize, str_eq};
use vstd::prelude::*;

verus! {

/// The value of the first tag named `key`.
pub open spec fn tag_in(tags: Seq<(String, String)>, key: Seq<char>) -> Option<Seq<char>>
    decreases tags.len(),
{
    if tags.len() == 0 {
        None
    } else if tags[0].0@ == key {
        Some(tags[0].1@)
    } else {
        tag_in(tags.drop_first(), key)
    }
}

pub open spec fn tag_is(tags: Seq<(String, String)>, key: Seq<char>, value: Seq<char>) -> bool {
    tag_in(tags, key) == Some(value)
}

/// The road segment as it was read in: its tags, in order.
pub struct RawRoad {
    pub osm_tags: Vec<(String, String)>,
}

impl RawRoad {
    pub open spec fn tag(&self, key: Seq<char>) -> Option<Seq<char>> {
        tag_in(self.osm_tags@, key)
    }

    /// Looks up the first tag named `key`.
    pub fn get_tag(&self, key: &str) -> (r: Option<&String>)
        ensures
            match r {
                Some(v) => self.tag(key@) == Some(v@),
                None => self.tag(key@) is None,
            },
    {
        let mut i: usize = 0;
        assert(self.osm_tags@.subrange(0, self.osm_tags@.len() as int) =~= self.osm_tags@);
        while i < self.osm_tags.len()
            invariant
                i <= self.osm_tags.len(),
                self.tag(key@) == tag_in(
                    self.osm_tags@.subrange(i as int, self.osm_tags@.len() as int),
                    key@,
                ),
            decreases self.osm_tags.len() - i,
        {
            let ghost rest = self.osm_tags@.subrange(i as int, self.osm_tags@.len() as int);
            assert(rest.drop_first() =~= self.osm_tags@.subrange(
                i + 1,
                self.osm_tags@.len() as int,
            ));
            if str_eq(self.osm_tags[i].0.as_str(), key) {
                return Some(&self.osm_tags[i].1);
            }
            i = i + 1;
        }
        None
    }

    fn tag_equals(&self, key: &str, value: &str) -> (r: bool)
        ensures
            r == (self.tag(key@) == Some(value@)),
    {
        match self.get_tag(key) {
            Some(v) => str_eq(v.as_str(), value),
            None => false,
        }
    }
}

/// `n` driving lanes.
pub open spec fn driving_run(n: nat) -> Seq<LaneType> {
    Seq::new(n, |i: int| LaneType::Driving)
}

/// One lane of type `lt` if `present`, else none.
pub open spec fn maybe_lane(present: bool, lt: LaneType) -> Seq<LaneType> {
    if present {
        seq![lt]
    } else {
        Seq::empty()
    }
}

/// The number of driving lanes that the road carries in all.
pub open spec fn total_driving_lanes(tags: Seq<(String, String)>) -> nat {
    match tag_in(tags, "lanes"@) {
        Some(v) => match parsed_usize(v) {
            Some(n) => n as nat,
            None => 2,
        },
        None => 2,
    }
}

pub open spec fn is_oneway(tags: Seq<(String, String)>) -> bool {
    tag_is(tags, "oneway"@, "yes"@) || tag_is(tags, "oneway"@, "reversible"@)
}

pub open spec fn has_sidewalk(tags: Seq<(String, String)>) -> bool {
    !tag_is(tags, "highway"@, "motorway"@) && !tag_is(tags, "highway"@, "motorway_link"@)
}

/// Driving lanes on one side before a bus lane takes its place.
pub open spec fn driving_per_side(tags: Seq<(String, String)>) -> nat {
    let total = total_driving_lanes(tags);
    if is_oneway(tags) {
        total
    } else if total / 2 >= 1 {
        total / 2
    } else {
        1
    }
}

/// Driving lanes on one side; a bus lane takes the place of one of them,
/// unless only one is left.
pub open spec fn driving_count(tags: Seq<(String, String)>) -> nat {
    let per_side = driving_per_side(tags);
    if tag_in(tags, "bus:lanes"@) is Some && per_side > 1 {
        (per_side - 1) as nat
    } else {
        per_side
    }
}

/// The lanes of one full side: driving, bus, bike, parking, sidewalk.
pub open spec fn full_side(tags: Seq<(String, String)>) -> Seq<LaneType> {
    let bus = tag_in(tags, "bus:lanes"@) is Some;
    let sidewalk = has_sidewalk(tags);
    driving_run(driving_count(tags)) + maybe_lane(bus, LaneType::Bus) + maybe_lane(
        tag_is(tags, "cycleway"@, "lane"@),
        LaneType::Biking,
    ) + maybe_lane(sidewalk, LaneType::Parking) + maybe_lane(sidewalk, LaneType::Sidewalk)
}

/// The lanes that the tags describe when no hand-written form is given.
pub open spec fn tagged_lanes(tags: Seq<(String, String)>) -> (Seq<LaneType>, Seq<LaneType>) {
    if tag_is(tags, "junction"@, "roundabout"@) {
        (seq![LaneType::Driving, LaneType::Sidewalk], Seq::empty())
    } else if tag_is(tags, "highway"@, "footway"@) {
        (seq![LaneType::Sidewalk], Seq::empty())
    } else if is_oneway(tags) {
        let other = if has_sidewalk(tags) && tag_is(tags, "highway"@, "residential"@) {
            seq![LaneType::Sidewalk]
        } else {
            Seq::empty()
        };
        (full_side(tags), other)
    } else {
        (full_side(tags), full_side(tags))
    }
}

/// The (forward, backward) lanes of a road; `None` when its hand-written form
/// does not read.
pub open spec fn classified_lanes(tags: Seq<(String, String)>) -> Option<
    (Seq<LaneType>, Seq<LaneType>),
> {
    match tag_in(tags, "synthetic_lanes"@) {
        Some(v) => decode(v),
        None => Some(tagged_lanes(tags)),
    }
}

/// Why a road's lanes could not be worked out.
#[derive(Clone, Copy, Debug, PartialEq, Eq, Structural)]
pub enum LaneSpecError {
    /// The `synthetic_lanes` tag is not a valid compact road form.
    BadSyntheticLanes,
    /// The road would have no lane at all.
    NoLanes,
}

fn push_lanes(v: &mut Vec<LaneType>, lt: LaneType, n: usize)
    ensures
        final(v)@ == old(v)@ + Seq::new(n as nat, |i: int| lt),
{
    let ghost start = v@;
    let mut k: usize = 0;
    while k < n
        invariant
            k <= n,
            v@ == start + Seq::new(k as nat, |i: int| lt),
        decreases n - k,
    {
        v.push(lt);
        assert(start + Seq::new((k + 1) as nat, |i: int| lt) =~= (start + Seq::new(
            k as nat,
            |i: int| lt,
        )).push(lt));
        k = k + 1;
    }
}

/// How many driving lanes one full side gets.
fn driving_lanes(r: &RawRoad) -> (n: usize)
    ensures
        n as nat == driving_count(r.osm_tags@),
{
    let ghost tags = r.osm_tags@;
    let oneway = r.tag_equals("oneway", "yes") || r.tag_equals("oneway", "reversible");
    // A missing or unreadable lane count means two lanes.
    let total: usize = match r.get_tag("lanes") {
        Some(v) => match parse_usize(v.as_str()) {
            Some(n) => n,
            None => 2,
        },
        None => 2,
    };
    let per_side: usize = if oneway {
        total
    } else if total / 2 >= 1 {
        total / 2
    } else {
        1
    };
    assert(per_side as nat == driving_per_side(tags));
    let has_bus_lane = r.get_tag("bus:lanes").is_some();
    let driving: usize = if has_bus_lane && per_side > 1 {
        per_side - 1
    } else {
        per_side
    };
    driving
}

/// The lanes of one full side, as the tags describe them.
fn full_side_lanes(r: &RawRoad) -> (full: Vec<LaneType>)
    ensures
        full@ == full_side(r.osm_tags@),
{
    let ghost tags = r.osm_tags@;
    let has_bus_lane = r.get_tag("bus:lanes").is_some();
    let driving = driving_lanes(r);
    let has_bike_lane = r.tag_equals("cycleway", "lane");
    let has_sidewalk = !r.tag_equals("highway", "motorway") && !r.tag_equals(
        "highway",
        "motorway_link",
    );
    let has_parking = has_sidewalk;

    let mut full: Vec<LaneType> = Vec::new();
    push_lanes(&mut full, LaneType::Driving, driving);
    let ghost mut expect = driving_run(driving as nat);
    assert(full@ =~= expect);
    if has_bus_lane {
        full.push(LaneType::Bus);
    }
    proof {
        expect = expect + maybe_lane(has_bus_lane, LaneType::Bus);
    }
    assert(full@ =~= expect);
    if has_bike_lane {
        full.push(LaneType::Biking);
    }
    proof {
        expect = expect + maybe_lane(has_bike_lane, LaneType::Biking);
    }
    assert(full@ =~= expect);
    if has_parking {
        full.push(LaneType::Parking);
    }
    proof {
        expect = expect + maybe_lane(has_parking, LaneType::Parking);
    }
    assert(full@ =~= expect);
    if has_sidewalk {
        full.push(LaneType::Sidewalk);
    }
    proof {
        expect = expect + maybe_lane(has_sidewalk, LaneType::Sidewalk);
    }
    assert(full@ =~= full_side(tags));
    full
}

/// Works out the forward and backward lanes of a road from its tags.
pub fn get_lanes(r: &RawRoad) -> (res: Result<(Vec<LaneType>, Vec<LaneType>), LaneSpecError>)
    ensures
        match res {
            Ok(p) => classified_lanes(r.osm_tags@) == Some((p.0@, p.1@)),
            Err(e) => classified_lanes(r.osm_tags@) is None && e == LaneSpecError::BadSyntheticLanes,
        },
{
    let ghost tags = r.osm_tags@;
    // A road drawn in the synthetic map editor carries its lanes in compact form.
    if let Some(s) = r.get_tag("synthetic_lanes") {
        match RoadSpec::parse(s.clone()) {
            Some(spec) => {
                return Ok((spec.fwd, spec.back));
            },
            None => {
                return Err(LaneSpecError::BadSyntheticLanes);
            },
        }
    }
    if r.tag_equals("junction", "roundabout") {
        let v = vec![LaneType::Driving, LaneType::Sidewalk];
        assert(v@ =~= seq![LaneType::Driving, LaneType::Sidewalk]);
        return Ok((v, Vec::new()));
    }
    if r.tag_equals("highway", "footway") {
        let v = vec![LaneType::Sidewalk];
        assert(v@ =~= seq![LaneType::Sidewalk]);
        return Ok((v, Vec::new()));
    }

    let oneway = r.tag_equals("oneway", "yes") || r.tag_equals("oneway", "reversible");
    let has_sidewalk = !r.tag_equals("highway", "motorway") && !r.tag_equals(
        "highway",
        "motorway_link",
    );
    let full = full_side_lanes(r);
    if oneway {
        // Only residential roads keep a sidewalk on the far side.
        let other = if has_sidewalk && r.tag_equals("highway", "residential") {
            vec![LaneType::Sidewalk]
        } else {
            Vec::new()
        };
        proof {
            let o = if has_sidewalk && tag_is(tags, "highway"@, "residential"@) {
                seq![LaneType::Sidewalk]
            } else {
                Seq::empty()
            };
            assert(other@ =~= o);
        }
        Ok((full, other))
    } else {
        let copy = full.clone();
        assert(copy@ =~= full@);
        Ok((copy, full))
    }
}

/// A road's identity within its map.
#[derive(Clone, Copy, Debug, PartialEq, Eq, Structural, Hash)]
pub struct RoadID(pub usize);

/// Lanes set by hand for one road, in place of what its tags say.
#[derive(Debug)]
pub struct EditRoad {
    pub forwards_lanes: Vec<LaneType>,
    pub backwards_lanes: Vec<LaneType>,
}

/// The roads whose lanes were set by hand.
pub struct RoadEdits {
    pub roads: Vec<(RoadID, EditRoad)>,
}

/// The edit of the first entry for `id`.
pub open spec fn edit_in(roads: Seq<(RoadID, EditRoad)>, id: RoadID) -> Option<EditRoad>
    decreases roads.len(),
{
    if roads.len() == 0 {
        None
    } else if roads[0].0 == id {
        Some(roads[0].1)
    } else {
        edit_in(roads.drop_first(), id)
    }
}

impl RoadEdits {
    pub open spec fn edit_for(&self, id: RoadID) -> Option<EditRoad> {
        edit_in(self.roads@, id)
    }

    /// Looks up the first edit for road `id`.
    pub fn get(&self, id: RoadID) -> (r: Option<&EditRoad>)
        ensures
            match r {
                Some(e) => self.edit_for(id) == Some(*e),
                None => self.edit_for(id) is None,
            },
    {
        let mut i: usize = 0;
        assert(self.roads@.subrange(0, self.roads@.len() as int) =~= self.roads@);
        while i < self.roads.len()
            invariant
                i <= self.roads.len(),
                self.edit_for(id) == edit_in(
                    self.roads@.subrange(i as int, self.roads@.len() as int),
                    id,
                ),
            decreases self.roads.len() - i,
        {
            let ghost rest = self.roads@.subrange(i as int, self.roads@.len() as int);
            assert(rest.drop_first() =~= self.roads@.subrange(i + 1, self.roads@.len() as int));
            if self.roads[i].0 == id {
                return Some(&self.roads[i].1);
            }
            i = i + 1;
        }
        None
    }
}

/// One lane of a road: its type, its place on its own side counted from the
/// road's centre, and whether it runs against the road's direction.
#[derive(Clone, Copy, Debug, PartialEq, Eq, Structural)]
pub struct LaneSpec {
    pub lane_type: LaneType,
    pub offset: usize,
    pub reverse_pts: bool,
}

impl LaneSpec {
    fn new(lane_type: LaneType, offset: usize, reverse_pts: bool) -> (r: LaneSpec)
        ensures
            r == (LaneSpec { lane_type, offset, reverse_pts }),
    {
        LaneSpec { lane_type, offset, reverse_pts }
    }
}

/// The specs of one side: its lanes in order, numbered from zero.
pub open spec fn side_specs(types: Seq<LaneType>, reverse_pts: bool) -> Seq<LaneSpec> {
    Seq::new(
        types.len(),
        |i: int| LaneSpec { lane_type: types[i], offset: i as usize, reverse_pts },
    )
}

/// The specs of a road: the forward side, then the backward side.
pub open spec fn road_specs(fwd: Seq<LaneType>, back: Seq<LaneType>) -> Seq<LaneSpec> {
    side_specs(fwd, false) + side_specs(back, true)
}

/// The (forward, backward) lanes that a road ends up with: the hand-set ones
/// if there are any, else what its tags give.
pub open spec fn chosen_lanes(tags: Seq<(String, String)>, edit: Option<EditRoad>) -> Option<
    (Seq<LaneType>, Seq<LaneType>),
> {
    match edit {
        Some(e) => Some((e.forwards_lanes@, e.backwards_lanes@)),
        None => classified_lanes(tags),
    }
}

fn push_side(specs: &mut Vec<LaneSpec>, types: &Vec<LaneType>, reverse_pts: bool)
    ensures
        final(specs)@ == old(specs)@ + side_specs(types@, reverse_pts),
{
    let ghost start = specs@;
    let mut idx: usize = 0;
    while idx < types.len()
        invariant
            idx <= types.len(),
            specs@ == start + side_specs(types@.subrange(0, idx as int), reverse_pts),
        decreases types.len() - idx,
    {
        specs.push(LaneSpec::new(types[idx], idx, reverse_pts));
        assert(start + side_specs(types@.subrange(0, idx + 1), reverse_pts) =~= (start
            + side_specs(types@.subrange(0, idx as int), reverse_pts)).push(
            LaneSpec { lane_type: types@[idx as int], offset: idx, reverse_pts },
        ));
        idx = idx + 1;
    }
    assert(types@.subrange(0, idx as int) =~= types@);
}

/// The lanes of road `id`, forward side first: from its edit if it has one,
/// else from its tags. A road that would have no lane is an error.
pub fn get_lane_specs(r: &RawRoad, id: RoadID, edits: &RoadEdits) -> (res: Result<
    Vec<LaneSpec>,
    LaneSpecError,
>)
    ensures
        match chosen_lanes(r.osm_tags@, edits.edit_for(id)) {
            Some(p) => if p.0.len() + p.1.len() == 0 {
                res == Err::<Vec<LaneSpec>, LaneSpecError>(LaneSpecError::NoLanes)
            } else {
                res is Ok && res->Ok_0@ == road_specs(p.0, p.1)
            },
            None => res == Err::<Vec<LaneSpec>, LaneSpecError>(LaneSpecError::BadSyntheticLanes),
        },
{
    let (side1_types, side2_types) = match edits.get(id) {
        Some(e) => (e.forwards_lanes.clone(), e.backwards_lanes.clone()),
        None => get_lanes(r)?,
    };
    let mut specs: Vec<LaneSpec> = Vec::new();
    push_side(&mut specs, &side1_types, false);
    push_side(&mut specs, &side2_types, true);
    if specs.len() == 0 {
        return Err(LaneSpecError::NoLanes);
    }
    Ok(specs)
}

/// The specs of a road hold one spec per lane: each forward lane, numbered
/// from zero and not reversed, then each backward lane, numbered from zero and
/// reversed.
pub proof fn lemma_specs_layout(fwd: Seq<LaneType>, back: Seq<LaneType>)
    ensures
        road_specs(fwd, back).len() == fwd.len() + back.len(),
        forall|i: int|
            0 <= i < fwd.len() ==> #[trigger] road_specs(fwd, back)[i] == (LaneSpec {
                lane_type: fwd[i],
                offset: i as usize,
                reverse_pts: false,
            }),
        forall|i: int|
            0 <= i < back.len() ==> #[trigger] road_specs(fwd, back)[fwd.len() + i] == (LaneSpec {
                lane_type: back[i],
                offset: i as usize,
                reverse_pts: true,
            }),
{
}

} // verus!
