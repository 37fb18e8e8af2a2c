use vstd::prelude::*;

verus! {

/// The functional class of one lane of a road.
#[derive(Clone, Copy, Debug, PartialEq, Eq, Structural, Hash)]
pub enum LaneType {
    Driving,
    Parking,
    Sidewalk,
    Biking,
    Bus,
    SharedLeftTurn,
    Construction,
}

} // verus!
