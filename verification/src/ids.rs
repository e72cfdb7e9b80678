//! Identifiers of the people, trips, agents and places that the trip
//! manager speaks of. Each is a dense index handed out by its owner.

use vstd::prelude::*;

verus! {

/// A person: the index of the person in the trip manager.
#[derive(Clone, Copy, Debug, PartialEq, Eq, Structural)]
pub struct PersonID(pub usize);

/// The identifier that a person had in the data the scenario was built from.
#[derive(Clone, Copy, Debug, PartialEq, Eq, Structural)]
pub struct OrigPersonID(pub usize, pub usize);

/// A trip: the index of the trip in the trip manager.
#[derive(Clone, Copy, Debug, PartialEq, Eq, Structural)]
pub struct TripID(pub usize);

/// A walking agent. Every person has exactly one, with the person's index.
#[derive(Clone, Copy, Debug, PartialEq, Eq, Structural)]
pub struct PedestrianID(pub usize);

/// What kind of vehicle a `CarID` names.
#[derive(Clone, Copy, Debug, PartialEq, Eq, Structural)]
pub enum VehicleType {
    Car,
    Bike,
    Bus,
    Train,
}

/// A vehicle: a number unique among all vehicles, and the vehicle's kind.
#[derive(Clone, Copy, Debug, PartialEq, Eq, Structural)]
pub struct CarID(pub usize, pub VehicleType);

/// A building of the map.
#[derive(Clone, Copy, Debug, PartialEq, Eq, Structural)]
pub struct BuildingID(pub usize);

/// An intersection of the map; the borders of the map are intersections.
#[derive(Clone, Copy, Debug, PartialEq, Eq, Structural)]
pub struct IntersectionID(pub usize);

/// A lane of the map: for driving, for biking, or a sidewalk.
#[derive(Clone, Copy, Debug, PartialEq, Eq, Structural)]
pub struct LaneID(pub usize);

/// A parking lot of the map.
#[derive(Clone, Copy, Debug, PartialEq, Eq, Structural)]
pub struct ParkingLotID(pub usize);

/// A route of the transit system.
#[derive(Clone, Copy, Debug, PartialEq, Eq, Structural)]
pub struct BusRouteID(pub usize);

/// A bus stop: the sidewalk it stands on and its index along that sidewalk.
#[derive(Clone, Copy, Debug, PartialEq, Eq, Structural)]
pub struct BusStopID {
    pub sidewalk: LaneID,
    pub idx: usize,
}

/// An abstract address outside the simulated map.
#[derive(Clone, Copy, Debug, PartialEq, Eq, Structural)]
pub struct OffMapLocation {
    pub parcel_id: usize,
}

/// An entity that one of the simulators is moving right now.
#[derive(Clone, Copy, Debug, PartialEq, Eq, Structural)]
pub enum AgentID {
    Car(CarID),
    Pedestrian(PedestrianID),
    /// A person riding the given bus or train.
    BusPassenger(PersonID, CarID),
}

/// The kinds of agents, as counted for display.
#[derive(Clone, Copy, Debug, PartialEq, Eq, Structural)]
pub enum AgentType {
    Car,
    Bike,
    Bus,
    Train,
    Pedestrian,
    TransitRider,
}

impl AgentID {
    /// The kind of this agent.
    pub open spec fn spec_to_type(self) -> AgentType {
        match self {
            AgentID::Car(c) => match c.1 {
                VehicleType::Car => AgentType::Car,
                VehicleType::Bike => AgentType::Bike,
                VehicleType::Bus => AgentType::Bus,
                VehicleType::Train => AgentType::Train,
            },
            AgentID::Pedestrian(_) => AgentType::Pedestrian,
            AgentID::BusPassenger(_, _) => AgentType::TransitRider,
        }
    }

    /// The kind of this agent: a vehicle by its own kind, a pedestrian, or
    /// a transit rider.
    #[verifier::when_used_as_spec(spec_to_type)]
    pub fn to_type(self) -> (t: AgentType)
        ensures
            t == self.spec_to_type(),
    {
        match self {
            AgentID::Car(c) => match c.1 {
                VehicleType::Car => AgentType::Car,
                VehicleType::Bike => AgentType::Bike,
                VehicleType::Bus => AgentType::Bus,
                VehicleType::Train => AgentType::Train,
            },
            AgentID::Pedestrian(_) => AgentType::Pedestrian,
            AgentID::BusPassenger(_, _) => AgentType::TransitRider,
        }
    }
}

impl VehicleType {
    /// The place of this kind in the order of the kinds of vehicles.
    pub open spec fn spec_rank(self) -> int {
        match self {
            VehicleType::Car => 0,
            VehicleType::Bike => 1,
            VehicleType::Bus => 2,
            VehicleType::Train => 3,
        }
    }

    /// The place of this kind in the order of the kinds of vehicles.
    pub fn rank(self) -> (r: u8)
        ensures
            r == self.spec_rank(),
    {
        match self {
            VehicleType::Car => 0,
            VehicleType::Bike => 1,
            VehicleType::Bus => 2,
            VehicleType::Train => 3,
        }
    }
}

impl AgentID {
    /// The numbers by which agents are ordered: vehicles first, then
    /// pedestrians, then passengers; vehicles by their number and kind,
    /// pedestrians by their number, passengers by the person and then by
    /// the vehicle.
    pub open spec fn key(self) -> (int, int, int, int) {
        match self {
            AgentID::Car(c) => (0, c.0 as int, c.1.spec_rank(), 0),
            AgentID::Pedestrian(p) => (1, p.0 as int, 0, 0),
            AgentID::BusPassenger(p, c) => (2, p.0 as int, c.0 as int, c.1.spec_rank()),
        }
    }

    /// Whether `self` comes before `other` in the order of agents, which
    /// compares their keys number by number.
    pub open spec fn spec_precedes(self, other: AgentID) -> bool {
        let a = self.key();
        let b = other.key();
        a.0 < b.0 || (a.0 == b.0 && (a.1 < b.1 || (a.1 == b.1 && (a.2 < b.2 || (a.2 == b.2 && a.3
            < b.3)))))
    }

    /// Whether `self` comes before `other` in the order of agents.
    #[verifier::when_used_as_spec(spec_precedes)]
    pub fn precedes(self, other: AgentID) -> (b: bool)
        ensures
            b == self.spec_precedes(other),
    {
        match (self, other) {
            (AgentID::Car(x), AgentID::Car(y)) => x.0 < y.0 || (x.0 == y.0 && x.1.rank() < y.1.rank()),
            (AgentID::Car(_), _) => true,
            (AgentID::Pedestrian(_), AgentID::Car(_)) => false,
            (AgentID::Pedestrian(x), AgentID::Pedestrian(y)) => x.0 < y.0,
            (AgentID::Pedestrian(_), AgentID::BusPassenger(_, _)) => true,
            (AgentID::BusPassenger(p, x), AgentID::BusPassenger(q, y)) => p.0 < q.0 || (p.0 == q.0
                && (x.0 < y.0 || (x.0 == y.0 && x.1.rank() < y.1.rank()))),
            (AgentID::BusPassenger(_, _), _) => false,
        }
    }

    /// Of two different agents one comes before the other, and no agent
    /// comes before itself; the order is transitive.
    pub proof fn order_is_total(a: AgentID, b: AgentID, c: AgentID)
        ensures
            !a.spec_precedes(a),
            a != b ==> a.spec_precedes(b) || b.spec_precedes(a),
            a.spec_precedes(b) ==> !b.spec_precedes(a),
            a.spec_precedes(b) && b.spec_precedes(c) ==> a.spec_precedes(c),
    {
    }
}

} // verus!
