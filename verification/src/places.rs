//! Places on the map as the trip manager sees them: positions along lanes,
//! parking spots, the points where a sidewalk meets something else, and
//! the requests and answers of path finding.

use crate::ids::{BuildingID, BusStopID, IntersectionID, LaneID, OffMapLocation, ParkingLotID};
use crate::units::Distance;
use vstd::prelude::*;

verus! {

/// A point some distance along a lane.
#[derive(Clone, Copy, Debug, PartialEq, Eq, Structural)]
pub struct Position {
    pub lane: LaneID,
    pub dist_along: Distance,
}

impl Position {
    /// The point `dist_along` along `lane`.
    pub fn new(lane: LaneID, dist_along: Distance) -> (p: Position)
        ensures
            p == (Position { lane, dist_along }),
    {
        Position { lane, dist_along }
    }

    /// The very beginning of a lane.
    pub fn start(lane: LaneID) -> (p: Position)
        ensures
            p == (Position { lane, dist_along: Distance(0) }),
    {
        Position { lane, dist_along: Distance(0) }
    }

    /// This position moved forward along its lane.
    pub open spec fn spec_forward(self, by: Distance) -> Position {
        Position { lane: self.lane, dist_along: Distance((self.dist_along.0 + by.0) as u64) }
    }

    /// This position moved forward along its lane by `by`.
    pub fn forward(self, by: Distance) -> (p: Position)
        requires
            self.dist_along.can_add(by),
        ensures
            p == self.spec_forward(by),
    {
        Position { lane: self.lane, dist_along: self.dist_along.plus(by) }
    }
}

/// A place to leave a car: along a street, inside a building, or in a lot.
#[derive(Clone, Copy, Debug, PartialEq, Eq, Structural)]
pub enum ParkingSpot {
    /// Lane and index along it.
    Onstreet(LaneID, usize),
    /// Building and index inside it.
    Offstreet(BuildingID, usize),
    /// Lot and index inside it.
    Lot(ParkingLotID, usize),
}

/// What a spot on a sidewalk connects to.
#[derive(Clone, Copy, Debug, PartialEq, Eq, Structural)]
pub enum SidewalkPOI {
    ParkingSpot(ParkingSpot),
    /// Wherever the person's car ends up being parked; not known yet.
    DeferredParkingSpot,
    Building(BuildingID),
    BusStop(BusStopID),
    Border(IntersectionID, Option<OffMapLocation>),
    /// The position on the driving lane where a bike starts or stops.
    BikeRack(Position),
    SuddenlyAppear,
}

/// A point on a sidewalk and what it connects to.
#[derive(Clone, Copy, Debug, PartialEq, Eq, Structural)]
pub struct SidewalkSpot {
    pub connection: SidewalkPOI,
    pub sidewalk_pos: Position,
}

impl SidewalkSpot {
    /// The stand-in for a parking spot that is not known yet.
    pub open spec fn spec_deferred_parking_spot() -> SidewalkSpot {
        SidewalkSpot {
            connection: SidewalkPOI::DeferredParkingSpot,
            sidewalk_pos: Position { lane: LaneID(0), dist_along: Distance(0) },
        }
    }

    /// The stand-in for a parking spot that is not known yet: a walk to it
    /// means "walk to wherever the car is".
    #[verifier::when_used_as_spec(spec_deferred_parking_spot)]
    pub fn deferred_parking_spot() -> (s: SidewalkSpot)
        ensures
            s == Self::spec_deferred_parking_spot(),
    {
        SidewalkSpot {
            connection: SidewalkPOI::DeferredParkingSpot,
            sidewalk_pos: Position::start(LaneID(0)),
        }
    }

    /// The spot at the door of a building, given where the map puts it.
    pub fn building(b: BuildingID, sidewalk_pos: Position) -> (s: SidewalkSpot)
        ensures
            s == (SidewalkSpot { connection: SidewalkPOI::Building(b), sidewalk_pos }),
    {
        SidewalkSpot { connection: SidewalkPOI::Building(b), sidewalk_pos }
    }

    /// The spot next to a parking spot, given where the map puts it.
    pub fn parking_spot(spot: ParkingSpot, sidewalk_pos: Position) -> (s: SidewalkSpot)
        ensures
            s == (SidewalkSpot { connection: SidewalkPOI::ParkingSpot(spot), sidewalk_pos }),
    {
        SidewalkSpot { connection: SidewalkPOI::ParkingSpot(spot), sidewalk_pos }
    }

    /// The spot at a bus stop, given where the map puts it.
    pub fn bus_stop(stop: BusStopID, sidewalk_pos: Position) -> (s: SidewalkSpot)
        ensures
            s == (SidewalkSpot { connection: SidewalkPOI::BusStop(stop), sidewalk_pos }),
    {
        SidewalkSpot { connection: SidewalkPOI::BusStop(stop), sidewalk_pos }
    }
}

/// Where a drive is meant to end.
#[derive(Clone, Copy, Debug, PartialEq, Eq, Structural)]
pub enum DrivingGoal {
    ParkNear(BuildingID),
    /// Leave the map through this intersection, along this lane.
    Border(IntersectionID, LaneID, Option<OffMapLocation>),
}

/// Who a path is for, which decides the lanes it may use.
#[derive(Clone, Copy, Debug, PartialEq, Eq, Structural)]
pub enum PathConstraints {
    Pedestrian,
    Car,
    Bike,
    Bus,
    Train,
}

/// A question for the path finder.
#[derive(Clone, Copy, Debug, PartialEq, Eq, Structural)]
pub struct PathRequest {
    pub start: Position,
    pub end: Position,
    pub constraints: PathConstraints,
}

impl PathRequest {
    /// The request for a walk from `start` to `end`.
    pub fn walking(start: Position, end: Position) -> (r: PathRequest)
        ensures
            r == (PathRequest { start, end, constraints: PathConstraints::Pedestrian }),
    {
        PathRequest { start, end, constraints: PathConstraints::Pedestrian }
    }
}

/// An answer of the path finder: the lanes to follow, in order. The trip
/// manager never looks inside; it hands paths on to whoever moves the agent.
#[derive(Clone, Debug, PartialEq, Eq)]
pub struct Path {
    pub lanes: Vec<LaneID>,
}

/// What the map says about the ends of trips that leave the simulated area.
#[derive(Clone, Debug, PartialEq, Eq)]
pub struct MapExits {
    /// The borders through which traffic can enter the map, in the map's order.
    pub incoming_borders: Vec<IntersectionID>,
    /// For each bus route, by its index: the intersection at which the route
    /// leaves the map, if it does.
    pub route_exits: Vec<Option<IntersectionID>>,
}

} // verus!
