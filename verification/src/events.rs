//! What the trip manager tells the world: events for whoever listens, and
//! commands and follow-ups for whoever drives the simulation.

use crate::ids::{
    AgentID, BuildingID, BusRouteID, BusStopID, CarID, IntersectionID, LaneID, OffMapLocation,
    PedestrianID, PersonID, TripID,
};
use crate::places::{DrivingGoal, ParkingSpot, Path, PathRequest, Position, SidewalkSpot};
use crate::trip::{DelayedTrip, TripMode};
use crate::units::{Distance, Duration, Speed, Time};
use crate::vehicles::{ParkedCar, Vehicle};
use vstd::prelude::*;

verus! {

/// What an alert is about.
#[derive(Clone, Copy, Debug, PartialEq, Eq, Structural)]
pub enum AlertLocation {
    Nil,
    Intersection(IntersectionID),
    Person(PersonID),
    Building(BuildingID),
}

/// The phases that a trip goes through, as reported to listeners.
#[derive(Clone, Copy, Debug, PartialEq, Eq, Structural)]
pub enum TripPhaseType {
    Driving,
    Walking,
    Biking,
    Parking,
    WaitingForBus(BusRouteID, BusStopID),
    RidingBus(BusRouteID, BusStopID, CarID),
    Aborted,
    Finished,
    DelayedStart,
    Remote,
}

/// Something that happened, for anyone who listens. Events are handed out
/// in the order in which they happened.
#[derive(Clone, Debug, PartialEq, Eq)]
pub enum Event {
    PersonEntersBuilding(PersonID, BuildingID),
    PersonLeavesBuilding(PersonID, BuildingID),
    /// The agent is the one in which the person enters the map.
    PersonEntersMap(PersonID, AgentID, IntersectionID, Option<OffMapLocation>),
    /// The agent is the one in which the person left, if any.
    PersonLeavesMap(PersonID, Option<AgentID>, IntersectionID, Option<OffMapLocation>),
    PersonEntersRemoteBuilding(PersonID, OffMapLocation),
    PersonLeavesRemoteBuilding(PersonID, OffMapLocation),
    PedReachedParkingSpot(PedestrianID, ParkingSpot),
    BikeStoppedAtSidewalk(CarID, LaneID),
    TripFinished { trip: TripID, mode: TripMode, total_time: Duration, blocked_time: Duration },
    TripCancelled(TripID),
    TripPhaseStarting(TripID, PersonID, Option<PathRequest>, TripPhaseType),
    Alert(AlertLocation, String),
}

impl Event {
    /// Whether this is an alert about `location` with the message `text`.
    pub open spec fn is_alert(self, location: AlertLocation, text: Seq<char>) -> bool {
        self matches Event::Alert(l, m) && l == location && m@ == text
    }
}

/// Everything the walking simulator needs to put a pedestrian on the map.
#[derive(Clone, Debug, PartialEq, Eq)]
pub struct CreatePedestrian {
    pub id: PedestrianID,
    pub speed: Speed,
    pub start: SidewalkSpot,
    pub goal: SidewalkSpot,
    pub path: Path,
    pub req: PathRequest,
    pub trip: TripID,
    pub person: PersonID,
}

/// Everything the driving simulator needs to put a vehicle on the map.
#[derive(Clone, Debug, PartialEq, Eq)]
pub struct CreateCar {
    pub vehicle: Vehicle,
    /// Where the drive is meant to end, and the path that leads there.
    pub goal: DrivingGoal,
    pub path: Path,
    pub req: PathRequest,
    pub start_dist: Distance,
    /// The parking spot that the car leaves, if it was parked.
    pub maybe_parked_car: Option<ParkedCar>,
    pub trip: TripID,
    pub person: PersonID,
}

impl CreateCar {
    /// The order for a vehicle that appears on a lane at `start_pos`.
    pub fn for_appearing(
        vehicle: Vehicle,
        start_pos: Position,
        goal: DrivingGoal,
        path: Path,
        req: PathRequest,
        trip: TripID,
        person: PersonID,
    ) -> (c: CreateCar)
        ensures
            c == (CreateCar {
                vehicle,
                goal,
                path,
                req,
                start_dist: start_pos.dist_along,
                maybe_parked_car: None,
                trip,
                person,
            }),
    {
        CreateCar {
            vehicle,
            goal,
            path,
            req,
            start_dist: start_pos.dist_along,
            maybe_parked_car: None,
            trip,
            person,
        }
    }

    /// The order for a parked car that pulls out of its spot.
    pub fn for_parked_car(
        parked_car: ParkedCar,
        goal: DrivingGoal,
        path: Path,
        req: PathRequest,
        start_dist: Distance,
        trip: TripID,
        person: PersonID,
    ) -> (c: CreateCar)
        ensures
            c == (CreateCar {
                vehicle: parked_car.vehicle,
                goal,
                path,
                req,
                start_dist,
                maybe_parked_car: Some(parked_car),
                trip,
                person,
            }),
    {
        CreateCar {
            vehicle: parked_car.vehicle,
            goal,
            path,
            req,
            start_dist,
            maybe_parked_car: Some(parked_car),
            trip,
            person,
        }
    }
}

/// An order for the scheduler.
#[derive(Clone, Debug, PartialEq, Eq)]
pub enum Command {
    /// Put the vehicle on the map; the flag says whether to try again
    /// later when there is no room now.
    SpawnCar(CreateCar, bool),
    SpawnPed(CreatePedestrian),
    /// Come back to the trip manager when a trip beyond the map is over.
    FinishRemoteTrip(TripID),
}

/// A car that was left behind when its owner's trip was cancelled, and the
/// building near which it should be parked.
#[derive(Clone, Copy, Debug, PartialEq, Eq, Structural)]
pub struct VehicleWarp {
    pub person: PersonID,
    pub vehicle: Vehicle,
    pub near: BuildingID,
    /// When the trip was cancelled.
    pub since: Time,
}

/// What the caller has to do after a step of the trip manager, in the
/// order of the fields.
#[derive(Clone, Debug, PartialEq, Eq)]
pub struct Outcome {
    /// A command to hand to the scheduler, with the time at which it is due.
    pub command: Option<(Time, Command)>,
    /// A parked car to take out of its spot.
    pub unpark: Option<ParkedCar>,
    /// An abandoned car to find a free spot for; the spot that
    /// `warp_spot` picks goes to `TripManager::vehicle_warped`.
    pub warp: Option<VehicleWarp>,
    /// A delayed trip of the person who has just become free; it goes to
    /// `TripManager::start_trip` right away.
    pub next: Option<DelayedTrip>,
}

impl Outcome {
    /// Nothing to do.
    pub open spec fn idle(self) -> bool {
        self.command.is_none() && self.unpark.is_none() && self.warp.is_none()
            && self.next.is_none()
    }

    /// Nothing to do but to hand `c` to the scheduler, due at `at`.
    pub open spec fn schedules(self, at: Time, c: Command) -> bool {
        self.command == Some((at, c)) && self.unpark.is_none() && self.warp.is_none()
            && self.next.is_none()
    }
}

} // verus!
