//! Trips: how a person means to travel, the legs that remain of a trip, its
//! endpoints, and the parameters with which a trip is started.

use crate::ids::{
    BuildingID, BusRouteID, BusStopID, CarID, IntersectionID, OffMapLocation, PersonID, TripID,
};
use crate::places::{
    DrivingGoal, Path, PathConstraints, PathRequest, Position, SidewalkPOI, SidewalkSpot,
};
use crate::units::{Duration, Time};
use std::collections::VecDeque;
use vstd::prelude::*;

verus! {

/// The way a person means to make a trip.
#[derive(Clone, Copy, Debug, PartialEq, Eq, Structural)]
pub enum TripMode {
    Walk,
    Bike,
    Transit,
    Drive,
}

impl TripMode {
    /// Every mode, in the order walk, bike, transit, drive.
    pub fn all() -> (v: Vec<TripMode>)
        ensures
            v@ == seq![TripMode::Walk, TripMode::Bike, TripMode::Transit, TripMode::Drive],
    {
        let mut v: Vec<TripMode> = Vec::new();
        v.push(TripMode::Walk);
        v.push(TripMode::Bike);
        v.push(TripMode::Transit);
        v.push(TripMode::Drive);
        assert(v@ =~= seq![TripMode::Walk, TripMode::Bike, TripMode::Transit, TripMode::Drive]);
        v
    }

    /// What a person does in this mode.
    pub open spec fn spec_verb(self) -> Seq<char> {
        match self {
            TripMode::Walk => "walk"@,
            TripMode::Bike => "bike"@,
            TripMode::Transit => "use transit"@,
            TripMode::Drive => "drive"@,
        }
    }

    /// What a person does in this mode: "walk", "bike", "use transit", "drive".
    pub fn verb(self) -> (s: &'static str)
        ensures
            s@ == self.spec_verb(),
    {
        match self {
            TripMode::Walk => "walk",
            TripMode::Bike => "bike",
            TripMode::Transit => "use transit",
            TripMode::Drive => "drive",
        }
    }

    /// What a person is doing in this mode.
    pub open spec fn spec_ongoing_verb(self) -> Seq<char> {
        match self {
            TripMode::Walk => "walking"@,
            TripMode::Bike => "biking"@,
            TripMode::Transit => "using transit"@,
            TripMode::Drive => "driving"@,
        }
    }

    /// What a person is doing in this mode: "walking", "biking",
    /// "using transit", "driving".
    pub fn ongoing_verb(self) -> (s: &'static str)
        ensures
            s@ == self.spec_ongoing_verb(),
    {
        match self {
            TripMode::Walk => "walking",
            TripMode::Bike => "biking",
            TripMode::Transit => "using transit",
            TripMode::Drive => "driving",
        }
    }

    /// The agent that moves in this mode.
    pub open spec fn spec_noun(self) -> Seq<char> {
        match self {
            TripMode::Walk => "Pedestrian"@,
            TripMode::Bike => "Bike"@,
            TripMode::Transit => "Bus"@,
            TripMode::Drive => "Car"@,
        }
    }

    /// The agent that moves in this mode: "Pedestrian", "Bike", "Bus", "Car".
    pub fn noun(self) -> (s: &'static str)
        ensures
            s@ == self.spec_noun(),
    {
        match self {
            TripMode::Walk => "Pedestrian",
            TripMode::Bike => "Bike",
            TripMode::Transit => "Bus",
            TripMode::Drive => "Car",
        }
    }

    /// The lanes that an agent of this mode may use.
    pub open spec fn spec_to_constraints(self) -> PathConstraints {
        match self {
            TripMode::Walk => PathConstraints::Pedestrian,
            TripMode::Bike => PathConstraints::Bike,
            TripMode::Transit => PathConstraints::Bus,
            TripMode::Drive => PathConstraints::Car,
        }
    }

    /// The lanes that an agent of this mode may use. A transit trip counts
    /// as a bus here.
    #[verifier::when_used_as_spec(spec_to_constraints)]
    pub fn to_constraints(self) -> (c: PathConstraints)
        ensures
            c == self.spec_to_constraints(),
    {
        match self {
            TripMode::Walk => PathConstraints::Pedestrian,
            TripMode::Bike => PathConstraints::Bike,
            TripMode::Transit => PathConstraints::Bus,
            TripMode::Drive => PathConstraints::Car,
        }
    }

    /// The mode of a trip whose agent moves under `c`.
    pub open spec fn spec_from_constraints(c: PathConstraints) -> TripMode {
        match c {
            PathConstraints::Pedestrian => TripMode::Walk,
            PathConstraints::Bike => TripMode::Bike,
            PathConstraints::Bus => TripMode::Transit,
            PathConstraints::Train => TripMode::Transit,
            PathConstraints::Car => TripMode::Drive,
        }
    }

    /// The mode of a trip whose agent moves under `c`. Buses and trains are
    /// both transit.
    #[verifier::when_used_as_spec(spec_from_constraints)]
    pub fn from_constraints(c: PathConstraints) -> (m: TripMode)
        ensures
            m == Self::spec_from_constraints(c),
    {
        match c {
            PathConstraints::Pedestrian => TripMode::Walk,
            PathConstraints::Bike => TripMode::Bike,
            PathConstraints::Bus | PathConstraints::Train => TripMode::Transit,
            PathConstraints::Car => TripMode::Drive,
        }
    }

    /// The constraints under which the path of a whole trip of this mode is
    /// searched: travellers by transit are looked up as pedestrians.
    pub open spec fn spec_request_constraints(self) -> PathConstraints {
        match self {
            TripMode::Walk => PathConstraints::Pedestrian,
            TripMode::Transit => PathConstraints::Pedestrian,
            TripMode::Drive => PathConstraints::Car,
            TripMode::Bike => PathConstraints::Bike,
        }
    }
}

/// Why a person makes a trip.
#[derive(Clone, Copy, Debug, PartialEq, Eq, Structural)]
pub enum TripPurpose {
    Home,
    Work,
    School,
    Escort,
    PersonalBusiness,
    Shopping,
    Meal,
    Social,
    Recreation,
    Medical,
    ParkAndRideTransfer,
}

/// Where a trip begins or ends: at a building, or at a border of the map,
/// perhaps on the way from or to a place beyond it.
#[derive(Clone, Copy, Debug, PartialEq, Eq, Structural)]
pub enum TripEndpoint {
    Bldg(BuildingID),
    Border(IntersectionID, Option<OffMapLocation>),
}

/// How to find, on the map, the position at which a trip touches an endpoint.
#[derive(Clone, Copy, Debug, PartialEq, Eq, Structural)]
pub enum EndpointLookup {
    /// Where the door of the building meets the sidewalk.
    BuildingSidewalk(BuildingID),
    /// Where a vehicle under these constraints stops for the building. A
    /// bike may have no such place; a car always has one.
    BuildingDriving(BuildingID, PathConstraints),
    /// Where a pedestrian enters the map at the border.
    BorderSidewalkStart(IntersectionID),
    /// Where a pedestrian leaves the map at the border.
    BorderSidewalkEnd(IntersectionID),
    /// The start of the first lane, for these constraints, of some road that
    /// leaves the border.
    BorderOutgoingLane(IntersectionID, PathConstraints),
    /// The start of the first lane, for these constraints, of some road that
    /// arrives at the border.
    BorderIncomingLane(IntersectionID, PathConstraints),
}

impl EndpointLookup {
    /// Whether the map has a position for every lookup of this kind: it
    /// has one for a car at any building.
    pub open spec fn spec_always_found(self) -> bool {
        self matches EndpointLookup::BuildingDriving(_, c) && c == PathConstraints::Car
    }

    /// Whether the map has a position for every lookup of this kind: it
    /// has one for a car at any building.
    #[verifier::when_used_as_spec(spec_always_found)]
    pub fn always_found(self) -> (b: bool)
        ensures
            b == self.spec_always_found(),
    {
        match self {
            EndpointLookup::BuildingDriving(_, PathConstraints::Car) => true,
            _ => false,
        }
    }
}

impl TripEndpoint {
    /// The lookup that gives the position of this endpoint for a trip of
    /// mode `mode`, at the trip's start (`from`) or at its end.
    pub open spec fn spec_lookup(self, mode: TripMode, from: bool) -> EndpointLookup {
        match self {
            TripEndpoint::Bldg(b) => match mode {
                TripMode::Walk | TripMode::Transit => EndpointLookup::BuildingSidewalk(b),
                TripMode::Bike => EndpointLookup::BuildingDriving(b, PathConstraints::Bike),
                TripMode::Drive => EndpointLookup::BuildingDriving(b, PathConstraints::Car),
            },
            TripEndpoint::Border(i, _) => match mode {
                TripMode::Walk | TripMode::Transit => if from {
                    EndpointLookup::BorderSidewalkStart(i)
                } else {
                    EndpointLookup::BorderSidewalkEnd(i)
                },
                TripMode::Bike => if from {
                    EndpointLookup::BorderOutgoingLane(i, PathConstraints::Bike)
                } else {
                    EndpointLookup::BorderIncomingLane(i, PathConstraints::Bike)
                },
                TripMode::Drive => if from {
                    EndpointLookup::BorderOutgoingLane(i, PathConstraints::Car)
                } else {
                    EndpointLookup::BorderIncomingLane(i, PathConstraints::Car)
                },
            },
        }
    }

    /// The lookup that gives the position of this endpoint for a trip of
    /// mode `mode`, at the trip's start (`from`) or at its end.
    #[verifier::when_used_as_spec(spec_lookup)]
    pub fn lookup(self, mode: TripMode, from: bool) -> (q: EndpointLookup)
        ensures
            q == self.spec_lookup(mode, from),
    {
        let vehicle = match mode {
            TripMode::Bike => PathConstraints::Bike,
            _ => PathConstraints::Car,
        };
        let on_foot = match mode {
            TripMode::Walk | TripMode::Transit => true,
            _ => false,
        };
        match self {
            TripEndpoint::Bldg(b) => if on_foot {
                EndpointLookup::BuildingSidewalk(b)
            } else {
                EndpointLookup::BuildingDriving(b, vehicle)
            },
            TripEndpoint::Border(i, _) => if on_foot {
                if from {
                    EndpointLookup::BorderSidewalkStart(i)
                } else {
                    EndpointLookup::BorderSidewalkEnd(i)
                }
            } else if from {
                EndpointLookup::BorderOutgoingLane(i, vehicle)
            } else {
                EndpointLookup::BorderIncomingLane(i, vehicle)
            },
        }
    }

    /// The path request for a whole trip of mode `mode`, given the positions
    /// that the map found for `from.lookup(mode, true)` and
    /// `to.lookup(mode, false)`. There is a request exactly when both
    /// positions were found; a position that the map always has must be
    /// there.
    pub fn path_req(
        from: TripEndpoint,
        to: TripEndpoint,
        mode: TripMode,
        start: Option<Position>,
        end: Option<Position>,
    ) -> (r: Option<PathRequest>)
        requires
            from.spec_lookup(mode, true).spec_always_found() ==> start.is_some(),
            to.spec_lookup(mode, false).spec_always_found() ==> end.is_some(),
        ensures
            r.is_some() <==> start.is_some() && end.is_some(),
            r.is_some() ==> r.unwrap() == (PathRequest {
                start: start.unwrap(),
                end: end.unwrap(),
                constraints: mode.spec_request_constraints(),
            }),
    {
        match (start, end) {
            (Some(s), Some(e)) => Some(
                PathRequest {
                    start: s,
                    end: e,
                    constraints: match mode {
                        TripMode::Walk | TripMode::Transit => PathConstraints::Pedestrian,
                        TripMode::Drive => PathConstraints::Car,
                        TripMode::Bike => PathConstraints::Bike,
                    },
                },
            ),
            _ => None,
        }
    }

    /// The spot on the sidewalk at which a trip touches this endpoint,
    /// given the position that the map found for it there, if any: the
    /// door of the building, or the place at which pedestrians cross the
    /// border.
    pub open spec fn spec_sidewalk_spot(self, pos: Option<Position>) -> Option<SidewalkSpot> {
        match pos {
            Some(sidewalk_pos) => Some(
                SidewalkSpot {
                    connection: match self {
                        TripEndpoint::Bldg(b) => SidewalkPOI::Building(b),
                        TripEndpoint::Border(i, loc) => SidewalkPOI::Border(i, loc),
                    },
                    sidewalk_pos,
                },
            ),
            None => None,
        }
    }

    /// The spot on the sidewalk at which a walk from this endpoint
    /// starts, given the position that the map found for it.
    pub fn start_sidewalk_spot(self, pos: Option<Position>) -> (s: Option<SidewalkSpot>)
        ensures
            s == self.spec_sidewalk_spot(pos),
    {
        self.end_sidewalk_spot(pos)
    }

    /// The spot on the sidewalk at which a walk to this endpoint ends,
    /// given the position that the map found for it.
    pub fn end_sidewalk_spot(self, pos: Option<Position>) -> (s: Option<SidewalkSpot>)
        ensures
            s == self.spec_sidewalk_spot(pos),
    {
        match pos {
            Some(sidewalk_pos) => Some(
                SidewalkSpot {
                    connection: match self {
                        TripEndpoint::Bldg(b) => SidewalkPOI::Building(b),
                        TripEndpoint::Border(i, loc) => SidewalkPOI::Border(i, loc),
                    },
                    sidewalk_pos,
                },
            ),
            None => None,
        }
    }

    /// The goal of a drive that ends at this endpoint: a place to park near
    /// the building, or the border along `exit_lane`, the lane that the map
    /// found for leaving through it. Without such a lane there is no goal.
    pub fn driving_goal(self, exit_lane: Option<crate::ids::LaneID>) -> (g: Option<DrivingGoal>)
        ensures
            g == match self {
                TripEndpoint::Bldg(b) => Some(DrivingGoal::ParkNear(b)),
                TripEndpoint::Border(i, destination) => match exit_lane {
                    Some(l) => Some(DrivingGoal::Border(i, l, destination)),
                    None => None,
                },
            },
    {
        match self {
            TripEndpoint::Bldg(b) => Some(DrivingGoal::ParkNear(b)),
            TripEndpoint::Border(i, destination) => match exit_lane {
                Some(l) => Some(DrivingGoal::Border(i, l, destination)),
                None => None,
            },
        }
    }
}

/// One stretch of a trip, moved by a single simulator. A leg says where it
/// ends, not where it starts: that may not be known until the leg before
/// it is over.
#[derive(Clone, Copy, Debug, PartialEq, Eq, Structural)]
pub enum TripLeg {
    Walk(SidewalkSpot),
    /// A person may own many vehicles, so the leg names the one it uses.
    Drive(CarID, DrivingGoal),
    /// Ride the route to the stop, or off the map if there is none.
    RideBus(BusRouteID, Option<BusStopID>),
    Remote(OffMapLocation),
}

/// What a trip is, from its creation on, and whether it was cancelled.
#[derive(Debug, PartialEq, Eq)]
pub struct TripInfo {
    /// Scheduled departure; the trip may start later, when the one before
    /// it takes too long.
    pub departure: Time,
    pub mode: TripMode,
    pub start: TripEndpoint,
    pub end: TripEndpoint,
    pub purpose: TripPurpose,
    /// Whether the scenario was changed for this trip.
    pub modified: bool,
    /// Whether a congestion cap changed or refused a path of this trip.
    pub capped: bool,
    pub cancellation_reason: Option<String>,
}

impl Clone for TripInfo {
    fn clone(&self) -> (r: TripInfo)
        ensures
            r == *self,
    {
        TripInfo {
            departure: self.departure,
            mode: self.mode,
            start: self.start,
            end: self.end,
            purpose: self.purpose,
            modified: self.modified,
            capped: self.capped,
            cancellation_reason: match &self.cancellation_reason {
                Some(s) => Some(s.clone()),
                None => None,
            },
        }
    }
}

/// A trip and how far it has got.
#[derive(Clone, Debug, PartialEq, Eq)]
pub struct Trip {
    pub id: TripID,
    pub info: TripInfo,
    pub started: bool,
    pub finished_at: Option<Time>,
    pub total_blocked_time: Duration,
    /// The legs still to be made, the current one first.
    pub legs: VecDeque<TripLeg>,
    pub person: PersonID,
}

impl Trip {
    /// Neither finished nor cancelled.
    pub open spec fn unfinished(self) -> bool {
        self.finished_at.is_none() && self.info.cancellation_reason.is_none()
    }

    /// Started, and neither finished nor cancelled.
    pub open spec fn ongoing(self) -> bool {
        self.started && self.unfinished()
    }

    /// Not started yet, and not cancelled either.
    pub open spec fn waiting(self) -> bool {
        !self.started && self.unfinished()
    }

    /// A trip has no legs left exactly when it is finished, and a finished
    /// trip was started and is not cancelled.
    pub open spec fn consistent(self) -> bool {
        &&& self.finished_at.is_some() <==> self.legs@.len() == 0
        &&& self.finished_at.is_some() ==> self.started && self.info.cancellation_reason.is_none()
    }
}

/// The answer to a question about a trip.
#[derive(Clone, Debug, PartialEq, Eq)]
pub enum TripResult<T> {
    /// The answer.
    Found(T),
    /// The trip is between two legs: the agent of its current leg has not
    /// appeared yet.
    ModeChange,
    TripDone,
    TripDoesntExist,
    TripNotStarted,
    TripCancelled,
    RemoteTrip,
}

impl<T> TripResult<T> {
    /// The answer itself, if there is one.
    pub fn ok(self) -> (o: Option<T>)
        ensures
            o == match self {
                TripResult::Found(data) => Some(data),
                _ => None,
            },
    {
        match self {
            TripResult::Found(data) => Some(data),
            _ => None,
        }
    }

    /// The same failure, as the answer to a question of another type.
    pub fn propagate_error<X>(self) -> (r: TripResult<X>)
        requires
            !(self is Found),
        ensures
            r == match self {
                TripResult::Found(_) => TripResult::<X>::ModeChange,
                TripResult::ModeChange => TripResult::<X>::ModeChange,
                TripResult::TripDone => TripResult::<X>::TripDone,
                TripResult::TripDoesntExist => TripResult::<X>::TripDoesntExist,
                TripResult::TripNotStarted => TripResult::<X>::TripNotStarted,
                TripResult::TripCancelled => TripResult::<X>::TripCancelled,
                TripResult::RemoteTrip => TripResult::<X>::RemoteTrip,
            },
    {
        match self {
            TripResult::Found(_) => TripResult::ModeChange,
            TripResult::ModeChange => TripResult::ModeChange,
            TripResult::TripDone => TripResult::TripDone,
            TripResult::TripDoesntExist => TripResult::TripDoesntExist,
            TripResult::TripNotStarted => TripResult::TripNotStarted,
            TripResult::TripCancelled => TripResult::TripCancelled,
            TripResult::RemoteTrip => TripResult::RemoteTrip,
        }
    }
}

/// How a trip begins: what the starter needs to know to put its first
/// agent on the map.
#[derive(Clone, Debug, PartialEq, Eq)]
#[allow(inconsistent_fields)]
pub enum TripSpec {
    /// A vehicle appears on a lane, at a border or anywhere.
    VehicleAppearing {
        start_pos: Position,
        goal: DrivingGoal,
        use_vehicle: CarID,
        retry_if_no_room: bool,
        origin: Option<OffMapLocation>,
    },
    /// A vehicle should have appeared at a border, but no position could be
    /// found for it there.
    NoRoomToSpawn {
        i: IntersectionID,
        goal: DrivingGoal,
        use_vehicle: CarID,
        origin: Option<OffMapLocation>,
        error: String,
    },
    /// Walk from a building to a parked car, then drive.
    UsingParkedCar { car: CarID, start_bldg: BuildingID, goal: DrivingGoal },
    JustWalking { start: SidewalkSpot, goal: SidewalkSpot },
    /// Walk from a building to where the bike can be ridden, then ride.
    UsingBike { bike: CarID, start: BuildingID, goal: DrivingGoal },
    UsingTransit {
        start: SidewalkSpot,
        goal: SidewalkSpot,
        route: BusRouteID,
        stop1: BusStopID,
        maybe_stop2: Option<BusStopID>,
    },
    /// A trip that happens entirely beyond the map and only takes time.
    Remote { from: OffMapLocation, to: OffMapLocation, trip_time: Duration, mode: TripMode },
}

/// A trip whose departure came while its person was still on another trip,
/// with everything needed to start it later.
#[derive(Clone, Debug, PartialEq, Eq)]
pub struct DelayedTrip {
    pub trip: TripID,
    pub spec: TripSpec,
    pub req: Option<PathRequest>,
    pub path: Option<Path>,
}

} // verus!
