//! What the handlers of the trip manager ask of their callers, as
//! questions that can be put at run time.

use crate::ids::{
    AgentID, AgentType, BuildingID, BusStopID, CarID, IntersectionID, PedestrianID, PersonID,
    TripID,
};
use crate::manager::creation::can_end_with;
use crate::manager::queries::count_kind;
use crate::manager::start::{state_before_walk, Surroundings};
use crate::manager::transfers::parks_inside;
use crate::manager::{agent_of, expected_agent, ManagerState, TripManager};
use crate::person::PersonState;
use crate::places::{
    DrivingGoal, MapExits, ParkingSpot, PathRequest, Position, SidewalkPOI, SidewalkSpot,
};
use crate::trip::{TripLeg, TripSpec};
use crate::units::{Duration, Time};
use crate::vehicles::{ParkedCar, Vehicle};
use vstd::prelude::*;

verus! {

impl ManagerState {
    /// Whether `n` more vehicles can be numbered.
    pub open spec fn pre_new_car_ids(self, n: nat) -> bool {
        self.next_car + n <= usize::MAX
    }

    /// Whether a person can be added under `id`, with `n` vehicles: `id`
    /// is the next free identifier, and the vehicles can be numbered.
    pub open spec fn pre_new_person(self, id: PersonID, n: nat) -> bool {
        id.0 == self.people.len() && self.pre_new_car_ids(n)
    }

    /// Whether a trip of `person` that leaves at `departure` and is made
    /// of `legs` can be added: there are legs, the last of them can end a
    /// trip, and the person has no trip that leaves later.
    pub open spec fn pre_new_trip(
        self,
        person: PersonID,
        departure: Time,
        legs: Seq<TripLeg>,
        exits: MapExits,
    ) -> bool {
        &&& legs.len() > 0
        &&& self.has_person(person)
        &&& can_end_with(legs.last(), exits)
        &&& self.person(person).trips@.len() > 0 ==> self.trip(
            self.person(person).trips@.last(),
        ).info.departure.0 <= departure.0
    }

    /// Whether `agent` can be registered as the one that moves trip `t`:
    /// it is not active, and it is the agent that the current leg of the
    /// trip, which is going on, needs.
    pub open spec fn pre_agent_starting_trip_leg(self, agent: AgentID, t: TripID) -> bool {
        &&& !self.agents.dom().contains(agent)
        &&& self.has_trip(t)
        &&& self.trip(t).ongoing()
        &&& expected_agent(self.trip(t), self.traveller(t)) == Some(agent)
    }

    /// Whether `ped` is on the last leg of a trip, a walk to the door of
    /// `bldg`, which the map puts at `door`.
    pub open spec fn pre_ped_reached_building(
        self,
        now: Time,
        ped: PedestrianID,
        bldg: BuildingID,
        door: Position,
        blocked: Duration,
    ) -> bool {
        let trip = self.trip(self.agents[AgentID::Pedestrian(ped)]);
        &&& self.moving(AgentID::Pedestrian(ped), blocked)
        &&& trip.legs@.len() == 1
        &&& trip.legs@[0] == TripLeg::Walk(
            SidewalkSpot { connection: SidewalkPOI::Building(bldg), sidewalk_pos: door },
        )
        &&& now.can_measure_from(trip.info.departure)
    }

    /// Whether `ped` is on the last leg of a trip, a walk to the border `i`.
    pub open spec fn pre_ped_reached_border(
        self,
        now: Time,
        ped: PedestrianID,
        i: IntersectionID,
        blocked: Duration,
    ) -> bool {
        let trip = self.trip(self.agents[AgentID::Pedestrian(ped)]);
        &&& self.moving(AgentID::Pedestrian(ped), blocked)
        &&& trip.legs@.len() == 1
        &&& trip.legs@[0] matches TripLeg::Walk(spot)
        &&& spot.connection matches SidewalkPOI::Border(i2, _)
        &&& i2 == i
        &&& now.can_measure_from(trip.info.departure)
    }

    /// Whether `person` is on `bus` on the last leg of a trip, a ride off
    /// the map, which ends at a border.
    pub open spec fn pre_transit_rider_reached_border(
        self,
        now: Time,
        person: PersonID,
        bus: CarID,
    ) -> bool {
        let trip = self.trip(self.agents[AgentID::BusPassenger(person, bus)]);
        &&& self.agents.dom().contains(AgentID::BusPassenger(person, bus))
        &&& trip.legs@.len() == 1
        &&& trip.legs@[0] matches TripLeg::RideBus(_, stop)
        &&& stop.is_none()
        &&& trip.info.end is Border
        &&& now.can_measure_from(trip.info.departure)
    }

    /// Whether `car` is on the last leg of a trip, a drive to the border `i`.
    pub open spec fn pre_car_or_bike_reached_border(
        self,
        now: Time,
        car: CarID,
        i: IntersectionID,
        blocked: Duration,
    ) -> bool {
        let trip = self.trip(self.agents[AgentID::Car(car)]);
        &&& self.moving(AgentID::Car(car), blocked)
        &&& trip.legs@.len() == 1
        &&& trip.legs@[0] matches TripLeg::Drive(_, goal)
        &&& goal matches DrivingGoal::Border(i2, _, _)
        &&& i2 == i
        &&& now.can_measure_from(trip.info.departure)
    }

    /// Whether trip `id` is going on beyond the map, and is all that it
    /// is made of.
    pub open spec fn pre_remote_trip_finished(self, now: Time, id: TripID) -> bool {
        &&& self.has_trip(id)
        &&& self.trip(id).ongoing()
        &&& self.trip(id).legs@.len() == 1
        &&& self.trip(id).legs@[0] is Remote
        &&& now.can_measure_from(self.trip(id).info.departure)
    }

    /// Whether `car` is on a drive to a place to park that a walk follows;
    /// if it parks inside the building to which the walk leads, the walk
    /// must be the last leg.
    pub open spec fn pre_car_reached_parking_spot(
        self,
        now: Time,
        car: CarID,
        spot: ParkingSpot,
        blocked: Duration,
    ) -> bool {
        let trip = self.trip(self.agents[AgentID::Car(car)]);
        &&& self.transferring(AgentID::Car(car), blocked)
        &&& trip.legs@[0] matches TripLeg::Drive(_, goal)
        &&& goal is ParkNear
        &&& trip.legs@[1] matches TripLeg::Walk(to)
        &&& parks_inside(spot, to).is_some() ==> trip.legs@.len() == 2 && now.can_measure_from(
            trip.info.departure,
        )
    }

    /// Whether `ped` is on a walk to wherever their car is, the car in
    /// `parked_car` is the one that the drive after the walk uses, and the
    /// position from which it starts to drive can be worked out.
    pub open spec fn pre_ped_reached_parking_spot(
        self,
        ped: PedestrianID,
        spot: ParkingSpot,
        blocked: Duration,
        parked_car: ParkedCar,
        driving_pos: Position,
    ) -> bool {
        let trip = self.trip(self.agents[AgentID::Pedestrian(ped)]);
        &&& self.transferring(AgentID::Pedestrian(ped), blocked)
        &&& trip.legs@[0] == TripLeg::Walk(SidewalkSpot::spec_deferred_parking_spot())
        &&& trip.legs@[1] matches TripLeg::Drive(c, _)
        &&& c == parked_car.vehicle.id
        &&& !(spot is Onstreet) ==> driving_pos.dist_along.can_add(parked_car.vehicle.length)
    }

    /// Whether `ped` is on a walk to `spot`, a place to mount a bike, a
    /// ride follows, and, should the ride go ahead, the person owns the bike.
    pub open spec fn pre_ped_ready_to_bike(
        self,
        ped: PedestrianID,
        spot: SidewalkSpot,
        blocked: Duration,
        goes_ahead: bool,
    ) -> bool {
        let t = self.agents[AgentID::Pedestrian(ped)];
        let trip = self.trip(t);
        &&& self.transferring(AgentID::Pedestrian(ped), blocked)
        &&& spot.connection is BikeRack
        &&& trip.legs@[0] == TripLeg::Walk(spot)
        &&& trip.legs@[1] matches TripLeg::Drive(bike, _)
        &&& goes_ahead ==> self.traveller(t).owns(bike)
    }

    /// Whether `bike` is on a ride to a place near a building that a walk
    /// follows.
    pub open spec fn pre_bike_reached_end(self, bike: CarID, blocked: Duration) -> bool {
        let trip = self.trip(self.agents[AgentID::Car(bike)]);
        &&& self.transferring(AgentID::Car(bike), blocked)
        &&& trip.legs@[0] matches TripLeg::Drive(_, goal)
        &&& goal is ParkNear
        &&& trip.legs@[1] is Walk
    }

    /// Whether `ped` is on a walk to `stop`, which the map puts at
    /// `stop_pos`, that a ride follows.
    pub open spec fn pre_ped_reached_bus_stop(
        self,
        ped: PedestrianID,
        stop: BusStopID,
        stop_pos: Position,
        blocked: Duration,
    ) -> bool {
        let trip = self.trip(self.agents[AgentID::Pedestrian(ped)]);
        &&& self.transferring(AgentID::Pedestrian(ped), blocked)
        &&& trip.legs@[0] == TripLeg::Walk(
            SidewalkSpot { connection: SidewalkPOI::BusStop(stop), sidewalk_pos: stop_pos },
        )
        &&& trip.legs@[1] is RideBus
    }

    /// Whether `ped` is on a leg that a ride follows.
    pub open spec fn pre_ped_boarded_bus(self, ped: PedestrianID, blocked: Duration) -> bool {
        &&& self.transferring(AgentID::Pedestrian(ped), blocked)
        &&& self.trip(self.agents[AgentID::Pedestrian(ped)]).legs@[1] is RideBus
    }

    /// Whether `person` is on `bus` on a ride to a stop that a walk follows.
    pub open spec fn pre_person_left_bus(self, person: PersonID, bus: CarID) -> bool {
        let trip = self.trip(self.agents[AgentID::BusPassenger(person, bus)]);
        &&& self.transferring(AgentID::BusPassenger(person, bus), Duration(0))
        &&& trip.legs@[0] matches TripLeg::RideBus(_, stop)
        &&& stop.is_some()
        &&& trip.legs@[1] is Walk
    }

    /// Whether trip `id` has not been handed to the starter, and is not
    /// cancelled.
    pub open spec fn pre_cancel_unstarted_trip(self, id: TripID) -> bool {
        &&& self.has_trip(id)
        &&& self.trip(id).waiting()
        &&& !self.queued(id)
    }

    /// Whether the agents can be counted together with `buses` buses and
    /// `trains` trains of the transit system, given the active agents in
    /// their order.
    pub open spec fn pre_num_agents(order: Seq<AgentID>, buses: usize, trains: usize) -> bool {
        &&& count_kind(order, AgentType::Bus) + buses <= usize::MAX
        &&& count_kind(order, AgentType::Train) + trains <= usize::MAX
    }

    /// Whether the time that trip `id` took, if it is finished, fits a
    /// `Duration`.
    pub open spec fn pre_finished_trip_time(self, id: TripID) -> bool {
        &&& self.has_trip(id)
        &&& self.trip(id).finished_at matches Some(end) ==> end.can_measure_from(
            self.trip(id).info.departure,
        )
    }
}

/// Whether a person in state `state` can set out on a walk from `start`.
fn stands_at(state: PersonState, start: SidewalkSpot) -> (b: bool)
    ensures
        b == (state_before_walk(start) == Some(state)),
{
    match start.connection {
        SidewalkPOI::Building(x) => state == PersonState::Inside(x),
        SidewalkPOI::Border(_, _) => state == PersonState::OffMap,
        SidewalkPOI::SuddenlyAppear => state == PersonState::OffMap,
        _ => false,
    }
}

impl TripManager {
    /// Whether trip `id` waits in the queue of delayed trips of its person.
    pub fn is_queued(&self, id: TripID) -> (b: bool)
        requires
            self.wf(),
            self@.has_trip(id),
        ensures
            b == self@.queued(id),
    {
        let queue = &self.people[self.trips[id.0].person.0].delayed_trips;
        let mut k: usize = 0;
        while k < queue.len()
            invariant
                k <= queue@.len(),
                *queue == self@.traveller(id).delayed_trips,
                forall|j: int| 0 <= j < k ==> (#[trigger] queue@[j]).trip != id,
            decreases queue@.len() - k,
        {
            if queue[k].trip == id {
                return true;
            }
            k += 1;
        }
        false
    }

    /// Whether `agent` is active and moves a trip that can take `blocked`
    /// more blocked time.
    pub fn is_moving(&self, agent: AgentID, blocked: Duration) -> (b: bool)
        requires
            self.wf(),
        ensures
            b == self@.moving(agent, blocked),
    {
        match self.active_trip_mode.lookup(agent) {
            Some(t) => self.trips[t.0].total_blocked_time.fits_with(blocked),
            None => false,
        }
    }

    /// Whether `agent` is moving a trip that has another leg after the
    /// current one, whose own agent is not active yet.
    pub fn is_transferring(&self, agent: AgentID, blocked: Duration) -> (b: bool)
        requires
            self.wf(),
        ensures
            b == self@.transferring(agent, blocked),
    {
        match self.active_trip_mode.lookup(agent) {
            Some(t) => {
                let trip = &self.trips[t.0];
                trip.total_blocked_time.fits_with(blocked) && trip.legs.len() >= 2 && match trip.legs[1] {
                    TripLeg::Drive(c, _) => AgentID::Car(c) == agent || self.active_trip_mode.lookup(
                        AgentID::Car(c),
                    ).is_none(),
                    _ => true,
                }
            },
            None => false,
        }
    }

    /// Whether trip `id` can be cancelled, `vehicle` being left behind.
    pub fn is_cancellable(&self, id: TripID, vehicle: &Option<Vehicle>) -> (b: bool)
        requires
            self.wf(),
        ensures
            b == self@.cancellable(id, *vehicle),
    {
        if id.0 >= self.trips.len() {
            return false;
        }
        let trip = &self.trips[id.0];
        let person = &self.people[trip.person.0];
        let open = trip.finished_at.is_none() && trip.info.cancellation_reason.is_none();
        let free = match person.state {
            PersonState::Trip(t) => t == id,
            _ => true,
        };
        let unclaimed = match agent_of(trip, person) {
            Some(x) => match self.active_trip_mode.lookup(x) {
                Some(t) => vehicle.is_none() && t == id && match x {
                    AgentID::Car(_) => true,
                    _ => false,
                },
                None => true,
            },
            None => true,
        };
        open && free && unclaimed && !self.is_queued(id)
    }

    /// Whether the starter accepts trip `trip` with these parameters now.
    pub fn can_start(
        &self,
        now: Time,
        trip: TripID,
        spec: &TripSpec,
        maybe_req: &Option<PathRequest>,
        around: &Surroundings,
    ) -> (b: bool)
        requires
            self.wf(),
        ensures
            b == self@.can_start(now, trip, *spec, *maybe_req, *around),
    {
        if trip.0 >= self.trips.len() {
            return false;
        }
        let t = &self.trips[trip.0];
        let person = &self.people[t.person.0];
        let waiting = !t.started && t.finished_at.is_none() && t.info.cancellation_reason.is_none();
        if !waiting || self.is_queued(trip) {
            return false;
        }
        if let PersonState::Trip(_) = person.state {
            return true;
        }
        let unclaimed = match agent_of(t, person) {
            Some(x) => self.active_trip_mode.lookup(x).is_none(),
            None => true,
        };
        unclaimed && match spec {
            TripSpec::VehicleAppearing { use_vehicle, .. } => person.state == PersonState::OffMap
                && person.has_vehicle(*use_vehicle) && maybe_req.is_some(),
            TripSpec::NoRoomToSpawn { use_vehicle, .. } => person.has_vehicle(*use_vehicle),
            TripSpec::UsingParkedCar { start_bldg, .. } => person.state == PersonState::Inside(
                *start_bldg,
            ),
            TripSpec::JustWalking { start, .. } => stands_at(person.state, *start)
                && maybe_req.is_some(),
            TripSpec::UsingBike { start, .. } => person.state == PersonState::Inside(*start) && (
            around.bike_rack.is_none() || maybe_req.is_some()),
            TripSpec::UsingTransit { start, .. } => stands_at(person.state, *start)
                && maybe_req.is_some(),
            TripSpec::Remote { trip_time, .. } => person.state == PersonState::OffMap
                && now.advances_by(*trip_time),
        }
    }

    /// Whether `n` more vehicles can be numbered.
    pub fn may_new_car_ids(&self, n: usize) -> (b: bool)
        requires
            self.wf(),
        ensures
            b == self@.pre_new_car_ids(n as nat),
    {
        n <= usize::MAX - self.car_id_counter
    }

    /// Whether `new_person` accepts a person under `id`, with `n` vehicles.
    pub fn may_new_person(&self, id: PersonID, n: usize) -> (b: bool)
        requires
            self.wf(),
        ensures
            b == self@.pre_new_person(id, n as nat),
    {
        id.0 == self.people.len() && n <= usize::MAX - self.car_id_counter
    }

    /// Whether `new_trip` accepts these arguments.
    pub fn may_new_trip(
        &self,
        person: PersonID,
        departure: Time,
        legs: &Vec<TripLeg>,
        exits: &MapExits,
    ) -> (b: bool)
        requires
            self.wf(),
        ensures
            b == self@.pre_new_trip(person, departure, legs@, *exits),
    {
        if legs.len() == 0 || person.0 >= self.people.len() {
            return false;
        }
        let ends = match legs[legs.len() - 1] {
            TripLeg::Walk(spot) => match spot.connection {
                SidewalkPOI::Building(_) => true,
                SidewalkPOI::Border(_, _) => true,
                _ => false,
            },
            TripLeg::Drive(_, _) => true,
            TripLeg::Remote(_) => exits.incoming_borders.len() > 0,
            TripLeg::RideBus(r, stop) => stop.is_none() && r.0 < exits.route_exits.len()
                && exits.route_exits[r.0].is_some(),
        };
        let list = &self.people[person.0].trips;
        ends && (list.len() == 0 || {
            let last = list[list.len() - 1];
            assert(last == self@.person(person).trips@.last());
            self.trips[last.0].info.departure.0 <= departure.0
        })
    }

    /// Whether `agent_starting_trip_leg` accepts these arguments.
    pub fn may_agent_starting_trip_leg(&self, agent: AgentID, t: TripID) -> (b: bool)
        requires
            self.wf(),
        ensures
            b == self@.pre_agent_starting_trip_leg(agent, t),
    {
        if t.0 >= self.trips.len() || self.active_trip_mode.lookup(agent).is_some() {
            return false;
        }
        let trip = &self.trips[t.0];
        trip.started && trip.finished_at.is_none() && trip.info.cancellation_reason.is_none()
            && match agent_of(trip, &self.people[trip.person.0]) {
            Some(x) => x == agent,
            None => false,
        }
    }

    /// Whether `ped_reached_building` accepts these arguments.
    pub fn may_ped_reached_building(
        &self,
        now: Time,
        ped: PedestrianID,
        bldg: BuildingID,
        door: Position,
        blocked: Duration,
    ) -> (b: bool)
        requires
            self.wf(),
        ensures
            b == self@.pre_ped_reached_building(now, ped, bldg, door, blocked),
    {
        match self.active_trip_mode.lookup(AgentID::Pedestrian(ped)) {
            Some(t) => {
                let trip = &self.trips[t.0];
                trip.total_blocked_time.fits_with(blocked) && trip.legs.len() == 1
                    && trip.legs[0] == TripLeg::Walk(SidewalkSpot::building(bldg, door))
                    && now.measurable_from(trip.info.departure)
            },
            None => false,
        }
    }

    /// Whether `ped_reached_border` accepts these arguments.
    pub fn may_ped_reached_border(
        &self,
        now: Time,
        ped: PedestrianID,
        i: IntersectionID,
        blocked: Duration,
    ) -> (b: bool)
        requires
            self.wf(),
        ensures
            b == self@.pre_ped_reached_border(now, ped, i, blocked),
    {
        match self.active_trip_mode.lookup(AgentID::Pedestrian(ped)) {
            Some(t) => {
                let trip = &self.trips[t.0];
                trip.total_blocked_time.fits_with(blocked) && trip.legs.len() == 1 && match trip.legs[0] {
                    TripLeg::Walk(spot) => match spot.connection {
                        SidewalkPOI::Border(i2, _) => i2 == i,
                        _ => false,
                    },
                    _ => false,
                } && now.measurable_from(trip.info.departure)
            },
            None => false,
        }
    }

    /// Whether `transit_rider_reached_border` accepts these arguments.
    pub fn may_transit_rider_reached_border(&self, now: Time, person: PersonID, bus: CarID) -> (b:
        bool)
        requires
            self.wf(),
        ensures
            b == self@.pre_transit_rider_reached_border(now, person, bus),
    {
        match self.active_trip_mode.lookup(AgentID::BusPassenger(person, bus)) {
            Some(t) => {
                let trip = &self.trips[t.0];
                trip.legs.len() == 1 && match trip.legs[0] {
                    TripLeg::RideBus(_, stop) => stop.is_none(),
                    _ => false,
                } && match trip.info.end {
                    crate::trip::TripEndpoint::Border(_, _) => true,
                    _ => false,
                } && now.measurable_from(trip.info.departure)
            },
            None => false,
        }
    }

    /// Whether `car_or_bike_reached_border` accepts these arguments.
    pub fn may_car_or_bike_reached_border(
        &self,
        now: Time,
        car: CarID,
        i: IntersectionID,
        blocked: Duration,
    ) -> (b: bool)
        requires
            self.wf(),
        ensures
            b == self@.pre_car_or_bike_reached_border(now, car, i, blocked),
    {
        match self.active_trip_mode.lookup(AgentID::Car(car)) {
            Some(t) => {
                let trip = &self.trips[t.0];
                trip.total_blocked_time.fits_with(blocked) && trip.legs.len() == 1 && match trip.legs[0] {
                    TripLeg::Drive(_, DrivingGoal::Border(i2, _, _)) => i2 == i,
                    _ => false,
                } && now.measurable_from(trip.info.departure)
            },
            None => false,
        }
    }

    /// Whether `remote_trip_finished` accepts these arguments.
    pub fn may_remote_trip_finished(&self, now: Time, id: TripID) -> (b: bool)
        requires
            self.wf(),
        ensures
            b == self@.pre_remote_trip_finished(now, id),
    {
        if id.0 >= self.trips.len() {
            return false;
        }
        let trip = &self.trips[id.0];
        trip.started && trip.finished_at.is_none() && trip.info.cancellation_reason.is_none()
            && trip.legs.len() == 1 && match trip.legs[0] {
            TripLeg::Remote(_) => true,
            _ => false,
        } && now.measurable_from(trip.info.departure)
    }

    /// Whether `car_reached_parking_spot` accepts these arguments.
    pub fn may_car_reached_parking_spot(
        &self,
        now: Time,
        car: CarID,
        spot: ParkingSpot,
        blocked: Duration,
    ) -> (b: bool)
        requires
            self.wf(),
        ensures
            b == self@.pre_car_reached_parking_spot(now, car, spot, blocked),
    {
        if !self.is_transferring(AgentID::Car(car), blocked) {
            return false;
        }
        let t = match self.active_trip_mode.lookup(AgentID::Car(car)) {
            Some(t) => t,
            None => {
                return false;
            },
        };
        let trip = &self.trips[t.0];
        let parks = match trip.legs[0] {
            TripLeg::Drive(_, DrivingGoal::ParkNear(_)) => true,
            _ => false,
        };
        parks && match trip.legs[1] {
            TripLeg::Walk(to) => {
                let inside = match (spot, to.connection) {
                    (ParkingSpot::Offstreet(b1, _), SidewalkPOI::Building(b2)) => b1 == b2,
                    _ => false,
                };
                !inside || (trip.legs.len() == 2 && now.measurable_from(trip.info.departure))
            },
            _ => false,
        }
    }

    /// Whether `ped_reached_parking_spot` accepts these arguments.
    pub fn may_ped_reached_parking_spot(
        &self,
        ped: PedestrianID,
        spot: ParkingSpot,
        blocked: Duration,
        parked_car: &ParkedCar,
        driving_pos: Position,
    ) -> (b: bool)
        requires
            self.wf(),
        ensures
            b == self@.pre_ped_reached_parking_spot(ped, spot, blocked, *parked_car, driving_pos),
    {
        if !self.is_transferring(AgentID::Pedestrian(ped), blocked) {
            return false;
        }
        let t = match self.active_trip_mode.lookup(AgentID::Pedestrian(ped)) {
            Some(t) => t,
            None => {
                return false;
            },
        };
        let trip = &self.trips[t.0];
        let fits = match spot {
            ParkingSpot::Onstreet(_, _) => true,
            _ => driving_pos.dist_along.fits_with(parked_car.vehicle.length),
        };
        trip.legs[0] == TripLeg::Walk(SidewalkSpot::deferred_parking_spot()) && match trip.legs[1] {
            TripLeg::Drive(c, _) => c == parked_car.vehicle.id,
            _ => false,
        } && fits
    }

    /// Whether `ped_ready_to_bike` accepts these arguments; `goes_ahead`
    /// says whether there are both a position for the goal and a path.
    pub fn may_ped_ready_to_bike(
        &self,
        ped: PedestrianID,
        spot: SidewalkSpot,
        blocked: Duration,
        goes_ahead: bool,
    ) -> (b: bool)
        requires
            self.wf(),
        ensures
            b == self@.pre_ped_ready_to_bike(ped, spot, blocked, goes_ahead),
    {
        if !self.is_transferring(AgentID::Pedestrian(ped), blocked) {
            return false;
        }
        let t = match self.active_trip_mode.lookup(AgentID::Pedestrian(ped)) {
            Some(t) => t,
            None => {
                return false;
            },
        };
        let trip = &self.trips[t.0];
        let rack = match spot.connection {
            SidewalkPOI::BikeRack(_) => true,
            _ => false,
        };
        rack && trip.legs[0] == TripLeg::Walk(spot) && match trip.legs[1] {
            TripLeg::Drive(bike, _) => !goes_ahead || self.people[trip.person.0].has_vehicle(bike),
            _ => false,
        }
    }

    /// Whether `bike_reached_end` accepts these arguments.
    pub fn may_bike_reached_end(&self, bike: CarID, blocked: Duration) -> (b: bool)
        requires
            self.wf(),
        ensures
            b == self@.pre_bike_reached_end(bike, blocked),
    {
        if !self.is_transferring(AgentID::Car(bike), blocked) {
            return false;
        }
        let t = match self.active_trip_mode.lookup(AgentID::Car(bike)) {
            Some(t) => t,
            None => {
                return false;
            },
        };
        let trip = &self.trips[t.0];
        let parks = match trip.legs[0] {
            TripLeg::Drive(_, DrivingGoal::ParkNear(_)) => true,
            _ => false,
        };
        parks && match trip.legs[1] {
            TripLeg::Walk(_) => true,
            _ => false,
        }
    }

    /// Whether `ped_reached_bus_stop` accepts these arguments.
    pub fn may_ped_reached_bus_stop(
        &self,
        ped: PedestrianID,
        stop: BusStopID,
        stop_pos: Position,
        blocked: Duration,
    ) -> (b: bool)
        requires
            self.wf(),
        ensures
            b == self@.pre_ped_reached_bus_stop(ped, stop, stop_pos, blocked),
    {
        if !self.is_transferring(AgentID::Pedestrian(ped), blocked) {
            return false;
        }
        let t = match self.active_trip_mode.lookup(AgentID::Pedestrian(ped)) {
            Some(t) => t,
            None => {
                return false;
            },
        };
        let trip = &self.trips[t.0];
        let at_stop = trip.legs[0] == TripLeg::Walk(SidewalkSpot::bus_stop(stop, stop_pos));
        at_stop && match trip.legs[1] {
            TripLeg::RideBus(_, _) => true,
            _ => false,
        }
    }

    /// Whether `ped_boarded_bus` accepts these arguments.
    pub fn may_ped_boarded_bus(&self, ped: PedestrianID, blocked: Duration) -> (b: bool)
        requires
            self.wf(),
        ensures
            b == self@.pre_ped_boarded_bus(ped, blocked),
    {
        if !self.is_transferring(AgentID::Pedestrian(ped), blocked) {
            return false;
        }
        let t = match self.active_trip_mode.lookup(AgentID::Pedestrian(ped)) {
            Some(t) => t,
            None => {
                return false;
            },
        };
        match self.trips[t.0].legs[1] {
            TripLeg::RideBus(_, _) => true,
            _ => false,
        }
    }

    /// Whether `person_left_bus` accepts these arguments.
    pub fn may_person_left_bus(&self, person: PersonID, bus: CarID) -> (b: bool)
        requires
            self.wf(),
        ensures
            b == self@.pre_person_left_bus(person, bus),
    {
        let agent = AgentID::BusPassenger(person, bus);
        if !self.is_transferring(agent, Duration::zero()) {
            return false;
        }
        let t = match self.active_trip_mode.lookup(agent) {
            Some(t) => t,
            None => {
                return false;
            },
        };
        let trip = &self.trips[t.0];
        let to_stop = match trip.legs[0] {
            TripLeg::RideBus(_, stop) => stop.is_some(),
            _ => false,
        };
        to_stop && match trip.legs[1] {
            TripLeg::Walk(_) => true,
            _ => false,
        }
    }

    /// Whether `cancel_unstarted_trip` accepts trip `id`.
    pub fn may_cancel_unstarted_trip(&self, id: TripID) -> (b: bool)
        requires
            self.wf(),
        ensures
            b == self@.pre_cancel_unstarted_trip(id),
    {
        if id.0 >= self.trips.len() {
            return false;
        }
        let trip = &self.trips[id.0];
        !trip.started && trip.finished_at.is_none() && trip.info.cancellation_reason.is_none()
            && !self.is_queued(id)
    }

    /// Whether `finished_trip_time` accepts trip `id`.
    pub fn may_finished_trip_time(&self, id: TripID) -> (b: bool)
        requires
            self.wf(),
        ensures
            b == self@.pre_finished_trip_time(id),
    {
        if id.0 >= self.trips.len() {
            return false;
        }
        let trip = &self.trips[id.0];
        match trip.finished_at {
            Some(end) => end.measurable_from(trip.info.departure),
            None => true,
        }
    }
}

} // verus!
