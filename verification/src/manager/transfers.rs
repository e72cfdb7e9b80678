//! The ends of legs after which a trip goes on: from the car to the
//! sidewalk, from the sidewalk to the car or the bike, on and off the bus.

use crate::events::{Command, CreateCar, CreatePedestrian, Event, Outcome, TripPhaseType};
use crate::ids::{
    AgentID, BuildingID, BusRouteID, BusStopID, CarID, PedestrianID, PersonID, TripID,
};
use crate::manager::start::walk;
use crate::manager::{
    expected_agent, lemma_agents_fit, lemma_queue_fits, lemma_step, ManagerState, TripManager,
};
use crate::person::{Person, PersonState};
use crate::places::{
    ParkingSpot, Path, PathConstraints, PathRequest, Position, SidewalkPOI, SidewalkSpot,
};
use crate::text::{
    no_bike_connection, no_bike_path, no_drive_path, no_walk_path, say_no_bike_connection,
    say_no_bike_path, say_no_drive_path, say_no_walk_path,
};
use crate::trip::{Trip, TripInfo, TripLeg};
use crate::units::{Duration, Time};
use crate::vehicles::{ParkedCar, Vehicle};
use std::collections::VecDeque;
use vstd::pervasive::unreached;
use vstd::prelude::*;

verus! {

/// Where a car that leaves `spot` starts to drive, given the driving
/// position that belongs to the spot: right there along a street, and its
/// own length further on where it stood off the street, nose first.
pub open spec fn spec_unparking_start(spot: ParkingSpot, car: ParkedCar, driving_pos: Position) -> Position {
    match spot {
        ParkingSpot::Onstreet(_, _) => driving_pos,
        _ => driving_pos.spec_forward(car.vehicle.length),
    }
}

/// Where a car that leaves `spot` starts to drive, given the driving
/// position that belongs to the spot: right there along a street, and its
/// own length further on where it stood off the street, nose first.
pub fn unparking_start(spot: ParkingSpot, car: &ParkedCar, driving_pos: Position) -> (p: Position)
    requires
        !(spot is Onstreet) ==> driving_pos.dist_along.can_add(car.vehicle.length),
    ensures
        p == spec_unparking_start(spot, *car, driving_pos),
{
    match spot {
        ParkingSpot::Onstreet(_, _) => driving_pos,
        _ => driving_pos.forward(car.vehicle.length),
    }
}

impl ManagerState {
    /// The state after the agent of trip `t` has completed the current leg
    /// and the trip goes on: the agent is gone from the registry; its
    /// blocked time is added to the trip's; the legs that remain are
    /// `legs`; listeners have heard `heard`; and the person rides the bus
    /// `boarded`, as a registered passenger, or none.
    pub open spec fn advanced(
        self,
        t: TripID,
        agent: AgentID,
        blocked: Duration,
        legs: VecDeque<TripLeg>,
        heard: Seq<Event>,
        capped: bool,
        boarded: Option<CarID>,
    ) -> ManagerState {
        let ta = self.trip(t);
        let p = ta.person.0 as int;
        ManagerState {
            trips: self.trips.update(
                t.0 as int,
                Trip {
                    total_blocked_time: Duration((ta.total_blocked_time.0 + blocked.0) as i64),
                    info: TripInfo { capped: ta.info.capped || capped, ..ta.info },
                    legs,
                    ..ta
                },
            ),
            people: self.people.update(p, Person { on_bus: boarded, ..self.people[p] }),
            agents: match boarded {
                Some(b) => self.agents.remove(agent).insert(AgentID::BusPassenger(ta.person, b), t),
                None => self.agents.remove(agent),
            },
            events: self.events + heard,
            ..self
        }
    }

    /// The state after the agent of trip `t` has come to a halt to wait:
    /// its blocked time is added to the trip's, and listeners have heard
    /// `heard`.
    pub open spec fn waited(self, t: TripID, blocked: Duration, heard: Seq<Event>) -> ManagerState {
        let ta = self.trip(t);
        ManagerState {
            trips: self.trips.update(
                t.0 as int,
                Trip {
                    total_blocked_time: Duration((ta.total_blocked_time.0 + blocked.0) as i64),
                    ..ta
                },
            ),
            events: self.events + heard,
            ..self
        }
    }

    /// Whether `agent` is moving a trip that has another leg after the
    /// current one, whose own agent is not active yet.
    pub open spec fn transferring(self, agent: AgentID, blocked: Duration) -> bool {
        let t = self.agents[agent];
        &&& self.moving(agent, blocked)
        &&& self.trip(t).legs@.len() >= 2
        &&& self.trip(t).legs@[1] matches TripLeg::Drive(c, _) ==> !self.agents.remove(
            agent,
        ).dom().contains(AgentID::Car(c))
    }

    /// Whether `next` and `out` are what becomes of `self` when the agent
    /// of trip `t` has completed the current leg and the trip either goes
    /// on with `command`, or, there being none, is cancelled for `reason`,
    /// leaving `vehicle` behind, after `unpark` has been taken out of its
    /// spot. `inside` is the building that listeners have heard the person
    /// enter on reaching the end of the leg, if any; a cancellation makes
    /// the person leave it.
    pub open spec fn moves_on(
        self,
        next: ManagerState,
        now: Time,
        t: TripID,
        agent: AgentID,
        blocked: Duration,
        heard: Seq<Event>,
        capped: bool,
        command: Option<Command>,
        reason: Seq<char>,
        vehicle: Option<Vehicle>,
        unpark: Option<ParkedCar>,
        inside: Option<BuildingID>,
        out: Outcome,
    ) -> bool {
        let mid = self.advanced(t, agent, blocked, next.trip(t).legs, heard, capped, None);
        &&& next.trip(t).legs@ == self.trip(t).legs@.skip(1)
        &&& match command {
            Some(c) => next == mid && out.schedules(now, c),
            None => {
                &&& mid.cancels_from(
                    next,
                    t,
                    reason,
                    vehicle,
                    false,
                    inside,
                    now,
                    Outcome { unpark: None, ..out },
                )
                &&& out.unpark == unpark
            },
        }
    }
}

/// Going on to the next leg of a trip keeps the invariant, and leaves the
/// trip in a state in which it can be cancelled.
pub proof fn lemma_advanced(
    a: ManagerState,
    agent: AgentID,
    blocked: Duration,
    legs: VecDeque<TripLeg>,
    heard: Seq<Event>,
    capped: bool,
    boarded: Option<CarID>,
)
    requires
        a.wf(),
        a.transferring(agent, blocked),
        legs@ == a.trip(a.agents[agent]).legs@.skip(1),
        boarded.is_some() ==> legs@[0] is RideBus,
    ensures
        a.advanced(a.agents[agent], agent, blocked, legs, heard, capped, boarded).wf(),
        boarded.is_none() ==> forall|v: Option<Vehicle>| #[trigger]
            a.advanced(a.agents[agent], agent, blocked, legs, heard, capped, boarded).cancellable(
                a.agents[agent],
                v,
            ),
        a.advanced(
            a.agents[agent],
            agent,
            blocked,
            legs,
            heard,
            capped,
            boarded,
        ).total_blocked_time() == a.total_blocked_time() + blocked.0,
        a.traveller(a.agents[agent]).state == PersonState::Trip(a.agents[agent]),
{
    let t = a.agents[agent];
    let b = a.advanced(t, agent, blocked, legs, heard, capped, boarded);
    let ti = t.0 as int;
    let p = a.trips[ti].person.0 as int;
    assert(a.people[p].state == PersonState::Trip(TripID(t.0)));
    assert(expected_agent(a.trip(t), a.traveller(t)) == Some(agent));
    assert(a.people[p].id == a.trip(t).person);
    lemma_agents_fit(
        a,
        b,
        ti,
        match boarded {
            Some(bus) => Some(AgentID::BusPassenger(a.trip(t).person, bus)),
            None => None,
        },
    );
    lemma_queue_fits(a, b, ti);
    assert(a.touches(b, ti));
    assert(a.fits(b, ti));
    lemma_step(a, b, ti);
    if boarded.is_none() {
        assert(!b.queued(t)) by {
            if b.queued(t) {
                let k = choose|k: int|
                    0 <= k < b.traveller(t).delayed_trips@.len() && (
                    #[trigger] b.traveller(t).delayed_trips@[k]).trip == t;
                assert(a.traveller(t).delayed_trips@[k].trip == t);
                assert(a.trip(t).waiting());
            }
        }
        assert(expected_agent(b.trip(t), b.traveller(t)) matches Some(x)
            ==> !b.agents.dom().contains(x)) by {
            if let Some(x) = expected_agent(b.trip(t), b.traveller(t)) {
                if a.agents.dom().contains(x) && x != agent {
                    let u = a.agents[x];
                    assert(expected_agent(a.trip(u), a.traveller(u)) == Some(x));
                    assert(a.trip(u).ongoing());
                    if let AgentID::Pedestrian(ped) = x {
                        assert(a.trip(u).person.0 == p);
                    }
                }
            }
        }
    }
}

/// What it comes to when a trip is cancelled on going on to its next leg:
/// the trip has lost its first leg, has taken the blocked time, and is
/// cancelled for the reason given; its person is where the trip was to
/// end; listeners have heard what there was to hear, then of the
/// cancellation, then of the person leaving the building they had
/// entered on the way, if any, then of the arrival; and the outcome holds
/// the car to take out of its spot, the car to park near the end, and
/// the delayed trip to start.
pub proof fn lemma_given_up(
    a: ManagerState,
    b: ManagerState,
    now: Time,
    t: TripID,
    agent: AgentID,
    blocked: Duration,
    heard: Seq<Event>,
    capped: bool,
    reason: Seq<char>,
    vehicle: Option<Vehicle>,
    unpark: Option<ParkedCar>,
    inside: Option<BuildingID>,
    out: Outcome,
)
    requires
        a.has_trip(t),
        a.has_person(a.trip(t).person),
        a.traveller(t).state == PersonState::Trip(t),
        a.moves_on(
            b,
            now,
            t,
            agent,
            blocked,
            heard,
            capped,
            None,
            reason,
            vehicle,
            unpark,
            inside,
            out,
        ),
    ensures
        b.trip(t).legs@ == a.trip(t).legs@.skip(1),
        b.trip(t).total_blocked_time == Duration(
            (a.trip(t).total_blocked_time.0 + blocked.0) as i64,
        ),
        b.trip(t).info.cancellation_reason matches Some(r) && r@ == reason,
        b.trip(t).finished_at == a.trip(t).finished_at,
        b.traveller(t).state == crate::manager::creation::state_at(a.trip(t).info.end),
        b.traveller(t).on_bus.is_none(),
        b.unfinished == a.unfinished - 1,
        b.events == a.events + heard + seq![Event::TripCancelled(t)] + (match inside {
            Some(x) => seq![Event::PersonLeavesBuilding(a.trip(t).person, x)],
            None => seq![],
        }) + seq![crate::manager::cancel::arriving(a.trip(t).person, a.trip(t).info.end)],
        out.command.is_none(),
        out.unpark == unpark,
        out.warp == crate::manager::cancel::warp_for(
            a.trip(t).person,
            vehicle,
            a.trip(t).info.end,
            now,
        ),
        out.next == crate::manager::first_delayed(a.traveller(t).delayed_trips@),
{
    let mid = a.advanced(t, agent, blocked, b.trip(t).legs, heard, capped, None);
    let p = a.trip(t).person.0 as int;
    assert(mid.trip(t) == mid.trips[t.0 as int]);
    assert(mid.traveller(t) == mid.people[p]);
    assert(mid.traveller(t).state == PersonState::Trip(t));
    assert(crate::manager::cancel::leaving(a.trip(t).person, mid.whereabouts(t, inside))
        =~= match inside {
        Some(x) => seq![Event::PersonLeavesBuilding(a.trip(t).person, x)],
        None => seq![],
    });
    assert(b.events =~= a.events + heard + seq![Event::TripCancelled(t)] + (match inside {
        Some(x) => seq![Event::PersonLeavesBuilding(a.trip(t).person, x)],
        None => seq![],
    }) + seq![crate::manager::cancel::arriving(a.trip(t).person, a.trip(t).info.end)]);
}

/// Waiting keeps the invariant.
pub proof fn lemma_waited(a: ManagerState, agent: AgentID, blocked: Duration, heard: Seq<Event>)
    requires
        a.wf(),
        a.moving(agent, blocked),
    ensures
        a.waited(a.agents[agent], blocked, heard).wf(),
        a.waited(a.agents[agent], blocked, heard).total_blocked_time() == a.total_blocked_time()
            + blocked.0,
{
    let t = a.agents[agent];
    let b = a.waited(t, blocked, heard);
    let ti = t.0 as int;
    let p = a.trips[ti].person.0 as int;
    assert(a.people[p].state == PersonState::Trip(TripID(t.0)));
    lemma_agents_fit(a, b, ti, None);
    lemma_queue_fits(a, b, ti);
    if let Some(bus) = a.people[p].on_bus {
        assert(a.agents.dom().contains(AgentID::BusPassenger(PersonID(p as usize), bus)));
    }
    assert(a.touches(b, ti));
    assert(a.fits(b, ti));
    lemma_step(a, b, ti);
}

/// Somebody who is walking is not registered as a passenger of any bus.
pub proof fn lemma_not_riding(a: ManagerState, ped: PedestrianID, bus: CarID)
    requires
        a.wf(),
        a.agents.dom().contains(AgentID::Pedestrian(ped)),
    ensures
        !a.agents.dom().contains(
            AgentID::BusPassenger(a.trip(a.agents[AgentID::Pedestrian(ped)]).person, bus),
        ),
{
    let agent = AgentID::Pedestrian(ped);
    let t = a.agents[agent];
    let q = a.trip(t).person;
    let x = AgentID::BusPassenger(q, bus);
    assert(expected_agent(a.trip(t), a.traveller(t)) == Some(agent));
    if a.agents.dom().contains(x) {
        let u = a.agents[x];
        assert(expected_agent(a.trip(u), a.traveller(u)) == Some(x));
        assert(a.traveller(u).id == q);
        assert(a.people[a.trip(u).person.0 as int].id.0 == a.trip(u).person.0);
        assert(a.trip(u).person == q);
        assert(a.people[q.0 as int].state == PersonState::Trip(TripID(u.0)));
        assert(a.people[q.0 as int].state == PersonState::Trip(TripID(t.0)));
    }
}

impl TripManager {
    /// The changes with which a trip goes on to its next leg, whatever
    /// state the manager is in.
    fn advance_raw(
        &mut self,
        t: TripID,
        agent: AgentID,
        blocked: Duration,
        heard: Vec<Event>,
        capped: bool,
        boarded: Option<CarID>,
    )
        requires
            old(self).registry_ok(),
            old(self)@.has_trip(t),
            old(self)@.has_person(old(self)@.trip(t).person),
            old(self)@.trip(t).legs@.len() > 0,
            old(self)@.trip(t).total_blocked_time.can_add(blocked),
            boarded matches Some(b) ==> !old(self)@.agents.remove(agent).dom().contains(
                AgentID::BusPassenger(old(self)@.trip(t).person, b),
            ),
        ensures
            final(self).registry_ok(),
            final(self)@.trip(t).legs@ == old(self)@.trip(t).legs@.skip(1),
            final(self)@ == old(self)@.advanced(
                t,
                agent,
                blocked,
                final(self)@.trip(t).legs,
                heard@,
                capped,
                boarded,
            ),
    {
        let mut list = heard;
        let ghost said = list@;
        self.active_trip_mode.unbind(agent);
        let trip = &mut self.trips[t.0];
        trip.total_blocked_time = trip.total_blocked_time.plus(blocked);
        trip.info.capped = trip.info.capped || capped;
        trip.legs.pop_front();
        let person = trip.person;
        self.people[person.0].on_bus = boarded;
        if let Some(b) = boarded {
            self.active_trip_mode.bind(AgentID::BusPassenger(person, b), t);
        }
        self.events.append(&mut list);
        proof {
            let a = old(self)@;
            let b = a.advanced(t, agent, blocked, self@.trip(t).legs, said, capped, boarded);
            assert(self@.trip(t).legs@ =~= a.trip(t).legs@.skip(1));
            assert(self@.trips =~= b.trips);
            assert(self@.people =~= b.people);
            assert(self@.events =~= b.events);
            assert(self@.agents =~= b.agents);
        }
    }

    /// Goes on to the next leg of the trip that `agent` was moving, and
    /// hands the order for the next agent to the scheduler.
    fn proceed(
        &mut self,
        now: Time,
        agent: AgentID,
        blocked: Duration,
        heard: Vec<Event>,
        capped: bool,
        command: Command,
    ) -> (out: Outcome)
        requires
            old(self).wf(),
            old(self)@.transferring(agent, blocked),
        ensures
            final(self).wf(),
            final(self)@.trip(old(self)@.agents[agent]).legs@ == old(self)@.trip(
                old(self)@.agents[agent],
            ).legs@.skip(1),
            final(self)@ == old(self)@.advanced(
                old(self)@.agents[agent],
                agent,
                blocked,
                final(self)@.trip(old(self)@.agents[agent]).legs,
                heard@,
                capped,
                None,
            ),
            out.schedules(now, command),
            final(self)@.total_blocked_time() == old(self)@.total_blocked_time() + blocked.0,
    {
        let t = match self.active_trip_mode.lookup(agent) {
            Some(t) => t,
            None => unreached(),
        };
        self.advance_raw(t, agent, blocked, heard, capped, None);
        proof {
            lemma_advanced(old(self)@, agent, blocked, self@.trip(t).legs, heard@, capped, None);
        }
        Outcome { command: Some((now, command)), unpark: None, warp: None, next: None }
    }

    /// Goes on to the next leg of the trip that `agent` was moving, and
    /// cancels the trip at once.
    fn give_up(
        &mut self,
        now: Time,
        agent: AgentID,
        blocked: Duration,
        heard: Vec<Event>,
        capped: bool,
        reason: String,
        vehicle: Option<Vehicle>,
        unpark: Option<ParkedCar>,
        inside: Option<BuildingID>,
    ) -> (out: Outcome)
        requires
            old(self).wf(),
            old(self)@.transferring(agent, blocked),
        ensures
            final(self).wf(),
            old(self)@.moves_on(
                final(self)@,
                now,
                old(self)@.agents[agent],
                agent,
                blocked,
                heard@,
                capped,
                None,
                reason@,
                vehicle,
                unpark,
                inside,
                out,
            ),
            final(self)@.total_blocked_time() == old(self)@.total_blocked_time() + blocked.0,
    {
        let t = match self.active_trip_mode.lookup(agent) {
            Some(t) => t,
            None => unreached(),
        };
        self.advance_raw(t, agent, blocked, heard, capped, None);
        proof {
            lemma_advanced(old(self)@, agent, blocked, self@.trip(t).legs, heard@, capped, None);
            assert(self@.cancellable(t, vehicle));
        }
        let out = self.cancel(now, t, reason, vehicle, false, inside);
        Outcome { command: out.command, unpark, warp: out.warp, next: out.next }
    }

    /// The trip that `agent` is moving, its person, its current leg, and
    /// the leg after that one, if there is one. With these the caller asks
    /// the map, the parking manager and the transit system what the
    /// handler of the agent's arrival wants to be told.
    pub fn agent_legs(&self, agent: AgentID) -> (r: Option<(TripID, PersonID, TripLeg, Option<TripLeg>)>)
        requires
            self.wf(),
        ensures
            r.is_some() == self@.agents.dom().contains(agent),
            r matches Some((t, p, head, after)) ==> {
                &&& t == self@.agents[agent]
                &&& p == self@.trip(t).person
                &&& head == self@.trip(t).legs@[0]
                &&& after == if self@.trip(t).legs@.len() >= 2 {
                    Some(self@.trip(t).legs@[1])
                } else {
                    None
                }
            },
    {
        match self.active_trip_mode.lookup(agent) {
            Some(t) => {
                let trip = &self.trips[t.0];
                let head = trip.legs[0];
                let after = if trip.legs.len() >= 2 {
                    Some(trip.legs[1])
                } else {
                    None
                };
                Some((t, trip.person, head, after))
            },
            None => None,
        }
    }

    /// A walk from `start` to `to`, if the path finder found `path` for it;
    /// else the reason for which the trip is cancelled.
    pub open spec fn walk_or_not(
        person: Person,
        t: TripID,
        start: SidewalkSpot,
        to: SidewalkSpot,
        path: Option<Path>,
    ) -> Option<Command> {
        match path {
            Some(p) => Some(
                walk(
                    person,
                    t,
                    start,
                    to,
                    p,
                    PathRequest {
                        start: start.sidewalk_pos,
                        end: to.sidewalk_pos,
                        constraints: PathConstraints::Pedestrian,
                    },
                ),
            ),
            None => None,
        }
    }

    /// Lets the person of the trip that `agent` was moving walk on from
    /// `start`, along `path`, or cancels the trip if there is no path.
    fn spawn_ped(
        &mut self,
        now: Time,
        agent: AgentID,
        blocked: Duration,
        heard: Vec<Event>,
        start: SidewalkSpot,
        path: Option<Path>,
    ) -> (out: Outcome)
        requires
            old(self).wf(),
            old(self)@.transferring(agent, blocked),
            old(self)@.trip(old(self)@.agents[agent]).legs@[1] is Walk,
        ensures
            final(self).wf(),
            ({
                let t = old(self)@.agents[agent];
                let to = old(self)@.trip(t).legs@[1]->Walk_0;
                old(self)@.moves_on(
                    final(self)@,
                    now,
                    t,
                    agent,
                    blocked,
                    heard@,
                    false,
                    Self::walk_or_not(old(self)@.traveller(t), t, start, to, path),
                    no_walk_path(start.sidewalk_pos, to.sidewalk_pos),
                    None,
                    None,
                    None,
                    out,
                )
            }),
            final(self)@.total_blocked_time() == old(self)@.total_blocked_time() + blocked.0,
    {
        let t = match self.active_trip_mode.lookup(agent) {
            Some(t) => t,
            None => unreached(),
        };
        let to = match self.trips[t.0].legs[1] {
            TripLeg::Walk(to) => to,
            _ => unreached(),
        };
        let person = &self.people[self.trips[t.0].person.0];
        let id = person.id;
        let ped = person.ped;
        let speed = person.ped_speed;
        let req = PathRequest::walking(start.sidewalk_pos, to.sidewalk_pos);
        match path {
            Some(path) => self.proceed(
                now,
                agent,
                blocked,
                heard,
                false,
                Command::SpawnPed(
                    CreatePedestrian { id: ped, speed, start, goal: to, path, req, trip: t, person: id },
                ),
            ),
            None => self.give_up(
                now,
                agent,
                blocked,
                heard,
                false,
                say_no_walk_path(start.sidewalk_pos, to.sidewalk_pos),
                None,
                None,
                None,
            ),
        }
    }

    /// A bike has reached the place where its rider gets off; the rider
    /// walks on from `bike_rack`, along `path`, the answer of the path
    /// finder for that walk.
    pub fn bike_reached_end(
        &mut self,
        now: Time,
        bike: CarID,
        bike_rack: SidewalkSpot,
        blocked_time: Duration,
        path: Option<Path>,
    ) -> (out: Outcome)
        requires
            old(self).wf(),
            old(self)@.pre_bike_reached_end(bike, blocked_time),
        ensures
            final(self).wf(),
            ({
                let agent = AgentID::Car(bike);
                let t = old(self)@.agents[agent];
                let to = old(self)@.trip(t).legs@[1]->Walk_0;
                old(self)@.moves_on(
                    final(self)@,
                    now,
                    t,
                    agent,
                    blocked_time,
                    seq![Event::BikeStoppedAtSidewalk(bike, bike_rack.sidewalk_pos.lane)],
                    false,
                    Self::walk_or_not(old(self)@.traveller(t), t, bike_rack, to, path),
                    no_walk_path(bike_rack.sidewalk_pos, to.sidewalk_pos),
                    None,
                    None,
                    None,
                    out,
                )
            }),
            final(self)@.total_blocked_time() == old(self)@.total_blocked_time() + blocked_time.0,
    {
        let mut heard: Vec<Event> = Vec::new();
        heard.push(Event::BikeStoppedAtSidewalk(bike, bike_rack.sidewalk_pos.lane));
        assert(heard@ =~= seq![Event::BikeStoppedAtSidewalk(bike, bike_rack.sidewalk_pos.lane)]);
        self.spawn_ped(now, AgentID::Car(bike), blocked_time, heard, bike_rack, path)
    }

    /// A person has got off the bus at the stop of their ride; they walk
    /// on from there, along `path`. `stop_pos` is where the stop touches
    /// the sidewalk.
    pub fn person_left_bus(
        &mut self,
        now: Time,
        person: PersonID,
        bus: CarID,
        stop_pos: Position,
        path: Option<Path>,
    ) -> (out: Outcome)
        requires
            old(self).wf(),
            old(self)@.pre_person_left_bus(person, bus),
        ensures
            final(self).wf(),
            ({
                let agent = AgentID::BusPassenger(person, bus);
                let t = old(self)@.agents[agent];
                let to = old(self)@.trip(t).legs@[1]->Walk_0;
                let start = SidewalkSpot {
                    connection: SidewalkPOI::BusStop(
                        old(self)@.trip(t).legs@[0]->RideBus_1.unwrap(),
                    ),
                    sidewalk_pos: stop_pos,
                };
                old(self)@.moves_on(
                    final(self)@,
                    now,
                    t,
                    agent,
                    Duration(0),
                    Seq::<Event>::empty(),
                    false,
                    Self::walk_or_not(old(self)@.traveller(t), t, start, to, path),
                    no_walk_path(stop_pos, to.sidewalk_pos),
                    None,
                    None,
                    None,
                    out,
                )
            }),
            final(self)@.total_blocked_time() == old(self)@.total_blocked_time(),
    {
        let agent = AgentID::BusPassenger(person, bus);
        let t = match self.active_trip_mode.lookup(agent) {
            Some(t) => t,
            None => unreached(),
        };
        let stop = match self.trips[t.0].legs[0] {
            TripLeg::RideBus(_, Some(stop)) => stop,
            _ => unreached(),
        };
        let start = SidewalkSpot::bus_stop(stop, stop_pos);
        self.spawn_ped(now, agent, Duration::zero(), Vec::new(), start, path)
    }

    /// A car has been parked in `spot`. If the spot is inside the very
    /// building to which the person would walk next, the trip is over;
    /// else the person walks on from the spot, along `path`. `walk_from`
    /// is where the spot touches the sidewalk.
    pub fn car_reached_parking_spot(
        &mut self,
        now: Time,
        car: CarID,
        spot: ParkingSpot,
        blocked_time: Duration,
        walk_from: Position,
        path: Option<Path>,
    ) -> (out: Outcome)
        requires
            old(self).wf(),
            old(self)@.pre_car_reached_parking_spot(now, car, spot, blocked_time),
        ensures
            final(self).wf(),
            ({
                let agent = AgentID::Car(car);
                let t = old(self)@.agents[agent];
                let to = old(self)@.trip(t).legs@[1]->Walk_0;
                let start = SidewalkSpot {
                    connection: SidewalkPOI::ParkingSpot(spot),
                    sidewalk_pos: walk_from,
                };
                match parks_inside(spot, to) {
                    Some(b) => old(self)@.finishes(
                        final(self)@,
                        t,
                        Some(agent),
                        now,
                        blocked_time,
                        PersonState::Inside(b),
                        seq![Event::PersonEntersBuilding(old(self)@.trip(t).person, b)],
                        out,
                    ),
                    None => old(self)@.moves_on(
                        final(self)@,
                        now,
                        t,
                        agent,
                        blocked_time,
                        Seq::<Event>::empty(),
                        false,
                        Self::walk_or_not(old(self)@.traveller(t), t, start, to, path),
                        no_walk_path(walk_from, to.sidewalk_pos),
                        None,
                        None,
                        None,
                        out,
                    ),
                }
            }),
            final(self)@.total_blocked_time() == old(self)@.total_blocked_time() + blocked_time.0,
    {
        let agent = AgentID::Car(car);
        let t = match self.active_trip_mode.lookup(agent) {
            Some(t) => t,
            None => unreached(),
        };
        let to = match self.trips[t.0].legs[1] {
            TripLeg::Walk(to) => to,
            _ => unreached(),
        };
        let person = self.trips[t.0].person;
        match parked_inside(spot, &to) {
            Some(b) => self.finish(
                t,
                Some(agent),
                now,
                blocked_time,
                PersonState::Inside(b),
                Some(Event::PersonEntersBuilding(person, b)),
            ),
            None => self.spawn_ped(
                now,
                agent,
                blocked_time,
                Vec::new(),
                SidewalkSpot::parking_spot(spot, walk_from),
                path,
            ),
        }
    }

    /// A pedestrian has reached the spot in which their car is parked, and
    /// drives on. `parked_car` is the car in the spot, `driving_pos` the
    /// driving position that belongs to the spot, `goal_pos` the position
    /// at which the drive is to end, and `path` what the path finder and
    /// the congestion cap made of `driving_request`; `capped` says whether
    /// the cap changed or refused the path. Without a path the car is
    /// taken out of its spot and the trip is cancelled; a person who has
    /// entered a building to get to the car leaves it again.
    pub fn ped_reached_parking_spot(
        &mut self,
        now: Time,
        ped: PedestrianID,
        spot: ParkingSpot,
        blocked_time: Duration,
        parked_car: ParkedCar,
        driving_pos: Position,
        goal_pos: Position,
        path: Option<Path>,
        capped: bool,
    ) -> (out: Outcome)
        requires
            old(self).wf(),
            old(self)@.pre_ped_reached_parking_spot(ped, spot, blocked_time, parked_car, driving_pos),
        ensures
            final(self).wf(),
            ({
                let agent = AgentID::Pedestrian(ped);
                let t = old(self)@.agents[agent];
                let person = old(self)@.trip(t).person;
                let goal = old(self)@.trip(t).legs@[1]->Drive_1;
                let req = spec_driving_request(spot, parked_car, driving_pos, goal_pos);
                old(self)@.moves_on(
                    final(self)@,
                    now,
                    t,
                    agent,
                    blocked_time,
                    reached_car(person, ped, spot),
                    capped,
                    match path {
                        Some(p) => Some(
                            Command::SpawnCar(
                                CreateCar {
                                    vehicle: parked_car.vehicle,
                                    goal,
                                    path: p,
                                    req,
                                    start_dist: req.start.dist_along,
                                    maybe_parked_car: Some(parked_car),
                                    trip: t,
                                    person,
                                },
                                true,
                            ),
                        ),
                        None => None,
                    },
                    no_drive_path(req.start, goal_pos),
                    Some(parked_car.vehicle),
                    Some(parked_car),
                    garage(spot),
                    out,
                )
            }),
            final(self)@.total_blocked_time() == old(self)@.total_blocked_time() + blocked_time.0,
    {
        let agent = AgentID::Pedestrian(ped);
        let t = match self.active_trip_mode.lookup(agent) {
            Some(t) => t,
            None => unreached(),
        };
        let goal = match self.trips[t.0].legs[1] {
            TripLeg::Drive(_, goal) => goal,
            _ => unreached(),
        };
        let person = self.trips[t.0].person;
        let mut heard: Vec<Event> = Vec::new();
        heard.push(Event::PedReachedParkingSpot(ped, spot));
        if let ParkingSpot::Offstreet(b, _) = spot {
            heard.push(Event::PersonEntersBuilding(person, b));
        }
        assert(heard@ =~= reached_car(person, ped, spot));
        let req = driving_request(spot, &parked_car, driving_pos, goal_pos);
        match path {
            Some(p) => self.proceed(
                now,
                agent,
                blocked_time,
                heard,
                capped,
                Command::SpawnCar(
                    CreateCar::for_parked_car(
                        parked_car,
                        goal,
                        p,
                        req,
                        req.start.dist_along,
                        t,
                        person,
                    ),
                    true,
                ),
            ),
            None => self.give_up(
                now,
                agent,
                blocked_time,
                heard,
                capped,
                say_no_drive_path(req.start, goal_pos),
                Some(parked_car.vehicle),
                Some(parked_car),
                in_garage(spot),
            ),
        }
    }

    /// A pedestrian has reached the place at which they mount their bike,
    /// and rides on. `goal_pos` is the position at which the ride is to
    /// end, if a bike can get there at all, and `path` the answer of the
    /// path finder to `biking_request`. Without either the trip is
    /// cancelled; the bike is not left anywhere.
    pub fn ped_ready_to_bike(
        &mut self,
        now: Time,
        ped: PedestrianID,
        spot: SidewalkSpot,
        blocked_time: Duration,
        goal_pos: Option<Position>,
        path: Option<Path>,
    ) -> (out: Outcome)
        requires
            old(self).wf(),
            old(self)@.pre_ped_ready_to_bike(ped, spot, blocked_time, goal_pos.is_some() && path.is_some()),
        ensures
            final(self).wf(),
            ({
                let agent = AgentID::Pedestrian(ped);
                let t = old(self)@.agents[agent];
                let person = old(self)@.traveller(t);
                let bike = old(self)@.trip(t).legs@[1]->Drive_0;
                let goal = old(self)@.trip(t).legs@[1]->Drive_1;
                let from = spot.connection->BikeRack_0;
                old(self)@.moves_on(
                    final(self)@,
                    now,
                    t,
                    agent,
                    blocked_time,
                    Seq::<Event>::empty(),
                    false,
                    match (goal_pos, path) {
                        (Some(end), Some(p)) => Some(
                            Command::SpawnCar(
                                CreateCar {
                                    vehicle: person.vehicle(bike),
                                    goal,
                                    path: p,
                                    req: PathRequest {
                                        start: from,
                                        end,
                                        constraints: PathConstraints::Bike,
                                    },
                                    start_dist: from.dist_along,
                                    maybe_parked_car: None,
                                    trip: t,
                                    person: person.id,
                                },
                                true,
                            ),
                        ),
                        _ => None,
                    },
                    match goal_pos {
                        Some(end) => no_bike_path(from, end),
                        None => no_bike_connection(goal),
                    },
                    None,
                    None,
                    None,
                    out,
                )
            }),
            final(self)@.total_blocked_time() == old(self)@.total_blocked_time() + blocked_time.0,
    {
        let agent = AgentID::Pedestrian(ped);
        let t = match self.active_trip_mode.lookup(agent) {
            Some(t) => t,
            None => unreached(),
        };
        let (bike, goal) = match self.trips[t.0].legs[1] {
            TripLeg::Drive(bike, goal) => (bike, goal),
            _ => unreached(),
        };
        let from = match spot.connection {
            SidewalkPOI::BikeRack(p) => p,
            _ => unreached(),
        };
        let person = &self.people[self.trips[t.0].person.0];
        let id = person.id;
        match goal_pos {
            None => self.give_up(
                now,
                agent,
                blocked_time,
                Vec::new(),
                false,
                say_no_bike_connection(goal),
                None,
                None,
                None,
            ),
            Some(end) => {
                let req = biking_request(from, end);
                match path {
                    Some(p) => {
                        let vehicle = person.get_vehicle(bike);
                        self.proceed(
                            now,
                            agent,
                            blocked_time,
                            Vec::new(),
                            false,
                            Command::SpawnCar(
                                CreateCar::for_appearing(vehicle, from, goal, p, req, t, id),
                                true,
                            ),
                        )
                    },
                    None => self.give_up(
                        now,
                        agent,
                        blocked_time,
                        Vec::new(),
                        false,
                        say_no_bike_path(from, end),
                        None,
                        None,
                        None,
                    ),
                }
            },
        }
    }
}

/// The building inside which a car is parked in `spot`, if that is the
/// building at whose door the walk to `to` ends.
pub open spec fn parks_inside(spot: ParkingSpot, to: SidewalkSpot) -> Option<BuildingID> {
    match (spot, to.connection) {
        (ParkingSpot::Offstreet(b1, _), SidewalkPOI::Building(b2)) => if b1 == b2 {
            Some(b1)
        } else {
            None
        },
        _ => None,
    }
}

/// The building inside which a car is parked in `spot`, if that is the
/// building at whose door the walk to `to` ends.
pub fn parked_inside(spot: ParkingSpot, to: &SidewalkSpot) -> (b: Option<BuildingID>)
    ensures
        b == parks_inside(spot, *to),
{
    match (spot, to.connection) {
        (ParkingSpot::Offstreet(b1, _), SidewalkPOI::Building(b2)) => if b1 == b2 {
            Some(b1)
        } else {
            None
        },
        _ => None,
    }
}

/// The building inside which `spot` is, if it is inside one.
pub open spec fn garage(spot: ParkingSpot) -> Option<BuildingID> {
    match spot {
        ParkingSpot::Offstreet(b, _) => Some(b),
        _ => None,
    }
}

/// The building inside which `spot` is, if it is inside one.
pub fn in_garage(spot: ParkingSpot) -> (b: Option<BuildingID>)
    ensures
        b == garage(spot),
{
    match spot {
        ParkingSpot::Offstreet(b, _) => Some(b),
        _ => None,
    }
}

/// What listeners hear when a pedestrian has reached the car in `spot`: of
/// the spot, and, where the spot is inside a building, of the person
/// entering that building.
pub open spec fn reached_car(person: PersonID, ped: PedestrianID, spot: ParkingSpot) -> Seq<Event> {
    match spot {
        ParkingSpot::Offstreet(b, _) => seq![
            Event::PedReachedParkingSpot(ped, spot),
            Event::PersonEntersBuilding(person, b),
        ],
        _ => seq![Event::PedReachedParkingSpot(ped, spot)],
    }
}

/// The request for the path of a car that leaves `spot` for `goal_pos`.
pub open spec fn spec_driving_request(
    spot: ParkingSpot,
    car: ParkedCar,
    driving_pos: Position,
    goal_pos: Position,
) -> PathRequest {
    PathRequest {
        start: spec_unparking_start(spot, car, driving_pos),
        end: goal_pos,
        constraints: PathConstraints::Car,
    }
}

/// The request for the path of a car that leaves `spot` for `goal_pos`.
pub fn driving_request(
    spot: ParkingSpot,
    car: &ParkedCar,
    driving_pos: Position,
    goal_pos: Position,
) -> (r: PathRequest)
    requires
        !(spot is Onstreet) ==> driving_pos.dist_along.can_add(car.vehicle.length),
    ensures
        r == spec_driving_request(spot, *car, driving_pos, goal_pos),
{
    PathRequest {
        start: unparking_start(spot, car, driving_pos),
        end: goal_pos,
        constraints: PathConstraints::Car,
    }
}

/// The request for the path of a bike from `from` to `to`.
pub fn biking_request(from: Position, to: Position) -> (r: PathRequest)
    ensures
        r == (PathRequest { start: from, end: to, constraints: PathConstraints::Bike }),
{
    PathRequest { start: from, end: to, constraints: PathConstraints::Bike }
}

impl TripManager {
    /// A pedestrian has reached the stop at which they take the bus.
    /// `stop_pos` is where the map puts the stop; the walk was to lead to
    /// that very spot. The transit system has been told of the rider that
    /// `agent_legs` describes, and `bus` is the bus that was there to
    /// board at once, if one was. Then the person is riding it; else they
    /// wait, and the result is the route they wait for.
    pub fn ped_reached_bus_stop(
        &mut self,
        ped: PedestrianID,
        stop: BusStopID,
        stop_pos: Position,
        blocked_time: Duration,
        bus: Option<CarID>,
    ) -> (route: Option<BusRouteID>)
        requires
            old(self).wf(),
            old(self)@.pre_ped_reached_bus_stop(ped, stop, stop_pos, blocked_time),
        ensures
            final(self).wf(),
            ({
                let agent = AgentID::Pedestrian(ped);
                let t = old(self)@.agents[agent];
                let trip = old(self)@.trip(t);
                let heard = seq![
                    Event::TripPhaseStarting(
                        t,
                        trip.person,
                        None,
                        TripPhaseType::WaitingForBus(trip.legs@[1]->RideBus_0, stop),
                    ),
                ];
                match bus {
                    Some(b) => {
                        &&& route.is_none()
                        &&& final(self)@.trip(t).legs@ == trip.legs@.skip(1)
                        &&& final(self)@ == old(self)@.advanced(
                            t,
                            agent,
                            blocked_time,
                            final(self)@.trip(t).legs,
                            heard,
                            false,
                            Some(b),
                        )
                    },
                    None => {
                        &&& route == Some(trip.legs@[1]->RideBus_0)
                        &&& final(self)@ == old(self)@.waited(t, blocked_time, heard)
                    },
                }
            }),
            final(self)@.total_blocked_time() == old(self)@.total_blocked_time() + blocked_time.0,
    {
        let agent = AgentID::Pedestrian(ped);
        let t = match self.active_trip_mode.lookup(agent) {
            Some(t) => t,
            None => unreached(),
        };
        let route = match self.trips[t.0].legs[1] {
            TripLeg::RideBus(route, _) => route,
            _ => unreached(),
        };
        let person = self.trips[t.0].person;
        let event = Event::TripPhaseStarting(
            t,
            person,
            None,
            TripPhaseType::WaitingForBus(route, stop),
        );
        match bus {
            Some(b) => {
                let mut heard: Vec<Event> = Vec::new();
                heard.push(event);
                assert(heard@ =~= seq![event]);
                proof {
                    lemma_not_riding(self@, ped, b);
                }
                self.advance_raw(t, agent, blocked_time, heard, false, Some(b));
                proof {
                    lemma_advanced(
                        old(self)@,
                        agent,
                        blocked_time,
                        self@.trip(t).legs,
                        seq![event],
                        false,
                        Some(b),
                    );
                }
                None
            },
            None => {
                proof {
                    lemma_waited(self@, agent, blocked_time, seq![event]);
                }
                let trip = &mut self.trips[t.0];
                trip.total_blocked_time = trip.total_blocked_time.plus(blocked_time);
                self.events.push(event);
                proof {
                    let b = old(self)@.waited(t, blocked_time, seq![event]);
                    assert(self@.trips =~= b.trips);
                    assert(self@.events =~= b.events);
                }
                Some(route)
            },
        }
    }

    /// A pedestrian who was waiting at a stop has boarded `bus`, and is
    /// riding it now. The result is the trip and the person.
    pub fn ped_boarded_bus(&mut self, ped: PedestrianID, bus: CarID, blocked_time: Duration) -> (r: (
        TripID,
        PersonID,
    ))
        requires
            old(self).wf(),
            old(self)@.pre_ped_boarded_bus(ped, blocked_time),
        ensures
            final(self).wf(),
            ({
                let agent = AgentID::Pedestrian(ped);
                let t = old(self)@.agents[agent];
                &&& r == (t, old(self)@.trip(t).person)
                &&& final(self)@.trip(t).legs@ == old(self)@.trip(t).legs@.skip(1)
                &&& final(self)@ == old(self)@.advanced(
                    t,
                    agent,
                    blocked_time,
                    final(self)@.trip(t).legs,
                    Seq::<Event>::empty(),
                    false,
                    Some(bus),
                )
            }),
            final(self)@.total_blocked_time() == old(self)@.total_blocked_time() + blocked_time.0,
    {
        let agent = AgentID::Pedestrian(ped);
        let t = match self.active_trip_mode.lookup(agent) {
            Some(t) => t,
            None => unreached(),
        };
        let person = self.trips[t.0].person;
        proof {
            lemma_not_riding(self@, ped, bus);
        }
        self.advance_raw(t, agent, blocked_time, Vec::new(), false, Some(bus));
        proof {
            lemma_advanced(
                old(self)@,
                agent,
                blocked_time,
                self@.trip(t).legs,
                Seq::<Event>::empty(),
                false,
                Some(bus),
            );
        }
        (t, person)
    }
}

} // verus!
