//! Starting trips: putting the first agent of a trip on its way, or
//! queueing the trip while its person is still making another one.

use crate::events::{Command, CreateCar, CreatePedestrian, Event, Outcome, TripPhaseType};
use crate::ids::{AgentID, BuildingID, BusStopID, CarID, IntersectionID, LaneID, TripID};
use crate::manager::{
    expected_agent, lemma_agents_fit, lemma_queue_fits, lemma_step, ManagerState, TripManager,
};
use crate::person::{Person, PersonState};
use crate::places::{Path, PathRequest, Position, SidewalkPOI, SidewalkSpot};
use crate::text::{
    car_unavailable, no_bike_start, no_first_path, no_room, say_car_unavailable,
    say_no_bike_start, say_no_first_path, say_no_room,
};
use crate::trip::{DelayedTrip, Trip, TripInfo, TripSpec};
use crate::units::Time;
use crate::vehicles::ParkedCar;
use vstd::prelude::*;

verus! {

/// What the map, the parking manager and the congestion cap say about the
/// place and the moment at which a trip starts. A field that the way of
/// starting does not read may hold anything.
#[derive(Clone, Debug, PartialEq, Eq)]
pub struct Surroundings {
    /// The intersection at the beginning of the lane on which the trip
    /// starts. Read when a vehicle appears, and when a pedestrian suddenly
    /// appears on a sidewalk.
    pub lane_src: IntersectionID,
    /// Whether the congestion cap changed or refused the path. Read when a
    /// vehicle appears; `maybe_path` is then what the cap let through.
    pub capped: bool,
    /// The car that the trip counts on, if it stands parked somewhere.
    /// Read when the trip uses a parked car.
    pub parked_car: Option<ParkedCar>,
    /// Where the door of the building at which the trip starts meets the
    /// sidewalk. Read when the trip uses a parked car or a bike.
    pub walk_from: Position,
    /// Where the first walk ends, on the sidewalk: next to the parked car,
    /// or at the first bus stop. Read when the trip uses a parked car or
    /// transit.
    pub walk_to: Position,
    /// The path from the door to the parked car, if there is one.
    pub path_to_car: Option<Path>,
    /// Where the bike can be mounted near the building at which the trip
    /// starts, if anywhere. Read when the trip uses a bike.
    pub bike_rack: Option<SidewalkSpot>,
}

impl Surroundings {
    /// The surroundings of which nothing was asked: enough for a trip that
    /// is queued, or that is started in a way that asks nothing.
    pub fn unasked() -> (s: Surroundings)
        ensures
            s == (Surroundings {
                lane_src: IntersectionID(0),
                capped: false,
                parked_car: None,
                walk_from: Position { lane: LaneID(0), dist_along: crate::units::Distance(0) },
                walk_to: Position { lane: LaneID(0), dist_along: crate::units::Distance(0) },
                path_to_car: None,
                bike_rack: None,
            }),
    {
        Surroundings {
            lane_src: IntersectionID(0),
            capped: false,
            parked_car: None,
            walk_from: Position::start(LaneID(0)),
            walk_to: Position::start(LaneID(0)),
            path_to_car: None,
            bike_rack: None,
        }
    }
}

/// What has to be asked of the map, the parking manager and the
/// congestion cap before a trip is started; the answers make up the
/// `Surroundings`.
#[derive(Clone, Copy, Debug, PartialEq, Eq, Structural)]
pub struct Questions {
    /// The lane whose first intersection is `lane_src`.
    pub lane: Option<LaneID>,
    /// The vehicle for which the congestion cap is to look at the path.
    pub cap_for: Option<CarID>,
    /// The car of which the parking manager is to say where it stands;
    /// if it stands somewhere, `walk_to` is the sidewalk next to it, and
    /// `path_to_car` the path from `walk_from` to there.
    pub parked_car: Option<CarID>,
    /// The building whose door is at `walk_from`.
    pub door: Option<BuildingID>,
    /// The bus stop that is at `walk_to`.
    pub stop: Option<BusStopID>,
    /// The building near which `bike_rack` is looked for.
    pub bike_rack: Option<BuildingID>,
}

impl TripSpec {
    /// What has to be asked before a trip is started in this way.
    pub open spec fn spec_questions(self) -> Questions {
        let nothing = Questions {
            lane: None,
            cap_for: None,
            parked_car: None,
            door: None,
            stop: None,
            bike_rack: None,
        };
        match self {
            TripSpec::VehicleAppearing { start_pos, use_vehicle, .. } => Questions {
                lane: Some(start_pos.lane),
                cap_for: Some(use_vehicle),
                ..nothing
            },
            TripSpec::NoRoomToSpawn { .. } => nothing,
            TripSpec::UsingParkedCar { car, start_bldg, .. } => Questions {
                parked_car: Some(car),
                door: Some(start_bldg),
                ..nothing
            },
            TripSpec::JustWalking { start, .. } => Questions {
                lane: if start.connection is SuddenlyAppear {
                    Some(start.sidewalk_pos.lane)
                } else {
                    None
                },
                ..nothing
            },
            TripSpec::UsingBike { start, .. } => Questions {
                door: Some(start),
                bike_rack: Some(start),
                ..nothing
            },
            TripSpec::UsingTransit { start, stop1, .. } => Questions {
                lane: if start.connection is SuddenlyAppear {
                    Some(start.sidewalk_pos.lane)
                } else {
                    None
                },
                stop: Some(stop1),
                ..nothing
            },
            TripSpec::Remote { .. } => nothing,
        }
    }

    /// What has to be asked before a trip is started in this way.
    pub fn questions(&self) -> (q: Questions)
        ensures
            q == self.spec_questions(),
    {
        let mut q = Questions {
            lane: None,
            cap_for: None,
            parked_car: None,
            door: None,
            stop: None,
            bike_rack: None,
        };
        match self {
            TripSpec::VehicleAppearing { start_pos, use_vehicle, .. } => {
                q.lane = Some(start_pos.lane);
                q.cap_for = Some(*use_vehicle);
            },
            TripSpec::NoRoomToSpawn { .. } => {},
            TripSpec::UsingParkedCar { car, start_bldg, .. } => {
                q.parked_car = Some(*car);
                q.door = Some(*start_bldg);
            },
            TripSpec::JustWalking { start, .. } => {
                if let SidewalkPOI::SuddenlyAppear = start.connection {
                    q.lane = Some(start.sidewalk_pos.lane);
                }
            },
            TripSpec::UsingBike { start, .. } => {
                q.door = Some(*start);
                q.bike_rack = Some(*start);
            },
            TripSpec::UsingTransit { start, stop1, .. } => {
                if let SidewalkPOI::SuddenlyAppear = start.connection {
                    q.lane = Some(start.sidewalk_pos.lane);
                }
                q.stop = Some(*stop1);
            },
            TripSpec::Remote { .. } => {},
        }
        q
    }
}

/// The state in which a person has to be for a walk that starts at `start`.
pub open spec fn state_before_walk(start: SidewalkSpot) -> Option<PersonState> {
    match start.connection {
        SidewalkPOI::Building(b) => Some(PersonState::Inside(b)),
        SidewalkPOI::Border(_, _) => Some(PersonState::OffMap),
        SidewalkPOI::SuddenlyAppear => Some(PersonState::OffMap),
        _ => None,
    }
}

/// The event that tells that `person` enters the map on foot at `start`,
/// if they do.
pub open spec fn entering(person: Person, start: SidewalkSpot, lane_src: IntersectionID) -> Seq<
    Event,
> {
    match start.connection {
        SidewalkPOI::Border(i, loc) => seq![
            Event::PersonEntersMap(person.id, AgentID::Pedestrian(person.ped), i, loc),
        ],
        SidewalkPOI::SuddenlyAppear => seq![
            Event::PersonEntersMap(person.id, AgentID::Pedestrian(person.ped), lane_src, None),
        ],
        _ => seq![],
    }
}

/// The order to let `person` walk from `start` to `goal` along `path`.
pub open spec fn walk(
    person: Person,
    trip: TripID,
    start: SidewalkSpot,
    goal: SidewalkSpot,
    path: Path,
    req: PathRequest,
) -> Command {
    Command::SpawnPed(
        CreatePedestrian {
            id: person.ped,
            speed: person.ped_speed,
            start,
            goal,
            path,
            req,
            trip,
            person: person.id,
        },
    )
}

impl ManagerState {
    /// Whether trip `t` can be handed to the starter: it exists, has not
    /// started, is not cancelled, and does not wait in the queue.
    pub open spec fn startable(self, t: TripID) -> bool {
        &&& self.has_trip(t)
        &&& self.trip(t).waiting()
        &&& !self.queued(t)
    }

    /// Whether the agent of the current leg of trip `t` is not active.
    pub open spec fn unclaimed(self, t: TripID) -> bool {
        expected_agent(self.trip(t), self.traveller(t)) matches Some(x)
            ==> !self.agents.dom().contains(x)
    }

    /// Whether the person of trip `t` is still on another trip.
    pub open spec fn busy(self, t: TripID) -> bool {
        self.traveller(t).state is Trip
    }

    /// The state after trip `t` has begun: the trip is started, and capped
    /// if `capped` says so; its person is making it; listeners have heard
    /// `entered`.
    pub open spec fn begun(self, t: TripID, entered: Seq<Event>, capped: bool) -> ManagerState {
        let ta = self.trip(t);
        let p = ta.person.0 as int;
        ManagerState {
            trips: self.trips.update(
                t.0 as int,
                Trip {
                    started: true,
                    info: TripInfo { capped: ta.info.capped || capped, ..ta.info },
                    ..ta
                },
            ),
            people: self.people.update(
                p,
                Person { state: PersonState::Trip(t), ..self.people[p] },
            ),
            events: self.events + entered,
            ..self
        }
    }

    /// Whether `next` is `self` after `d` has joined the queue of delayed
    /// trips of its person, and listeners have been told of the delay.
    pub open spec fn defers(self, next: ManagerState, d: DelayedTrip) -> bool {
        let t = d.trip;
        let pa = self.traveller(t);
        let pb = next.traveller(t);
        &&& self.touches(next, t.0 as int)
        &&& next.trips == self.trips
        &&& pb == (Person { delayed_trips: pb.delayed_trips, ..pa })
        &&& pb.delayed_trips@ == pa.delayed_trips@.push(d)
        &&& next.agents == self.agents
        &&& next.unfinished == self.unfinished
        &&& next.events == self.events.push(
            Event::TripPhaseStarting(t, self.trip(t).person, None, TripPhaseType::DelayedStart),
        )
    }

    /// Whether the starter accepts trip `t` with these parameters now. A
    /// trip whose person is still on another trip is accepted as it is;
    /// else the agent of its first leg must not be active, the person
    /// must be where the trip starts, and what the way of starting needs
    /// must be there.
    pub open spec fn can_start(
        self,
        now: Time,
        t: TripID,
        spec: TripSpec,
        maybe_req: Option<PathRequest>,
        around: Surroundings,
    ) -> bool {
        let person = self.traveller(t);
        &&& self.startable(t)
        &&& !self.busy(t) ==> self.unclaimed(t)
        &&& !self.busy(t) ==> match spec {
            TripSpec::VehicleAppearing { use_vehicle, .. } => {
                &&& person.state == PersonState::OffMap
                &&& person.owns(use_vehicle)
                &&& maybe_req.is_some()
            },
            TripSpec::NoRoomToSpawn { use_vehicle, .. } => person.owns(use_vehicle),
            TripSpec::UsingParkedCar { start_bldg, .. } => person.state == PersonState::Inside(
                start_bldg,
            ),
            TripSpec::JustWalking { start, .. } => {
                &&& state_before_walk(start) == Some(person.state)
                &&& maybe_req.is_some()
            },
            TripSpec::UsingBike { start, .. } => {
                &&& person.state == PersonState::Inside(start)
                &&& around.bike_rack.is_some() ==> maybe_req.is_some()
            },
            TripSpec::UsingTransit { start, .. } => {
                &&& state_before_walk(start) == Some(person.state)
                &&& maybe_req.is_some()
            },
            TripSpec::Remote { trip_time, .. } => {
                &&& person.state == PersonState::OffMap
                &&& now.can_advance(trip_time)
            },
        }
    }

    /// The state after listeners have heard `entered` of trip `t`, and the
    /// congestion cap has had its say, while the trip has not begun: the
    /// person is where they were.
    pub open spec fn announced(self, t: TripID, entered: Seq<Event>, capped: bool) -> ManagerState {
        let ta = self.trip(t);
        ManagerState {
            trips: self.trips.update(
                t.0 as int,
                Trip { info: TripInfo { capped: ta.info.capped || capped, ..ta.info }, ..ta },
            ),
            events: self.events + entered,
            ..self
        }
    }

    /// Whether `next` and `out` are what becomes of `self` when trip `t`
    /// is started. With `command` the trip begins, listeners hear
    /// `entered`, and the command goes to the scheduler. Without it the
    /// person never sets out: listeners hear `entered`, the trip counts as
    /// started and is cancelled for `reason`, leaving `vehicle` behind,
    /// after `unpark` has been taken out of its spot; the person leaves
    /// the building they were in for the end of the trip.
    pub open spec fn dispatches(
        self,
        next: ManagerState,
        now: Time,
        t: TripID,
        entered: Seq<Event>,
        capped: bool,
        command: Option<Command>,
        reason: Seq<char>,
        vehicle: Option<crate::vehicles::Vehicle>,
        unpark: Option<ParkedCar>,
        out: Outcome,
    ) -> bool {
        match command {
            Some(c) => next == self.begun(t, entered, capped) && out.schedules(now, c),
            None => {
                &&& self.announced(t, entered, capped).cancels(
                    next,
                    t,
                    reason,
                    vehicle,
                    true,
                    now,
                    Outcome { unpark: None, ..out },
                )
                &&& out.unpark == unpark
            },
        }
    }

    /// What starting trip `t` comes to, for each way of starting.
    pub open spec fn starts(
        self,
        next: ManagerState,
        now: Time,
        t: TripID,
        spec: TripSpec,
        maybe_req: Option<PathRequest>,
        maybe_path: Option<Path>,
        around: Surroundings,
        out: Outcome,
    ) -> bool {
        let person = self.traveller(t);
        let none = Seq::<Event>::empty();
        if self.busy(t) {
            self.defers(next, DelayedTrip { trip: t, spec, req: maybe_req, path: maybe_path })
                && out.idle()
        } else {
            match spec {
                TripSpec::VehicleAppearing {
                    start_pos,
                    goal,
                    use_vehicle,
                    retry_if_no_room,
                    origin,
                } => self.dispatches(
                    next,
                    now,
                    t,
                    seq![
                        Event::PersonEntersMap(
                            person.id,
                            AgentID::Car(use_vehicle),
                            around.lane_src,
                            origin,
                        ),
                    ],
                    around.capped,
                    match maybe_path {
                        Some(path) => Some(
                            Command::SpawnCar(
                                CreateCar {
                                    vehicle: person.vehicle(use_vehicle),
                                    goal,
                                    path,
                                    req: maybe_req.unwrap(),
                                    start_dist: start_pos.dist_along,
                                    maybe_parked_car: None,
                                    trip: t,
                                    person: person.id,
                                },
                                retry_if_no_room,
                            ),
                        ),
                        None => None,
                    },
                    no_first_path("VehicleAppearing"@, maybe_req.unwrap()),
                    Some(person.vehicle(use_vehicle)),
                    None,
                    out,
                ),
                TripSpec::NoRoomToSpawn { i, use_vehicle, error, .. } => self.cancels(
                    next,
                    t,
                    no_room(i, error@),
                    Some(person.vehicle(use_vehicle)),
                    true,
                    now,
                    out,
                ),
                TripSpec::UsingParkedCar { car, start_bldg, .. } => match around.parked_car {
                    Some(parked) => {
                        let req = PathRequest {
                            start: around.walk_from,
                            end: around.walk_to,
                            constraints: crate::places::PathConstraints::Pedestrian,
                        };
                        self.dispatches(
                            next,
                            now,
                            t,
                            none,
                            false,
                            match around.path_to_car {
                                Some(path) => Some(
                                    walk(
                                        person,
                                        t,
                                        SidewalkSpot {
                                            connection: SidewalkPOI::Building(start_bldg),
                                            sidewalk_pos: around.walk_from,
                                        },
                                        SidewalkSpot {
                                            connection: SidewalkPOI::ParkingSpot(parked.spot),
                                            sidewalk_pos: around.walk_to,
                                        },
                                        path,
                                        req,
                                    ),
                                ),
                                None => None,
                            },
                            no_first_path("UsingParkedCar"@, req),
                            Some(parked.vehicle),
                            Some(parked),
                            out,
                        )
                    },
                    None => self.dispatches(
                        next,
                        now,
                        t,
                        none,
                        false,
                        None,
                        car_unavailable(car),
                        None,
                        None,
                        out,
                    ),
                },
                TripSpec::JustWalking { start, goal } => self.dispatches(
                    next,
                    now,
                    t,
                    entering(person, start, around.lane_src),
                    false,
                    match maybe_path {
                        Some(path) => Some(walk(person, t, start, goal, path, maybe_req.unwrap())),
                        None => None,
                    },
                    no_first_path("JustWalking"@, maybe_req.unwrap()),
                    None,
                    None,
                    out,
                ),
                TripSpec::UsingBike { start, .. } => match around.bike_rack {
                    Some(rack) => self.dispatches(
                        next,
                        now,
                        t,
                        none,
                        false,
                        match maybe_path {
                            Some(path) => Some(
                                walk(
                                    person,
                                    t,
                                    SidewalkSpot {
                                        connection: SidewalkPOI::Building(start),
                                        sidewalk_pos: around.walk_from,
                                    },
                                    rack,
                                    path,
                                    maybe_req.unwrap(),
                                ),
                            ),
                            None => None,
                        },
                        no_first_path("UsingBike"@, maybe_req.unwrap()),
                        None,
                        None,
                        out,
                    ),
                    None => self.dispatches(
                        next,
                        now,
                        t,
                        none,
                        false,
                        None,
                        no_bike_start(start),
                        None,
                        None,
                        out,
                    ),
                },
                TripSpec::UsingTransit { start, stop1, .. } => self.dispatches(
                    next,
                    now,
                    t,
                    entering(person, start, around.lane_src),
                    false,
                    match maybe_path {
                        Some(path) => Some(
                            walk(
                                person,
                                t,
                                start,
                                SidewalkSpot {
                                    connection: SidewalkPOI::BusStop(stop1),
                                    sidewalk_pos: around.walk_to,
                                },
                                path,
                                maybe_req.unwrap(),
                            ),
                        ),
                        None => None,
                    },
                    no_first_path("UsingTransit"@, maybe_req.unwrap()),
                    None,
                    None,
                    out,
                ),
                TripSpec::Remote { from, trip_time, .. } => {
                    &&& next == self.begun(
                        t,
                        seq![
                            Event::PersonLeavesRemoteBuilding(person.id, from),
                            Event::TripPhaseStarting(t, person.id, None, TripPhaseType::Remote),
                        ],
                        false,
                    )
                    &&& out.schedules(now.spec_after(trip_time), Command::FinishRemoteTrip(t))
                },
            }
        }
    }
}

/// Beginning a trip that can be started, of a person who is free, keeps
/// the invariant.
pub proof fn lemma_begun(a: ManagerState, t: TripID, entered: Seq<Event>, capped: bool)
    requires
        a.wf(),
        a.startable(t),
        a.unclaimed(t),
        !a.busy(t),
    ensures
        a.begun(t, entered, capped).wf(),
        a.begun(t, entered, capped).total_blocked_time() == a.total_blocked_time(),
        a.begun(t, entered, capped).traveller(t) == (Person {
            state: PersonState::Trip(t),
            ..a.traveller(t)
        }),
{
    let b = a.begun(t, entered, capped);
    let ti = t.0 as int;
    let p = a.trips[ti].person.0 as int;
    lemma_agents_fit(a, b, ti, None);
    lemma_queue_fits(a, b, ti);
    if let Some(bus) = a.people[p].on_bus {
        assert(a.agents.dom().contains(AgentID::BusPassenger(crate::ids::PersonID(p as usize), bus)));
    }
    assert(a.touches(b, ti));
    assert(a.fits(b, ti));
    lemma_step(a, b, ti);
}

/// Announcing a trip that can be started, of a person who is free, keeps
/// the invariant, and leaves the trip in a state in which it can be
/// cancelled.
pub proof fn lemma_announced(a: ManagerState, t: TripID, entered: Seq<Event>, capped: bool)
    requires
        a.wf(),
        a.startable(t),
        a.unclaimed(t),
        !a.busy(t),
    ensures
        a.announced(t, entered, capped).wf(),
        forall|v: Option<crate::vehicles::Vehicle>| #[trigger]
            a.announced(t, entered, capped).cancellable(t, v),
        a.announced(t, entered, capped).total_blocked_time() == a.total_blocked_time(),
{
    let b = a.announced(t, entered, capped);
    let ti = t.0 as int;
    let p = a.trips[ti].person.0 as int;
    assert(b.people =~= a.people);
    lemma_agents_fit(a, b, ti, None);
    lemma_queue_fits(a, b, ti);
    if let Some(bus) = a.people[p].on_bus {
        assert(a.agents.dom().contains(AgentID::BusPassenger(crate::ids::PersonID(p as usize), bus)));
    }
    assert(a.touches(b, ti));
    assert(a.fits(b, ti));
    lemma_step(a, b, ti);
    assert(!b.queued(t)) by {
        if b.queued(t) {
            let k = choose|k: int|
                0 <= k < b.traveller(t).delayed_trips@.len() && (
                #[trigger] b.traveller(t).delayed_trips@[k]).trip == t;
            assert(a.traveller(t).delayed_trips@[k].trip == t);
        }
    }
}

/// What it comes to when a trip is cancelled at its start: the trip
/// counts as started and is cancelled for the reason given; its person is
/// where the trip was to end; listeners have heard what there was to
/// hear, then of the cancellation, then of the person leaving the
/// building they were in, then of the arrival; and the outcome holds the
/// car to take out of its spot, the car to park near the end, and the
/// delayed trip to start.
pub proof fn lemma_start_failed(
    a: ManagerState,
    b: ManagerState,
    now: Time,
    t: TripID,
    entered: Seq<Event>,
    capped: bool,
    reason: Seq<char>,
    vehicle: Option<crate::vehicles::Vehicle>,
    unpark: Option<ParkedCar>,
    out: Outcome,
)
    requires
        a.has_trip(t),
        a.has_person(a.trip(t).person),
        a.dispatches(b, now, t, entered, capped, None, reason, vehicle, unpark, out),
    ensures
        b.trip(t).started,
        b.trip(t).finished_at == a.trip(t).finished_at,
        b.trip(t).legs == a.trip(t).legs,
        b.trip(t).info.cancellation_reason matches Some(r) && r@ == reason,
        b.trip(t).info.capped == (a.trip(t).info.capped || capped),
        b.traveller(t).state == crate::manager::creation::state_at(a.trip(t).info.end),
        b.unfinished == a.unfinished - 1,
        b.events == a.events + entered + seq![Event::TripCancelled(t)]
            + crate::manager::cancel::leaving(a.trip(t).person, a.traveller(t).state) + seq![
            crate::manager::cancel::arriving(a.trip(t).person, a.trip(t).info.end),
        ],
        out.command.is_none(),
        out.unpark == unpark,
        out.warp == crate::manager::cancel::warp_for(
            a.trip(t).person,
            vehicle,
            a.trip(t).info.end,
            now,
        ),
        out.next == crate::manager::first_delayed(a.traveller(t).delayed_trips@),
{
    let mid = a.announced(t, entered, capped);
    let p = a.trip(t).person.0 as int;
    assert(mid.trip(t) == mid.trips[t.0 as int]);
    assert(mid.traveller(t) == a.people[p]);
    assert(b.events =~= a.events + entered + seq![Event::TripCancelled(t)]
        + crate::manager::cancel::leaving(a.trip(t).person, a.traveller(t).state) + seq![
        crate::manager::cancel::arriving(a.trip(t).person, a.trip(t).info.end),
    ]);
}

/// Queueing a trip that can be started keeps the invariant.
pub proof fn lemma_defers(a: ManagerState, b: ManagerState, d: DelayedTrip)
    requires
        a.wf(),
        a.startable(d.trip),
        a.defers(b, d),
    ensures
        b.wf(),
        b.total_blocked_time() == a.total_blocked_time(),
{
    let t = d.trip;
    let ti = t.0 as int;
    let p = a.trips[ti].person.0 as int;
    assert(b.trips[ti] == a.trips[ti]);
    lemma_agents_fit(a, b, ti, None);
    let n = a.people[p].delayed_trips@.len() as int;
    assert forall|k: int| 0 <= k < b.people[p].delayed_trips@.len() implies {
        let e = (#[trigger] b.people[p].delayed_trips@[k]).trip;
        e.0 < b.trips.len() && b.trips[e.0 as int].person.0 == p && b.trips[e.0 as int].waiting()
    } by {
        if k < n {
            let e = a.people[p].delayed_trips@[k].trip;
            assert(e.0 < a.trips.len() && a.trip(e).person.0 == p && a.trip(e).waiting());
        }
    }
    assert forall|i: int, j: int| 0 <= i < j < b.people[p].delayed_trips@.len() implies (
    #[trigger] b.people[p].delayed_trips@[i]).trip != (#[trigger] b.people[p].delayed_trips@[j]).trip by {
        if j < n {
            assert(a.people[p].delayed_trips@[i].trip != a.people[p].delayed_trips@[j].trip);
        } else {
            assert(a.traveller(t).delayed_trips@[i].trip != t);
        }
    }
    if let Some(bus) = a.people[p].on_bus {
        assert(a.agents.dom().contains(AgentID::BusPassenger(crate::ids::PersonID(p as usize), bus)));
    }
    if let PersonState::Trip(x) = a.people[p].state {
        assert(a.trip(x).ongoing());
    }
    assert(a.fits(b, ti));
    lemma_step(a, b, ti);
}

impl TripManager {
    /// Whether `start_trip` would queue trip `trip` now, because its person
    /// is still on another trip. Nothing has to be asked for a trip that
    /// is queued.
    pub fn would_defer(&self, trip: TripID) -> (b: bool)
        requires
            self.wf(),
        ensures
            b == (self@.has_trip(trip) && self@.busy(trip)),
    {
        if trip.0 >= self.trips.len() {
            return false;
        }
        match self.people[self.trips[trip.0].person.0].state {
            PersonState::Trip(_) => true,
            _ => false,
        }
    }

    /// Whether a path has to be found before `start_trip` is called: paths
    /// are found late, there is a request, and nobody has answered it yet.
    pub fn needs_path(&self, maybe_req: &Option<PathRequest>, maybe_path: &Option<Path>) -> (b:
        bool)
        ensures
            b == (!self@.pathfinding_upfront && maybe_path.is_none() && maybe_req.is_some()),
    {
        !self.pathfinding_upfront && maybe_path.is_none() && maybe_req.is_some()
    }

    /// The changes with which a trip begins, whatever state the manager is in.
    fn begin_raw(&mut self, trip: TripID, entered: Vec<Event>, capped: bool)
        requires
            old(self).registry_ok(),
            old(self)@.has_trip(trip),
            old(self)@.has_person(old(self)@.trip(trip).person),
        ensures
            final(self).registry_ok(),
            final(self)@ == old(self)@.begun(trip, entered@, capped),
    {
        let mut list = entered;
        let ghost heard = list@;
        let t = &mut self.trips[trip.0];
        t.started = true;
        t.info.capped = t.info.capped || capped;
        let p = t.person.0;
        self.people[p].state = PersonState::Trip(trip);
        self.events.append(&mut list);
        proof {
            let a = old(self)@;
            let b = a.begun(trip, heard, capped);
            assert(self@.trips =~= b.trips);
            assert(self@.people =~= b.people);
            assert(self@.events =~= b.events);
        }
    }

    /// Begins a trip and hands its first order to the scheduler, due at `at`.
    fn go(&mut self, at: Time, trip: TripID, entered: Vec<Event>, capped: bool, command: Command) -> (out:
        Outcome)
        requires
            old(self).wf(),
            old(self)@.startable(trip),
            old(self)@.unclaimed(trip),
            !old(self)@.busy(trip),
        ensures
            final(self).wf(),
            final(self)@ == old(self)@.begun(trip, entered@, capped),
            out.schedules(at, command),
            final(self)@.total_blocked_time() == old(self)@.total_blocked_time(),
    {
        proof {
            lemma_begun(self@, trip, entered@, capped);
        }
        self.begin_raw(trip, entered, capped);
        Outcome { command: Some((at, command)), unpark: None, warp: None, next: None }
    }

    /// The changes with which a trip is announced without beginning,
    /// whatever state the manager is in.
    fn announce_raw(&mut self, trip: TripID, entered: Vec<Event>, capped: bool)
        requires
            old(self).registry_ok(),
            old(self)@.has_trip(trip),
        ensures
            final(self).registry_ok(),
            final(self)@ == old(self)@.announced(trip, entered@, capped),
    {
        let mut list = entered;
        let ghost heard = list@;
        let t = &mut self.trips[trip.0];
        t.info.capped = t.info.capped || capped;
        self.events.append(&mut list);
        proof {
            let b = old(self)@.announced(trip, heard, capped);
            assert(self@.trips =~= b.trips);
            assert(self@.events =~= b.events);
        }
    }

    /// Cancels a trip whose first agent cannot set out: the person has
    /// not left where they were.
    fn fail(
        &mut self,
        now: Time,
        trip: TripID,
        entered: Vec<Event>,
        capped: bool,
        reason: String,
        vehicle: Option<crate::vehicles::Vehicle>,
        unpark: Option<ParkedCar>,
    ) -> (out: Outcome)
        requires
            old(self).wf(),
            old(self)@.startable(trip),
            old(self)@.unclaimed(trip),
            !old(self)@.busy(trip),
        ensures
            final(self).wf(),
            old(self)@.dispatches(
                final(self)@,
                now,
                trip,
                entered@,
                capped,
                None,
                reason@,
                vehicle,
                unpark,
                out,
            ),
            final(self)@.total_blocked_time() == old(self)@.total_blocked_time(),
    {
        proof {
            lemma_announced(self@, trip, entered@, capped);
        }
        self.announce_raw(trip, entered, capped);
        assert(self@.cancellable(trip, vehicle));
        let out = self.cancel(now, trip, reason, vehicle, true, None);
        Outcome { command: out.command, unpark, warp: out.warp, next: out.next }
    }

    /// Queues a trip whose person is still making another one.
    fn defer(&mut self, d: DelayedTrip) -> (out: Outcome)
        requires
            old(self).wf(),
            old(self)@.startable(d.trip),
        ensures
            final(self).wf(),
            old(self)@.defers(final(self)@, d),
            out.idle(),
            final(self)@.total_blocked_time() == old(self)@.total_blocked_time(),
    {
        let trip = d.trip;
        let person = self.trips[trip.0].person;
        self.people[person.0].delayed_trips.push(d);
        self.events.push(Event::TripPhaseStarting(trip, person, None, TripPhaseType::DelayedStart));
        proof {
            assert(self@.trips =~= old(self)@.trips);
            lemma_defers(old(self)@, self@, d);
        }
        Outcome { command: None, unpark: None, warp: None, next: None }
    }

    /// Starts a trip, or queues it if its person is still making another
    /// one. The agent of the first leg is ordered from the scheduler; where
    /// that cannot be done, the trip is cancelled at once.
    pub fn start_trip(
        &mut self,
        now: Time,
        trip: TripID,
        spec: TripSpec,
        maybe_req: Option<PathRequest>,
        maybe_path: Option<Path>,
        around: Surroundings,
    ) -> (out: Outcome)
        requires
            old(self).wf(),
            old(self)@.can_start(now, trip, spec, maybe_req, around),
        ensures
            final(self).wf(),
            old(self)@.starts(final(self)@, now, trip, spec, maybe_req, maybe_path, around, out),
            final(self)@.total_blocked_time() == old(self)@.total_blocked_time(),
    {
        let p = self.trips[trip.0].person.0;
        if let PersonState::Trip(_) = self.people[p].state {
            return self.defer(DelayedTrip { trip, spec, req: maybe_req, path: maybe_path });
        }
        let person = &self.people[p];
        let id = person.id;
        let ped = person.ped;
        let speed = person.ped_speed;
        match spec {
            TripSpec::VehicleAppearing { start_pos, goal, use_vehicle, retry_if_no_room, origin } => {
                let vehicle = person.get_vehicle(use_vehicle);
                let req = maybe_req.unwrap();
                let mut entered: Vec<Event> = Vec::new();
                entered.push(
                    Event::PersonEntersMap(id, AgentID::Car(use_vehicle), around.lane_src, origin),
                );
                assert(entered@ =~= seq![
                    Event::PersonEntersMap(id, AgentID::Car(use_vehicle), around.lane_src, origin),
                ]);
                match maybe_path {
                    Some(path) => self.go(
                        now,
                        trip,
                        entered,
                        around.capped,
                        Command::SpawnCar(
                            CreateCar::for_appearing(vehicle, start_pos, goal, path, req, trip, id),
                            retry_if_no_room,
                        ),
                    ),
                    None => self.fail(
                        now,
                        trip,
                        entered,
                        around.capped,
                        say_no_first_path("VehicleAppearing", req),
                        Some(vehicle),
                        None,
                    ),
                }
            },
            TripSpec::NoRoomToSpawn { i, use_vehicle, error, .. } => {
                let vehicle = person.get_vehicle(use_vehicle);
                let reason = say_no_room(i, error.as_str());
                self.cancel(now, trip, reason, Some(vehicle), true, None)
            },
            TripSpec::UsingParkedCar { car, start_bldg, .. } => match around.parked_car {
                Some(parked) => {
                    let start = SidewalkSpot::building(start_bldg, around.walk_from);
                    let goal = SidewalkSpot::parking_spot(parked.spot, around.walk_to);
                    let req = PathRequest::walking(start.sidewalk_pos, goal.sidewalk_pos);
                    match around.path_to_car {
                        Some(path) => self.go(
                            now,
                            trip,
                            Vec::new(),
                            false,
                            Command::SpawnPed(
                                CreatePedestrian {
                                    id: ped,
                                    speed,
                                    start,
                                    goal,
                                    path,
                                    req,
                                    trip,
                                    person: id,
                                },
                            ),
                        ),
                        None => self.fail(
                            now,
                            trip,
                            Vec::new(),
                            false,
                            say_no_first_path("UsingParkedCar", req),
                            Some(parked.vehicle),
                            Some(parked),
                        ),
                    }
                },
                None => self.fail(
                    now,
                    trip,
                    Vec::new(),
                    false,
                    say_car_unavailable(car),
                    None,
                    None,
                ),
            },
            TripSpec::JustWalking { start, goal } => {
                let req = maybe_req.unwrap();
                let entered = entering_events(person, start, around.lane_src);
                match maybe_path {
                    Some(path) => self.go(
                        now,
                        trip,
                        entered,
                        false,
                        Command::SpawnPed(
                            CreatePedestrian { id: ped, speed, start, goal, path, req, trip, person: id },
                        ),
                    ),
                    None => self.fail(
                        now,
                        trip,
                        entered,
                        false,
                        say_no_first_path("JustWalking", req),
                        None,
                        None,
                    ),
                }
            },
            TripSpec::UsingBike { start, .. } => match around.bike_rack {
                Some(rack) => {
                    let req = maybe_req.unwrap();
                    match maybe_path {
                        Some(path) => self.go(
                            now,
                            trip,
                            Vec::new(),
                            false,
                            Command::SpawnPed(
                                CreatePedestrian {
                                    id: ped,
                                    speed,
                                    start: SidewalkSpot::building(start, around.walk_from),
                                    goal: rack,
                                    path,
                                    req,
                                    trip,
                                    person: id,
                                },
                            ),
                        ),
                        None => self.fail(
                            now,
                            trip,
                            Vec::new(),
                            false,
                            say_no_first_path("UsingBike", req),
                            None,
                            None,
                        ),
                    }
                },
                None => self.fail(
                    now,
                    trip,
                    Vec::new(),
                    false,
                    say_no_bike_start(start),
                    None,
                    None,
                ),
            },
            TripSpec::UsingTransit { start, stop1, .. } => {
                let req = maybe_req.unwrap();
                let entered = entering_events(person, start, around.lane_src);
                match maybe_path {
                    Some(path) => self.go(
                        now,
                        trip,
                        entered,
                        false,
                        Command::SpawnPed(
                            CreatePedestrian {
                                id: ped,
                                speed,
                                start,
                                goal: SidewalkSpot::bus_stop(stop1, around.walk_to),
                                path,
                                req,
                                trip,
                                person: id,
                            },
                        ),
                    ),
                    None => self.fail(
                        now,
                        trip,
                        entered,
                        false,
                        say_no_first_path("UsingTransit", req),
                        None,
                        None,
                    ),
                }
            },
            TripSpec::Remote { from, trip_time, .. } => {
                let mut entered: Vec<Event> = Vec::new();
                entered.push(Event::PersonLeavesRemoteBuilding(id, from));
                entered.push(Event::TripPhaseStarting(trip, id, None, TripPhaseType::Remote));
                assert(entered@ =~= seq![
                    Event::PersonLeavesRemoteBuilding(id, from),
                    Event::TripPhaseStarting(trip, id, None, TripPhaseType::Remote),
                ]);
                self.go(now.after(trip_time), trip, entered, false, Command::FinishRemoteTrip(trip))
            },
        }
    }
}

/// The events of `entering`.
fn entering_events(person: &Person, start: SidewalkSpot, lane_src: IntersectionID) -> (v: Vec<Event>)
    ensures
        v@ == entering(*person, start, lane_src),
{
    let mut v: Vec<Event> = Vec::new();
    match start.connection {
        SidewalkPOI::Border(i, loc) => {
            v.push(Event::PersonEntersMap(person.id, AgentID::Pedestrian(person.ped), i, loc));
        },
        SidewalkPOI::SuddenlyAppear => {
            v.push(
                Event::PersonEntersMap(person.id, AgentID::Pedestrian(person.ped), lane_src, None),
            );
        },
        _ => {},
    }
    assert(v@ =~= entering(*person, start, lane_src));
    v
}

} // verus!
