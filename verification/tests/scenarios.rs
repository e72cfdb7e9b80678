use trips::events::{
    AlertLocation, Command, CreateCar, CreatePedestrian, Event, Outcome, TripPhaseType, VehicleWarp,
};
use trips::ids::{
    AgentID, BuildingID, BusRouteID, BusStopID, CarID, IntersectionID, LaneID, OffMapLocation,
    PedestrianID, PersonID, TripID, VehicleType,
};
use trips::manager::start::Surroundings;
use trips::manager::TripManager;
use trips::person::PersonState;
use trips::places::{
    DrivingGoal, MapExits, ParkingSpot, Path, PathConstraints, PathRequest, Position, SidewalkPOI,
    SidewalkSpot,
};
use trips::trip::{DelayedTrip, TripEndpoint, TripLeg, TripMode, TripPurpose, TripResult, TripSpec};
use trips::units::{Distance, Duration, Speed, Time};
use trips::vehicles::{ParkedCar, Vehicle, VehicleSpec};

const SECOND: u64 = 10_000;

fn clock(hours: u64, minutes: u64) -> Time {
    Time((hours * 3600 + minutes * 60) * SECOND)
}

fn minutes(n: i64) -> Duration {
    Duration(n * 60 * (SECOND as i64))
}

fn pos(lane: usize, dist: u64) -> Position {
    Position { lane: LaneID(lane), dist_along: Distance(dist) }
}

fn door(b: usize) -> SidewalkSpot {
    SidewalkSpot { connection: SidewalkPOI::Building(BuildingID(b)), sidewalk_pos: pos(100 + b, 5) }
}

fn stop(idx: usize) -> BusStopID {
    BusStopID { sidewalk: LaneID(50), idx }
}

fn at_stop(idx: usize) -> SidewalkSpot {
    SidewalkSpot { connection: SidewalkPOI::BusStop(stop(idx)), sidewalk_pos: pos(50, 10 * idx as u64) }
}

fn exits() -> MapExits {
    MapExits {
        incoming_borders: vec![IntersectionID(7), IntersectionID(9)],
        route_exits: vec![None, Some(IntersectionID(9))],
    }
}

fn some_path() -> Path {
    Path { lanes: vec![LaneID(1), LaneID(2), LaneID(3)] }
}

fn nothing_around() -> Surroundings {
    Surroundings {
        lane_src: IntersectionID(0),
        capped: false,
        parked_car: None,
        walk_from: pos(0, 0),
        walk_to: pos(0, 0),
        path_to_car: None,
        bike_rack: None,
    }
}

fn car_spec() -> VehicleSpec {
    VehicleSpec { vehicle_type: VehicleType::Car, length: Distance(45_000), max_speed: None }
}

fn bike_spec() -> VehicleSpec {
    VehicleSpec { vehicle_type: VehicleType::Bike, length: Distance(18_000), max_speed: Some(Speed(40)) }
}

fn people(tm: &mut TripManager, n: usize) {
    for i in 0..n {
        tm.new_person(PersonID(i), None, Speed(13), vec![]);
    }
}

fn idle() -> Outcome {
    Outcome { command: None, unpark: None, warp: None, next: None }
}

fn state_of(tm: &TripManager, p: usize) -> PersonState {
    tm.get_person(PersonID(p)).unwrap().state
}

#[test]
fn walk_only_trip_ends_inside_the_building() {
    let mut tm = TripManager::new(true);
    people(&mut tm, 1);
    let t = tm.new_trip(
        PersonID(0),
        clock(8, 0),
        TripEndpoint::Bldg(BuildingID(1)),
        TripMode::Walk,
        TripPurpose::Work,
        false,
        vec![TripLeg::Walk(door(2))],
        &exits(),
    );
    assert_eq!(t, TripID(0));
    assert_eq!(state_of(&tm, 0), PersonState::Inside(BuildingID(1)));
    assert_eq!(tm.collect_events(), vec![Event::PersonEntersBuilding(PersonID(0), BuildingID(1))]);

    let req = PathRequest::walking(door(1).sidewalk_pos, door(2).sidewalk_pos);
    let out = tm.start_trip(
        clock(8, 0),
        t,
        TripSpec::JustWalking { start: door(1), goal: door(2) },
        Some(req),
        Some(some_path()),
        nothing_around(),
    );
    assert_eq!(
        out,
        Outcome {
            command: Some((
                clock(8, 0),
                Command::SpawnPed(CreatePedestrian {
                    id: PedestrianID(0),
                    speed: Speed(13),
                    start: door(1),
                    goal: door(2),
                    path: some_path(),
                    req,
                    trip: t,
                    person: PersonID(0),
                }),
            )),
            ..idle()
        }
    );
    assert_eq!(state_of(&tm, 0), PersonState::Trip(t));
    assert!(tm.trip_started(t));
    assert_eq!(tm.collect_events(), vec![]);
    assert_eq!(tm.trip_to_agent(t), TripResult::ModeChange);

    tm.agent_starting_trip_leg(AgentID::Pedestrian(PedestrianID(0)), t);
    assert_eq!(tm.trip_to_agent(t), TripResult::Found(AgentID::Pedestrian(PedestrianID(0))));

    let out = tm.ped_reached_building(clock(8, 10), PedestrianID(0), BuildingID(2), door(2).sidewalk_pos, Duration(0));
    assert_eq!(out, idle());
    assert_eq!(
        tm.collect_events(),
        vec![
            Event::TripFinished {
                trip: t,
                mode: TripMode::Walk,
                total_time: minutes(10),
                blocked_time: Duration(0),
            },
            Event::PersonEntersBuilding(PersonID(0), BuildingID(2)),
        ]
    );
    assert_eq!(state_of(&tm, 0), PersonState::Inside(BuildingID(2)));
    assert_eq!(tm.trip_legs(t), vec![]);
    assert_eq!(tm.finished_trip_time(t), Some((minutes(10), Duration(0))));
    assert_eq!(tm.trip_to_agent(t), TripResult::TripDone);
    assert_eq!(tm.num_active_agents(), 0);
    assert!(tm.is_done());
}

#[test]
fn parking_inside_the_destination_ends_the_trip() {
    let mut tm = TripManager::new(true);
    tm.new_person(PersonID(0), None, Speed(13), vec![]);
    tm.new_person(PersonID(1), None, Speed(13), vec![car_spec()]);
    let car = CarID(0, VehicleType::Car);
    let goal = DrivingGoal::ParkNear(BuildingID(3));
    let t = tm.new_trip(
        PersonID(1),
        clock(7, 0),
        TripEndpoint::Border(IntersectionID(7), None),
        TripMode::Drive,
        TripPurpose::Home,
        false,
        vec![TripLeg::Drive(car, goal), TripLeg::Walk(door(3))],
        &exits(),
    );
    assert_eq!(tm.trip_info(t).end, TripEndpoint::Bldg(BuildingID(3)));
    assert_eq!(state_of(&tm, 1), PersonState::OffMap);
    assert_eq!(tm.collect_events(), vec![]);

    let req = PathRequest { start: pos(1, 0), end: pos(3, 20), constraints: PathConstraints::Car };
    let mut around = nothing_around();
    around.lane_src = IntersectionID(7);
    let out = tm.start_trip(
        clock(7, 0),
        t,
        TripSpec::VehicleAppearing {
            start_pos: pos(1, 0),
            goal,
            use_vehicle: car,
            retry_if_no_room: true,
            origin: None,
        },
        Some(req),
        Some(some_path()),
        around,
    );
    let vehicle = Vehicle {
        id: car,
        owner: Some(PersonID(1)),
        vehicle_type: VehicleType::Car,
        length: Distance(45_000),
        max_speed: None,
    };
    assert_eq!(
        out.command,
        Some((
            clock(7, 0),
            Command::SpawnCar(
                CreateCar {
                    vehicle,
                    goal,
                    path: some_path(),
                    req,
                    start_dist: Distance(0),
                    maybe_parked_car: None,
                    trip: t,
                    person: PersonID(1),
                },
                true,
            ),
        ))
    );
    assert_eq!(
        tm.collect_events(),
        vec![Event::PersonEntersMap(PersonID(1), AgentID::Car(car), IntersectionID(7), None)]
    );
    tm.agent_starting_trip_leg(AgentID::Car(car), t);

    let out = tm.car_reached_parking_spot(
        clock(7, 30),
        car,
        ParkingSpot::Offstreet(BuildingID(3), 0),
        minutes(2),
        pos(103, 5),
        None,
    );
    assert_eq!(out, idle());
    assert_eq!(tm.trip_legs(t), vec![]);
    assert_eq!(
        tm.collect_events(),
        vec![
            Event::TripFinished {
                trip: t,
                mode: TripMode::Drive,
                total_time: minutes(30),
                blocked_time: minutes(2),
            },
            Event::PersonEntersBuilding(PersonID(1), BuildingID(3)),
        ]
    );
    assert_eq!(state_of(&tm, 1), PersonState::Inside(BuildingID(3)));
    assert_eq!(tm.agent_to_trip(AgentID::Car(car)), None);
    assert_eq!(tm.num_trips(), (1, 0));
}

#[test]
fn parking_elsewhere_goes_on_with_a_walk() {
    let mut tm = TripManager::new(true);
    tm.new_person(PersonID(0), None, Speed(11), vec![car_spec()]);
    let car = CarID(0, VehicleType::Car);
    let goal = DrivingGoal::ParkNear(BuildingID(3));
    let t = tm.new_trip(
        PersonID(0),
        clock(7, 0),
        TripEndpoint::Border(IntersectionID(7), None),
        TripMode::Drive,
        TripPurpose::Home,
        false,
        vec![TripLeg::Drive(car, goal), TripLeg::Walk(door(3))],
        &exits(),
    );
    let req = PathRequest { start: pos(1, 0), end: pos(3, 20), constraints: PathConstraints::Car };
    tm.start_trip(
        clock(7, 0),
        t,
        TripSpec::VehicleAppearing {
            start_pos: pos(1, 0),
            goal,
            use_vehicle: car,
            retry_if_no_room: false,
            origin: None,
        },
        Some(req),
        Some(some_path()),
        nothing_around(),
    );
    tm.agent_starting_trip_leg(AgentID::Car(car), t);
    tm.collect_events();

    let spot = ParkingSpot::Onstreet(LaneID(4), 2);
    let legs = tm.agent_legs(AgentID::Car(car));
    assert_eq!(
        legs,
        Some((t, PersonID(0), TripLeg::Drive(car, goal), Some(TripLeg::Walk(door(3)))))
    );
    let out =
        tm.car_reached_parking_spot(clock(7, 20), car, spot, Duration(0), pos(5, 8), Some(some_path()));
    let start = SidewalkSpot { connection: SidewalkPOI::ParkingSpot(spot), sidewalk_pos: pos(5, 8) };
    assert_eq!(
        out,
        Outcome {
            command: Some((
                clock(7, 20),
                Command::SpawnPed(CreatePedestrian {
                    id: PedestrianID(0),
                    speed: Speed(11),
                    start,
                    goal: door(3),
                    path: some_path(),
                    req: PathRequest::walking(pos(5, 8), door(3).sidewalk_pos),
                    trip: t,
                    person: PersonID(0),
                }),
            )),
            ..idle()
        }
    );
    assert_eq!(tm.trip_legs(t), vec![TripLeg::Walk(door(3))]);
    assert_eq!(tm.collect_events(), vec![]);
    assert_eq!(state_of(&tm, 0), PersonState::Trip(t));
    assert_eq!(tm.num_trips(), (0, 1));
}

#[test]
fn walk_after_parking_without_a_path_cancels_the_trip() {
    let mut tm = TripManager::new(true);
    tm.new_person(PersonID(0), None, Speed(11), vec![car_spec()]);
    let car = CarID(0, VehicleType::Car);
    let goal = DrivingGoal::ParkNear(BuildingID(3));
    let t = tm.new_trip(
        PersonID(0),
        clock(7, 0),
        TripEndpoint::Border(IntersectionID(7), None),
        TripMode::Drive,
        TripPurpose::Home,
        false,
        vec![TripLeg::Drive(car, goal), TripLeg::Walk(door(3))],
        &exits(),
    );
    let req = PathRequest { start: pos(1, 0), end: pos(3, 20), constraints: PathConstraints::Car };
    tm.start_trip(
        clock(7, 0),
        t,
        TripSpec::VehicleAppearing {
            start_pos: pos(1, 0),
            goal,
            use_vehicle: car,
            retry_if_no_room: false,
            origin: None,
        },
        Some(req),
        Some(some_path()),
        nothing_around(),
    );
    tm.agent_starting_trip_leg(AgentID::Car(car), t);
    tm.collect_events();

    let out = tm.car_reached_parking_spot(
        clock(7, 20),
        car,
        ParkingSpot::Onstreet(LaneID(4), 2),
        Duration(5),
        pos(5, 8),
        None,
    );
    assert_eq!(out, idle());
    assert_eq!(
        tm.trip_info(t).cancellation_reason,
        Some(
            "no path for the walking portion from Position(Lane #5, 8) to Position(Lane #103, 5)"
                .to_string()
        )
    );
    assert_eq!(
        tm.collect_events(),
        vec![Event::TripCancelled(t), Event::PersonEntersBuilding(PersonID(0), BuildingID(3))]
    );
    assert_eq!(state_of(&tm, 0), PersonState::Inside(BuildingID(3)));
    assert_eq!(tm.trip_blocked_time(t), Duration(5));
    assert_eq!(tm.num_trips(), (1, 0));
    assert_eq!(tm.trip_to_agent(t), TripResult::TripCancelled);
}

fn transit_trip(tm: &mut TripManager, person: usize) -> TripID {
    let t = tm.new_trip(
        PersonID(person),
        clock(9, 0),
        TripEndpoint::Bldg(BuildingID(0)),
        TripMode::Transit,
        TripPurpose::Shopping,
        false,
        vec![
            TripLeg::Walk(at_stop(1)),
            TripLeg::RideBus(BusRouteID(4), Some(stop(2))),
            TripLeg::Walk(door(4)),
        ],
        &exits(),
    );
    let req = PathRequest::walking(door(0).sidewalk_pos, at_stop(1).sidewalk_pos);
    let mut around = nothing_around();
    around.walk_to = at_stop(1).sidewalk_pos;
    let out = tm.start_trip(
        clock(9, 0),
        t,
        TripSpec::UsingTransit {
            start: door(0),
            goal: door(4),
            route: BusRouteID(4),
            stop1: stop(1),
            maybe_stop2: Some(stop(2)),
        },
        Some(req),
        Some(some_path()),
        around,
    );
    assert_eq!(
        out.command,
        Some((
            clock(9, 0),
            Command::SpawnPed(CreatePedestrian {
                id: PedestrianID(person),
                speed: Speed(13),
                start: door(0),
                goal: at_stop(1),
                path: some_path(),
                req,
                trip: t,
                person: PersonID(person),
            }),
        ))
    );
    tm.agent_starting_trip_leg(AgentID::Pedestrian(PedestrianID(person)), t);
    tm.collect_events();
    t
}

#[test]
fn bus_ride_with_a_wait_at_the_stop() {
    let mut tm = TripManager::new(true);
    people(&mut tm, 3);
    let t = transit_trip(&mut tm, 2);
    let ped = PedestrianID(2);
    let bus = CarID(77, VehicleType::Bus);

    assert_eq!(
        tm.agent_legs(AgentID::Pedestrian(ped)),
        Some((
            t,
            PersonID(2),
            TripLeg::Walk(at_stop(1)),
            Some(TripLeg::RideBus(BusRouteID(4), Some(stop(2)))),
        ))
    );
    let route = tm.ped_reached_bus_stop(ped, stop(1), at_stop(1).sidewalk_pos, minutes(1), None);
    assert_eq!(route, Some(BusRouteID(4)));
    assert_eq!(
        tm.trip_legs(t),
        vec![
            TripLeg::Walk(at_stop(1)),
            TripLeg::RideBus(BusRouteID(4), Some(stop(2))),
            TripLeg::Walk(door(4)),
        ]
    );
    assert_eq!(
        tm.collect_events(),
        vec![Event::TripPhaseStarting(
            t,
            PersonID(2),
            None,
            TripPhaseType::WaitingForBus(BusRouteID(4), stop(1)),
        )]
    );
    assert_eq!(tm.agent_to_trip(AgentID::Pedestrian(ped)), Some(t));
    assert_eq!(tm.get_person(PersonID(2)).unwrap().on_bus, None);

    let r = tm.ped_boarded_bus(ped, bus, minutes(3));
    assert_eq!(r, (t, PersonID(2)));
    assert_eq!(
        tm.trip_legs(t),
        vec![TripLeg::RideBus(BusRouteID(4), Some(stop(2))), TripLeg::Walk(door(4))]
    );
    assert_eq!(tm.agent_to_trip(AgentID::Pedestrian(ped)), None);
    assert_eq!(tm.agent_to_trip(AgentID::BusPassenger(PersonID(2), bus)), Some(t));
    assert_eq!(tm.get_person(PersonID(2)).unwrap().on_bus, Some(bus));
    assert_eq!(tm.trip_to_agent(t), TripResult::Found(AgentID::BusPassenger(PersonID(2), bus)));
    assert_eq!(tm.trip_blocked_time(t), minutes(4));

    let out = tm.person_left_bus(
        clock(9, 40),
        PersonID(2),
        bus,
        at_stop(2).sidewalk_pos,
        Some(some_path()),
    );
    assert_eq!(
        out,
        Outcome {
            command: Some((
                clock(9, 40),
                Command::SpawnPed(CreatePedestrian {
                    id: ped,
                    speed: Speed(13),
                    start: at_stop(2),
                    goal: door(4),
                    path: some_path(),
                    req: PathRequest::walking(at_stop(2).sidewalk_pos, door(4).sidewalk_pos),
                    trip: t,
                    person: PersonID(2),
                }),
            )),
            ..idle()
        }
    );
    assert_eq!(tm.trip_legs(t), vec![TripLeg::Walk(door(4))]);
    assert_eq!(tm.get_person(PersonID(2)).unwrap().on_bus, None);
    assert_eq!(tm.num_active_agents(), 0);
    assert_eq!(tm.trip_to_agent(t), TripResult::ModeChange);
    assert_eq!(tm.trip_blocked_time(t), minutes(4));
}

#[test]
fn bus_that_is_at_the_stop_is_boarded_at_once() {
    let mut tm = TripManager::new(true);
    people(&mut tm, 1);
    let t = transit_trip(&mut tm, 0);
    let bus = CarID(5, VehicleType::Bus);
    let route = tm.ped_reached_bus_stop(PedestrianID(0), stop(1), at_stop(1).sidewalk_pos, Duration(7), Some(bus));
    assert_eq!(route, None);
    assert_eq!(
        tm.trip_legs(t),
        vec![TripLeg::RideBus(BusRouteID(4), Some(stop(2))), TripLeg::Walk(door(4))]
    );
    assert_eq!(tm.active_agents(), vec![AgentID::BusPassenger(PersonID(0), bus)]);
    assert_eq!(tm.get_active_trips(), vec![t]);
    assert_eq!(tm.get_person(PersonID(0)).unwrap().on_bus, Some(bus));
    assert_eq!(tm.trip_blocked_time(t), Duration(7));
    assert_eq!(
        tm.collect_events(),
        vec![Event::TripPhaseStarting(
            t,
            PersonID(0),
            None,
            TripPhaseType::WaitingForBus(BusRouteID(4), stop(1)),
        )]
    );
}

#[test]
fn riding_off_the_map_ends_the_trip_and_the_ride() {
    let mut tm = TripManager::new(true);
    people(&mut tm, 1);
    let t = tm.new_trip(
        PersonID(0),
        clock(9, 0),
        TripEndpoint::Bldg(BuildingID(0)),
        TripMode::Transit,
        TripPurpose::Work,
        false,
        vec![TripLeg::Walk(at_stop(1)), TripLeg::RideBus(BusRouteID(1), None)],
        &exits(),
    );
    assert_eq!(tm.trip_info(t).end, TripEndpoint::Border(IntersectionID(9), None));
    let req = PathRequest::walking(door(0).sidewalk_pos, at_stop(1).sidewalk_pos);
    tm.start_trip(
        clock(9, 0),
        t,
        TripSpec::UsingTransit {
            start: door(0),
            goal: door(0),
            route: BusRouteID(1),
            stop1: stop(1),
            maybe_stop2: None,
        },
        Some(req),
        Some(some_path()),
        nothing_around(),
    );
    tm.agent_starting_trip_leg(AgentID::Pedestrian(PedestrianID(0)), t);
    let bus = CarID(5, VehicleType::Bus);
    tm.ped_boarded_bus(PedestrianID(0), bus, Duration(0));
    tm.collect_events();

    let out = tm.transit_rider_reached_border(clock(9, 30), PersonID(0), bus);
    assert_eq!(out, idle());
    assert_eq!(
        tm.collect_events(),
        vec![
            Event::TripFinished {
                trip: t,
                mode: TripMode::Transit,
                total_time: minutes(30),
                blocked_time: Duration(0),
            },
            Event::PersonLeavesMap(
                PersonID(0),
                Some(AgentID::BusPassenger(PersonID(0), bus)),
                IntersectionID(9),
                None,
            ),
        ]
    );
    assert_eq!(state_of(&tm, 0), PersonState::OffMap);
    assert_eq!(tm.get_person(PersonID(0)).unwrap().on_bus, None);
    assert_eq!(tm.num_active_agents(), 0);
}

fn walking_trip(tm: &mut TripManager, person: usize, from: usize, to: usize, at: Time) -> TripID {
    tm.new_trip(
        PersonID(person),
        at,
        TripEndpoint::Bldg(BuildingID(from)),
        TripMode::Walk,
        TripPurpose::Social,
        false,
        vec![TripLeg::Walk(door(to))],
        &exits(),
    )
}

fn start_walking(tm: &mut TripManager, t: TripID, from: usize, to: usize, now: Time) -> Outcome {
    tm.start_trip(
        now,
        t,
        TripSpec::JustWalking { start: door(from), goal: door(to) },
        Some(PathRequest::walking(door(from).sidewalk_pos, door(to).sidewalk_pos)),
        Some(some_path()),
        nothing_around(),
    )
}

#[test]
fn trip_that_comes_too_early_waits_for_the_one_before() {
    let mut tm = TripManager::new(true);
    people(&mut tm, 4);
    let t1 = walking_trip(&mut tm, 3, 1, 2, clock(8, 0));
    let t2 = walking_trip(&mut tm, 3, 2, 5, clock(8, 5));
    start_walking(&mut tm, t1, 1, 2, clock(8, 0));
    tm.agent_starting_trip_leg(AgentID::Pedestrian(PedestrianID(3)), t1);
    tm.collect_events();
    assert_eq!(state_of(&tm, 3), PersonState::Trip(t1));

    let out = start_walking(&mut tm, t2, 2, 5, clock(8, 5));
    assert_eq!(out, idle());
    assert!(!tm.trip_started(t2));
    assert_eq!(tm.trip_to_agent(t2), TripResult::TripNotStarted);
    assert_eq!(
        tm.collect_events(),
        vec![Event::TripPhaseStarting(t2, PersonID(3), None, TripPhaseType::DelayedStart)]
    );
    let waiting = DelayedTrip {
        trip: t2,
        spec: TripSpec::JustWalking { start: door(2), goal: door(5) },
        req: Some(PathRequest::walking(door(2).sidewalk_pos, door(5).sidewalk_pos)),
        path: Some(some_path()),
    };
    assert_eq!(tm.get_person(PersonID(3)).unwrap().delayed_trips, vec![waiting.clone()]);
    assert_eq!(state_of(&tm, 3), PersonState::Trip(t1));

    let out = tm.ped_reached_building(clock(8, 20), PedestrianID(3), BuildingID(2), door(2).sidewalk_pos, Duration(0));
    assert_eq!(out, Outcome { next: Some(waiting), ..idle() });
    assert_eq!(tm.get_person(PersonID(3)).unwrap().delayed_trips, vec![]);
    assert_eq!(state_of(&tm, 3), PersonState::Inside(BuildingID(2)));
    tm.collect_events();

    let next = out.next.unwrap();
    let out = tm.start_trip(clock(8, 20), next.trip, next.spec, next.req, next.path, nothing_around());
    assert!(out.command.is_some());
    assert!(tm.trip_started(t2));
    assert_eq!(state_of(&tm, 3), PersonState::Trip(t2));
    assert_eq!(tm.num_trips(), (1, 1));
}

#[test]
fn delayed_trips_start_in_the_order_in_which_they_came() {
    let mut tm = TripManager::new(true);
    people(&mut tm, 1);
    let t1 = walking_trip(&mut tm, 0, 1, 2, clock(8, 0));
    let t2 = walking_trip(&mut tm, 0, 2, 3, clock(8, 1));
    let t3 = walking_trip(&mut tm, 0, 3, 4, clock(8, 2));
    start_walking(&mut tm, t1, 1, 2, clock(8, 0));
    start_walking(&mut tm, t2, 2, 3, clock(8, 1));
    start_walking(&mut tm, t3, 3, 4, clock(8, 2));
    let queue = &tm.get_person(PersonID(0)).unwrap().delayed_trips;
    assert_eq!(queue.len(), 2);
    assert_eq!(queue[0].trip, t2);
    assert_eq!(queue[1].trip, t3);
    tm.agent_starting_trip_leg(AgentID::Pedestrian(PedestrianID(0)), t1);
    let out = tm.ped_reached_building(clock(8, 30), PedestrianID(0), BuildingID(2), door(2).sidewalk_pos, Duration(0));
    assert_eq!(out.next.as_ref().unwrap().trip, t2);
    let queue = &tm.get_person(PersonID(0)).unwrap().delayed_trips;
    assert_eq!(queue.len(), 1);
    assert_eq!(queue[0].trip, t3);
}

fn parked(car: CarID, owner: usize, spot: ParkingSpot) -> ParkedCar {
    ParkedCar {
        vehicle: Vehicle {
            id: car,
            owner: Some(PersonID(owner)),
            vehicle_type: car.1,
            length: Distance(45_000),
            max_speed: None,
        },
        spot,
        parked_since: clock(0, 0),
    }
}

fn driving_trip_from_home(tm: &mut TripManager, spot: ParkingSpot) -> (TripID, ParkedCar) {
    tm.new_person(PersonID(0), None, Speed(13), vec![car_spec()]);
    let car = CarID(0, VehicleType::Car);
    let t = tm.new_trip(
        PersonID(0),
        clock(10, 0),
        TripEndpoint::Bldg(BuildingID(1)),
        TripMode::Drive,
        TripPurpose::Work,
        false,
        vec![
            TripLeg::Walk(SidewalkSpot::deferred_parking_spot()),
            TripLeg::Drive(car, DrivingGoal::ParkNear(BuildingID(5))),
            TripLeg::Walk(door(5)),
        ],
        &exits(),
    );
    let car_at = parked(car, 0, spot);
    let mut around = nothing_around();
    around.parked_car = Some(car_at);
    around.walk_from = door(1).sidewalk_pos;
    around.walk_to = pos(6, 30);
    around.path_to_car = Some(some_path());
    let out = tm.start_trip(
        clock(10, 0),
        t,
        TripSpec::UsingParkedCar {
            car,
            start_bldg: BuildingID(1),
            goal: DrivingGoal::ParkNear(BuildingID(5)),
        },
        None,
        None,
        around,
    );
    assert_eq!(
        out,
        Outcome {
            command: Some((
                clock(10, 0),
                Command::SpawnPed(CreatePedestrian {
                    id: PedestrianID(0),
                    speed: Speed(13),
                    start: door(1),
                    goal: SidewalkSpot {
                        connection: SidewalkPOI::ParkingSpot(spot),
                        sidewalk_pos: pos(6, 30),
                    },
                    path: some_path(),
                    req: PathRequest::walking(door(1).sidewalk_pos, pos(6, 30)),
                    trip: t,
                    person: PersonID(0),
                }),
            )),
            ..idle()
        }
    );
    tm.agent_starting_trip_leg(AgentID::Pedestrian(PedestrianID(0)), t);
    tm.collect_events();
    (t, car_at)
}

#[test]
fn drive_without_a_path_is_cancelled_and_the_car_is_warped() {
    let mut tm = TripManager::new(true);
    let spot = ParkingSpot::Onstreet(LaneID(6), 1);
    let (t, car_at) = driving_trip_from_home(&mut tm, spot);

    let out = tm.ped_reached_parking_spot(
        clock(10, 5),
        PedestrianID(0),
        spot,
        Duration(0),
        car_at,
        pos(7, 30),
        pos(9, 0),
        None,
        false,
    );
    let warp = VehicleWarp {
        person: PersonID(0),
        vehicle: car_at.vehicle,
        near: BuildingID(5),
        since: clock(10, 5),
    };
    assert_eq!(out, Outcome { unpark: Some(car_at), warp: Some(warp), ..idle() });
    assert_eq!(
        tm.collect_events(),
        vec![
            Event::PedReachedParkingSpot(PedestrianID(0), spot),
            Event::TripCancelled(t),
            Event::PersonEntersBuilding(PersonID(0), BuildingID(5)),
        ]
    );
    assert_eq!(
        tm.trip_info(t).cancellation_reason,
        Some("no path to drive from Position(Lane #7, 30) to Position(Lane #9, 0)".to_string())
    );
    assert_eq!(state_of(&tm, 0), PersonState::Inside(BuildingID(5)));
    assert_eq!(tm.num_active_agents(), 0);
    assert!(tm.is_done());

    let free = ParkingSpot::Offstreet(BuildingID(5), 2);
    let now_parked = tm.vehicle_warped(warp, Some(free));
    assert_eq!(
        now_parked,
        Some(ParkedCar { vehicle: car_at.vehicle, spot: free, parked_since: clock(10, 5) })
    );
    assert_eq!(
        tm.collect_events(),
        vec![Event::Alert(
            AlertLocation::Person(PersonID(0)),
            "Person 0 had a trip cancelled, and their car was warped to Offstreet(Building #5, 2)"
                .to_string(),
        )]
    );
}

#[test]
fn drive_out_of_a_garage_without_a_path_leaves_the_garage() {
    let mut tm = TripManager::new(true);
    let spot = ParkingSpot::Offstreet(BuildingID(9), 0);
    let (t, car_at) = driving_trip_from_home(&mut tm, spot);
    let out = tm.ped_reached_parking_spot(
        clock(10, 5),
        PedestrianID(0),
        spot,
        Duration(0),
        car_at,
        pos(7, 30),
        pos(9, 0),
        None,
        true,
    );
    assert_eq!(out.unpark, Some(car_at));
    assert_eq!(out.warp.map(|w| w.near), Some(BuildingID(5)));
    assert_eq!(
        tm.collect_events(),
        vec![
            Event::PedReachedParkingSpot(PedestrianID(0), spot),
            Event::PersonEntersBuilding(PersonID(0), BuildingID(9)),
            Event::TripCancelled(t),
            Event::PersonLeavesBuilding(PersonID(0), BuildingID(9)),
            Event::PersonEntersBuilding(PersonID(0), BuildingID(5)),
        ]
    );
    assert_eq!(
        tm.trip_info(t).cancellation_reason,
        Some("no path to drive from Position(Lane #7, 45030) to Position(Lane #9, 0)".to_string())
    );
    assert!(tm.trip_info(t).capped);
    assert_eq!(state_of(&tm, 0), PersonState::Inside(BuildingID(5)));
}

#[test]
fn car_that_cannot_be_warped_is_reported() {
    let mut tm = TripManager::new(true);
    people(&mut tm, 13);
    let warp = VehicleWarp {
        person: PersonID(12),
        vehicle: parked(CarID(3, VehicleType::Car), 12, ParkingSpot::Onstreet(LaneID(1), 1)).vehicle,
        near: BuildingID(5),
        since: clock(1, 0),
    };
    assert_eq!(tm.vehicle_warped(warp, None), None);
    assert_eq!(
        tm.collect_events(),
        vec![Event::Alert(
            AlertLocation::Person(PersonID(12)),
            "Person 12 had a trip cancelled, but nowhere to warp their car".to_string(),
        )]
    );
}

#[test]
fn car_pulls_out_of_a_spot_inside_a_building_nose_first() {
    let mut tm = TripManager::new(true);
    let spot = ParkingSpot::Offstreet(BuildingID(1), 0);
    let (t, car_at) = driving_trip_from_home(&mut tm, spot);
    let goal = DrivingGoal::ParkNear(BuildingID(5));
    assert_eq!(
        tm.agent_legs(AgentID::Pedestrian(PedestrianID(0))),
        Some((
            t,
            PersonID(0),
            TripLeg::Walk(SidewalkSpot::deferred_parking_spot()),
            Some(TripLeg::Drive(car_at.vehicle.id, goal)),
        ))
    );
    let req = trips::manager::transfers::driving_request(spot, &car_at, pos(7, 30), pos(9, 0));
    assert_eq!(
        req,
        PathRequest { start: pos(7, 45_030), end: pos(9, 0), constraints: PathConstraints::Car }
    );
    let out = tm.ped_reached_parking_spot(
        clock(10, 5),
        PedestrianID(0),
        spot,
        minutes(1),
        car_at,
        pos(7, 30),
        pos(9, 0),
        Some(some_path()),
        true,
    );
    assert_eq!(
        out,
        Outcome {
            command: Some((
                clock(10, 5),
                Command::SpawnCar(
                    CreateCar {
                        vehicle: car_at.vehicle,
                        goal,
                        path: some_path(),
                        req,
                        start_dist: Distance(45_030),
                        maybe_parked_car: Some(car_at),
                        trip: t,
                        person: PersonID(0),
                    },
                    true,
                ),
            )),
            ..idle()
        }
    );
    assert_eq!(
        tm.collect_events(),
        vec![
            Event::PedReachedParkingSpot(PedestrianID(0), spot),
            Event::PersonEntersBuilding(PersonID(0), BuildingID(1)),
        ]
    );
    assert!(tm.trip_info(t).capped);
    assert_eq!(tm.trip_legs(t), vec![TripLeg::Drive(car_at.vehicle.id, goal), TripLeg::Walk(door(5))]);
    assert_eq!(tm.trip_blocked_time(t), minutes(1));
    assert_eq!(
        trips::manager::transfers::unparking_start(
            ParkingSpot::Onstreet(LaneID(7), 0),
            &car_at,
            pos(7, 30)
        ),
        pos(7, 30)
    );
}

#[test]
fn trip_beyond_the_map_only_takes_time() {
    let mut tm = TripManager::new(true);
    people(&mut tm, 5);
    let from = OffMapLocation { parcel_id: 11 };
    let to = OffMapLocation { parcel_id: 22 };
    let t = tm.new_trip(
        PersonID(4),
        clock(9, 0),
        TripEndpoint::Border(IntersectionID(7), Some(from)),
        TripMode::Drive,
        TripPurpose::Work,
        false,
        vec![TripLeg::Remote(to)],
        &exits(),
    );
    assert_eq!(tm.trip_info(t).end, TripEndpoint::Border(IntersectionID(7), Some(to)));
    assert_eq!(tm.collect_events(), vec![Event::PersonEntersRemoteBuilding(PersonID(4), from)]);
    assert_eq!(state_of(&tm, 4), PersonState::OffMap);

    let out = tm.start_trip(
        clock(9, 0),
        t,
        TripSpec::Remote { from, to, trip_time: minutes(20), mode: TripMode::Drive },
        None,
        None,
        nothing_around(),
    );
    assert_eq!(
        out,
        Outcome { command: Some((clock(9, 20), Command::FinishRemoteTrip(t))), ..idle() }
    );
    assert_eq!(
        tm.collect_events(),
        vec![
            Event::PersonLeavesRemoteBuilding(PersonID(4), from),
            Event::TripPhaseStarting(t, PersonID(4), None, TripPhaseType::Remote),
        ]
    );
    assert_eq!(state_of(&tm, 4), PersonState::Trip(t));
    assert_eq!(tm.trip_to_agent(t), TripResult::RemoteTrip);

    let out = tm.remote_trip_finished(clock(9, 20), t);
    assert_eq!(out, idle());
    assert_eq!(
        tm.collect_events(),
        vec![
            Event::TripFinished {
                trip: t,
                mode: TripMode::Drive,
                total_time: minutes(20),
                blocked_time: Duration(0),
            },
            Event::PersonEntersRemoteBuilding(PersonID(4), to),
        ]
    );
    assert_eq!(state_of(&tm, 4), PersonState::OffMap);
    assert_eq!(tm.trip_to_agent(t), TripResult::TripDone);
}
