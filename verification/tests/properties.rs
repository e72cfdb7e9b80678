use trips::events::{Command, Event, Outcome};
use trips::ids::{
    AgentID, AgentType, BuildingID, BusRouteID, BusStopID, CarID, IntersectionID, LaneID, OffMapLocation,
    OrigPersonID, PedestrianID, PersonID, TripID, VehicleType,
};
use trips::manager::queries::{AgentCounts, PersonPlan, TripPlan};
use trips::manager::start::{Questions, Surroundings};
use trips::manager::TripManager;
use trips::person::PersonState;
use trips::places::{
    DrivingGoal, MapExits, ParkingSpot, Path, PathConstraints, PathRequest, Position, SidewalkPOI,
    SidewalkSpot,
};
use trips::registry::ActiveAgents;
use trips::trip::{
    EndpointLookup, TripEndpoint, TripInfo, TripLeg, TripMode, TripPurpose, TripResult, TripSpec,
};
use trips::units::{Distance, Duration, Speed, Time};
use trips::vehicles::{Vehicle, VehicleSpec};

fn pos(lane: usize, dist: u64) -> Position {
    Position { lane: LaneID(lane), dist_along: Distance(dist) }
}

fn door(b: usize) -> SidewalkSpot {
    SidewalkSpot { connection: SidewalkPOI::Building(BuildingID(b)), sidewalk_pos: pos(100 + b, 5) }
}

fn border(i: usize) -> SidewalkSpot {
    SidewalkSpot {
        connection: SidewalkPOI::Border(IntersectionID(i), None),
        sidewalk_pos: pos(200 + i, 0),
    }
}

fn exits() -> MapExits {
    MapExits { incoming_borders: vec![IntersectionID(7)], route_exits: vec![Some(IntersectionID(8))] }
}

fn some_path() -> Path {
    Path { lanes: vec![LaneID(1)] }
}

fn nothing_around() -> Surroundings {
    Surroundings {
        lane_src: IntersectionID(0),
        capped: false,
        parked_car: None,
        walk_from: pos(0, 0),
        walk_to: pos(0, 0),
        path_to_car: None,
        bike_rack: None,
    }
}

fn walking_trip(tm: &mut TripManager, person: usize, from: usize, to: usize, at: u64) -> TripID {
    tm.new_trip(
        PersonID(person),
        Time(at),
        TripEndpoint::Bldg(BuildingID(from)),
        TripMode::Walk,
        TripPurpose::Social,
        false,
        vec![TripLeg::Walk(door(to))],
        &exits(),
    )
}

fn start_walking(tm: &mut TripManager, t: TripID, from: usize, to: usize, now: u64) -> Outcome {
    tm.start_trip(
        Time(now),
        t,
        TripSpec::JustWalking { start: door(from), goal: door(to) },
        Some(PathRequest::walking(door(from).sidewalk_pos, door(to).sidewalk_pos)),
        Some(some_path()),
        nothing_around(),
    )
}

fn idle() -> Outcome {
    Outcome { command: None, unpark: None, warp: None, next: None }
}

#[test]
fn new_manager_is_empty_and_done() {
    let mut tm = TripManager::new(false);
    assert!(!tm.pathfinding_upfront);
    assert_eq!(tm.num_trips(), (0, 0));
    assert_eq!(tm.num_ppl(), (0, 0, 0));
    assert_eq!(tm.num_active_agents(), 0);
    assert!(tm.is_done());
    assert_eq!(tm.collect_events(), vec![]);
    assert_eq!(tm.trip_to_agent(TripID(0)), TripResult::TripDoesntExist);
    assert!(tm.get_person(PersonID(0)).is_none());
    assert!(TripManager::new(true).pathfinding_upfront);
}

#[test]
fn people_get_their_vehicles_numbered_in_order() {
    let mut tm = TripManager::new(true);
    let car = VehicleSpec { vehicle_type: VehicleType::Car, length: Distance(40), max_speed: None };
    let bike =
        VehicleSpec { vehicle_type: VehicleType::Bike, length: Distance(18), max_speed: Some(Speed(4)) };
    tm.new_person(PersonID(0), Some(OrigPersonID(3, 4)), Speed(13), vec![car, bike]);
    assert_eq!(tm.new_car_id(), 2);
    let someone = tm.random_person(Speed(9), vec![bike]);
    assert_eq!(someone.id, PersonID(1));
    assert_eq!(someone.ped_speed, Speed(9));
    assert_eq!(tm.new_car_id(), 4);

    let ann = tm.get_person(PersonID(0)).unwrap();
    assert_eq!(ann.id, PersonID(0));
    assert_eq!(ann.orig_id, Some(OrigPersonID(3, 4)));
    assert_eq!(ann.ped, PedestrianID(0));
    assert_eq!(ann.ped_speed, Speed(13));
    assert_eq!(ann.state, PersonState::OffMap);
    assert_eq!(ann.trips, vec![]);
    assert_eq!(ann.on_bus, None);
    assert_eq!(
        ann.vehicles,
        vec![
            Vehicle {
                id: CarID(0, VehicleType::Car),
                owner: Some(PersonID(0)),
                vehicle_type: VehicleType::Car,
                length: Distance(40),
                max_speed: None,
            },
            Vehicle {
                id: CarID(1, VehicleType::Bike),
                owner: Some(PersonID(0)),
                vehicle_type: VehicleType::Bike,
                length: Distance(18),
                max_speed: Some(Speed(4)),
            },
        ]
    );
    assert_eq!(ann.get_vehicle(CarID(1, VehicleType::Bike)).length, Distance(18));
    assert!(ann.has_vehicle(CarID(0, VehicleType::Car)));
    assert!(!ann.has_vehicle(CarID(0, VehicleType::Bike)));
    let bob = tm.get_person(PersonID(1)).unwrap();
    assert_eq!(bob.vehicles[0].id, CarID(3, VehicleType::Bike));
    assert_eq!(bob.orig_id, None);
    assert_eq!(tm.get_all_people().len(), 2);
    assert_eq!(tm.num_ppl(), (2, 0, 2));
}

#[test]
fn trips_of_a_person_stay_in_the_order_of_their_departures() {
    let mut tm = TripManager::new(true);
    tm.new_person(PersonID(0), None, Speed(13), vec![]);
    tm.new_person(PersonID(1), None, Speed(13), vec![]);
    let a = walking_trip(&mut tm, 0, 1, 2, 100);
    let b = walking_trip(&mut tm, 1, 5, 6, 50);
    let c = walking_trip(&mut tm, 0, 2, 3, 100);
    let d = walking_trip(&mut tm, 0, 3, 4, 300);
    assert_eq!((a, b, c, d), (TripID(0), TripID(1), TripID(2), TripID(3)));
    let mine = &tm.get_person(PersonID(0)).unwrap().trips;
    assert_eq!(mine, &vec![a, c, d]);
    let mut last = 0;
    for t in mine {
        let dep = tm.trip_info(*t).departure.0;
        assert!(last <= dep);
        last = dep;
        assert_eq!(tm.trip_to_person(*t), PersonID(0));
    }
    assert_eq!(tm.get_person(PersonID(1)).unwrap().trips, vec![b]);
    assert_eq!(tm.num_trips(), (0, 4));
}

#[test]
fn only_the_first_trip_says_where_a_person_is() {
    let mut tm = TripManager::new(true);
    tm.new_person(PersonID(0), None, Speed(13), vec![]);
    walking_trip(&mut tm, 0, 1, 2, 100);
    walking_trip(&mut tm, 0, 9, 3, 200);
    assert_eq!(tm.get_person(PersonID(0)).unwrap().state, PersonState::Inside(BuildingID(1)));
    assert_eq!(tm.collect_events(), vec![Event::PersonEntersBuilding(PersonID(0), BuildingID(1))]);

    tm.new_person(PersonID(1), None, Speed(13), vec![]);
    tm.new_trip(
        PersonID(1),
        Time(5),
        TripEndpoint::Border(IntersectionID(7), None),
        TripMode::Walk,
        TripPurpose::Home,
        true,
        vec![TripLeg::Walk(border(3))],
        &exits(),
    );
    assert_eq!(tm.get_person(PersonID(1)).unwrap().state, PersonState::OffMap);
    assert_eq!(tm.collect_events(), vec![]);
    assert_eq!(
        tm.trip_info(TripID(2)),
        TripInfo {
            departure: Time(5),
            mode: TripMode::Walk,
            start: TripEndpoint::Border(IntersectionID(7), None),
            end: TripEndpoint::Border(IntersectionID(3), None),
            purpose: TripPurpose::Home,
            modified: true,
            capped: false,
            cancellation_reason: None,
        }
    );
}

#[test]
fn the_end_of_a_trip_comes_from_its_last_leg() {
    let mut tm = TripManager::new(true);
    tm.new_person(PersonID(0), None, Speed(13), vec![]);
    let car = CarID(0, VehicleType::Car);
    let to = OffMapLocation { parcel_id: 5 };
    let start = TripEndpoint::Bldg(BuildingID(0));
    let legs = vec![
        (vec![TripLeg::Drive(car, DrivingGoal::ParkNear(BuildingID(4)))], TripEndpoint::Bldg(BuildingID(4))),
        (
            vec![TripLeg::Drive(car, DrivingGoal::Border(IntersectionID(2), LaneID(1), Some(to)))],
            TripEndpoint::Border(IntersectionID(2), Some(to)),
        ),
        (vec![TripLeg::Remote(to)], TripEndpoint::Border(IntersectionID(7), Some(to))),
        (
            vec![TripLeg::Walk(door(1)), TripLeg::RideBus(BusRouteID(0), None)],
            TripEndpoint::Border(IntersectionID(8), None),
        ),
        (vec![TripLeg::Walk(door(6))], TripEndpoint::Bldg(BuildingID(6))),
    ];
    for (n, (legs, end)) in legs.into_iter().enumerate() {
        let t = tm.new_trip(
            PersonID(0),
            Time(n as u64),
            start,
            TripMode::Drive,
            TripPurpose::Meal,
            false,
            legs.clone(),
            &exits(),
        );
        assert_eq!(tm.trip_info(t).end, end);
        assert_eq!(tm.trip_legs(t), legs);
    }
    let all = tm.all_trip_info();
    assert_eq!(all.len(), 5);
    assert_eq!(all[2].0, TripID(2));
    assert_eq!(all[2].1, tm.trip_info(TripID(2)));
}

#[test]
fn every_trip_is_finished_or_cancelled_or_open() {
    let mut tm = TripManager::new(true);
    tm.new_person(PersonID(0), None, Speed(13), vec![]);
    let done = walking_trip(&mut tm, 0, 1, 2, 10);
    let dropped = walking_trip(&mut tm, 0, 2, 3, 20);
    let open = walking_trip(&mut tm, 0, 3, 4, 30);
    assert_eq!(tm.num_trips(), (0, 3));
    start_walking(&mut tm, done, 1, 2, 10);
    tm.agent_starting_trip_leg(AgentID::Pedestrian(PedestrianID(0)), done);
    tm.ped_reached_building(Time(15), PedestrianID(0), BuildingID(2), door(2).sidewalk_pos, Duration(0));
    assert_eq!(tm.num_trips(), (1, 2));
    tm.cancel_unstarted_trip(dropped, "rained out".to_string());
    assert_eq!(tm.num_trips(), (2, 1));
    assert!(!tm.is_done());
    for (t, finished, cancelled) in [(done, true, false), (dropped, false, true), (open, false, false)] {
        assert_eq!(tm.finished_trip_time(t).is_some(), finished);
        assert_eq!(tm.trip_info(t).cancellation_reason.is_some(), cancelled);
        assert_eq!(tm.trip_legs(t).is_empty(), finished);
    }
    assert_eq!(tm.trip_info(dropped).cancellation_reason, Some("rained out".to_string()));
    assert_eq!(tm.trip_to_agent(dropped), TripResult::TripCancelled);
    assert_eq!(tm.trip_to_agent(open), TripResult::TripNotStarted);
    assert_eq!(tm.get_person(PersonID(0)).unwrap().state, PersonState::Inside(BuildingID(2)));
}

#[test]
fn cancelling_a_trip_on_its_way_warps_the_person() {
    let mut tm = TripManager::new(true);
    tm.new_person(PersonID(0), None, Speed(13), vec![]);
    let t = walking_trip(&mut tm, 0, 1, 2, 10);
    let later = walking_trip(&mut tm, 0, 2, 3, 20);
    start_walking(&mut tm, t, 1, 2, 10);
    start_walking(&mut tm, later, 2, 3, 20);
    tm.collect_events();
    let out = tm.cancel_trip(Time(25), t, "gave up".to_string(), None);
    assert_eq!(out.command, None);
    assert_eq!(out.warp, None);
    assert_eq!(out.next.as_ref().map(|d| d.trip), Some(later));
    assert_eq!(
        tm.collect_events(),
        vec![Event::TripCancelled(t), Event::PersonEntersBuilding(PersonID(0), BuildingID(2))]
    );
    assert_eq!(tm.get_person(PersonID(0)).unwrap().state, PersonState::Inside(BuildingID(2)));
    assert_eq!(tm.trip_info(t).cancellation_reason, Some("gave up".to_string()));
    assert_eq!(tm.num_trips(), (1, 1));
    assert!(tm.trip_started(t));
    assert_eq!(tm.trip_legs(t), vec![TripLeg::Walk(door(2))]);
}

#[test]
fn cancelling_a_drive_takes_its_car_out_of_the_registry() {
    let mut tm = TripManager::new(true);
    let car_spec = VehicleSpec { vehicle_type: VehicleType::Car, length: Distance(40), max_speed: None };
    tm.new_person(PersonID(0), None, Speed(13), vec![car_spec]);
    let car = CarID(0, VehicleType::Car);
    let goal = DrivingGoal::Border(IntersectionID(2), LaneID(9), None);
    let t = tm.new_trip(
        PersonID(0),
        Time(0),
        TripEndpoint::Border(IntersectionID(7), None),
        TripMode::Drive,
        TripPurpose::Work,
        false,
        vec![TripLeg::Drive(car, goal)],
        &exits(),
    );
    let req = PathRequest { start: pos(1, 0), end: pos(9, 0), constraints: PathConstraints::Car };
    tm.start_trip(
        Time(0),
        t,
        TripSpec::VehicleAppearing {
            start_pos: pos(1, 0),
            goal,
            use_vehicle: car,
            retry_if_no_room: true,
            origin: None,
        },
        Some(req),
        Some(some_path()),
        nothing_around(),
    );
    tm.agent_starting_trip_leg(AgentID::Car(car), t);
    tm.collect_events();
    let out = tm.cancel_trip(Time(9), t, "out of parking".to_string(), None);
    assert_eq!(out, idle());
    assert_eq!(tm.agent_to_trip(AgentID::Car(car)), None);
    assert_eq!(tm.get_person(PersonID(0)).unwrap().state, PersonState::OffMap);
    assert_eq!(
        tm.collect_events(),
        vec![Event::TripCancelled(t), Event::PersonLeavesMap(PersonID(0), None, IntersectionID(2), None)]
    );
}

#[test]
fn blocked_times_add_up_over_all_handlers() {
    let mut tm = TripManager::new(true);
    tm.new_person(PersonID(0), None, Speed(13), vec![]);
    tm.new_person(PersonID(1), None, Speed(13), vec![]);
    let a = walking_trip(&mut tm, 0, 1, 2, 10);
    let b = tm.new_trip(
        PersonID(1),
        Time(10),
        TripEndpoint::Bldg(BuildingID(5)),
        TripMode::Walk,
        TripPurpose::Home,
        false,
        vec![TripLeg::Walk(border(3))],
        &exits(),
    );
    start_walking(&mut tm, a, 1, 2, 10);
    tm.start_trip(
        Time(10),
        b,
        TripSpec::JustWalking { start: door(5), goal: border(3) },
        Some(PathRequest::walking(door(5).sidewalk_pos, border(3).sidewalk_pos)),
        Some(some_path()),
        nothing_around(),
    );
    tm.agent_starting_trip_leg(AgentID::Pedestrian(PedestrianID(0)), a);
    tm.agent_starting_trip_leg(AgentID::Pedestrian(PedestrianID(1)), b);
    let total = |tm: &TripManager| tm.trip_blocked_time(a).0 + tm.trip_blocked_time(b).0;
    assert_eq!(total(&tm), 0);
    tm.ped_reached_building(Time(40), PedestrianID(0), BuildingID(2), door(2).sidewalk_pos, Duration(17));
    assert_eq!(total(&tm), 17);
    tm.collect_events();
    tm.ped_reached_border(Time(50), PedestrianID(1), IntersectionID(3), Duration(25));
    assert_eq!(total(&tm), 42);
    assert_eq!(tm.trip_blocked_time(b), Duration(25));
    assert_eq!(
        tm.collect_events(),
        vec![
            Event::TripFinished {
                trip: b,
                mode: TripMode::Walk,
                total_time: Duration(40),
                blocked_time: Duration(25),
            },
            Event::PersonLeavesMap(
                PersonID(1),
                Some(AgentID::Pedestrian(PedestrianID(1))),
                IntersectionID(3),
                None,
            ),
        ]
    );
    assert_eq!(tm.get_person(PersonID(1)).unwrap().state, PersonState::OffMap);
    assert_eq!(tm.finished_trip_time(b), Some((Duration(40), Duration(25))));
    assert_eq!(tm.finished_trip_time(a), Some((Duration(30), Duration(17))));
}

#[test]
fn active_agents_are_found_with_their_trips() {
    let mut tm = TripManager::new(true);
    let car_spec = VehicleSpec { vehicle_type: VehicleType::Car, length: Distance(40), max_speed: None };
    let bike_spec = VehicleSpec { vehicle_type: VehicleType::Bike, length: Distance(18), max_speed: None };
    tm.new_person(PersonID(0), None, Speed(13), vec![]);
    tm.new_person(PersonID(1), None, Speed(13), vec![car_spec]);
    tm.new_person(PersonID(2), None, Speed(13), vec![bike_spec]);
    let walk = walking_trip(&mut tm, 0, 1, 2, 10);
    start_walking(&mut tm, walk, 1, 2, 10);
    tm.agent_starting_trip_leg(AgentID::Pedestrian(PedestrianID(0)), walk);

    let mut drives = vec![];
    for (person, kind) in [(1, VehicleType::Car), (2, VehicleType::Bike)] {
        let id = CarID(person - 1, kind);
        let goal = DrivingGoal::Border(IntersectionID(2), LaneID(9), None);
        let t = tm.new_trip(
            PersonID(person),
            Time(0),
            TripEndpoint::Border(IntersectionID(7), None),
            TripMode::Drive,
            TripPurpose::Work,
            false,
            vec![TripLeg::Drive(id, goal)],
            &exits(),
        );
        tm.start_trip(
            Time(0),
            t,
            TripSpec::VehicleAppearing {
                start_pos: pos(1, 0),
                goal,
                use_vehicle: id,
                retry_if_no_room: true,
                origin: None,
            },
            Some(PathRequest { start: pos(1, 0), end: pos(9, 0), constraints: PathConstraints::Car }),
            Some(some_path()),
            nothing_around(),
        );
        drives.push((id, t));
    }
    tm.agent_starting_trip_leg(AgentID::Car(drives[1].0), drives[1].1);
    tm.agent_starting_trip_leg(AgentID::Car(drives[0].0), drives[0].1);

    assert_eq!(
        tm.active_agents(),
        vec![
            AgentID::Car(CarID(0, VehicleType::Car)),
            AgentID::Car(CarID(1, VehicleType::Bike)),
            AgentID::Pedestrian(PedestrianID(0)),
        ]
    );
    assert_eq!(tm.get_active_trips(), vec![drives[0].1, drives[1].1, walk]);
    assert_eq!(tm.num_active_agents(), 3);
    for a in tm.active_agents() {
        let t = tm.agent_to_trip(a).unwrap();
        assert_eq!(tm.trip_to_agent(t), TripResult::Found(a));
        let head = tm.trip_legs(t)[0];
        match a {
            AgentID::Pedestrian(_) => assert!(matches!(head, TripLeg::Walk(_))),
            AgentID::Car(c) => assert!(matches!(head, TripLeg::Drive(c2, _) if c2 == c)),
            AgentID::BusPassenger(_, _) => assert!(matches!(head, TripLeg::RideBus(_, _))),
        }
        assert_eq!(tm.trip_goal(a), Some((t, head)));
    }
    assert_eq!(tm.agent_to_trip(AgentID::Pedestrian(PedestrianID(1))), None);
    assert_eq!(tm.trip_goal(AgentID::Pedestrian(PedestrianID(1))), None);
    assert_eq!(tm.agent_for(walk), Some(AgentID::Pedestrian(PedestrianID(0))));
    assert_eq!(tm.agent_for(drives[1].1), Some(AgentID::Car(drives[1].0)));
    assert_eq!(tm.agent_for(TripID(17)), None);
    assert_eq!(
        tm.debug_trip(AgentID::Pedestrian(PedestrianID(0))),
        "Trip #0 has goal Walk(Building #2)"
    );
    assert_eq!(
        tm.debug_trip(AgentID::Car(CarID(1, VehicleType::Bike))),
        "Trip #2 has goal Drive(Bike #1, Border(Intersection #2, Lane #9))"
    );
    assert_eq!(
        tm.debug_trip(AgentID::Car(CarID(7, VehicleType::Bus))),
        "Bus #7 has no trip, must be parked car"
    );
    assert_eq!(
        tm.debug_trip(AgentID::BusPassenger(PersonID(3), CarID(7, VehicleType::Train))),
        "Person 3 on Train #7 has no trip, must be parked car"
    );
    assert_eq!(
        tm.debug_trip(AgentID::Pedestrian(PedestrianID(9))),
        "Pedestrian #9 has no trip, must be parked car"
    );
    assert_eq!(
        tm.num_agents(3, 1),
        AgentCounts { cars: 1, bikes: 1, buses: 3, trains: 1, pedestrians: 1, transit_riders: 0 }
    );
    let registry: &ActiveAgents = tm.active_agents_and_trips();
    assert_eq!(registry.len(), 3);
    assert_eq!(registry.lookup(AgentID::Pedestrian(PedestrianID(0))), Some(walk));

    let out = tm.car_or_bike_reached_border(Time(90), drives[1].0, IntersectionID(2), Duration(1));
    assert_eq!(out, idle());
    assert_eq!(tm.num_active_agents(), 2);
    assert_eq!(tm.num_ppl(), (3, 0, 1));
}

#[test]
fn a_ride_on_no_bus_has_no_agent() {
    let mut tm = TripManager::new(true);
    tm.new_person(PersonID(0), None, Speed(13), vec![]);
    let t = tm.new_trip(
        PersonID(0),
        Time(0),
        TripEndpoint::Bldg(BuildingID(1)),
        TripMode::Transit,
        TripPurpose::Work,
        false,
        vec![TripLeg::RideBus(BusRouteID(0), None)],
        &exits(),
    );
    start_walking(&mut tm, t, 1, 2, 0);
    assert_eq!(tm.trip_to_agent(t), TripResult::ModeChange);
    assert_eq!(tm.agent_for(t), None);
    assert_eq!(tm.num_active_agents(), 0);
}

#[test]
fn people_are_counted_by_where_they_are() {
    let mut tm = TripManager::new(true);
    for i in 0..4 {
        tm.new_person(PersonID(i), None, Speed(13), vec![]);
    }
    let t = walking_trip(&mut tm, 0, 1, 2, 10);
    walking_trip(&mut tm, 1, 1, 2, 10);
    walking_trip(&mut tm, 3, 2, 1, 10);
    assert_eq!(tm.num_ppl(), (4, 3, 1));
    assert_eq!(tm.bldg_to_people(BuildingID(1)), vec![PersonID(0), PersonID(1)]);
    assert_eq!(tm.bldg_to_people(BuildingID(2)), vec![PersonID(3)]);
    assert_eq!(tm.bldg_to_people(BuildingID(3)), vec![]);
    start_walking(&mut tm, t, 1, 2, 10);
    assert_eq!(tm.num_ppl(), (4, 2, 1));
    assert_eq!(tm.bldg_to_people(BuildingID(1)), vec![PersonID(1)]);
}

#[test]
fn arrivals_at_a_border_come_sorted() {
    let mut tm = TripManager::new(true);
    tm.new_person(PersonID(0), None, Speed(13), vec![]);
    tm.new_person(PersonID(1), None, Speed(13), vec![]);
    tm.new_person(PersonID(2), None, Speed(13), vec![]);
    let mut add = |person: usize, at: u64, from: usize, mode: TripMode| {
        tm.new_trip(
            PersonID(person),
            Time(at),
            TripEndpoint::Border(IntersectionID(from), None),
            mode,
            TripPurpose::Work,
            false,
            vec![TripLeg::Walk(door(1))],
            &exits(),
        )
    };
    add(0, 30, 7, TripMode::Walk);
    add(1, 10, 7, TripMode::Transit);
    let gone = add(2, 5, 7, TripMode::Bike);
    add(0, 30, 7, TripMode::Drive);
    add(1, 20, 4, TripMode::Drive);
    add(2, 30, 7, TripMode::Bike);
    tm.cancel_unstarted_trip(gone, "no".to_string());
    assert_eq!(
        tm.all_arrivals_at_border(IntersectionID(7)),
        vec![
            (Time(10), AgentType::Pedestrian),
            (Time(30), AgentType::Car),
            (Time(30), AgentType::Bike),
            (Time(30), AgentType::Pedestrian),
        ]
    );
    assert_eq!(tm.all_arrivals_at_border(IntersectionID(4)), vec![(Time(20), AgentType::Car)]);
    assert_eq!(tm.all_arrivals_at_border(IntersectionID(5)), vec![]);
}

#[test]
fn a_scenario_keeps_endpoints_mode_departure_and_purpose() {
    let mut tm = TripManager::new(true);
    tm.new_person(PersonID(0), Some(OrigPersonID(1, 2)), Speed(13), vec![]);
    tm.new_person(PersonID(1), None, Speed(13), vec![]);
    walking_trip(&mut tm, 0, 1, 2, 10);
    walking_trip(&mut tm, 0, 2, 3, 20);
    assert_eq!(
        tm.generate_scenario(),
        vec![
            PersonPlan {
                id: PersonID(0),
                orig_id: Some(OrigPersonID(1, 2)),
                trips: vec![
                    TripPlan {
                        departure: Time(10),
                        purpose: TripPurpose::Social,
                        start: TripEndpoint::Bldg(BuildingID(1)),
                        end: TripEndpoint::Bldg(BuildingID(2)),
                        mode: TripMode::Walk,
                    },
                    TripPlan {
                        departure: Time(20),
                        purpose: TripPurpose::Social,
                        start: TripEndpoint::Bldg(BuildingID(2)),
                        end: TripEndpoint::Bldg(BuildingID(3)),
                        mode: TripMode::Walk,
                    },
                ],
            },
            PersonPlan { id: PersonID(1), orig_id: None, trips: vec![] },
        ]
    );
}

#[test]
fn every_way_of_starting_has_its_questions() {
    let nothing = Questions {
        lane: None,
        cap_for: None,
        parked_car: None,
        door: None,
        stop: None,
        bike_rack: None,
    };
    let car = CarID(4, VehicleType::Car);
    let goal = DrivingGoal::ParkNear(BuildingID(2));
    let stop1 = BusStopID { sidewalk: LaneID(3), idx: 0 };
    let appear = SidewalkSpot { connection: SidewalkPOI::SuddenlyAppear, sidewalk_pos: pos(44, 1) };
    let asked = |spec: TripSpec| spec.questions();
    assert_eq!(
        asked(TripSpec::VehicleAppearing {
            start_pos: pos(12, 3),
            goal,
            use_vehicle: car,
            retry_if_no_room: false,
            origin: None,
        }),
        Questions { lane: Some(LaneID(12)), cap_for: Some(car), ..nothing }
    );
    assert_eq!(
        asked(TripSpec::NoRoomToSpawn {
            i: IntersectionID(1),
            goal,
            use_vehicle: car,
            origin: None,
            error: String::new(),
        }),
        nothing
    );
    assert_eq!(
        asked(TripSpec::UsingParkedCar { car, start_bldg: BuildingID(8), goal }),
        Questions { parked_car: Some(car), door: Some(BuildingID(8)), ..nothing }
    );
    assert_eq!(asked(TripSpec::JustWalking { start: door(1), goal: door(2) }), nothing);
    assert_eq!(
        asked(TripSpec::JustWalking { start: appear, goal: door(2) }),
        Questions { lane: Some(LaneID(44)), ..nothing }
    );
    assert_eq!(
        asked(TripSpec::UsingBike { bike: car, start: BuildingID(8), goal }),
        Questions { door: Some(BuildingID(8)), bike_rack: Some(BuildingID(8)), ..nothing }
    );
    assert_eq!(
        asked(TripSpec::UsingTransit {
            start: appear,
            goal: door(2),
            route: BusRouteID(0),
            stop1,
            maybe_stop2: None,
        }),
        Questions { lane: Some(LaneID(44)), stop: Some(stop1), ..nothing }
    );
    assert_eq!(
        asked(TripSpec::Remote {
            from: OffMapLocation { parcel_id: 1 },
            to: OffMapLocation { parcel_id: 2 },
            trip_time: Duration(5),
            mode: TripMode::Drive,
        }),
        nothing
    );
}

#[test]
fn a_pedestrian_who_suddenly_appears_enters_the_map() {
    let mut tm = TripManager::new(true);
    tm.new_person(PersonID(0), None, Speed(13), vec![]);
    let appear = SidewalkSpot { connection: SidewalkPOI::SuddenlyAppear, sidewalk_pos: pos(44, 1) };
    let t = tm.new_trip(
        PersonID(0),
        Time(0),
        TripEndpoint::Border(IntersectionID(7), None),
        TripMode::Walk,
        TripPurpose::Home,
        false,
        vec![TripLeg::Walk(border(3))],
        &exits(),
    );
    let mut around = nothing_around();
    around.lane_src = IntersectionID(21);
    tm.start_trip(
        Time(0),
        t,
        TripSpec::JustWalking { start: appear, goal: border(3) },
        Some(PathRequest::walking(appear.sidewalk_pos, border(3).sidewalk_pos)),
        Some(some_path()),
        around,
    );
    assert_eq!(
        tm.collect_events(),
        vec![Event::PersonEntersMap(
            PersonID(0),
            AgentID::Pedestrian(PedestrianID(0)),
            IntersectionID(21),
            None,
        )]
    );

    tm.new_person(PersonID(1), None, Speed(13), vec![]);
    let from = OffMapLocation { parcel_id: 3 };
    let t = tm.new_trip(
        PersonID(1),
        Time(0),
        TripEndpoint::Border(IntersectionID(7), None),
        TripMode::Walk,
        TripPurpose::Home,
        false,
        vec![TripLeg::Walk(door(3))],
        &exits(),
    );
    let at_border = SidewalkSpot {
        connection: SidewalkPOI::Border(IntersectionID(7), Some(from)),
        sidewalk_pos: pos(70, 0),
    };
    tm.start_trip(
        Time(0),
        t,
        TripSpec::JustWalking { start: at_border, goal: door(3) },
        Some(PathRequest::walking(at_border.sidewalk_pos, door(3).sidewalk_pos)),
        Some(some_path()),
        nothing_around(),
    );
    assert_eq!(
        tm.collect_events(),
        vec![Event::PersonEntersMap(
            PersonID(1),
            AgentID::Pedestrian(PedestrianID(1)),
            IntersectionID(7),
            Some(from),
        )]
    );
}

#[test]
fn paths_are_looked_for_late_only_when_asked_to() {
    let req = Some(PathRequest::walking(pos(1, 0), pos(2, 0)));
    let late = TripManager::new(false);
    assert!(late.needs_path(&req, &None));
    assert!(!late.needs_path(&req, &Some(some_path())));
    assert!(!late.needs_path(&None, &None));
    let early = TripManager::new(true);
    assert!(!early.needs_path(&req, &None));
}

#[test]
fn a_start_without_a_path_cancels_the_trip() {
    let mut tm = TripManager::new(true);
    tm.new_person(PersonID(0), None, Speed(13), vec![]);
    let t = walking_trip(&mut tm, 0, 1, 2, 10);
    tm.collect_events();
    let out = tm.start_trip(
        Time(10),
        t,
        TripSpec::JustWalking { start: door(1), goal: door(2) },
        Some(PathRequest::walking(door(1).sidewalk_pos, door(2).sidewalk_pos)),
        None,
        nothing_around(),
    );
    assert_eq!(out, idle());
    assert_eq!(
        tm.trip_info(t).cancellation_reason,
        Some(
            "JustWalking couldn't find the first path from Position(Lane #101, 5) to Position(Lane #102, 5)"
                .to_string()
        )
    );
    assert_eq!(
        tm.collect_events(),
        vec![
            Event::TripCancelled(t),
            Event::PersonLeavesBuilding(PersonID(0), BuildingID(1)),
            Event::PersonEntersBuilding(PersonID(0), BuildingID(2)),
        ]
    );
    assert!(tm.trip_started(t));
    assert!(tm.is_done());
    assert_eq!(tm.get_person(PersonID(0)).unwrap().state, PersonState::Inside(BuildingID(2)));
}

#[test]
fn a_vehicle_without_room_to_appear_cancels_the_trip() {
    let mut tm = TripManager::new(true);
    let car_spec = VehicleSpec { vehicle_type: VehicleType::Car, length: Distance(40), max_speed: None };
    tm.new_person(PersonID(0), None, Speed(13), vec![car_spec]);
    let car = CarID(0, VehicleType::Car);
    let goal = DrivingGoal::ParkNear(BuildingID(4));
    let t = tm.new_trip(
        PersonID(0),
        Time(0),
        TripEndpoint::Bldg(BuildingID(1)),
        TripMode::Drive,
        TripPurpose::Work,
        false,
        vec![TripLeg::Drive(car, goal), TripLeg::Walk(door(4))],
        &exits(),
    );
    tm.collect_events();
    let out = tm.start_trip(
        Time(3),
        t,
        TripSpec::NoRoomToSpawn {
            i: IntersectionID(12),
            goal,
            use_vehicle: car,
            origin: None,
            error: "no lanes".to_string(),
        },
        None,
        None,
        nothing_around(),
    );
    assert_eq!(out.command, None);
    assert_eq!(out.unpark, None);
    let warp = out.warp.unwrap();
    assert_eq!(warp.person, PersonID(0));
    assert_eq!(warp.vehicle.id, car);
    assert_eq!(warp.near, BuildingID(4));
    assert_eq!(warp.since, Time(3));
    assert_eq!(
        tm.trip_info(t).cancellation_reason,
        Some("couldn't spawn at border Intersection #12: no lanes".to_string())
    );
    assert_eq!(
        tm.collect_events(),
        vec![
            Event::TripCancelled(t),
            Event::PersonLeavesBuilding(PersonID(0), BuildingID(1)),
            Event::PersonEntersBuilding(PersonID(0), BuildingID(4)),
        ]
    );
    assert!(tm.trip_started(t));
}

#[test]
fn a_parked_car_that_is_gone_cancels_the_trip() {
    let mut tm = TripManager::new(true);
    let car_spec = VehicleSpec { vehicle_type: VehicleType::Car, length: Distance(40), max_speed: None };
    tm.new_person(PersonID(0), None, Speed(13), vec![car_spec]);
    let car = CarID(0, VehicleType::Car);
    let goal = DrivingGoal::ParkNear(BuildingID(4));
    let t = tm.new_trip(
        PersonID(0),
        Time(0),
        TripEndpoint::Bldg(BuildingID(1)),
        TripMode::Drive,
        TripPurpose::Work,
        false,
        vec![
            TripLeg::Walk(SidewalkSpot::deferred_parking_spot()),
            TripLeg::Drive(car, goal),
            TripLeg::Walk(door(4)),
        ],
        &exits(),
    );
    let out = tm.start_trip(
        Time(3),
        t,
        TripSpec::UsingParkedCar { car, start_bldg: BuildingID(1), goal },
        None,
        None,
        nothing_around(),
    );
    assert_eq!(out, idle());
    assert_eq!(
        tm.trip_info(t).cancellation_reason,
        Some("should have Car #0 parked, but it's unavailable".to_string())
    );
    assert_eq!(tm.get_person(PersonID(0)).unwrap().state, PersonState::Inside(BuildingID(4)));
    assert_eq!(
        tm.collect_events(),
        vec![
            Event::PersonEntersBuilding(PersonID(0), BuildingID(1)),
            Event::TripCancelled(t),
            Event::PersonLeavesBuilding(PersonID(0), BuildingID(1)),
            Event::PersonEntersBuilding(PersonID(0), BuildingID(4)),
        ]
    );
}

#[test]
fn nobody_enters_a_building_without_leaving_the_one_they_were_in() {
    let mut tm = TripManager::new(true);
    tm.new_person(PersonID(0), None, Speed(13), vec![]);
    let t = walking_trip(&mut tm, 0, 1, 2, 10);
    let out = tm.start_trip(
        Time(10),
        t,
        TripSpec::JustWalking { start: door(1), goal: door(2) },
        Some(PathRequest::walking(door(1).sidewalk_pos, door(2).sidewalk_pos)),
        None,
        nothing_around(),
    );
    assert_eq!(out, idle());
    assert_eq!(
        tm.collect_events(),
        vec![
            Event::PersonEntersBuilding(PersonID(0), BuildingID(1)),
            Event::TripCancelled(t),
            Event::PersonLeavesBuilding(PersonID(0), BuildingID(1)),
            Event::PersonEntersBuilding(PersonID(0), BuildingID(2)),
        ]
    );
    assert_eq!(tm.get_person(PersonID(0)).unwrap().state, PersonState::Inside(BuildingID(2)));

    // From a border nothing is left behind, and the map is entered first.
    tm.new_person(PersonID(1), None, Speed(13), vec![]);
    let t = tm.new_trip(
        PersonID(1),
        Time(0),
        TripEndpoint::Border(IntersectionID(7), None),
        TripMode::Walk,
        TripPurpose::Home,
        false,
        vec![TripLeg::Walk(door(3))],
        &exits(),
    );
    tm.start_trip(
        Time(0),
        t,
        TripSpec::JustWalking { start: border(7), goal: door(3) },
        Some(PathRequest::walking(border(7).sidewalk_pos, door(3).sidewalk_pos)),
        None,
        nothing_around(),
    );
    assert_eq!(
        tm.collect_events(),
        vec![
            Event::PersonEntersMap(
                PersonID(1),
                AgentID::Pedestrian(PedestrianID(1)),
                IntersectionID(7),
                None,
            ),
            Event::TripCancelled(t),
            Event::PersonEntersBuilding(PersonID(1), BuildingID(3)),
        ]
    );
}

#[test]
fn an_abandoned_car_goes_to_the_nearest_free_spot() {
    let near = ParkingSpot::Onstreet(LaneID(1), 0);
    let far = ParkingSpot::Lot(trips::ids::ParkingLotID(2), 5);
    assert_eq!(trips::manager::cancel::warp_spot(Some(near), Some(far)), Some(near));
    assert_eq!(trips::manager::cancel::warp_spot(Some(near), None), Some(near));
    assert_eq!(trips::manager::cancel::warp_spot(None, Some(far)), Some(far));
    assert_eq!(trips::manager::cancel::warp_spot(None, None), None);
}

fn biking_trip(tm: &mut TripManager) -> (TripID, CarID, SidewalkSpot, DrivingGoal) {
    let bike_spec = VehicleSpec { vehicle_type: VehicleType::Bike, length: Distance(18), max_speed: None };
    tm.new_person(PersonID(0), None, Speed(13), vec![bike_spec]);
    let bike = CarID(0, VehicleType::Bike);
    let goal = DrivingGoal::ParkNear(BuildingID(4));
    let rack = SidewalkSpot { connection: SidewalkPOI::BikeRack(pos(30, 12)), sidewalk_pos: pos(31, 12) };
    let t = tm.new_trip(
        PersonID(0),
        Time(0),
        TripEndpoint::Bldg(BuildingID(1)),
        TripMode::Bike,
        TripPurpose::Work,
        false,
        vec![TripLeg::Walk(rack), TripLeg::Drive(bike, goal), TripLeg::Walk(door(4))],
        &exits(),
    );
    let mut around = nothing_around();
    around.walk_from = door(1).sidewalk_pos;
    around.bike_rack = Some(rack);
    let req = PathRequest::walking(door(1).sidewalk_pos, rack.sidewalk_pos);
    let out = tm.start_trip(
        Time(0),
        t,
        TripSpec::UsingBike { bike, start: BuildingID(1), goal },
        Some(req),
        Some(some_path()),
        around,
    );
    match out.command {
        Some((at, Command::SpawnPed(order))) => {
            assert_eq!(at, Time(0));
            assert_eq!(order.start, door(1));
            assert_eq!(order.goal, rack);
            assert_eq!(order.req, req);
        }
        other => panic!("no pedestrian was ordered: {:?}", other),
    }
    tm.agent_starting_trip_leg(AgentID::Pedestrian(PedestrianID(0)), t);
    tm.collect_events();
    (t, bike, rack, goal)
}

#[test]
fn a_bike_ride_from_the_rack_to_the_goal_and_on_foot_from_there() {
    let mut tm = TripManager::new(true);
    let (t, bike, rack, goal) = biking_trip(&mut tm);
    let out = tm.ped_ready_to_bike(
        Time(20),
        PedestrianID(0),
        rack,
        Duration(2),
        Some(pos(40, 0)),
        Some(some_path()),
    );
    match out.command {
        Some((at, Command::SpawnCar(order, retry))) => {
            assert_eq!(at, Time(20));
            assert!(retry);
            assert_eq!(order.vehicle.id, bike);
            assert_eq!(order.goal, goal);
            assert_eq!(
                order.req,
                PathRequest { start: pos(30, 12), end: pos(40, 0), constraints: PathConstraints::Bike }
            );
            assert_eq!(order.start_dist, Distance(12));
            assert_eq!(order.maybe_parked_car, None);
            assert_eq!((order.trip, order.person), (t, PersonID(0)));
        }
        other => panic!("no bike was ordered: {:?}", other),
    }
    assert_eq!(tm.trip_legs(t), vec![TripLeg::Drive(bike, goal), TripLeg::Walk(door(4))]);
    tm.agent_starting_trip_leg(AgentID::Car(bike), t);

    let end_rack = SidewalkSpot { connection: SidewalkPOI::BikeRack(pos(40, 0)), sidewalk_pos: pos(41, 3) };
    let out = tm.bike_reached_end(Time(50), bike, end_rack, Duration(3), Some(some_path()));
    match out.command {
        Some((at, Command::SpawnPed(order))) => {
            assert_eq!(at, Time(50));
            assert_eq!(order.start, end_rack);
            assert_eq!(order.goal, door(4));
            assert_eq!(order.req, PathRequest::walking(pos(41, 3), door(4).sidewalk_pos));
        }
        other => panic!("no pedestrian was ordered: {:?}", other),
    }
    assert_eq!(tm.collect_events(), vec![Event::BikeStoppedAtSidewalk(bike, LaneID(41))]);
    assert_eq!(tm.trip_blocked_time(t), Duration(5));
    assert_eq!(tm.trip_legs(t), vec![TripLeg::Walk(door(4))]);
}

#[test]
fn a_bike_ride_without_a_way_is_cancelled_and_the_bike_is_gone() {
    let mut tm = TripManager::new(true);
    let (t, _, rack, _) = biking_trip(&mut tm);
    let out = tm.ped_ready_to_bike(Time(20), PedestrianID(0), rack, Duration(0), None, None);
    assert_eq!(out, idle());
    assert_eq!(
        tm.trip_info(t).cancellation_reason,
        Some("no bike connection at ParkNear(Building #4)".to_string())
    );

    let mut tm = TripManager::new(true);
    let (t, _, rack, _) = biking_trip(&mut tm);
    let out = tm.ped_ready_to_bike(Time(20), PedestrianID(0), rack, Duration(0), Some(pos(40, 7)), None);
    assert_eq!(out, idle());
    assert_eq!(
        tm.trip_info(t).cancellation_reason,
        Some(
            "no path for the bike portion (or sidewalk connection at end), from Position(Lane #30, 12) to Position(Lane #40, 7)"
                .to_string()
        )
    );
    assert_eq!(tm.get_person(PersonID(0)).unwrap().state, PersonState::Inside(BuildingID(4)));
    assert_eq!(tm.num_active_agents(), 0);
}

#[test]
fn a_bike_without_a_place_to_mount_cancels_the_trip() {
    let mut tm = TripManager::new(true);
    let bike_spec = VehicleSpec { vehicle_type: VehicleType::Bike, length: Distance(18), max_speed: None };
    tm.new_person(PersonID(0), None, Speed(13), vec![bike_spec]);
    let bike = CarID(0, VehicleType::Bike);
    let goal = DrivingGoal::ParkNear(BuildingID(4));
    let t = tm.new_trip(
        PersonID(0),
        Time(0),
        TripEndpoint::Bldg(BuildingID(1)),
        TripMode::Bike,
        TripPurpose::Work,
        false,
        vec![TripLeg::Drive(bike, goal)],
        &exits(),
    );
    tm.start_trip(
        Time(0),
        t,
        TripSpec::UsingBike { bike, start: BuildingID(1), goal },
        None,
        None,
        nothing_around(),
    );
    assert_eq!(
        tm.trip_info(t).cancellation_reason,
        Some("UsingBike couldn't find a way to start biking from Building #1".to_string())
    );
    assert_eq!(
        tm.collect_events(),
        vec![
            Event::PersonEntersBuilding(PersonID(0), BuildingID(1)),
            Event::TripCancelled(t),
            Event::PersonLeavesBuilding(PersonID(0), BuildingID(1)),
            Event::PersonEntersBuilding(PersonID(0), BuildingID(4)),
        ]
    );
}

#[test]
fn words_for_the_modes() {
    assert_eq!(
        TripMode::all(),
        vec![TripMode::Walk, TripMode::Bike, TripMode::Transit, TripMode::Drive]
    );
    let words: Vec<(&str, &str, &str)> =
        TripMode::all().into_iter().map(|m| (m.verb(), m.ongoing_verb(), m.noun())).collect();
    assert_eq!(
        words,
        vec![
            ("walk", "walking", "Pedestrian"),
            ("bike", "biking", "Bike"),
            ("use transit", "using transit", "Bus"),
            ("drive", "driving", "Car"),
        ]
    );
    assert_eq!(TripMode::Transit.to_constraints(), PathConstraints::Bus);
    assert_eq!(TripMode::Walk.to_constraints(), PathConstraints::Pedestrian);
    assert_eq!(TripMode::from_constraints(PathConstraints::Train), TripMode::Transit);
    assert_eq!(TripMode::from_constraints(PathConstraints::Bus), TripMode::Transit);
    assert_eq!(TripMode::from_constraints(PathConstraints::Car), TripMode::Drive);
    for m in [TripMode::Walk, TripMode::Bike, TripMode::Drive] {
        assert_eq!(TripMode::from_constraints(m.to_constraints()), m);
    }
}

#[test]
fn answers_about_trips_turn_into_options_and_other_answers() {
    assert_eq!(TripResult::Found(5).ok(), Some(5));
    assert_eq!(TripResult::<u8>::TripDone.ok(), None);
    assert_eq!(TripResult::<u8>::ModeChange.ok(), None);
    let all: Vec<(TripResult<u8>, TripResult<String>)> = vec![
        (TripResult::ModeChange, TripResult::ModeChange),
        (TripResult::TripDone, TripResult::TripDone),
        (TripResult::TripDoesntExist, TripResult::TripDoesntExist),
        (TripResult::TripNotStarted, TripResult::TripNotStarted),
        (TripResult::TripCancelled, TripResult::TripCancelled),
        (TripResult::RemoteTrip, TripResult::RemoteTrip),
    ];
    for (from, to) in all {
        assert_eq!(from.propagate_error::<String>(), to);
    }
}

#[test]
fn endpoints_are_looked_up_by_mode() {
    let b = TripEndpoint::Bldg(BuildingID(3));
    let i = TripEndpoint::Border(IntersectionID(4), None);
    assert_eq!(b.lookup(TripMode::Walk, true), EndpointLookup::BuildingSidewalk(BuildingID(3)));
    assert_eq!(b.lookup(TripMode::Transit, false), EndpointLookup::BuildingSidewalk(BuildingID(3)));
    assert_eq!(
        b.lookup(TripMode::Bike, true),
        EndpointLookup::BuildingDriving(BuildingID(3), PathConstraints::Bike)
    );
    assert_eq!(
        b.lookup(TripMode::Drive, false),
        EndpointLookup::BuildingDriving(BuildingID(3), PathConstraints::Car)
    );
    assert_eq!(i.lookup(TripMode::Walk, true), EndpointLookup::BorderSidewalkStart(IntersectionID(4)));
    assert_eq!(i.lookup(TripMode::Transit, false), EndpointLookup::BorderSidewalkEnd(IntersectionID(4)));
    assert_eq!(
        i.lookup(TripMode::Bike, true),
        EndpointLookup::BorderOutgoingLane(IntersectionID(4), PathConstraints::Bike)
    );
    assert_eq!(
        i.lookup(TripMode::Drive, false),
        EndpointLookup::BorderIncomingLane(IntersectionID(4), PathConstraints::Car)
    );
    assert_eq!(
        TripEndpoint::path_req(b, i, TripMode::Transit, Some(pos(1, 2)), Some(pos(3, 4))),
        Some(PathRequest { start: pos(1, 2), end: pos(3, 4), constraints: PathConstraints::Pedestrian })
    );
    assert_eq!(
        TripEndpoint::path_req(b, i, TripMode::Bike, Some(pos(1, 2)), Some(pos(3, 4))).unwrap().constraints,
        PathConstraints::Bike
    );
    assert_eq!(TripEndpoint::path_req(i, b, TripMode::Drive, None, Some(pos(3, 4))), None);
    assert_eq!(TripEndpoint::path_req(b, i, TripMode::Drive, Some(pos(3, 4)), None), None);
    assert_eq!(TripEndpoint::path_req(b, i, TripMode::Bike, None, Some(pos(3, 4))), None);
    assert!(b.lookup(TripMode::Drive, true).always_found());
    assert!(!b.lookup(TripMode::Bike, true).always_found());
    assert!(!b.lookup(TripMode::Walk, true).always_found());
    assert!(!i.lookup(TripMode::Drive, true).always_found());
    assert_eq!(b.driving_goal(None), Some(DrivingGoal::ParkNear(BuildingID(3))));
    assert_eq!(
        i.driving_goal(Some(LaneID(6))),
        Some(DrivingGoal::Border(IntersectionID(4), LaneID(6), None))
    );
    assert_eq!(i.driving_goal(None), None);
    assert_eq!(
        b.start_sidewalk_spot(Some(pos(1, 1))),
        Some(SidewalkSpot { connection: SidewalkPOI::Building(BuildingID(3)), sidewalk_pos: pos(1, 1) })
    );
    assert_eq!(
        i.end_sidewalk_spot(Some(pos(1, 1))),
        Some(SidewalkSpot {
            connection: SidewalkPOI::Border(IntersectionID(4), None),
            sidewalk_pos: pos(1, 1),
        })
    );
    assert_eq!(i.end_sidewalk_spot(None), None);
}

#[test]
fn time_is_measured_in_both_directions() {
    assert_eq!(Time(50).since(Time(20)), Duration(30));
    assert_eq!(Time(20).since(Time(50)), Duration(-30));
    assert_eq!(Time(0).since(Time(0)), Duration(0));
    assert_eq!(Time(u64::MAX).since(Time(u64::MAX - 7)), Duration(7));
    assert_eq!(Time(0).since(Time(1 << 63)), Duration(i64::MIN));
    assert_eq!(Time(20).after(Duration(30)), Time(50));
    assert_eq!(Time(50).after(Duration(-30)), Time(20));
    assert_eq!(Time(1 << 63).after(Duration(i64::MIN)), Time(0));
    assert!(Time(3).is_after(Time(2)));
    assert!(!Time(2).is_after(Time(2)));
    assert_eq!(Time::start_of_day(), Time(0));
    assert_eq!(Duration(4).plus(Duration(-9)), Duration(-5));
    assert_eq!(Duration::zero(), Duration(0));
    assert_eq!(Distance(4).plus(Distance(9)), Distance(13));
    assert_eq!(pos(3, 4).forward(Distance(6)), pos(3, 10));
    assert_eq!(Position::start(LaneID(3)), pos(3, 0));
    assert_eq!(Position::new(LaneID(3), Distance(9)), pos(3, 9));
}

#[test]
fn numbers_and_places_are_written_out_in_decimal() {
    let mut s = String::new();
    trips::text::push_decimal(&mut s, 0);
    s.push(' ');
    trips::text::push_decimal(&mut s, 7);
    s.push(' ');
    trips::text::push_decimal(&mut s, 10);
    s.push(' ');
    trips::text::push_decimal(&mut s, 1_234_567_890);
    s.push(' ');
    trips::text::push_decimal_long(&mut s, u64::MAX);
    assert_eq!(s, "0 7 10 1234567890 18446744073709551615");
    let mut s = String::new();
    trips::text::push_spot(&mut s, ParkingSpot::Onstreet(LaneID(4), 20));
    s.push(' ');
    trips::text::push_spot(&mut s, ParkingSpot::Lot(trips::ids::ParkingLotID(3), 1));
    s.push(' ');
    trips::text::push_goal(&mut s, DrivingGoal::Border(IntersectionID(9), LaneID(8), None));
    assert_eq!(s, "Onstreet(Lane #4, 20) Lot(Parking lot #3, 1) Border(Intersection #9, Lane #8)");
    assert_eq!(
        trips::text::say_car_unavailable(CarID(12, VehicleType::Bike)),
        "should have Bike #12 parked, but it's unavailable"
    );
    let mut s = String::new();
    for leg in [
        TripLeg::Walk(SidewalkSpot::deferred_parking_spot()),
        TripLeg::Walk(SidewalkSpot {
            connection: SidewalkPOI::BusStop(BusStopID { sidewalk: LaneID(3), idx: 1 }),
            sidewalk_pos: pos(3, 0),
        }),
        TripLeg::Walk(SidewalkSpot { connection: SidewalkPOI::BikeRack(pos(6, 2)), sidewalk_pos: pos(3, 0) }),
        TripLeg::Walk(SidewalkSpot { connection: SidewalkPOI::SuddenlyAppear, sidewalk_pos: pos(3, 0) }),
        TripLeg::Walk(border(4)),
        TripLeg::Walk(SidewalkSpot {
            connection: SidewalkPOI::ParkingSpot(ParkingSpot::Offstreet(BuildingID(2), 0)),
            sidewalk_pos: pos(3, 0),
        }),
        TripLeg::RideBus(BusRouteID(5), None),
        TripLeg::RideBus(BusRouteID(5), Some(BusStopID { sidewalk: LaneID(3), idx: 1 })),
        TripLeg::Remote(OffMapLocation { parcel_id: 77 }),
        TripLeg::Drive(CarID(2, VehicleType::Car), DrivingGoal::ParkNear(BuildingID(1))),
    ] {
        trips::text::push_leg(&mut s, leg);
        s.push(';');
    }
    assert_eq!(
        s,
        "Walk(DeferredParkingSpot);Walk(BusStop(Lane #3, 1));Walk(BikeRack(Position(Lane #6, 2)));\
         Walk(SuddenlyAppear);Walk(Border(Intersection #4));Walk(Offstreet(Building #2, 0));\
         RideBus(Route #5, off the map);RideBus(Route #5, BusStop(Lane #3, 1));Remote(Parcel #77);\
         Drive(Car #2, ParkNear(Building #1));"
    );
}

#[test]
fn agents_have_kinds_and_an_order() {
    let car = AgentID::Car(CarID(9, VehicleType::Car));
    let bus = AgentID::Car(CarID(2, VehicleType::Bus));
    let ped = AgentID::Pedestrian(PedestrianID(0));
    let rider = AgentID::BusPassenger(PersonID(0), CarID(2, VehicleType::Bus));
    assert_eq!(car.to_type(), AgentType::Car);
    assert_eq!(bus.to_type(), AgentType::Bus);
    assert_eq!(AgentID::Car(CarID(2, VehicleType::Bike)).to_type(), AgentType::Bike);
    assert_eq!(AgentID::Car(CarID(2, VehicleType::Train)).to_type(), AgentType::Train);
    assert_eq!(ped.to_type(), AgentType::Pedestrian);
    assert_eq!(rider.to_type(), AgentType::TransitRider);
    let ordered = [bus, car, ped, rider];
    for i in 0..ordered.len() {
        for j in 0..ordered.len() {
            assert_eq!(ordered[i].precedes(ordered[j]), i < j);
        }
    }
    assert!(AgentID::Car(CarID(2, VehicleType::Car)).precedes(bus));
}

#[test]
fn the_registry_keeps_agents_in_order() {
    let mut r = ActiveAgents::new();
    let car = AgentID::Car(CarID(9, VehicleType::Car));
    let ped = AgentID::Pedestrian(PedestrianID(5));
    let ped0 = AgentID::Pedestrian(PedestrianID(0));
    r.bind(ped, TripID(1));
    r.bind(car, TripID(2));
    r.bind(ped0, TripID(3));
    assert_eq!(r.agents(), vec![car, ped0, ped]);
    assert_eq!(r.trips(), vec![TripID(2), TripID(3), TripID(1)]);
    assert_eq!(r.lookup(ped), Some(TripID(1)));
    assert_eq!(r.unbind(ped0), Some(TripID(3)));
    assert_eq!(r.unbind(ped0), None);
    assert_eq!(r.lookup(ped0), None);
    assert_eq!(r.agents(), vec![car, ped]);
    assert_eq!(r.len(), 2);
}
