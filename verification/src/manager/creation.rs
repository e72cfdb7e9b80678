//! Creating people and trips.

use crate::events::Event;
use crate::ids::{CarID, OrigPersonID, PedestrianID, PersonID, TripID};
use crate::manager::{lemma_count_bound, lemma_count_push, ManagerState, TripManager};
use crate::person::{Person, PersonState};
use crate::places::{DrivingGoal, MapExits, SidewalkPOI};
use crate::trip::{Trip, TripEndpoint, TripInfo, TripLeg, TripMode, TripPurpose};
use crate::units::{Duration, Speed, Time};
use crate::vehicles::{Vehicle, VehicleSpec};
use std::collections::VecDeque;
use vstd::prelude::*;

verus! {

/// Whether a trip may end with the leg `last`: a walk to a building or a
/// border, a drive, a ride off the map on a route whose exit the map
/// knows, or a stay beyond a map that has a border to come in through.
pub open spec fn can_end_with(last: TripLeg, exits: MapExits) -> bool {
    match last {
        TripLeg::Walk(spot) => spot.connection is Building || spot.connection is Border,
        TripLeg::Drive(_, _) => true,
        TripLeg::Remote(_) => exits.incoming_borders@.len() > 0,
        TripLeg::RideBus(r, stop) => stop.is_none() && r.0 < exits.route_exits@.len()
            && exits.route_exits@[r.0 as int].is_some(),
    }
}

/// Where a trip ends whose last leg is `last`. A trip beyond the map is
/// given the map's first incoming border, for want of a better place.
pub open spec fn trip_end(last: TripLeg, exits: MapExits) -> TripEndpoint {
    match last {
        TripLeg::Walk(spot) => match spot.connection {
            SidewalkPOI::Building(b) => TripEndpoint::Bldg(b),
            SidewalkPOI::Border(i, loc) => TripEndpoint::Border(i, loc),
            _ => arbitrary(),
        },
        TripLeg::Drive(_, goal) => match goal {
            DrivingGoal::ParkNear(b) => TripEndpoint::Bldg(b),
            DrivingGoal::Border(i, _, loc) => TripEndpoint::Border(i, loc),
        },
        TripLeg::Remote(to) => TripEndpoint::Border(exits.incoming_borders@[0], Some(to)),
        TripLeg::RideBus(r, _) => TripEndpoint::Border(
            exits.route_exits@[r.0 as int].unwrap(),
            None,
        ),
    }
}

/// The vehicles that `specs` give to `owner` when the first of them gets
/// the number `first`.
pub open spec fn made_vehicles(specs: Seq<VehicleSpec>, first: nat, owner: PersonID) -> Seq<
    Vehicle,
> {
    Seq::new(
        specs.len(),
        |i: int| specs[i].spec_make(CarID((first + i) as usize, specs[i].vehicle_type), Some(owner)),
    )
}

/// Where a person is before their first trip, which starts at `start`.
pub open spec fn state_at(start: TripEndpoint) -> PersonState {
    match start {
        TripEndpoint::Bldg(b) => PersonState::Inside(b),
        TripEndpoint::Border(_, _) => PersonState::OffMap,
    }
}

/// The events that tell where `person` is before their first trip.
pub open spec fn appearance(person: PersonID, start: TripEndpoint) -> Seq<Event> {
    match start {
        TripEndpoint::Bldg(b) => seq![Event::PersonEntersBuilding(person, b)],
        TripEndpoint::Border(_, Some(loc)) => seq![Event::PersonEntersRemoteBuilding(person, loc)],
        TripEndpoint::Border(_, None) => seq![],
    }
}

/// Adding a trip to the end of a person's list, at or after the
/// departure of the person's last trip, keeps the invariant.
pub proof fn lemma_trip_added(a: ManagerState, b: ManagerState, person: PersonID)
    requires
        a.wf(),
        a.has_person(person),
        b.trips.len() == a.trips.len() + 1,
        b.trips.drop_last() == a.trips,
        ({
            let t = b.trips.last();
            &&& t.id.0 == a.trips.len()
            &&& t.person == person
            &&& t.legs@.len() > 0
            &&& !t.started
            &&& t.finished_at.is_none()
            &&& t.info.cancellation_reason.is_none()
            &&& a.person(person).trips@.len() > 0 ==> a.trip(
                a.person(person).trips@.last(),
            ).info.departure.0 <= t.info.departure.0
        }),
        b.people.len() == a.people.len(),
        forall|q: int| 0 <= q < a.people.len() && q != person.0 ==> b.people[q] == a.people[q],
        ({
            let p = b.person(person);
            let o = a.person(person);
            &&& p.trips@ == o.trips@.push(b.trips.last().id)
            &&& p == (Person {
                trips: p.trips,
                state: if o.trips@.len() == 0 {
                    p.state
                } else {
                    o.state
                },
                ..o
            })
            &&& !(p.state is Trip) || o.trips@.len() > 0
        }),
        b.unfinished == a.unfinished + 1,
        b.agents == a.agents,
    ensures
        b.wf(),
        b.total_blocked_time() == a.total_blocked_time() + b.trips.last().total_blocked_time.0,
{
    let pi = person.0 as int;
    let id = b.trips.last().id;
    assert(b.trips =~= a.trips.push(b.trips.last()));
    lemma_count_push(a.trips, b.trips.last());
    assert(forall|i: int| 0 <= i < a.trips.len() ==> b.trips[i] == a.trips[i]);
    if a.people[pi].trips@.len() == 0 {
        assert forall|i: int| 0 <= i < a.trips.len() implies (#[trigger] a.trips[i]).person.0
            != pi by {
            assert(a.listed(a.trips[i]));
        }
        assert(!(a.people[pi].state is Trip));
    }
    assert(b.ids_ok());
    assert(b.lists_ok()) by {
        assert forall|i: int| 0 <= i < b.trips.len() implies b.listed(#[trigger] b.trips[i]) by {
            if i < a.trips.len() {
                assert(a.listed(a.trips[i]));
                let q = a.trips[i].person.0 as int;
                let k = choose|k: int|
                    0 <= k < a.people[q].trips@.len() && (#[trigger] a.people[q].trips@[k])
                        == a.trips[i].id;
                assert(b.people[q].trips@[k] == a.trips[i].id);
            } else {
                assert(b.people[pi].trips@[a.people[pi].trips@.len() as int] == id);
            }
        }
        assert forall|p: int, k: int|
            0 <= p < b.people.len() && 0 <= k < b.people[p].trips@.len() implies {
            let t = #[trigger] b.people[p].trips@[k];
            t.0 < b.trips.len() && b.trips[t.0 as int].person.0 == p
        } by {
            if p != pi || k < a.people[pi].trips@.len() {
                let t = a.people[p].trips@[k];
                assert(t.0 < a.trips.len() && a.trips[t.0 as int].person.0 == p);
            }
        }
    }
    assert(b.departures_sorted()) by {
        assert forall|p: int, i: int, j: int|
            0 <= p < b.people.len() && 0 <= i <= j < b.people[p].trips@.len() implies b.trip(
            #[trigger] b.people[p].trips@[i],
        ).info.departure.0 <= b.trip(#[trigger] b.people[p].trips@[j]).info.departure.0 by {
            let n = a.people[p].trips@.len() as int;
            if p != pi || j < n {
                let ti = a.people[p].trips@[i];
                let tj = a.people[p].trips@[j];
                assert(ti.0 < a.trips.len() && tj.0 < a.trips.len());
                assert(a.trip(ti).info.departure.0 <= a.trip(tj).info.departure.0);
            } else if i < n {
                let ti = a.people[p].trips@[i];
                let tj = a.people[p].trips@[n - 1];
                assert(ti.0 < a.trips.len() && tj.0 < a.trips.len());
                assert(a.trip(ti).info.departure.0 <= a.trip(tj).info.departure.0);
            }
        }
    }
    assert(b.progress_ok_but(-1));
    assert(b.agents_ok()) by {
        assert forall|x: crate::ids::AgentID| #[trigger] b.agents.dom().contains(x) implies {
            let t = b.agents[x];
            &&& t.0 < b.trips.len()
            &&& b.trip(t).ongoing()
            &&& crate::manager::expected_agent(b.trip(t), b.traveller(t)) == Some(x)
        } by {
            assert(a.agents.dom().contains(x));
            let t = a.agents[x];
            assert(a.trips[t.0 as int].person.0 < a.people.len());
        }
    }
    assert(b.states_ok()) by {
        assert forall|p: int| 0 <= p < b.people.len() implies (
        #[trigger] b.people[p].state matches PersonState::Trip(t) ==> t.0 < b.trips.len()
            && b.trip(t).person.0 == p && b.trip(t).ongoing()) by {
            if p == pi {
                assert(a.people[p].state is Trip ==> b.people[p].state == a.people[p].state);
            }
        }
        assert forall|i: int| 0 <= i < b.trips.len() && (#[trigger] b.trips[i]).ongoing() implies
            b.people[b.trips[i].person.0 as int].state == PersonState::Trip(TripID(i as usize)) by {
            assert(a.trips[i].ongoing());
        }
    }
    assert(b.buses_ok());
    assert(b.queues_ok()) by {
        assert forall|p: int, k: int|
            0 <= p < b.people.len() && 0 <= k < b.people[p].delayed_trips@.len() implies {
            let t = (#[trigger] b.people[p].delayed_trips@[k]).trip;
            t.0 < b.trips.len() && b.trip(t).person.0 == p && b.trip(t).waiting()
        } by {
            let t = a.people[p].delayed_trips@[k].trip;
            assert(t.0 < a.trips.len());
        }
    }
}

/// Adding a person who has no trips yet and is off the map keeps the
/// invariant.
pub proof fn lemma_person_added(a: ManagerState, b: ManagerState)
    requires
        a.wf(),
        b.people.len() == a.people.len() + 1,
        b.people.drop_last() == a.people,
        ({
            let p = b.people.last();
            &&& p.id.0 == a.people.len()
            &&& p.ped.0 == a.people.len()
            &&& p.trips@.len() == 0
            &&& p.state == PersonState::OffMap
            &&& p.delayed_trips@.len() == 0
            &&& p.on_bus.is_none()
        }),
        b.trips == a.trips,
        b.agents == a.agents,
        b.unfinished == a.unfinished,
    ensures
        b.wf(),
{
    let n = a.people.len() as int;
    assert forall|q: int| 0 <= q < n implies #[trigger] b.people[q] == a.people[q] by {
        assert(b.people.drop_last()[q] == b.people[q]);
    }
    assert(b.ids_ok()) by {
        assert forall|i: int| 0 <= i < b.people.len() implies (#[trigger] b.people[i]).id.0 == i
            && b.people[i].ped.0 == i by {
            if i < n {
                assert(a.people[i].id.0 == i);
            }
        }
    }
    assert(b.lists_ok()) by {
        assert forall|i: int| 0 <= i < b.trips.len() implies b.listed(#[trigger] b.trips[i]) by {
            assert(a.listed(a.trips[i]));
            let q = a.trips[i].person.0 as int;
            let k = choose|k: int|
                0 <= k < a.people[q].trips@.len() && (#[trigger] a.people[q].trips@[k])
                    == a.trips[i].id;
            assert(b.people[q].trips@[k] == b.trips[i].id);
        }
        assert forall|p: int, k: int|
            0 <= p < b.people.len() && 0 <= k < b.people[p].trips@.len() implies {
            let t = #[trigger] b.people[p].trips@[k];
            t.0 < b.trips.len() && b.trips[t.0 as int].person.0 == p
        } by {
            let t = a.people[p].trips@[k];
            assert(t.0 < a.trips.len() && a.trips[t.0 as int].person.0 == p);
        }
    }
    assert(b.departures_sorted()) by {
        assert forall|p: int, i: int, j: int|
            0 <= p < b.people.len() && 0 <= i <= j < b.people[p].trips@.len() implies b.trip(
            #[trigger] b.people[p].trips@[i],
        ).info.departure.0 <= b.trip(#[trigger] b.people[p].trips@[j]).info.departure.0 by {
            assert(a.trip(a.people[p].trips@[i]).info.departure.0 <= a.trip(
                a.people[p].trips@[j],
            ).info.departure.0);
        }
    }
    assert(b.progress_ok_but(-1));
    assert(b.agents_ok()) by {
        assert forall|x: crate::ids::AgentID| #[trigger] b.agents.dom().contains(x) implies {
            let t = b.agents[x];
            &&& t.0 < b.trips.len()
            &&& b.trip(t).ongoing()
            &&& crate::manager::expected_agent(b.trip(t), b.traveller(t)) == Some(x)
        } by {
            let t = a.agents[x];
            assert(a.trips[t.0 as int].person.0 < a.people.len());
        }
    }
    assert(b.states_ok()) by {
        assert forall|p: int| 0 <= p < b.people.len() implies (
        #[trigger] b.people[p].state matches PersonState::Trip(t) ==> t.0 < b.trips.len()
            && b.trip(t).person.0 == p && b.trip(t).ongoing()) by {
            if p < n {
                assert(a.people[p].state == b.people[p].state);
            }
        }
        assert forall|i: int| 0 <= i < b.trips.len() && (#[trigger] b.trips[i]).ongoing() implies
            b.people[b.trips[i].person.0 as int].state == PersonState::Trip(TripID(i as usize)) by {
            assert(a.trips[i].ongoing());
        }
    }
    assert(b.buses_ok()) by {
        assert forall|p: int| 0 <= p < b.people.len() implies (
        #[trigger] b.people[p].on_bus matches Some(bus) ==> b.agents.dom().contains(
            crate::ids::AgentID::BusPassenger(PersonID(p as usize), bus),
        )) by {
            if p < n {
                assert(a.people[p].on_bus == b.people[p].on_bus);
            }
        }
    }
    assert(b.queues_ok()) by {
        assert forall|p: int, k: int|
            0 <= p < b.people.len() && 0 <= k < b.people[p].delayed_trips@.len() implies {
            let t = (#[trigger] b.people[p].delayed_trips@[k]).trip;
            t.0 < b.trips.len() && b.trip(t).person.0 == p && b.trip(t).waiting()
        } by {
            let t = a.people[p].delayed_trips@[k].trip;
            assert(t.0 < a.trips.len() && a.trip(t).person.0 == p && a.trip(t).waiting());
        }
        assert forall|p: int, i: int, j: int|
            0 <= p < b.people.len() && 0 <= i < j < b.people[p].delayed_trips@.len() implies (
        #[trigger] b.people[p].delayed_trips@[i]).trip != (
        #[trigger] b.people[p].delayed_trips@[j]).trip by {
            assert(a.people[p].delayed_trips@[i].trip != a.people[p].delayed_trips@[j].trip);
        }
    }
}

impl TripManager {
    /// Hands out the number of the next vehicle.
    pub fn new_car_id(&mut self) -> (id: usize)
        requires
            old(self).wf(),
            old(self)@.pre_new_car_ids(1),
        ensures
            final(self).wf(),
            id == old(self)@.next_car,
            final(self)@ == (ManagerState { next_car: (old(self)@.next_car + 1) as nat, ..old(self)@ }),
    {
        let id = self.car_id_counter;
        self.car_id_counter += 1;
        id
    }

    /// Adds a person, who owns the vehicles that `vehicle_specs` describe.
    /// The person is off the map until their first trip says otherwise.
    pub fn new_person(
        &mut self,
        id: PersonID,
        orig_id: Option<OrigPersonID>,
        ped_speed: Speed,
        vehicle_specs: Vec<VehicleSpec>,
    )
        requires
            old(self).wf(),
            old(self)@.pre_new_person(id, vehicle_specs@.len()),
        ensures
            final(self).wf(),
            final(self)@.people.len() == old(self)@.people.len() + 1,
            final(self)@.people.drop_last() == old(self)@.people,
            ({
                let p = final(self)@.people.last();
                &&& p.id == id
                &&& p.orig_id == orig_id
                &&& p.trips@.len() == 0
                &&& p.state == PersonState::OffMap
                &&& p.ped == PedestrianID(id.0)
                &&& p.ped_speed == ped_speed
                &&& p.vehicles@ == made_vehicles(vehicle_specs@, old(self)@.next_car, id)
                &&& p.delayed_trips@.len() == 0
                &&& p.on_bus.is_none()
            }),
            final(self)@.next_car == old(self)@.next_car + vehicle_specs@.len(),
            final(self)@.trips == old(self)@.trips,
            final(self)@.agents == old(self)@.agents,
            final(self)@.unfinished == old(self)@.unfinished,
            final(self)@.events == old(self)@.events,
            final(self)@.pathfinding_upfront == old(self)@.pathfinding_upfront,
    {
        let vehicles = self.make_vehicles(id, &vehicle_specs);
        self.people.push(
            Person {
                id,
                orig_id,
                trips: Vec::new(),
                state: PersonState::OffMap,
                ped: PedestrianID(id.0),
                ped_speed,
                vehicles,
                delayed_trips: Vec::new(),
                on_bus: None,
            },
        );
        proof {
            assert(self@.people.drop_last() =~= old(self)@.people);
            lemma_person_added(old(self)@, self@);
        }
    }

    /// Makes the vehicles that `specs` describe, numbering them on from
    /// the next free number.
    fn make_vehicles(&mut self, owner: PersonID, specs: &Vec<VehicleSpec>) -> (vehicles: Vec<
        Vehicle,
    >)
        requires
            old(self)@.next_car + specs@.len() <= usize::MAX,
        ensures
            vehicles@ == made_vehicles(specs@, old(self)@.next_car, owner),
            final(self).registry_ok() == old(self).registry_ok(),
            final(self)@ == (ManagerState {
                next_car: (old(self)@.next_car + specs@.len()) as nat,
                ..old(self)@
            }),
    {
        let mut vehicles: Vec<Vehicle> = Vec::new();
        let mut i: usize = 0;
        while i < specs.len()
            invariant
                i <= specs@.len(),
                vehicles@.len() == i,
                self.registry_ok() == old(self).registry_ok(),
                self@ == (ManagerState { next_car: (old(self)@.next_car + i) as nat, ..old(self)@ }),
                old(self)@.next_car + specs@.len() <= usize::MAX,
                forall|j: int|
                    0 <= j < i ==> vehicles@[j] == made_vehicles(specs@, old(self)@.next_car, owner)[j],
            decreases specs@.len() - i,
        {
            let v = specs[i];
            let c = CarID(self.car_id_counter, v.vehicle_type);
            self.car_id_counter += 1;
            vehicles.push(v.make(c, Some(owner)));
            i += 1;
        }
        assert(vehicles@ =~= made_vehicles(specs@, old(self)@.next_car, owner));
        vehicles
    }

    /// Adds a trip of `person`, to be made leg by leg as `legs` says. The
    /// trip ends where its last leg ends. Before their first trip a person
    /// is where that trip starts, and an event says so.
    pub fn new_trip(
        &mut self,
        person: PersonID,
        departure: Time,
        start: TripEndpoint,
        mode: TripMode,
        purpose: TripPurpose,
        modified: bool,
        legs: Vec<TripLeg>,
        exits: &MapExits,
    ) -> (id: TripID)
        requires
            old(self).wf(),
            old(self)@.pre_new_trip(person, departure, legs@, *exits),
        ensures
            final(self).wf(),
            id.0 == old(self)@.trips.len(),
            final(self)@.trips.len() == old(self)@.trips.len() + 1,
            final(self)@.trips.drop_last() == old(self)@.trips,
            ({
                let t = final(self)@.trips.last();
                &&& t.legs@ == legs@
                &&& t == (Trip {
                    id,
                    info: TripInfo {
                        departure,
                        mode,
                        start,
                        end: trip_end(legs@.last(), *exits),
                        purpose,
                        modified,
                        capped: false,
                        cancellation_reason: None,
                    },
                    started: false,
                    finished_at: None,
                    total_blocked_time: Duration(0),
                    legs: t.legs,
                    person,
                })
            }),
            final(self)@.people.len() == old(self)@.people.len(),
            forall|q: int|
                0 <= q < old(self)@.people.len() && q != person.0 ==> final(self)@.people[q] == old(
                    self,
                )@.people[q],
            ({
                let p = final(self)@.person(person);
                let o = old(self)@.person(person);
                &&& p.trips@ == o.trips@.push(id)
                &&& p == (Person {
                    trips: p.trips,
                    state: if o.trips@.len() == 0 {
                        state_at(start)
                    } else {
                        o.state
                    },
                    ..o
                })
                &&& final(self)@.events == old(self)@.events + if o.trips@.len() == 0 {
                    appearance(person, start)
                } else {
                    Seq::<Event>::empty()
                }
            }),
            final(self)@.unfinished == old(self)@.unfinished + 1,
            final(self)@.agents == old(self)@.agents,
            final(self)@.next_car == old(self)@.next_car,
            final(self)@.pathfinding_upfront == old(self)@.pathfinding_upfront,
            final(self)@.total_blocked_time() == old(self)@.total_blocked_time(),
    {
        let id = TripID(self.trips.len());
        let end = match legs[legs.len() - 1] {
            TripLeg::Walk(spot) => match spot.connection {
                SidewalkPOI::Building(b) => TripEndpoint::Bldg(b),
                SidewalkPOI::Border(i, loc) => TripEndpoint::Border(i, loc),
                _ => {
                    assert(false);
                    start
                },
            },
            TripLeg::Drive(_, goal) => match goal {
                DrivingGoal::ParkNear(b) => TripEndpoint::Bldg(b),
                DrivingGoal::Border(i, _, loc) => TripEndpoint::Border(i, loc),
            },
            TripLeg::Remote(to) => TripEndpoint::Border(exits.incoming_borders[0], Some(to)),
            TripLeg::RideBus(r, _) => match exits.route_exits[r.0] {
                Some(i) => TripEndpoint::Border(i, None),
                None => {
                    assert(false);
                    start
                },
            },
        };
        let mut queue: VecDeque<TripLeg> = VecDeque::new();
        let mut k: usize = 0;
        while k < legs.len()
            invariant
                k <= legs@.len(),
                queue@ == legs@.subrange(0, k as int),
            decreases legs@.len() - k,
        {
            queue.push_back(legs[k]);
            k += 1;
        }
        assert(queue@ =~= legs@);
        let trip = Trip {
            id,
            info: TripInfo {
                departure,
                mode,
                start,
                end,
                purpose,
                modified,
                capped: false,
                cancellation_reason: None,
            },
            person,
            started: false,
            finished_at: None,
            total_blocked_time: Duration::zero(),
            legs: queue,
        };
        proof {
            lemma_count_push(self.trips@, trip);
            lemma_count_bound(self.trips@);
        }
        self.trips.push(trip);
        let n = self.trips.len();
        assert(self.unfinished_trips < n);
        self.unfinished_trips += 1;
        if self.people[person.0].trips.len() == 0 {
            match start {
                TripEndpoint::Bldg(b) => {
                    self.events.push(Event::PersonEntersBuilding(person, b));
                    self.people[person.0].state = PersonState::Inside(b);
                },
                TripEndpoint::Border(_, loc) => {
                    if let Some(loc) = loc {
                        self.events.push(Event::PersonEntersRemoteBuilding(person, loc));
                    }
                    self.people[person.0].state = PersonState::OffMap;
                },
            }
        }
        self.people[person.0].trips.push(id);
        proof {
            let a = old(self)@;
            let b = self@;
            assert(b.trips.drop_last() =~= a.trips);
            assert(a.events + Seq::<Event>::empty() =~= a.events);
            assert(b.events =~= a.events + if a.person(person).trips@.len() == 0 {
                appearance(person, start)
            } else {
                Seq::<Event>::empty()
            });
            lemma_trip_added(a, b, person);
        }
        id
    }

    /// Adds a person with the next free identifier, and returns them.
    pub fn random_person(&mut self, ped_speed: Speed, vehicle_specs: Vec<VehicleSpec>) -> (person:
        &Person)
        requires
            old(self).wf(),
            old(self)@.pre_new_car_ids(vehicle_specs@.len()),
        ensures
            final(self).wf(),
            *person == final(self)@.people.last(),
            final(self)@.people.len() == old(self)@.people.len() + 1,
            final(self)@.people.drop_last() == old(self)@.people,
            ({
                let p = final(self)@.people.last();
                &&& p.id.0 == old(self)@.people.len()
                &&& p.orig_id.is_none()
                &&& p.trips@.len() == 0
                &&& p.state == PersonState::OffMap
                &&& p.ped == PedestrianID(p.id.0)
                &&& p.ped_speed == ped_speed
                &&& p.vehicles@ == made_vehicles(vehicle_specs@, old(self)@.next_car, p.id)
                &&& p.delayed_trips@.len() == 0
                &&& p.on_bus.is_none()
            }),
            final(self)@.next_car == old(self)@.next_car + vehicle_specs@.len(),
            final(self)@.trips == old(self)@.trips,
            final(self)@.agents == old(self)@.agents,
            final(self)@.unfinished == old(self)@.unfinished,
            final(self)@.events == old(self)@.events,
            final(self)@.pathfinding_upfront == old(self)@.pathfinding_upfront,
    {
        let id = PersonID(self.people.len());
        self.new_person(id, None, ped_speed, vehicle_specs);
        &self.people[id.0]
    }
}

} // verus!
