//! The trip manager: all people and all trips, the registry of active
//! agents, and the events that are waiting to be collected.

use crate::events::Event;
use crate::ids::{AgentID, PersonID, TripID};
use crate::person::{Person, PersonState};
use crate::registry::ActiveAgents;
use crate::trip::{DelayedTrip, Trip, TripLeg};
use vstd::prelude::*;

pub mod arrivals;
pub mod cancel;
pub mod creation;
pub mod guards;
pub mod parts;
pub mod queries;
pub mod start;
pub mod transfers;

verus! {

/// Manages people, each of whom makes some trips through the day. Each
/// trip is made of legs: a driving trip may begin with a walk to the car,
/// go on with the drive and the search for a parking spot, and end with a
/// walk to the door.
#[derive(Clone, Debug, PartialEq, Eq)]
pub struct TripManager {
    trips: Vec<Trip>,
    people: Vec<Person>,
    active_trip_mode: ActiveAgents,
    unfinished_trips: usize,
    /// Whether paths are found when trips are scheduled, not when they start.
    pub pathfinding_upfront: bool,
    car_id_counter: usize,
    events: Vec<Event>,
}

/// What a trip manager holds, as mathematics.
pub struct ManagerState {
    pub trips: Seq<Trip>,
    pub people: Seq<Person>,
    /// The registry of active agents.
    pub agents: Map<AgentID, TripID>,
    /// The counter of trips that are neither finished nor cancelled.
    pub unfinished: nat,
    pub pathfinding_upfront: bool,
    /// The number that the next vehicle will get.
    pub next_car: nat,
    /// The events that have not been collected yet, oldest first.
    pub events: Seq<Event>,
}

/// How many of `trips` are neither finished nor cancelled.
pub open spec fn count_unfinished(trips: Seq<Trip>) -> nat
    decreases trips.len(),
{
    if trips.len() == 0 {
        0
    } else {
        count_unfinished(trips.drop_last()) + if trips.last().unfinished() {
            1nat
        } else {
            0nat
        }
    }
}

/// The blocked times of `trips`, added up.
pub open spec fn sum_blocked(trips: Seq<Trip>) -> int
    decreases trips.len(),
{
    if trips.len() == 0 {
        0
    } else {
        sum_blocked(trips.drop_last()) + trips.last().total_blocked_time.0
    }
}

/// The agent that carries out the current leg of `trip`, a trip of
/// `person`: the person's pedestrian for a walk, the vehicle for a drive,
/// the person as a passenger of the bus they are on for a ride. A trip
/// beyond the map has no agent.
pub open spec fn expected_agent(trip: Trip, person: Person) -> Option<AgentID> {
    if trip.legs@.len() == 0 {
        None
    } else {
        match trip.legs@[0] {
            TripLeg::Walk(_) => Some(AgentID::Pedestrian(person.ped)),
            TripLeg::Drive(c, _) => Some(AgentID::Car(c)),
            TripLeg::RideBus(_, _) => match person.on_bus {
                Some(b) => Some(AgentID::BusPassenger(person.id, b)),
                None => None,
            },
            TripLeg::Remote(_) => None,
        }
    }
}

/// The agent that carries out the current leg of `trip`, a trip of
/// `person`, if it has one.
pub fn agent_of(trip: &Trip, person: &Person) -> (a: Option<AgentID>)
    ensures
        a == expected_agent(*trip, *person),
{
    if trip.legs.len() == 0 {
        None
    } else {
        match trip.legs[0] {
            TripLeg::Walk(_) => Some(AgentID::Pedestrian(person.ped)),
            TripLeg::Drive(c, _) => Some(AgentID::Car(c)),
            TripLeg::RideBus(_, _) => match person.on_bus {
                Some(b) => Some(AgentID::BusPassenger(person.id, b)),
                None => None,
            },
            TripLeg::Remote(_) => None,
        }
    }
}

impl ManagerState {
    /// Whether there is a trip `t`.
    pub open spec fn has_trip(self, t: TripID) -> bool {
        t.0 < self.trips.len()
    }

    /// Whether there is a person `p`.
    pub open spec fn has_person(self, p: PersonID) -> bool {
        p.0 < self.people.len()
    }

    /// Trip `t`.
    pub open spec fn trip(self, t: TripID) -> Trip {
        self.trips[t.0 as int]
    }

    /// Person `p`.
    pub open spec fn person(self, p: PersonID) -> Person {
        self.people[p.0 as int]
    }

    /// The person who makes trip `t`.
    pub open spec fn traveller(self, t: TripID) -> Person {
        self.people[self.trips[t.0 as int].person.0 as int]
    }

    /// Whether trip `t` waits in the queue of delayed trips of its person.
    pub open spec fn queued(self, t: TripID) -> bool {
        exists|k: int|
            0 <= k < self.traveller(t).delayed_trips@.len() && (
            #[trigger] self.traveller(t).delayed_trips@[k]).trip == t
    }

    /// Index is identity, for trips and for people, and every trip has
    /// its person.
    pub open spec fn ids_ok(self) -> bool {
        &&& forall|i: int|
            0 <= i < self.trips.len() ==> (#[trigger] self.trips[i]).id.0 == i
                && self.trips[i].person.0 < self.people.len()
        &&& forall|i: int|
            0 <= i < self.people.len() ==> (#[trigger] self.people[i]).id.0 == i
                && self.people[i].ped.0 == i
    }

    /// Whether the person of trip `t` has the trip in their list.
    pub open spec fn listed(self, t: Trip) -> bool {
        exists|k: int|
            0 <= k < self.people[t.person.0 as int].trips@.len() && (
            #[trigger] self.people[t.person.0 as int].trips@[k]) == t.id
    }

    /// Every trip in a person's list exists and is that person's, and
    /// every trip is in the list of its person.
    pub open spec fn lists_ok(self) -> bool {
        &&& forall|p: int, k: int|
            0 <= p < self.people.len() && 0 <= k < self.people[p].trips@.len() ==> {
                let t = #[trigger] self.people[p].trips@[k];
                t.0 < self.trips.len() && self.trips[t.0 as int].person.0 == p
            }
        &&& forall|i: int| 0 <= i < self.trips.len() ==> self.listed(#[trigger] self.trips[i])
    }

    /// Every person's trips are in the order of their departures.
    pub open spec fn departures_sorted(self) -> bool {
        forall|p: int, i: int, j: int|
            0 <= p < self.people.len() && 0 <= i <= j < self.people[p].trips@.len() ==> self.trip(
                #[trigger] self.people[p].trips@[i],
            ).info.departure.0 <= self.trip(#[trigger] self.people[p].trips@[j]).info.departure.0
    }

    /// Every trip but trip `t` is consistent: it has no legs left exactly
    /// when it is finished.
    pub open spec fn progress_ok_but(self, t: int) -> bool {
        forall|i: int| 0 <= i < self.trips.len() && i != t ==> (#[trigger] self.trips[i]).consistent()
    }

    /// Every active agent is bound to a trip that is going on, and is the
    /// agent that the trip's current leg expects.
    pub open spec fn agents_ok(self) -> bool {
        forall|a: AgentID| #[trigger]
            self.agents.dom().contains(a) ==> {
                let t = self.agents[a];
                &&& t.0 < self.trips.len()
                &&& self.trip(t).ongoing()
                &&& expected_agent(self.trip(t), self.traveller(t)) == Some(a)
            }
    }

    /// A person is in the state of making a trip exactly while a trip of
    /// theirs is going on.
    pub open spec fn states_ok(self) -> bool {
        &&& forall|p: int|
            0 <= p < self.people.len() ==> (#[trigger] self.people[p].state matches PersonState::Trip(t)
                ==> t.0 < self.trips.len() && self.trip(t).person.0 == p && self.trip(t).ongoing())
        &&& forall|i: int|
            0 <= i < self.trips.len() && (#[trigger] self.trips[i]).ongoing() ==> self.people[self.trips[i].person.0 as int].state
                == PersonState::Trip(TripID(i as usize))
    }

    /// Whoever is marked as riding a bus is registered as its passenger.
    pub open spec fn buses_ok(self) -> bool {
        forall|p: int|
            0 <= p < self.people.len() ==> (#[trigger] self.people[p].on_bus matches Some(b)
                ==> self.agents.dom().contains(AgentID::BusPassenger(PersonID(p as usize), b)))
    }

    /// Every delayed trip exists, belongs to the person in whose queue it
    /// waits, has not started, and waits there once.
    pub open spec fn queues_ok(self) -> bool {
        &&& forall|p: int, k: int|
            0 <= p < self.people.len() && 0 <= k < self.people[p].delayed_trips@.len() ==> {
                let t = (#[trigger] self.people[p].delayed_trips@[k]).trip;
                t.0 < self.trips.len() && self.trip(t).person.0 == p && self.trip(t).waiting()
            }
        &&& forall|p: int, i: int, j: int|
            0 <= p < self.people.len() && 0 <= i < j < self.people[p].delayed_trips@.len() ==> (
            #[trigger] self.people[p].delayed_trips@[i]).trip != (
            #[trigger] self.people[p].delayed_trips@[j]).trip
    }

    /// The invariant of the trip manager, but for the consistency of trip
    /// `t`, which may be in the middle of a step.
    pub open spec fn wf_but(self, t: int) -> bool {
        &&& self.ids_ok()
        &&& self.lists_ok()
        &&& self.departures_sorted()
        &&& self.progress_ok_but(t)
        &&& self.unfinished == count_unfinished(self.trips)
        &&& self.agents_ok()
        &&& self.states_ok()
        &&& self.buses_ok()
        &&& self.queues_ok()
    }

    /// The invariant of the trip manager.
    pub open spec fn wf(self) -> bool {
        &&& self.wf_but(-1)
    }

    /// Whether `next` differs from `self` in nothing but trip `t`, the
    /// person who makes it, the registry, the counter and the events, and
    /// leaves alone who and what they are.
    pub open spec fn touches(self, next: ManagerState, t: int) -> bool {
        let p = self.trips[t].person.0 as int;
        &&& 0 <= t < self.trips.len()
        &&& next.trips.len() == self.trips.len()
        &&& next.people.len() == self.people.len()
        &&& forall|i: int|
            0 <= i < self.trips.len() && i != t ==> #[trigger] next.trips[i] == self.trips[i]
        &&& forall|q: int|
            0 <= q < self.people.len() && q != p ==> #[trigger] next.people[q] == self.people[q]
        &&& next.trips[t].id == self.trips[t].id
        &&& next.trips[t].person == self.trips[t].person
        &&& next.trips[t].info.departure == self.trips[t].info.departure
        &&& next.people[p].id == self.people[p].id
        &&& next.people[p].ped == self.people[p].ped
        &&& next.people[p].trips == self.people[p].trips
        &&& next.pathfinding_upfront == self.pathfinding_upfront
        &&& next.next_car == self.next_car
    }

    /// Whether what `next` says of trip `t` and of its person fits together:
    /// the counter, the registry, the person's state and bus, and the
    /// person's queue of delayed trips.
    pub open spec fn fits(self, next: ManagerState, t: int) -> bool {
        let p = self.trips[t].person.0 as int;
        let ta = self.trips[t];
        let tb = next.trips[t];
        let pa = self.people[p];
        let pb = next.people[p];
        &&& next.unfinished + (if ta.unfinished() {
            1nat
        } else {
            0nat
        }) == self.unfinished + (if tb.unfinished() {
            1nat
        } else {
            0nat
        })
        &&& self.agents_fit(next, t)
        &&& ta.ongoing() || pb.on_bus == pa.on_bus
        &&& pb.on_bus matches Some(bus) ==> next.agents.dom().contains(
            AgentID::BusPassenger(pb.id, bus),
        )
        &&& pb.state matches PersonState::Trip(x) ==> (x.0 == t && tb.ongoing()) || (x.0 != t
            && pa.state == PersonState::Trip(x))
        &&& tb.ongoing() ==> pb.state == PersonState::Trip(TripID(t as usize))
        &&& (pa.state matches PersonState::Trip(x) && x.0 != t) ==> pb.state == pa.state
        &&& self.queue_fits(next, t)
    }

    /// Whether the registry is in order in `next`: every agent that is
    /// bound is bound to trip `t`, which is going on and expects it, or is
    /// bound as before; and every agent that is bound no more was bound to
    /// trip `t`.
    pub open spec fn agents_fit(self, next: ManagerState, t: int) -> bool {
        let p = self.trips[t].person.0 as int;
        let tb = next.trips[t];
        let pb = next.people[p];
        &&& forall|x: AgentID| #[trigger]
            next.agents.dom().contains(x) ==> if next.agents[x].0 == t {
                tb.ongoing() && expected_agent(tb, pb) == Some(x)
            } else {
                self.agents.dom().contains(x) && self.agents[x] == next.agents[x]
            }
        &&& forall|x: AgentID| #[trigger]
            self.agents.dom().contains(x) && !next.agents.dom().contains(x) ==> self.agents[x].0
                == t
    }

    /// Whether the queue of delayed trips of the person of trip `t` is in
    /// order in `next`: every trip in it exists, is the person's and has
    /// not started, and none is in it twice.
    pub open spec fn queue_fits(self, next: ManagerState, t: int) -> bool {
        let p = self.trips[t].person.0 as int;
        let pb = next.people[p];
        &&& forall|k: int|
            0 <= k < pb.delayed_trips@.len() ==> {
                let d = (#[trigger] pb.delayed_trips@[k]).trip;
                d.0 < next.trips.len() && next.trips[d.0 as int].person.0 == p
                    && next.trips[d.0 as int].waiting()
            }
        &&& forall|i: int, j: int|
            0 <= i < j < pb.delayed_trips@.len() ==> (#[trigger] pb.delayed_trips@[i]).trip != (
            #[trigger] pb.delayed_trips@[j]).trip
    }

    /// The blocked times of all trips, added up.
    pub open spec fn total_blocked_time(self) -> int {
        sum_blocked(self.trips)
    }
}

impl View for TripManager {
    type V = ManagerState;

    closed spec fn view(&self) -> ManagerState {
        ManagerState {
            trips: self.trips@,
            people: self.people@,
            agents: self.active_trip_mode@,
            unfinished: self.unfinished_trips as nat,
            pathfinding_upfront: self.pathfinding_upfront,
            next_car: self.car_id_counter as nat,
            events: self.events@,
        }
    }
}

/// The delayed trip that is started next, if any waits.
pub open spec fn first_delayed(queue: Seq<DelayedTrip>) -> Option<DelayedTrip> {
    if queue.len() > 0 {
        Some(queue[0])
    } else {
        None
    }
}

/// The delayed trips that go on waiting when the first is started.
pub open spec fn rest_delayed(queue: Seq<DelayedTrip>) -> Seq<DelayedTrip> {
    if queue.len() > 0 {
        queue.drop_first()
    } else {
        queue
    }
}

/// Counting goes on by one trip at a time.
pub proof fn lemma_count_push(trips: Seq<Trip>, t: Trip)
    ensures
        count_unfinished(trips.push(t)) == count_unfinished(trips) + if t.unfinished() {
            1nat
        } else {
            0nat
        },
        sum_blocked(trips.push(t)) == sum_blocked(trips) + t.total_blocked_time.0,
{
    assert(trips.push(t).drop_last() =~= trips);
}

/// Replacing one trip changes the count and the sum by that trip alone.
pub proof fn lemma_count_update(trips: Seq<Trip>, i: int, t: Trip)
    requires
        0 <= i < trips.len(),
    ensures
        count_unfinished(trips.update(i, t)) + (if trips[i].unfinished() {
            1nat
        } else {
            0nat
        }) == count_unfinished(trips) + (if t.unfinished() {
            1nat
        } else {
            0nat
        }),
        sum_blocked(trips.update(i, t)) == sum_blocked(trips) - trips[i].total_blocked_time.0
            + t.total_blocked_time.0,
    decreases trips.len(),
{
    let u = trips.update(i, t);
    if i == trips.len() - 1 {
        assert(u.drop_last() =~= trips.drop_last());
    } else {
        assert(u.drop_last() =~= trips.drop_last().update(i, t));
        lemma_count_update(trips.drop_last(), i, t);
    }
}

/// No more trips are unfinished than there are trips.
pub proof fn lemma_count_bound(trips: Seq<Trip>)
    ensures
        count_unfinished(trips) <= trips.len(),
    decreases trips.len(),
{
    if trips.len() > 0 {
        lemma_count_bound(trips.drop_last());
    }
}

/// Where there is an unfinished trip, the count is not zero.
pub proof fn lemma_count_positive(trips: Seq<Trip>, i: int)
    requires
        0 <= i < trips.len(),
        trips[i].unfinished(),
    ensures
        count_unfinished(trips) > 0,
    decreases trips.len(),
{
    if i < trips.len() - 1 {
        lemma_count_positive(trips.drop_last(), i);
    }
}

/// A step that touches one trip and its person, and leaves what it says of
/// them fitting together, keeps the invariant for all other trips.
pub proof fn lemma_step(a: ManagerState, b: ManagerState, t: int)
    requires
        a.wf_but(t),
        a.touches(b, t),
        a.fits(b, t),
    ensures
        b.wf_but(t),
        b.trips[t].consistent() ==> b.wf(),
        b.total_blocked_time() == a.total_blocked_time() - a.trips[t].total_blocked_time.0
            + b.trips[t].total_blocked_time.0,
{
    let p = a.trips[t].person.0 as int;
    assert(b.trips =~= a.trips.update(t, b.trips[t]));
    lemma_count_update(a.trips, t, b.trips[t]);
    assert(b.ids_ok());
    assert(b.lists_ok()) by {
        assert forall|i: int| 0 <= i < b.trips.len() implies b.listed(#[trigger] b.trips[i]) by {
            assert(a.listed(a.trips[i]));
            let q = a.trips[i].person.0 as int;
            let k = choose|k: int|
                0 <= k < a.people[q].trips@.len() && (#[trigger] a.people[q].trips@[k])
                    == a.trips[i].id;
            assert(b.people[q].trips@[k] == b.trips[i].id);
        }
        assert forall|q: int, k: int|
            0 <= q < b.people.len() && 0 <= k < b.people[q].trips@.len() implies {
            let x = #[trigger] b.people[q].trips@[k];
            x.0 < b.trips.len() && b.trips[x.0 as int].person.0 == q
        } by {
            let x = a.people[q].trips@[k];
            assert(x.0 < a.trips.len() && a.trips[x.0 as int].person.0 == q);
        }
    }
    assert(b.departures_sorted()) by {
        assert forall|q: int, i: int, j: int|
            0 <= q < b.people.len() && 0 <= i <= j < b.people[q].trips@.len() implies b.trip(
            #[trigger] b.people[q].trips@[i],
        ).info.departure.0 <= b.trip(#[trigger] b.people[q].trips@[j]).info.departure.0 by {
            let ti = a.people[q].trips@[i];
            let tj = a.people[q].trips@[j];
            assert(ti.0 < a.trips.len() && tj.0 < a.trips.len());
            assert(a.trip(ti).info.departure.0 <= a.trip(tj).info.departure.0);
        }
    }
    assert(b.progress_ok_but(t));
    assert(b.states_ok()) by {
        assert forall|q: int| 0 <= q < b.people.len() implies (
        #[trigger] b.people[q].state matches PersonState::Trip(x) ==> x.0 < b.trips.len()
            && b.trip(x).person.0 == q && b.trip(x).ongoing()) by {
            if let PersonState::Trip(x) = b.people[q].state {
                if q != p {
                    assert(a.people[q].state == PersonState::Trip(x));
                    assert(a.trip(x).person.0 == q);
                }
            }
        }
        assert forall|i: int| 0 <= i < b.trips.len() && (#[trigger] b.trips[i]).ongoing() implies
            b.people[b.trips[i].person.0 as int].state == PersonState::Trip(TripID(i as usize)) by {
            if i != t {
                assert(a.trips[i].ongoing());
            }
        }
    }
    assert(b.agents_ok()) by {
        assert forall|x: AgentID| #[trigger] b.agents.dom().contains(x) implies {
            let u = b.agents[x];
            &&& u.0 < b.trips.len()
            &&& b.trip(u).ongoing()
            &&& expected_agent(b.trip(u), b.traveller(u)) == Some(x)
        } by {
            let u = b.agents[x];
            if u.0 != t {
                assert(a.agents.dom().contains(x));
                assert(a.trips[u.0 as int].ongoing());
                if a.trips[u.0 as int].person.0 == p {
                    assert(a.people[p].state == PersonState::Trip(TripID(u.0)));
                    assert(!a.trips[t].ongoing());
                }
            }
        }
    }
    assert(b.buses_ok()) by {
        assert forall|q: int| 0 <= q < b.people.len() implies (
        #[trigger] b.people[q].on_bus matches Some(bus) ==> b.agents.dom().contains(
            AgentID::BusPassenger(PersonID(q as usize), bus),
        )) by {
            if let Some(bus) = b.people[q].on_bus {
                if q != p {
                    let x = AgentID::BusPassenger(PersonID(q as usize), bus);
                    assert(a.people[q].on_bus == Some(bus));
                    assert(a.agents.dom().contains(x));
                    if !b.agents.dom().contains(x) {
                        assert(a.agents[x].0 == t);
                        assert(expected_agent(a.trips[t], a.people[p]) == Some(x));
                    }
                } else {
                    assert(b.people[p].id == PersonID(p as usize));
                }
            }
        }
    }
    assert(b.queues_ok()) by {
        assert forall|q: int, k: int|
            0 <= q < b.people.len() && 0 <= k < b.people[q].delayed_trips@.len() implies {
            let d = (#[trigger] b.people[q].delayed_trips@[k]).trip;
            d.0 < b.trips.len() && b.trip(d).person.0 == q && b.trip(d).waiting()
        } by {
            if q != p {
                let d = a.people[q].delayed_trips@[k].trip;
                assert(d.0 < a.trips.len() && a.trip(d).person.0 == q);
            }
        }
        assert forall|q: int, i: int, j: int|
            0 <= q < b.people.len() && 0 <= i < j < b.people[q].delayed_trips@.len() implies (
        #[trigger] b.people[q].delayed_trips@[i]).trip != (
        #[trigger] b.people[q].delayed_trips@[j]).trip by {
            if q != p {
                assert(a.people[q].delayed_trips@[i].trip != a.people[q].delayed_trips@[j].trip);
            }
        }
    }
}

/// A registry from which a step takes bindings of its trip, and to which
/// it adds at most one, `added`, for that trip, is still in order, if the
/// trip was not going on, or goes on with the agent it had, or its agent
/// is bound no more.
pub proof fn lemma_agents_fit(a: ManagerState, b: ManagerState, t: int, added: Option<AgentID>)
    requires
        a.wf_but(t),
        a.touches(b, t),
        forall|x: AgentID| #[trigger]
            b.agents.dom().contains(x) ==> (a.agents.dom().contains(x) && a.agents[x]
                == b.agents[x]) || added == Some(x),
        forall|x: AgentID| #[trigger]
            a.agents.dom().contains(x) && !b.agents.dom().contains(x) ==> a.agents[x].0 == t,
        added matches Some(x) ==> b.agents[x].0 == t && b.trips[t].ongoing() && expected_agent(
            b.trips[t],
            b.people[a.trips[t].person.0 as int],
        ) == Some(x),
        ({
            let p = a.trips[t].person.0 as int;
            ||| !a.trips[t].ongoing()
            ||| b.trips[t].ongoing() && expected_agent(b.trips[t], b.people[p]) == expected_agent(
                a.trips[t],
                a.people[p],
            )
            ||| expected_agent(a.trips[t], a.people[p]) matches Some(x)
                ==> !b.agents.dom().contains(x) || added == Some(x)
        }),
    ensures
        a.agents_fit(b, t),
{
    let p = a.trips[t].person.0 as int;
    assert forall|x: AgentID| #[trigger] b.agents.dom().contains(x) implies if b.agents[x].0 == t {
        b.trips[t].ongoing() && expected_agent(b.trips[t], b.people[p]) == Some(x)
    } else {
        a.agents.dom().contains(x) && a.agents[x] == b.agents[x]
    } by {
        if added != Some(x) {
            let u = a.agents[x];
            assert(a.trip(u).ongoing());
            assert(expected_agent(a.trip(u), a.traveller(u)) == Some(x));
        }
    }
}

/// A queue that a step leaves as it is, or relieves of its first trip,
/// is still in order, if the trip of the step is not in it.
pub proof fn lemma_queue_fits(a: ManagerState, b: ManagerState, t: int)
    requires
        a.wf_but(t),
        a.touches(b, t),
        b.people[a.trips[t].person.0 as int].delayed_trips@
            == a.people[a.trips[t].person.0 as int].delayed_trips@
            || b.people[a.trips[t].person.0 as int].delayed_trips@ == rest_delayed(
            a.people[a.trips[t].person.0 as int].delayed_trips@,
        ),
        !a.trips[t].waiting() || !a.queued(TripID(t as usize)),
    ensures
        a.queue_fits(b, t),
{
    let p = a.trips[t].person.0 as int;
    let qa = a.people[p].delayed_trips@;
    let qb = b.people[p].delayed_trips@;
    let shift: int = if qb == qa {
        0
    } else {
        1
    };
    assert forall|k: int| 0 <= k < qb.len() implies {
        let d = (#[trigger] qb[k]).trip;
        d.0 < b.trips.len() && b.trips[d.0 as int].person.0 == p && b.trips[d.0 as int].waiting()
    } by {
        let d = qa[k + shift].trip;
        assert(qb[k] == qa[k + shift]);
        assert(d.0 < a.trips.len() && a.trip(d).person.0 == p && a.trip(d).waiting());
        if d.0 == t {
            assert(a.traveller(TripID(t as usize)).delayed_trips@[k + shift].trip == TripID(
                t as usize,
            ));
        }
    }
    assert forall|i: int, j: int| 0 <= i < j < qb.len() implies (#[trigger] qb[i]).trip != (
    #[trigger] qb[j]).trip by {
        assert(qb[i] == qa[i + shift] && qb[j] == qa[j + shift]);
        assert(qa[i + shift].trip != qa[j + shift].trip);
    }
}

/// The invariant speaks of trips, people, the registry and the counter;
/// nothing else matters to it.
pub proof fn lemma_frame(a: ManagerState, b: ManagerState, t: int)
    requires
        a.wf_but(t),
        b.trips == a.trips,
        b.people == a.people,
        b.agents == a.agents,
        b.unfinished == a.unfinished,
    ensures
        b.wf_but(t),
{
    assert forall|i: int| 0 <= i < b.trips.len() implies b.listed(#[trigger] b.trips[i]) by {
        assert(a.listed(a.trips[i]));
    }
}

impl TripManager {
    /// Whether the registry is in order; it always is.
    pub closed spec fn registry_ok(&self) -> bool {
        self.active_trip_mode.wf()
    }

    /// The invariant of the trip manager: every function that gives one
    /// out or changes one keeps it.
    pub open spec fn wf(&self) -> bool {
        self@.wf() && self.registry_ok()
    }

    /// A trip manager without people or trips.
    pub fn new(pathfinding_upfront: bool) -> (m: TripManager)
        ensures
            m.wf(),
            m@.trips.len() == 0,
            m@.people.len() == 0,
            m@.agents == Map::<AgentID, TripID>::empty(),
            m@.unfinished == 0,
            m@.pathfinding_upfront == pathfinding_upfront,
            m@.next_car == 0,
            m@.events.len() == 0,
    {
        TripManager {
            trips: Vec::new(),
            people: Vec::new(),
            active_trip_mode: ActiveAgents::new(),
            unfinished_trips: 0,
            car_id_counter: 0,
            events: Vec::new(),
            pathfinding_upfront,
        }
    }
}

} // verus!
