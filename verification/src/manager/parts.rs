//! Taking a trip manager apart and putting it together again, so that it
//! can be stored and brought back.

use crate::events::Event;
use crate::ids::{AgentID, PersonID, TripID};
use crate::manager::{agent_of, count_unfinished, expected_agent, ManagerState, TripManager};
use crate::person::{Person, PersonState};
use crate::registry::{as_map, has_agent, lemma_place, lemma_sorted, place_of, sorted_agents, ActiveAgents};
use crate::trip::Trip;
use vstd::prelude::*;

verus! {

/// Everything that a trip manager holds, laid open.
#[derive(Clone, Debug, PartialEq, Eq)]
pub struct Parts {
    pub trips: Vec<Trip>,
    pub people: Vec<Person>,
    /// The registry of active agents, in the order of the agents.
    pub active_trip_mode: Vec<(AgentID, TripID)>,
    pub unfinished_trips: usize,
    pub pathfinding_upfront: bool,
    pub car_id_counter: usize,
    pub events: Vec<Event>,
}

impl View for Parts {
    type V = ManagerState;

    open spec fn view(&self) -> ManagerState {
        ManagerState {
            trips: self.trips@,
            people: self.people@,
            agents: as_map(self.active_trip_mode@),
            unfinished: self.unfinished_trips as nat,
            pathfinding_upfront: self.pathfinding_upfront,
            next_car: self.car_id_counter as nat,
            events: self.events@,
        }
    }
}

impl Parts {
    /// Whether these parts make a trip manager: the registry stands in the
    /// order of its agents, and the invariant of the trip manager holds.
    pub open spec fn valid(&self) -> bool {
        sorted_agents(self.active_trip_mode@) && self@.wf()
    }

    fn check_ids(&self) -> (ok: bool)
        ensures
            ok == self@.ids_ok(),
    {
        let mut i: usize = 0;
        while i < self.trips.len()
            invariant
                i <= self.trips@.len(),
                forall|j: int|
                    0 <= j < i ==> (#[trigger] self.trips@[j]).id.0 == j && self.trips@[j].person.0
                        < self.people@.len(),
            decreases self.trips@.len() - i,
        {
            if self.trips[i].id.0 != i || self.trips[i].person.0 >= self.people.len() {
                return false;
            }
            i += 1;
        }
        let mut p: usize = 0;
        while p < self.people.len()
            invariant
                p <= self.people@.len(),
                forall|j: int|
                    0 <= j < self.trips@.len() ==> (#[trigger] self.trips@[j]).id.0 == j
                        && self.trips@[j].person.0 < self.people@.len(),
                forall|j: int|
                    0 <= j < p ==> (#[trigger] self.people@[j]).id.0 == j && self.people@[j].ped.0
                        == j,
            decreases self.people@.len() - p,
        {
            if self.people[p].id.0 != p || self.people[p].ped.0 != p {
                return false;
            }
            p += 1;
        }
        true
    }

    fn check_lists(&self) -> (ok: bool)
        requires
            self@.ids_ok(),
        ensures
            ok == self@.lists_ok(),
    {
        let mut p: usize = 0;
        while p < self.people.len()
            invariant
                p <= self.people@.len(),
                forall|q: int, k: int|
                    0 <= q < p && 0 <= k < self.people@[q].trips@.len() ==> {
                        let t = #[trigger] self.people@[q].trips@[k];
                        t.0 < self.trips@.len() && self.trips@[t.0 as int].person.0 == q
                    },
            decreases self.people@.len() - p,
        {
            let list = &self.people[p].trips;
            let mut k: usize = 0;
            while k < list.len()
                invariant
                    k <= list@.len(),
                    p < self.people@.len(),
                    *list == self.people@[p as int].trips,
                    forall|j: int|
                        0 <= j < k ==> {
                            let t = #[trigger] self.people@[p as int].trips@[j];
                            t.0 < self.trips@.len() && self.trips@[t.0 as int].person.0 == p
                        },
                decreases list@.len() - k,
            {
                let t = list[k];
                if t.0 >= self.trips.len() || self.trips[t.0].person.0 != p {
                    assert(self.people@[p as int].trips@[k as int] == t);
                    return false;
                }
                k += 1;
            }
            p += 1;
        }
        let mut i: usize = 0;
        while i < self.trips.len()
            invariant
                i <= self.trips@.len(),
                self@.ids_ok(),
                forall|j: int| 0 <= j < i ==> self@.listed(#[trigger] self.trips@[j]),
            decreases self.trips@.len() - i,
        {
            let list = &self.people[self.trips[i].person.0].trips;
            let mut k: usize = 0;
            let mut found = false;
            while k < list.len() && !found
                invariant
                    k <= list@.len(),
                    i < self.trips@.len(),
                    self@.ids_ok(),
                    *list == self.people@[self.trips@[i as int].person.0 as int].trips,
                    found ==> self@.listed(self.trips@[i as int]),
                    !found ==> forall|j: int| 0 <= j < k ==> (#[trigger] list@[j]).0 != i,
                decreases list@.len() - k + if found { 0int } else { 1int },
            {
                if list[k].0 == i {
                    assert(list@[k as int] == self.trips@[i as int].id);
                    found = true;
                } else {
                    k += 1;
                }
            }
            if !found {
                assert(!self@.listed(self.trips@[i as int])) by {
                    if self@.listed(self.trips@[i as int]) {
                        let j = choose|j: int|
                            0 <= j < self@.people[self.trips@[i as int].person.0 as int].trips@.len()
                                && (
                            #[trigger] self@.people[self.trips@[i as int].person.0 as int].trips@[j])
                                == self.trips@[i as int].id;
                        assert(list@[j].0 != i);
                    }
                }
                return false;
            }
            i += 1;
        }
        true
    }

    fn check_departures(&self) -> (ok: bool)
        requires
            self@.ids_ok(),
            self@.lists_ok(),
        ensures
            ok == self@.departures_sorted(),
    {
        let mut p: usize = 0;
        while p < self.people.len()
            invariant
                p <= self.people@.len(),
                self@.lists_ok(),
                forall|q: int, i: int, j: int|
                    0 <= q < p && 0 <= i <= j < self@.people[q].trips@.len() ==> self@.trip(
                        #[trigger] self@.people[q].trips@[i],
                    ).info.departure.0 <= self@.trip(
                        #[trigger] self@.people[q].trips@[j],
                    ).info.departure.0,
            decreases self.people@.len() - p,
        {
            if !Self::in_order(&self.trips, &self.people[p].trips) {
                return false;
            }
            p += 1;
        }
        true
    }

    /// Whether the trips of `list` depart one no earlier than the one before.
    fn in_order(trips: &Vec<Trip>, list: &Vec<TripID>) -> (ok: bool)
        requires
            forall|k: int| 0 <= k < list@.len() ==> (#[trigger] list@[k]).0 < trips@.len(),
        ensures
            ok == forall|i: int, j: int|
                0 <= i <= j < list@.len() ==> trips@[(#[trigger] list@[i]).0 as int].info.departure.0
                    <= trips@[(#[trigger] list@[j]).0 as int].info.departure.0,
    {
        let mut k: usize = 1;
        while k < list.len()
            invariant
                1 <= k,
                forall|x: int| 0 <= x < list@.len() ==> (#[trigger] list@[x]).0 < trips@.len(),
                forall|i: int, j: int|
                    0 <= i <= j < k && j < list@.len() ==> trips@[(
                    #[trigger] list@[i]).0 as int].info.departure.0 <= trips@[(
                    #[trigger] list@[j]).0 as int].info.departure.0,
            decreases list@.len() - k,
        {
            let before = list[k - 1];
            let here = list[k];
            if trips[before.0].info.departure.0 > trips[here.0].info.departure.0 {
                return false;
            }
            proof {
                assert forall|i: int, j: int| 0 <= i <= j < k + 1 implies trips@[(
                #[trigger] list@[i]).0 as int].info.departure.0 <= trips@[(
                #[trigger] list@[j]).0 as int].info.departure.0 by {
                    if j == k && i < k {
                        assert(trips@[list@[i].0 as int].info.departure.0 <= trips@[list@[k
                            - 1].0 as int].info.departure.0);
                    }
                }
            }
            k += 1;
        }
        true
    }

    fn check_progress(&self) -> (ok: bool)
        ensures
            ok == self@.progress_ok_but(-1),
    {
        let mut i: usize = 0;
        while i < self.trips.len()
            invariant
                i <= self.trips@.len(),
                forall|j: int| 0 <= j < i ==> (#[trigger] self.trips@[j]).consistent(),
            decreases self.trips@.len() - i,
        {
            let t = &self.trips[i];
            let finished = t.finished_at.is_some();
            let fine = finished == (t.legs.len() == 0) && (!finished || (t.started
                && t.info.cancellation_reason.is_none()));
            if !fine {
                assert(!self@.trips[i as int].consistent());
                return false;
            }
            i += 1;
        }
        true
    }

    fn check_count(&self) -> (ok: bool)
        ensures
            ok == (self@.unfinished == count_unfinished(self@.trips)),
    {
        let mut n: usize = 0;
        let mut i: usize = 0;
        assert(self.trips@.take(0) =~= Seq::<Trip>::empty());
        while i < self.trips.len()
            invariant
                i <= self.trips@.len(),
                n == count_unfinished(self.trips@.take(i as int)) <= i,
            decreases self.trips@.len() - i,
        {
            assert(self.trips@.take(i + 1).drop_last() =~= self.trips@.take(i as int));
            let t = &self.trips[i];
            if t.finished_at.is_none() && t.info.cancellation_reason.is_none() {
                n += 1;
            }
            i += 1;
        }
        assert(self.trips@.take(self.trips@.len() as int) =~= self.trips@);
        n == self.unfinished_trips
    }

    fn check_agents(&self) -> (ok: bool)
        requires
            self@.ids_ok(),
            sorted_agents(self.active_trip_mode@),
        ensures
            ok == self@.agents_ok(),
    {
        let list = &self.active_trip_mode;
        proof {
            lemma_sorted(list@);
        }
        let mut i: usize = 0;
        while i < list.len()
            invariant
                i <= list@.len(),
                self@.ids_ok(),
                sorted_agents(list@),
                *list == self.active_trip_mode,
                forall|j: int|
                    0 <= j < i ==> {
                        let t = (#[trigger] list@[j]).1;
                        &&& t.0 < self.trips@.len()
                        &&& self@.trip(t).ongoing()
                        &&& expected_agent(self@.trip(t), self@.traveller(t)) == Some(list@[j].0)
                    },
            decreases list@.len() - i,
        {
            let (a, t) = list[i];
            proof {
                lemma_sorted(list@);
                lemma_place(list@, i as int);
            }
            if t.0 >= self.trips.len() {
                return false;
            }
            let trip = &self.trips[t.0];
            let person = &self.people[trip.person.0];
            let fine = trip.started && trip.finished_at.is_none()
                && trip.info.cancellation_reason.is_none() && match agent_of(trip, person) {
                Some(x) => x == a,
                None => false,
            };
            if !fine {
                return false;
            }
            i += 1;
        }
        proof {
            assert forall|a: AgentID| #[trigger] self@.agents.dom().contains(a) implies {
                let t = self@.agents[a];
                &&& t.0 < self@.trips.len()
                &&& self@.trip(t).ongoing()
                &&& expected_agent(self@.trip(t), self@.traveller(t)) == Some(a)
            } by {
                let j = place_of(list@, a);
                assert(has_agent(list@, a));
                assert(0 <= j < list@.len() && list@[j].0 == a);
            }
        }
        true
    }

    fn check_states(&self) -> (ok: bool)
        requires
            self@.ids_ok(),
        ensures
            ok == self@.states_ok(),
    {
        let mut p: usize = 0;
        while p < self.people.len()
            invariant
                p <= self.people@.len(),
                forall|q: int|
                    0 <= q < p ==> (#[trigger] self@.people[q].state matches PersonState::Trip(t)
                        ==> t.0 < self@.trips.len() && self@.trip(t).person.0 == q && self@.trip(
                        t,
                    ).ongoing()),
            decreases self.people@.len() - p,
        {
            if let PersonState::Trip(t) = self.people[p].state {
                if t.0 >= self.trips.len() {
                    return false;
                }
                let trip = &self.trips[t.0];
                let fine = trip.person.0 == p && trip.started && trip.finished_at.is_none()
                    && trip.info.cancellation_reason.is_none();
                if !fine {
                    return false;
                }
            }
            p += 1;
        }
        let mut i: usize = 0;
        while i < self.trips.len()
            invariant
                i <= self.trips@.len(),
                self@.ids_ok(),
                forall|q: int|
                    0 <= q < self@.people.len() ==> (
                    #[trigger] self@.people[q].state matches PersonState::Trip(t) ==> t.0
                        < self@.trips.len() && self@.trip(t).person.0 == q && self@.trip(
                        t,
                    ).ongoing()),
                forall|j: int|
                    0 <= j < i && (#[trigger] self@.trips[j]).ongoing()
                        ==> self@.people[self@.trips[j].person.0 as int].state == PersonState::Trip(
                        TripID(j as usize),
                    ),
            decreases self.trips@.len() - i,
        {
            let trip = &self.trips[i];
            if trip.started && trip.finished_at.is_none() && trip.info.cancellation_reason.is_none() {
                let fine = match self.people[trip.person.0].state {
                    PersonState::Trip(t) => t.0 == i,
                    _ => false,
                };
                if !fine {
                    return false;
                }
            }
            i += 1;
        }
        true
    }

    fn check_buses(&self) -> (ok: bool)
        requires
            sorted_agents(self.active_trip_mode@),
        ensures
            ok == self@.buses_ok(),
    {
        let mut p: usize = 0;
        while p < self.people.len()
            invariant
                p <= self.people@.len(),
                sorted_agents(self.active_trip_mode@),
                forall|q: int|
                    0 <= q < p ==> (#[trigger] self@.people[q].on_bus matches Some(b)
                        ==> self@.agents.dom().contains(
                        AgentID::BusPassenger(PersonID(q as usize), b),
                    )),
            decreases self.people@.len() - p,
        {
            if let Some(b) = self.people[p].on_bus {
                let found = ActiveAgents::lookup_in(
                    &self.active_trip_mode,
                    AgentID::BusPassenger(PersonID(p), b),
                );
                if found.is_none() {
                    return false;
                }
            }
            p += 1;
        }
        true
    }

    fn check_queues(&self) -> (ok: bool)
        requires
            self@.ids_ok(),
        ensures
            ok == self@.queues_ok(),
    {
        let mut p: usize = 0;
        while p < self.people.len()
            invariant
                p <= self.people@.len(),
                forall|q: int, k: int|
                    0 <= q < p && 0 <= k < self@.people[q].delayed_trips@.len() ==> {
                        let t = (#[trigger] self@.people[q].delayed_trips@[k]).trip;
                        t.0 < self@.trips.len() && self@.trip(t).person.0 == q && self@.trip(
                            t,
                        ).waiting()
                    },
                forall|q: int, i: int, j: int|
                    0 <= q < p && 0 <= i < j < self@.people[q].delayed_trips@.len() ==> (
                    #[trigger] self@.people[q].delayed_trips@[i]).trip != (
                    #[trigger] self@.people[q].delayed_trips@[j]).trip,
            decreases self.people@.len() - p,
        {
            let queue = &self.people[p].delayed_trips;
            let mut k: usize = 0;
            while k < queue.len()
                invariant
                    k <= queue@.len(),
                    p < self.people@.len(),
                    *queue == self.people@[p as int].delayed_trips,
                    forall|j: int|
                        0 <= j < k ==> {
                            let t = (#[trigger] self@.people[p as int].delayed_trips@[j]).trip;
                            t.0 < self@.trips.len() && self@.trip(t).person.0 == p && self@.trip(
                                t,
                            ).waiting()
                        },
                    forall|i: int, j: int|
                        0 <= i < j < k ==> (#[trigger] self@.people[p as int].delayed_trips@[i]).trip
                            != (#[trigger] self@.people[p as int].delayed_trips@[j]).trip,
                decreases queue@.len() - k,
            {
                let t = queue[k].trip;
                assert(self@.people[p as int].delayed_trips@[k as int].trip == t);
                if t.0 >= self.trips.len() {
                    return false;
                }
                let trip = &self.trips[t.0];
                let fine = trip.person.0 == p && !trip.started && trip.finished_at.is_none()
                    && trip.info.cancellation_reason.is_none();
                if !fine {
                    return false;
                }
                let mut i: usize = 0;
                while i < k
                    invariant
                        i <= k < queue@.len(),
                        p < self.people@.len(),
                        *queue == self.people@[p as int].delayed_trips,
                        t == queue@[k as int].trip,
                        forall|x: int| 0 <= x < i ==> (#[trigger] queue@[x]).trip != t,
                    decreases k - i,
                {
                    if queue[i].trip == t {
                        assert(self@.people[p as int].delayed_trips@[i as int].trip
                            == self@.people[p as int].delayed_trips@[k as int].trip);
                        return false;
                    }
                    i += 1;
                }
                k += 1;
            }
            p += 1;
        }
        true
    }

    /// Whether these parts make a trip manager.
    pub fn is_valid(&self) -> (ok: bool)
        ensures
            ok == self.valid(),
    {
        ActiveAgents::is_sorted(&self.active_trip_mode) && self.check_ids() && self.check_lists()
            && self.check_departures() && self.check_progress() && self.check_count()
            && self.check_agents() && self.check_states() && self.check_buses()
            && self.check_queues()
    }
}

impl TripManager {
    /// Takes the trip manager apart.
    pub fn into_parts(self) -> (parts: Parts)
        requires
            self.wf(),
        ensures
            parts.valid(),
            parts@ == self@,
    {
        Parts {
            trips: self.trips,
            people: self.people,
            active_trip_mode: self.active_trip_mode.into_entries(),
            unfinished_trips: self.unfinished_trips,
            pathfinding_upfront: self.pathfinding_upfront,
            car_id_counter: self.car_id_counter,
            events: self.events,
        }
    }

    /// Puts a trip manager together from its parts, if they fit together.
    pub fn from_parts(parts: Parts) -> (r: Option<TripManager>)
        ensures
            r.is_some() == parts.valid(),
            r matches Some(m) ==> m.wf() && m@ == parts@,
    {
        if !parts.is_valid() {
            return None;
        }
        Some(
            TripManager {
                trips: parts.trips,
                people: parts.people,
                active_trip_mode: ActiveAgents::from_entries(parts.active_trip_mode),
                unfinished_trips: parts.unfinished_trips,
                pathfinding_upfront: parts.pathfinding_upfront,
                car_id_counter: parts.car_id_counter,
                events: parts.events,
            },
        )
    }
}

} // verus!
