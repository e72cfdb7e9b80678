//! Questions that the trip manager answers without changing anything but
//! the buffer of events.

use crate::events::Event;
use crate::ids::{AgentID, AgentType, BuildingID, IntersectionID, OrigPersonID, PersonID, TripID};
use crate::manager::{
    agent_of, expected_agent, lemma_count_bound, lemma_frame, ManagerState, TripManager,
};
use crate::person::{Person, PersonState};
use crate::registry::{agents_of, ActiveAgents};
use crate::trip::{
    Trip, TripEndpoint, TripInfo, TripLeg, TripMode, TripPurpose, TripResult,
};
use crate::units::{Duration, Time};
use vstd::prelude::*;
use vstd::seq_lib::{to_multiset_build, to_multiset_insert};

verus! {

/// How many agents of each kind there are.
#[derive(Clone, Copy, Debug, PartialEq, Eq, Structural)]
pub struct AgentCounts {
    pub cars: usize,
    pub bikes: usize,
    pub buses: usize,
    pub trains: usize,
    pub pedestrians: usize,
    pub transit_riders: usize,
}

/// How many of `agents` are of kind `kind`.
pub open spec fn count_kind(agents: Seq<AgentID>, kind: AgentType) -> nat
    decreases agents.len(),
{
    if agents.len() == 0 {
        0
    } else {
        count_kind(agents.drop_last(), kind) + if agents.last().spec_to_type() == kind {
            1nat
        } else {
            0nat
        }
    }
}

/// No more agents are of a kind than there are agents.
pub proof fn lemma_count_kind_bound(agents: Seq<AgentID>, kind: AgentType)
    ensures
        count_kind(agents, kind) <= agents.len(),
    decreases agents.len(),
{
    if agents.len() > 0 {
        lemma_count_kind_bound(agents.drop_last(), kind);
    }
}

/// How many of `people` are in a state that `wanted` accepts.
pub open spec fn count_people(people: Seq<Person>, wanted: spec_fn(PersonState) -> bool) -> nat
    decreases people.len(),
{
    if people.len() == 0 {
        0
    } else {
        count_people(people.drop_last(), wanted) + if wanted(people.last().state) {
            1nat
        } else {
            0nat
        }
    }
}

/// What is kept of a trip when a scenario is made of what happened: when
/// it was to leave, why, from where to where, and how.
#[derive(Clone, Copy, Debug, PartialEq, Eq, Structural)]
pub struct TripPlan {
    pub departure: Time,
    pub purpose: TripPurpose,
    pub start: TripEndpoint,
    pub end: TripEndpoint,
    pub mode: TripMode,
}

/// A person and the trips they are to make, for a scenario.
#[derive(Clone, Debug, PartialEq, Eq)]
pub struct PersonPlan {
    pub id: PersonID,
    pub orig_id: Option<OrigPersonID>,
    pub trips: Vec<TripPlan>,
}

/// The plan that trip `t` gives. The legs of the trip are not kept.
pub open spec fn plan_of(t: Trip) -> TripPlan {
    TripPlan {
        departure: t.info.departure,
        purpose: t.info.purpose,
        start: t.info.start,
        end: t.info.end,
        mode: t.info.mode,
    }
}

/// The place of a kind of agent in the order in which kinds are sorted.
pub open spec fn rank(kind: AgentType) -> int {
    match kind {
        AgentType::Car => 0,
        AgentType::Bike => 1,
        AgentType::Bus => 2,
        AgentType::Train => 3,
        AgentType::Pedestrian => 4,
        AgentType::TransitRider => 5,
    }
}

/// Whether arrival `a` comes before arrival `b`, or is the same: the
/// earlier one first, and of two at the same time the one whose kind comes
/// first.
pub open spec fn arrival_le(a: (Time, AgentType), b: (Time, AgentType)) -> bool {
    a.0.0 < b.0.0 || (a.0.0 == b.0.0 && rank(a.1) <= rank(b.1))
}

/// Whether every arrival in `s` comes before the ones after it.
pub open spec fn arrivals_sorted(s: Seq<(Time, AgentType)>) -> bool {
    forall|i: int, j: int| 0 <= i <= j < s.len() ==> arrival_le(#[trigger] s[i], #[trigger] s[j])
}

/// The kind of agent in which a trip of mode `mode` arrives at a border.
pub open spec fn arriving_kind(mode: TripMode) -> AgentType {
    match mode {
        TripMode::Walk => AgentType::Pedestrian,
        TripMode::Bike => AgentType::Bike,
        TripMode::Drive => AgentType::Car,
        TripMode::Transit => AgentType::Pedestrian,
    }
}

/// Whether trip `t` brings somebody into the map through `at`.
pub open spec fn arrives_at(t: Trip, at: IntersectionID) -> bool {
    t.info.cancellation_reason.is_none() && (t.info.start matches TripEndpoint::Border(i, _) && i
        == at)
}

/// The arrivals at the border `at` that `trips` bring, in the order of
/// the trips.
pub open spec fn arrivals(trips: Seq<Trip>, at: IntersectionID) -> Seq<(Time, AgentType)>
    decreases trips.len(),
{
    if trips.len() == 0 {
        seq![]
    } else if arrives_at(trips.last(), at) {
        arrivals(trips.drop_last(), at).push(
            (trips.last().info.departure, arriving_kind(trips.last().info.mode)),
        )
    } else {
        arrivals(trips.drop_last(), at)
    }
}

fn kind_rank(kind: AgentType) -> (r: u8)
    ensures
        r == rank(kind),
{
    match kind {
        AgentType::Car => 0,
        AgentType::Bike => 1,
        AgentType::Bus => 2,
        AgentType::Train => 3,
        AgentType::Pedestrian => 4,
        AgentType::TransitRider => 5,
    }
}

fn comes_before(a: (Time, AgentType), b: (Time, AgentType)) -> (r: bool)
    ensures
        r == arrival_le(a, b),
{
    a.0.0 < b.0.0 || (a.0.0 == b.0.0 && kind_rank(a.1) <= kind_rank(b.1))
}

impl TripManager {
    /// The active agents, in their order.
    pub closed spec fn agent_order(&self) -> Seq<AgentID> {
        agents_of(self.active_trip_mode.entries())
    }

    /// The active agents, in their order: vehicles, then pedestrians,
    /// then passengers.
    pub fn active_agents(&self) -> (v: Vec<AgentID>)
        requires
            self.wf(),
        ensures
            v@ == self.agent_order(),
            forall|i: int, j: int|
                0 <= i < j < v@.len() ==> (#[trigger] v@[i]).spec_precedes(#[trigger] v@[j]),
            v@.no_duplicates(),
            v@.to_set() == self@.agents.dom(),
    {
        self.active_trip_mode.agents()
    }

    /// The trips of the active agents, in the order of `active_agents`.
    pub fn get_active_trips(&self) -> (v: Vec<TripID>)
        requires
            self.wf(),
        ensures
            v@.len() == self.agent_order().len(),
            forall|i: int| 0 <= i < v@.len() ==> v@[i] == self@.agents[#[trigger] self.agent_order()[i]],
    {
        self.active_trip_mode.trips()
    }

    /// The registry of active agents.
    pub fn active_agents_and_trips(&self) -> (r: &ActiveAgents)
        requires
            self.wf(),
        ensures
            r@ == self@.agents,
            r.wf(),
    {
        &self.active_trip_mode
    }

    /// How many agents are active.
    pub fn num_active_agents(&self) -> (n: usize)
        requires
            self.wf(),
        ensures
            self@.agents.dom().finite(),
            n == self@.agents.dom().len(),
    {
        self.active_trip_mode.len()
    }

    /// The agent that is moving trip `id` right now, or why there is none.
    pub fn trip_to_agent(&self, id: TripID) -> (r: TripResult<AgentID>)
        requires
            self.wf(),
        ensures
            r == if !self@.has_trip(id) {
                TripResult::<AgentID>::TripDoesntExist
            } else if self@.trip(id).finished_at.is_some() {
                TripResult::<AgentID>::TripDone
            } else if self@.trip(id).info.cancellation_reason.is_some() {
                TripResult::<AgentID>::TripCancelled
            } else if !self@.trip(id).started {
                TripResult::<AgentID>::TripNotStarted
            } else if self@.trip(id).legs@[0] is Remote {
                TripResult::<AgentID>::RemoteTrip
            } else {
                match expected_agent(self@.trip(id), self@.traveller(id)) {
                    Some(a) => if self@.agents.dom().contains(a) && self@.agents[a] == id {
                        TripResult::<AgentID>::Found(a)
                    } else {
                        TripResult::<AgentID>::ModeChange
                    },
                    None => TripResult::<AgentID>::ModeChange,
                }
            },
    {
        if id.0 >= self.trips.len() {
            return TripResult::TripDoesntExist;
        }
        let trip = &self.trips[id.0];
        if trip.finished_at.is_some() {
            return TripResult::TripDone;
        }
        if trip.info.cancellation_reason.is_some() {
            return TripResult::TripCancelled;
        }
        if !trip.started {
            return TripResult::TripNotStarted;
        }
        let person = &self.people[trip.person.0];
        let a = match trip.legs[0] {
            TripLeg::Walk(_) => AgentID::Pedestrian(person.ped),
            TripLeg::Drive(c, _) => AgentID::Car(c),
            TripLeg::RideBus(_, _) => match person.on_bus {
                Some(b) => AgentID::BusPassenger(person.id, b),
                None => {
                    return TripResult::ModeChange;
                },
            },
            TripLeg::Remote(_) => {
                return TripResult::RemoteTrip;
            },
        };
        match self.active_trip_mode.lookup(a) {
            Some(t) => if t == id {
                TripResult::Found(a)
            } else {
                TripResult::ModeChange
            },
            None => TripResult::ModeChange,
        }
    }

    /// The agent that carries out the current leg of trip `id`, whether it
    /// is active already or not: none unless the trip is going on, and
    /// none for a trip beyond the map or a ride on no bus.
    pub fn agent_for(&self, id: TripID) -> (a: Option<AgentID>)
        requires
            self.wf(),
        ensures
            a == if self@.has_trip(id) && self@.trip(id).ongoing() {
                expected_agent(self@.trip(id), self@.traveller(id))
            } else {
                None
            },
    {
        if id.0 >= self.trips.len() {
            return None;
        }
        let trip = &self.trips[id.0];
        if trip.started && trip.finished_at.is_none() && trip.info.cancellation_reason.is_none() {
            agent_of(trip, &self.people[trip.person.0])
        } else {
            None
        }
    }

    /// The trip that `id` is moving. Parked cars and buses move none.
    pub fn agent_to_trip(&self, id: AgentID) -> (t: Option<TripID>)
        requires
            self.wf(),
        ensures
            t == if self@.agents.dom().contains(id) {
                Some(self@.agents[id])
            } else {
                None
            },
    {
        self.active_trip_mode.lookup(id)
    }

    /// The last leg of the trip that `id` is moving, which says where the
    /// trip is headed, if `id` is moving a trip.
    pub fn trip_goal(&self, id: AgentID) -> (r: Option<(TripID, TripLeg)>)
        requires
            self.wf(),
        ensures
            r == if self@.agents.dom().contains(id) {
                Some((self@.agents[id], self@.trip(self@.agents[id]).legs@.last()))
            } else {
                None
            },
    {
        match self.active_trip_mode.lookup(id) {
            Some(t) => {
                let legs = &self.trips[t.0].legs;
                Some((t, legs[legs.len() - 1]))
            },
            None => None,
        }
    }

    /// What there is to say of the trip that `id` is moving, for whoever
    /// looks for a mistake: where the trip is headed, or that there is none.
    pub fn debug_trip(&self, id: AgentID) -> (line: String)
        requires
            self.wf(),
        ensures
            line@ == crate::text::debug_text(
                id,
                if self@.agents.dom().contains(id) {
                    Some((self@.agents[id], self@.trip(self@.agents[id]).legs@.last()))
                } else {
                    None
                },
            ),
    {
        crate::text::say_debug(id, self.trip_goal(id))
    }

    /// The legs that remain of trip `id`, the current one first.
    pub fn trip_legs(&self, id: TripID) -> (v: Vec<TripLeg>)
        requires
            self.wf(),
            self@.has_trip(id),
        ensures
            v@ == self@.trip(id).legs@,
    {
        let legs = &self.trips[id.0].legs;
        let mut v: Vec<TripLeg> = Vec::new();
        let mut i: usize = 0;
        while i < legs.len()
            invariant
                i <= legs@.len(),
                v@ == legs@.subrange(0, i as int),
            decreases legs@.len() - i,
        {
            v.push(legs[i]);
            assert(v@ =~= legs@.subrange(0, i + 1));
            i += 1;
        }
        assert(v@ =~= legs@);
        v
    }

    /// Whether trip `id` has been started.
    pub fn trip_started(&self, id: TripID) -> (b: bool)
        requires
            self.wf(),
            self@.has_trip(id),
        ensures
            b == self@.trip(id).started,
    {
        self.trips[id.0].started
    }

    /// How many trips are finished or cancelled, and how many are not.
    pub fn num_trips(&self) -> (n: (usize, usize))
        requires
            self.wf(),
        ensures
            n.0 == self@.trips.len() - self@.unfinished,
            n.1 == self@.unfinished,
    {
        proof {
            lemma_count_bound(self@.trips);
        }
        (self.trips.len() - self.unfinished_trips, self.unfinished_trips)
    }

    /// Whether `num_agents` accepts these arguments.
    pub fn may_num_agents(&self, buses: usize, trains: usize) -> (b: bool)
        requires
            self.wf(),
        ensures
            b == ManagerState::pre_num_agents(self.agent_order(), buses, trains),
    {
        proof {
            lemma_count_kind_bound(self.agent_order(), AgentType::Bus);
            lemma_count_kind_bound(self.agent_order(), AgentType::Train);
        }
        let total = self.active_trip_mode.len();
        let n = self.num_agents(0, 0);
        buses <= usize::MAX - n.buses && trains <= usize::MAX - n.trains
    }

    /// How many agents of each kind are active, the riders of transit
    /// among them, and with them the `buses` and `trains` that the transit
    /// system is running.
    pub fn num_agents(&self, buses: usize, trains: usize) -> (n: AgentCounts)
        requires
            self.wf(),
            ManagerState::pre_num_agents(self.agent_order(), buses, trains),
        ensures
            n.cars == count_kind(self.agent_order(), AgentType::Car),
            n.bikes == count_kind(self.agent_order(), AgentType::Bike),
            n.buses == count_kind(self.agent_order(), AgentType::Bus) + buses,
            n.trains == count_kind(self.agent_order(), AgentType::Train) + trains,
            n.pedestrians == count_kind(self.agent_order(), AgentType::Pedestrian),
            n.transit_riders == count_kind(self.agent_order(), AgentType::TransitRider),
    {
        let agents = self.active_trip_mode.agents();
        let mut n = AgentCounts {
            cars: 0,
            bikes: 0,
            buses: 0,
            trains: 0,
            pedestrians: 0,
            transit_riders: 0,
        };
        let mut i: usize = 0;
        while i < agents.len()
            invariant
                i <= agents@.len(),
                n.cars == count_kind(agents@.take(i as int), AgentType::Car) <= i,
                n.bikes == count_kind(agents@.take(i as int), AgentType::Bike) <= i,
                n.buses == count_kind(agents@.take(i as int), AgentType::Bus) <= i,
                n.trains == count_kind(agents@.take(i as int), AgentType::Train) <= i,
                n.pedestrians == count_kind(agents@.take(i as int), AgentType::Pedestrian) <= i,
                n.transit_riders == count_kind(agents@.take(i as int), AgentType::TransitRider)
                    <= i,
            decreases agents@.len() - i,
        {
            assert(agents@.take(i + 1).drop_last() =~= agents@.take(i as int));
            match agents[i].to_type() {
                AgentType::Car => {
                    n.cars += 1;
                },
                AgentType::Bike => {
                    n.bikes += 1;
                },
                AgentType::Bus => {
                    n.buses += 1;
                },
                AgentType::Train => {
                    n.trains += 1;
                },
                AgentType::Pedestrian => {
                    n.pedestrians += 1;
                },
                AgentType::TransitRider => {
                    n.transit_riders += 1;
                },
            }
            i += 1;
        }
        assert(agents@.take(agents@.len() as int) =~= agents@);
        n.buses += buses;
        n.trains += trains;
        n
    }

    /// How many people there are, how many of them are inside a building,
    /// and how many are off the map.
    pub fn num_ppl(&self) -> (n: (usize, usize, usize))
        requires
            self.wf(),
        ensures
            n.0 == self@.people.len(),
            n.1 == count_people(self@.people, |s: PersonState| s is Inside),
            n.2 == count_people(self@.people, |s: PersonState| s is OffMap),
    {
        let mut ppl_in_bldg: usize = 0;
        let mut ppl_off_map: usize = 0;
        let mut i: usize = 0;
        while i < self.people.len()
            invariant
                i <= self.people@.len(),
                ppl_in_bldg == count_people(self.people@.take(i as int), |s: PersonState| s is Inside)
                    <= i,
                ppl_off_map == count_people(self.people@.take(i as int), |s: PersonState| s is OffMap)
                    <= i,
            decreases self.people@.len() - i,
        {
            assert(self.people@.take(i + 1).drop_last() =~= self.people@.take(i as int));
            match self.people[i].state {
                PersonState::Trip(_) => {},
                PersonState::Inside(_) => {
                    ppl_in_bldg += 1;
                },
                PersonState::OffMap => {
                    ppl_off_map += 1;
                },
            }
            i += 1;
        }
        assert(self.people@.take(self.people@.len() as int) =~= self.people@);
        (self.people.len(), ppl_in_bldg, ppl_off_map)
    }

    /// Whether every trip is finished or cancelled.
    pub fn is_done(&self) -> (b: bool)
        requires
            self.wf(),
        ensures
            b == (self@.unfinished == 0),
    {
        self.unfinished_trips == 0
    }

    /// Hands out the events that have happened since the last call, oldest
    /// first, and forgets them.
    pub fn collect_events(&mut self) -> (v: Vec<Event>)
        requires
            old(self).wf(),
        ensures
            final(self).wf(),
            v@ == old(self)@.events,
            final(self)@ == (ManagerState { events: Seq::<Event>::empty(), ..old(self)@ }),
    {
        let mut v: Vec<Event> = Vec::new();
        std::mem::swap(&mut self.events, &mut v);
        proof {
            lemma_frame(old(self)@, self@, -1);
        }
        v
    }

    /// What trip `id` is.
    pub fn trip_info(&self, id: TripID) -> (info: TripInfo)
        requires
            self.wf(),
            self@.has_trip(id),
        ensures
            info == self@.trip(id).info,
    {
        self.trips[id.0].info.clone()
    }

    /// What every trip is, in the order of the trips.
    pub fn all_trip_info(&self) -> (v: Vec<(TripID, TripInfo)>)
        requires
            self.wf(),
        ensures
            v@.len() == self@.trips.len(),
            forall|i: int|
                0 <= i < v@.len() ==> #[trigger] v@[i] == (TripID(i as usize), self@.trips[i].info),
    {
        let mut v: Vec<(TripID, TripInfo)> = Vec::new();
        let mut i: usize = 0;
        while i < self.trips.len()
            invariant
                i <= self.trips@.len(),
                self.wf(),
                v@.len() == i,
                forall|j: int|
                    0 <= j < i ==> #[trigger] v@[j] == (TripID(j as usize), self.trips@[j].info),
            decreases self.trips@.len() - i,
        {
            let t = &self.trips[i];
            assert(t.id == TripID(i));
            v.push((t.id, t.info.clone()));
            i += 1;
        }
        v
    }

    /// How long trip `id` took from its scheduled departure to its end,
    /// and how much of that time its agents were blocked, if it is finished.
    pub fn finished_trip_time(&self, id: TripID) -> (r: Option<(Duration, Duration)>)
        requires
            self.wf(),
            self@.pre_finished_trip_time(id),
        ensures
            r == match self@.trip(id).finished_at {
                Some(end) => Some(
                    (end.spec_since(self@.trip(id).info.departure), self@.trip(id).total_blocked_time),
                ),
                None => None,
            },
    {
        let t = &self.trips[id.0];
        match t.finished_at {
            Some(end) => Some((end.since(t.info.departure), t.total_blocked_time)),
            None => None,
        }
    }

    /// How long the agents of trip `id` have been blocked so far.
    pub fn trip_blocked_time(&self, id: TripID) -> (d: Duration)
        requires
            self.wf(),
            self@.has_trip(id),
        ensures
            d == self@.trip(id).total_blocked_time,
    {
        self.trips[id.0].total_blocked_time
    }

    /// The people who are inside building `b`, in the order of their
    /// identifiers.
    pub fn bldg_to_people(&self, b: BuildingID) -> (v: Vec<PersonID>)
        requires
            self.wf(),
        ensures
            forall|i: int, j: int| 0 <= i < j < v@.len() ==> (#[trigger] v@[i]).0 < (#[trigger] v@[j]).0,
            forall|p: PersonID| #[trigger]
                v@.contains(p) <==> self@.has_person(p) && self@.person(p).state
                    == PersonState::Inside(b),
    {
        let mut v: Vec<PersonID> = Vec::new();
        let mut i: usize = 0;
        while i < self.people.len()
            invariant
                i <= self.people@.len(),
                self.wf(),
                forall|x: int, y: int| 0 <= x < y < v@.len() ==> (#[trigger] v@[x]).0 < (#[trigger] v@[y]).0,
                forall|x: int| 0 <= x < v@.len() ==> (#[trigger] v@[x]).0 < i,
                forall|p: PersonID| #[trigger]
                    v@.contains(p) <==> p.0 < i && self.people@[p.0 as int].state
                        == PersonState::Inside(b),
            decreases self.people@.len() - i,
        {
            let ghost before = v@;
            let person = &self.people[i];
            if person.state == PersonState::Inside(b) {
                assert(person.id == PersonID(i));
                v.push(person.id);
                assert forall|p: PersonID| #[trigger]
                    v@.contains(p) <==> p.0 < i + 1 && self.people@[p.0 as int].state
                        == PersonState::Inside(b) by {
                    if before.contains(p) {
                        let k = choose|k: int| 0 <= k < before.len() && before[k] == p;
                        assert(v@[k] == p);
                    }
                    if p.0 == i {
                        assert(v@[before.len() as int] == p);
                    }
                    if v@.contains(p) {
                        let k = choose|k: int| 0 <= k < v@.len() && v@[k] == p;
                        if k < before.len() {
                            assert(before[k] == p);
                        }
                    }
                }
            }
            i += 1;
        }
        v
    }

    /// The person with identifier `p`, if there is one.
    pub fn get_person(&self, p: PersonID) -> (r: Option<&Person>)
        requires
            self.wf(),
        ensures
            r == if self@.has_person(p) {
                Some(&self@.person(p))
            } else {
                None
            },
    {
        if p.0 < self.people.len() {
            Some(&self.people[p.0])
        } else {
            None
        }
    }

    /// All people, in the order of their identifiers.
    pub fn get_all_people(&self) -> (r: &Vec<Person>)
        requires
            self.wf(),
        ensures
            r@ == self@.people,
    {
        &self.people
    }

    /// The person who makes trip `id`.
    pub fn trip_to_person(&self, id: TripID) -> (p: PersonID)
        requires
            self.wf(),
            self@.has_trip(id),
        ensures
            p == self@.trip(id).person,
    {
        self.trips[id.0].person
    }

    /// When somebody comes into the map through the border `at`, by the
    /// departures of the trips that are not cancelled, and in what kind
    /// of agent, the earliest first.
    pub fn all_arrivals_at_border(&self, at: IntersectionID) -> (times: Vec<(Time, AgentType)>)
        requires
            self.wf(),
        ensures
            arrivals_sorted(times@),
            times@.to_multiset() == arrivals(self@.trips, at).to_multiset(),
    {
        let mut times: Vec<(Time, AgentType)> = Vec::new();
        let mut i: usize = 0;
        assert(self.trips@.take(0) =~= Seq::<Trip>::empty());
        while i < self.trips.len()
            invariant
                i <= self.trips@.len(),
                arrivals_sorted(times@),
                times@.to_multiset() == arrivals(self.trips@.take(i as int), at).to_multiset(),
            decreases self.trips@.len() - i,
        {
            assert(self.trips@.take(i + 1).drop_last() =~= self.trips@.take(i as int));
            let t = &self.trips[i];
            let counts = t.info.cancellation_reason.is_none() && match t.info.start {
                TripEndpoint::Border(b, _) => b == at,
                TripEndpoint::Bldg(_) => false,
            };
            if counts {
                let kind = match t.info.mode {
                    TripMode::Walk => AgentType::Pedestrian,
                    TripMode::Bike => AgentType::Bike,
                    TripMode::Drive => AgentType::Car,
                    TripMode::Transit => AgentType::Pedestrian,
                };
                let entry = (t.info.departure, kind);
                let mut k: usize = 0;
                while k < times.len() && comes_before(times[k], entry)
                    invariant
                        k <= times@.len(),
                        arrivals_sorted(times@),
                        forall|j: int| 0 <= j < k ==> arrival_le(#[trigger] times@[j], entry),
                    decreases times@.len() - k,
                {
                    k += 1;
                }
                proof {
                    let before = times@;
                    let after = before.insert(k as int, entry);
                    to_multiset_insert(before, k as int, entry);
                    to_multiset_build(arrivals(self.trips@.take(i as int), at), entry);
                    assert forall|x: int, y: int| 0 <= x <= y < after.len() implies arrival_le(
                        #[trigger] after[x],
                        #[trigger] after[y],
                    ) by {
                        let x0 = if x < k { x } else { x - 1 };
                        let y0 = if y < k { y } else { y - 1 };
                        if x == k {
                            if y > k {
                                assert(arrival_le(before[k as int], before[y0]));
                            }
                        } else if y == k {
                            if x > k {
                                assert(false);
                            }
                        } else {
                            assert(arrival_le(before[x0], before[y0]));
                        }
                    }
                }
                times.insert(k, entry);
            }
            i += 1;
        }
        assert(self.trips@.take(self.trips@.len() as int) =~= self.trips@);
        times
    }

    /// The scenario that would bring about the trips that there are: for
    /// every person, their trips in order, each with its departure, its
    /// purpose, its endpoints and its mode. The legs are not kept.
    pub fn generate_scenario(&self) -> (plans: Vec<PersonPlan>)
        requires
            self.wf(),
        ensures
            plans@.len() == self@.people.len(),
            forall|p: int|
                0 <= p < plans@.len() ==> {
                    let plan = #[trigger] plans@[p];
                    let person = self@.people[p];
                    &&& plan.id == person.id
                    &&& plan.orig_id == person.orig_id
                    &&& plan.trips@.len() == person.trips@.len()
                    &&& forall|k: int|
                        0 <= k < plan.trips@.len() ==> #[trigger] plan.trips@[k] == plan_of(
                            self@.trip(person.trips@[k]),
                        )
                },
    {
        let mut plans: Vec<PersonPlan> = Vec::new();
        let mut p: usize = 0;
        while p < self.people.len()
            invariant
                p <= self.people@.len(),
                self.wf(),
                plans@.len() == p,
                forall|q: int|
                    0 <= q < p ==> {
                        let plan = #[trigger] plans@[q];
                        let person = self@.people[q];
                        &&& plan.id == person.id
                        &&& plan.orig_id == person.orig_id
                        &&& plan.trips@.len() == person.trips@.len()
                        &&& forall|k: int|
                            0 <= k < plan.trips@.len() ==> #[trigger] plan.trips@[k] == plan_of(
                                self@.trip(person.trips@[k]),
                            )
                    },
            decreases self.people@.len() - p,
        {
            let person = &self.people[p];
            let mut trips: Vec<TripPlan> = Vec::new();
            let mut k: usize = 0;
            while k < person.trips.len()
                invariant
                    k <= person.trips@.len(),
                    self.wf(),
                    p < self.people@.len(),
                    *person == self.people@[p as int],
                    trips@.len() == k,
                    forall|j: int|
                        0 <= j < k ==> #[trigger] trips@[j] == plan_of(self@.trip(person.trips@[j])),
                decreases person.trips@.len() - k,
            {
                let id = person.trips[k];
                assert(id == self@.people[p as int].trips@[k as int]);
                let t = &self.trips[id.0];
                trips.push(
                    TripPlan {
                        departure: t.info.departure,
                        purpose: t.info.purpose,
                        start: t.info.start,
                        end: t.info.end,
                        mode: t.info.mode,
                    },
                );
                k += 1;
            }
            plans.push(PersonPlan { id: person.id, orig_id: person.orig_id, trips });
            p += 1;
        }
        plans
    }
}

} // verus!
