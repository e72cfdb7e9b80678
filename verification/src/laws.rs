//! What holds of every trip manager, whatever has happened to it. Every
//! function of the trip manager keeps `wf`; these are its consequences.

use crate::events::{Event, Outcome};
use crate::ids::{AgentID, BuildingID, PersonID, TripID};
use crate::manager::{count_unfinished, expected_agent, ManagerState};
use crate::person::PersonState;
use crate::trip::{Trip, TripEndpoint, TripLeg};
use crate::units::{Duration, Time};
use crate::vehicles::{ParkedCar, Vehicle};
use vstd::prelude::*;

verus! {

/// The places, among `trips`, of the trips that are neither finished nor
/// cancelled.
pub open spec fn unfinished_set(trips: Seq<Trip>) -> Set<int> {
    Set::new(|i: int| 0 <= i < trips.len() && trips[i].unfinished())
}

/// The trips of a person are in the order of their departures: of two
/// trips in a person's list, the one that comes first does not leave later.
pub proof fn trips_sorted_by_departure(s: ManagerState, p: PersonID, i: int, j: int)
    requires
        s.wf(),
        s.has_person(p),
        0 <= i <= j < s.person(p).trips@.len(),
    ensures
        s.has_trip(s.person(p).trips@[i]),
        s.has_trip(s.person(p).trips@[j]),
        s.trip(s.person(p).trips@[i]).info.departure.0 <= s.trip(
            s.person(p).trips@[j],
        ).info.departure.0,
{
    let q = p.0 as int;
    let ti = s.people[q].trips@[i];
    let tj = s.people[q].trips@[j];
    assert(ti.0 < s.trips.len() && tj.0 < s.trips.len());
}

/// A trip is finished, or cancelled, or still to be completed: exactly
/// one of the three.
pub proof fn trip_has_one_status(s: ManagerState, t: TripID)
    requires
        s.wf(),
        s.has_trip(t),
    ensures
        ({
            let finished = s.trip(t).finished_at.is_some();
            let cancelled = s.trip(t).info.cancellation_reason.is_some();
            let open = s.trip(t).unfinished();
            ||| finished && !cancelled && !open
            ||| !finished && cancelled && !open
            ||| !finished && !cancelled && open
        }),
        s.trip(t).finished_at.is_some() <==> s.trip(t).legs@.len() == 0,
{
    assert(s.trips[t.0 as int].consistent());
}

/// Counting the unfinished trips one by one gives the size of their set.
pub proof fn count_is_cardinality(trips: Seq<Trip>)
    ensures
        unfinished_set(trips).finite(),
        unfinished_set(trips).len() == count_unfinished(trips),
    decreases trips.len(),
{
    if trips.len() == 0 {
        assert(unfinished_set(trips) =~= Set::<int>::empty());
    } else {
        let rest = trips.drop_last();
        count_is_cardinality(rest);
        let last = trips.len() - 1;
        if trips.last().unfinished() {
            assert(unfinished_set(trips) =~= unfinished_set(rest).insert(last));
        } else {
            assert(unfinished_set(trips) =~= unfinished_set(rest));
        }
    }
}

/// The counter of unfinished trips says how many trips are neither
/// finished nor cancelled.
pub proof fn counter_counts_unfinished_trips(s: ManagerState)
    requires
        s.wf(),
    ensures
        unfinished_set(s.trips).finite(),
        s.unfinished == unfinished_set(s.trips).len(),
{
    count_is_cardinality(s.trips);
}

/// An active agent is bound to a trip that is going on, and is of the
/// kind that the trip's current leg needs: a pedestrian for a walk, who
/// is the pedestrian of the trip's person; the very vehicle for a drive;
/// the trip's person, on the bus they are marked as riding, for a ride.
pub proof fn active_agent_matches_leg(s: ManagerState, a: AgentID)
    requires
        s.wf(),
        s.agents.dom().contains(a),
    ensures
        s.has_trip(s.agents[a]),
        s.trip(s.agents[a]).ongoing(),
        s.trip(s.agents[a]).legs@.len() > 0,
        s.traveller(s.agents[a]).state == PersonState::Trip(s.agents[a]),
        match a {
            AgentID::Pedestrian(ped) => s.trip(s.agents[a]).legs@[0] is Walk && s.traveller(
                s.agents[a],
            ).ped == ped,
            AgentID::Car(c) => s.trip(s.agents[a]).legs@[0] matches TripLeg::Drive(c2, _) && c2
                == c,
            AgentID::BusPassenger(p, b) => s.trip(s.agents[a]).legs@[0] is RideBus && s.trip(
                s.agents[a],
            ).person == p && s.traveller(s.agents[a]).on_bus == Some(b),
        },
{
    let t = s.agents[a];
    assert(expected_agent(s.trip(t), s.traveller(t)) == Some(a));
    assert(s.trips[t.0 as int].ongoing());
    assert(s.people[s.trips[t.0 as int].person.0 as int].id.0 == s.trips[t.0 as int].person.0);
}

/// A person is in the state of making trip `t` exactly when `t` is a trip
/// of theirs that has started and is neither finished nor cancelled.
pub proof fn state_follows_trip(s: ManagerState, p: PersonID, t: TripID)
    requires
        s.wf(),
        s.has_person(p),
    ensures
        s.person(p).state == PersonState::Trip(t) <==> s.has_trip(t) && s.trip(t).person == p
            && s.trip(t).ongoing(),
{
    let q = p.0 as int;
    if s.person(p).state == PersonState::Trip(t) {
        assert(s.trips[t.0 as int].id.0 == t.0);
        assert(s.people[q].id.0 == q);
    }
    if s.has_trip(t) && s.trip(t).person == p && s.trip(t).ongoing() {
        assert(s.trips[t.0 as int].ongoing());
    }
}

/// A person is marked as riding bus `b` exactly when they are registered
/// as a passenger of `b`.
pub proof fn rider_is_registered(s: ManagerState, p: PersonID, b: crate::ids::CarID)
    requires
        s.wf(),
        s.has_person(p),
    ensures
        s.person(p).on_bus == Some(b) <==> s.agents.dom().contains(AgentID::BusPassenger(p, b)),
{
    let q = p.0 as int;
    let x = AgentID::BusPassenger(p, b);
    assert(s.people[q].id.0 == q);
    if s.agents.dom().contains(x) {
        let t = s.agents[x];
        assert(expected_agent(s.trip(t), s.traveller(t)) == Some(x));
        assert(s.people[s.trips[t.0 as int].person.0 as int].id.0 == s.trips[t.0 as int].person.0);
    }
}

/// A trip that waits in a queue of delayed trips has not started.
pub proof fn delayed_trip_has_not_started(s: ManagerState, p: PersonID, k: int)
    requires
        s.wf(),
        s.has_person(p),
        0 <= k < s.person(p).delayed_trips@.len(),
    ensures
        s.has_trip(s.person(p).delayed_trips@[k].trip),
        s.trip(s.person(p).delayed_trips@[k].trip).person == p,
        s.trip(s.person(p).delayed_trips@[k].trip).waiting(),
{
    let q = p.0 as int;
    let d = s.people[q].delayed_trips@[k].trip;
    assert(d.0 < s.trips.len() && s.trip(d).person.0 == q);
    assert(s.people[q].id.0 == q);
}

/// When a trip is cancelled and its person, whom listeners believe to be
/// inside building `from`, is put into building `to`, listeners hear that
/// the person has left `from` just before they hear that the person has
/// entered `to`.
pub proof fn warp_leaves_before_it_enters(
    a: ManagerState,
    b: ManagerState,
    t: TripID,
    reason: Seq<char>,
    vehicle: Option<Vehicle>,
    begun: bool,
    inside: Option<BuildingID>,
    now: Time,
    out: Outcome,
    from: BuildingID,
    to: BuildingID,
)
    requires
        a.cancels_from(b, t, reason, vehicle, begun, inside, now, out),
        a.whereabouts(t, inside) == PersonState::Inside(from),
        a.trip(t).info.end == TripEndpoint::Bldg(to),
    ensures
        b.events.len() == a.events.len() + 3,
        b.events.subrange(0, a.events.len() as int) == a.events,
        b.events[a.events.len() as int] == Event::TripCancelled(t),
        b.events[a.events.len() as int + 1] == Event::PersonLeavesBuilding(a.trip(t).person, from),
        b.events[a.events.len() as int + 2] == Event::PersonEntersBuilding(a.trip(t).person, to),
{
    assert(b.events.subrange(0, a.events.len() as int) =~= a.events);
}

/// The delayed trip that is handed out when a trip that was going on has
/// finished can be started: it is a trip of the same person, who is free
/// now; it has not started; and it waits in no queue any more.
pub proof fn next_trip_can_start_after_finish(
    a: ManagerState,
    b: ManagerState,
    t: TripID,
    agent: Option<AgentID>,
    now: Time,
    blocked: Duration,
    state: PersonState,
    arrival: Seq<Event>,
    out: Outcome,
)
    requires
        a.wf(),
        a.has_trip(t),
        a.trip(t).ongoing(),
        a.finishes(b, t, agent, now, blocked, state, arrival, out),
        !(state is Trip),
    ensures
        out.next matches Some(d) ==> b.startable(d.trip) && !b.busy(d.trip) && b.trip(
            d.trip,
        ).person == a.trip(t).person,
{
    let p = a.trip(t).person.0 as int;
    if let Some(d) = out.next {
        let queue = a.people[p].delayed_trips@;
        assert(queue[0] == d);
        assert(d.trip.0 < a.trips.len() && a.trip(d.trip).person.0 == p && a.trip(d.trip).waiting());
        assert(d.trip != t);
        assert(b.trips[d.trip.0 as int] == a.trips[d.trip.0 as int]);
        assert(a.people[p].id.0 == p);
        if b.queued(d.trip) {
            let k = choose|k: int|
                0 <= k < b.traveller(d.trip).delayed_trips@.len() && (
                #[trigger] b.traveller(d.trip).delayed_trips@[k]).trip == d.trip;
            assert(queue[k + 1].trip != queue[0].trip);
        }
    }
}

/// The delayed trip that is handed out when a trip has been cancelled can
/// be started: it is a trip of the same person, who is free now; it has
/// not started; and it waits in no queue any more.
pub proof fn next_trip_can_start_after_cancel(
    a: ManagerState,
    b: ManagerState,
    t: TripID,
    reason: Seq<char>,
    vehicle: Option<Vehicle>,
    begun: bool,
    inside: Option<BuildingID>,
    now: Time,
    out: Outcome,
)
    requires
        a.wf(),
        a.cancellable(t, vehicle),
        a.cancels_from(b, t, reason, vehicle, begun, inside, now, out),
    ensures
        out.next matches Some(d) ==> b.startable(d.trip) && !b.busy(d.trip) && b.trip(
            d.trip,
        ).person == a.trip(t).person,
{
    let p = a.trip(t).person.0 as int;
    if let Some(d) = out.next {
        let queue = a.people[p].delayed_trips@;
        assert(queue[0] == d);
        assert(d.trip.0 < a.trips.len() && a.trip(d.trip).person.0 == p && a.trip(d.trip).waiting());
        assert(d.trip != t) by {
            if d.trip == t {
                assert(a.traveller(t).delayed_trips@[0].trip == t);
            }
        }
        assert(b.trips[d.trip.0 as int] == a.trips[d.trip.0 as int]);
        assert(a.people[p].id.0 == p);
        if b.queued(d.trip) {
            let k = choose|k: int|
                0 <= k < b.traveller(d.trip).delayed_trips@.len() && (
                #[trigger] b.traveller(d.trip).delayed_trips@[k]).trip == d.trip;
            assert(queue[k + 1].trip != queue[0].trip);
        }
    }
}

/// When a trip cannot set out from the building `from` in which its
/// person is, and ends at the building `to`, listeners hear of the
/// cancellation, then that the person has left `from`, and then that the
/// person has entered `to`: nobody enters a building without having left
/// the one they were in.
pub proof fn failed_start_leaves_before_it_enters(
    a: ManagerState,
    b: ManagerState,
    now: Time,
    t: TripID,
    entered: Seq<Event>,
    capped: bool,
    reason: Seq<char>,
    vehicle: Option<Vehicle>,
    unpark: Option<ParkedCar>,
    out: Outcome,
    from: BuildingID,
    to: BuildingID,
)
    requires
        a.has_trip(t),
        a.has_person(a.trip(t).person),
        a.dispatches(b, now, t, entered, capped, None, reason, vehicle, unpark, out),
        a.traveller(t).state == PersonState::Inside(from),
        a.trip(t).info.end == TripEndpoint::Bldg(to),
    ensures
        b.events == a.events + entered + seq![
            Event::TripCancelled(t),
            Event::PersonLeavesBuilding(a.trip(t).person, from),
            Event::PersonEntersBuilding(a.trip(t).person, to),
        ],
        b.traveller(t).state == PersonState::Inside(to),
        b.trip(t).info.cancellation_reason.is_some(),
{
    crate::manager::start::lemma_start_failed(
        a,
        b,
        now,
        t,
        entered,
        capped,
        reason,
        vehicle,
        unpark,
        out,
    );
    assert(b.events =~= a.events + entered + seq![
        Event::TripCancelled(t),
        Event::PersonLeavesBuilding(a.trip(t).person, from),
        Event::PersonEntersBuilding(a.trip(t).person, to),
    ]);
}

/// A trip that a handler has finished is finished and nothing else: it
/// has its time of finishing and no reason of cancellation, no legs are
/// left, its agent is bound no more, the counter of unfinished trips is
/// one less, the blocked time has gone to this trip alone, and no other
/// trip and no other person has changed.
pub proof fn finished_trip_is_done(
    a: ManagerState,
    b: ManagerState,
    t: TripID,
    agent: Option<AgentID>,
    now: Time,
    blocked: Duration,
    state: PersonState,
    arrival: Seq<Event>,
    out: Outcome,
)
    requires
        a.wf(),
        a.has_trip(t),
        a.trip(t).ongoing(),
        a.finishes(b, t, agent, now, blocked, state, arrival, out),
    ensures
        b.trip(t).finished_at == Some(now),
        b.trip(t).info.cancellation_reason.is_none(),
        !b.trip(t).unfinished(),
        b.trip(t).legs@.len() == 0,
        b.trip(t).total_blocked_time.0 == ((a.trip(t).total_blocked_time.0 + blocked.0) as i64),
        agent matches Some(x) ==> !b.agents.dom().contains(x),
        b.traveller(t).state == state,
        b.unfinished == a.unfinished - 1,
        b.trips.len() == a.trips.len(),
        forall|i: int| 0 <= i < a.trips.len() && i != t.0 ==> #[trigger] b.trips[i] == a.trips[i],
        forall|q: int|
            0 <= q < a.people.len() && q != a.trip(t).person.0 ==> #[trigger] b.people[q]
                == a.people[q],
{
}

/// A trip that has been cancelled is cancelled and nothing else: it has
/// its reason and no time of finishing, its legs are as they were, the
/// counter of unfinished trips is one less, the person is where the trip
/// was to end, no blocked time has changed, and no other trip and no
/// other person has changed.
pub proof fn cancelled_trip_is_cancelled(
    a: ManagerState,
    b: ManagerState,
    t: TripID,
    reason: Seq<char>,
    vehicle: Option<Vehicle>,
    begun: bool,
    inside: Option<BuildingID>,
    now: Time,
    out: Outcome,
)
    requires
        a.wf(),
        a.cancellable(t, vehicle),
        a.cancels_from(b, t, reason, vehicle, begun, inside, now, out),
    ensures
        b.trip(t).info.cancellation_reason matches Some(r) && r@ == reason,
        b.trip(t).finished_at.is_none(),
        !b.trip(t).unfinished(),
        b.trip(t).legs == a.trip(t).legs,
        b.trip(t).total_blocked_time == a.trip(t).total_blocked_time,
        b.traveller(t).state == crate::manager::creation::state_at(a.trip(t).info.end),
        b.unfinished == a.unfinished - 1,
        forall|x: AgentID| #[trigger] b.agents.dom().contains(x) ==> b.agents[x] != t,
        b.trips.len() == a.trips.len(),
        forall|i: int| 0 <= i < a.trips.len() && i != t.0 ==> #[trigger] b.trips[i] == a.trips[i],
        forall|q: int|
            0 <= q < a.people.len() && q != a.trip(t).person.0 ==> #[trigger] b.people[q]
                == a.people[q],
{
    crate::manager::cancel::lemma_cancels(a, b, t, reason, vehicle, begun, inside, now, out);
    assert forall|x: AgentID| #[trigger] b.agents.dom().contains(x) implies b.agents[x] != t by {
        if b.agents[x] == t {
            assert(b.trip(b.agents[x]).ongoing());
        }
    }
}

} // verus!
