//! Cancelling trips: before they start, or on the way, when the person is
//! put at the destination and the car, if one is left behind, near it.

use crate::events::{AlertLocation, Event, Outcome, VehicleWarp};
use crate::ids::{AgentID, BuildingID, PersonID, TripID, VehicleType};
use crate::manager::creation::state_at;
use crate::manager::{
    expected_agent, first_delayed, lemma_agents_fit, lemma_count_positive, lemma_frame,
    lemma_queue_fits, lemma_step, rest_delayed, ManagerState, TripManager,
};
use crate::person::{Person, PersonState};
use crate::places::ParkingSpot;
use crate::text::{say_warp, warp_text};
use crate::trip::{Trip, TripEndpoint, TripInfo, TripLeg};
use crate::units::Time;
use crate::vehicles::{ParkedCar, Vehicle};
use vstd::prelude::*;

verus! {

/// The event that tells that a person has left the building they were in,
/// if they were in one.
pub open spec fn leaving(person: PersonID, state: PersonState) -> Seq<Event> {
    match state {
        PersonState::Inside(b) => seq![Event::PersonLeavesBuilding(person, b)],
        _ => seq![],
    }
}

/// The event that tells that a person is at `end` without having
/// travelled there.
pub open spec fn arriving(person: PersonID, end: TripEndpoint) -> Event {
    match end {
        TripEndpoint::Bldg(b) => Event::PersonEntersBuilding(person, b),
        TripEndpoint::Border(i, loc) => Event::PersonLeavesMap(person, None, i, loc),
    }
}

/// The car to be parked near the end of a cancelled trip: the abandoned
/// vehicle, if it is a car and the trip ends at a building.
pub open spec fn warp_for(
    person: PersonID,
    vehicle: Option<Vehicle>,
    end: TripEndpoint,
    now: Time,
) -> Option<VehicleWarp> {
    match (vehicle, end) {
        (Some(v), TripEndpoint::Bldg(b)) => if v.vehicle_type == VehicleType::Car {
            Some(VehicleWarp { person, vehicle: v, near: b, since: now })
        } else {
            None
        },
        _ => None,
    }
}

/// The spot in which a car that was left behind is parked: the first free
/// spot along the driving lane next to the building, `free_near`, if there
/// is one, and else the free spot that can be reached from there,
/// `reachable`, if there is one.
pub fn warp_spot(free_near: Option<ParkingSpot>, reachable: Option<ParkingSpot>) -> (s: Option<
    ParkingSpot,
>)
    ensures
        s == match free_near {
            Some(x) => Some(x),
            None => reachable,
        },
{
    match free_near {
        Some(x) => Some(x),
        None => reachable,
    }
}

impl ManagerState {
    /// Whether trip `t` can be cancelled, a vehicle being left behind or
    /// not: the trip is neither finished nor cancelled, it does not wait
    /// in a queue, its person is not busy with another trip, and no agent
    /// is moving it, except a car that the trip is driving when no vehicle
    /// is said to be left behind.
    pub open spec fn cancellable(self, t: TripID, vehicle: Option<Vehicle>) -> bool {
        &&& self.has_trip(t)
        &&& self.trip(t).unfinished()
        &&& !self.queued(t)
        &&& self.traveller(t).state is Trip ==> self.traveller(t).state == PersonState::Trip(t)
        &&& expected_agent(self.trip(t), self.traveller(t)) matches Some(x) ==> (
        self.agents.dom().contains(x) ==> vehicle.is_none() && x is Car && self.agents[x] == t)
    }

    /// The registry after trip `t` has been cancelled: without the car
    /// that the trip was driving, if no vehicle is left behind.
    pub open spec fn agents_after_cancel(self, t: TripID, vehicle: Option<Vehicle>) -> Map<
        AgentID,
        TripID,
    > {
        match self.trip(t).legs@[0] {
            TripLeg::Drive(c, _) => if vehicle.is_none() {
                self.agents.remove(AgentID::Car(c))
            } else {
                self.agents
            },
            _ => self.agents,
        }
    }

    /// Whether `next` is `self` after trip `t` has been cancelled for the
    /// reason `reason`: the trip counts as cancelled (and as started, if
    /// `begun` says so); the person is where the trip was to end; listeners
    /// hear of the cancelled trip, of the person leaving the building they
    /// were in, and of their arrival; a car that is left behind at a
    /// building is handed out to be parked; and the first delayed trip of
    /// the person, if any, has left the queue for `out.next`.
    pub open spec fn cancels(
        self,
        next: ManagerState,
        t: TripID,
        reason: Seq<char>,
        vehicle: Option<Vehicle>,
        begun: bool,
        now: Time,
        out: Outcome,
    ) -> bool {
        self.cancels_from(next, t, reason, vehicle, begun, None, now, out)
    }

    /// Where listeners believe the person of trip `t` to be: inside the
    /// building `inside`, if they have entered one on the way, and else
    /// where the person's state says.
    pub open spec fn whereabouts(self, t: TripID, inside: Option<BuildingID>) -> PersonState {
        match inside {
            Some(b) => PersonState::Inside(b),
            None => self.traveller(t).state,
        }
    }

    /// As `cancels`, for a person whom listeners have heard enter the
    /// building `inside` on the way, if any: that is the building they
    /// hear the person leave.
    pub open spec fn cancels_from(
        self,
        next: ManagerState,
        t: TripID,
        reason: Seq<char>,
        vehicle: Option<Vehicle>,
        begun: bool,
        inside: Option<BuildingID>,
        now: Time,
        out: Outcome,
    ) -> bool {
        let ta = self.trip(t);
        let tb = next.trip(t);
        let pa = self.traveller(t);
        let pb = next.traveller(t);
        &&& self.touches(next, t.0 as int)
        &&& tb.info.cancellation_reason matches Some(r) && r@ == reason
        &&& tb == (Trip {
            started: ta.started || begun,
            info: TripInfo { cancellation_reason: tb.info.cancellation_reason, ..ta.info },
            ..ta
        })
        &&& pb == (Person {
            state: state_at(ta.info.end),
            delayed_trips: pb.delayed_trips,
            ..pa
        })
        &&& pb.delayed_trips@ == rest_delayed(pa.delayed_trips@)
        &&& next.agents == self.agents_after_cancel(t, vehicle)
        &&& next.unfinished == self.unfinished - 1
        &&& next.events == self.events.push(Event::TripCancelled(t)) + leaving(
            ta.person,
            self.whereabouts(t, inside),
        ) + seq![arriving(ta.person, ta.info.end)]
        &&& out.command.is_none()
        &&& out.unpark.is_none()
        &&& out.warp == warp_for(ta.person, vehicle, ta.info.end, now)
        &&& out.next == first_delayed(pa.delayed_trips@)
    }
}

impl TripManager {
    /// Cancels a trip that has not started. The person stays where they are.
    pub fn cancel_unstarted_trip(&mut self, id: TripID, reason: String)
        requires
            old(self).wf(),
            old(self)@.pre_cancel_unstarted_trip(id),
        ensures
            final(self).wf(),
            final(self)@ == (ManagerState {
                trips: old(self)@.trips.update(
                    id.0 as int,
                    Trip {
                        info: TripInfo {
                            cancellation_reason: Some(reason),
                            ..old(self)@.trip(id).info
                        },
                        ..old(self)@.trip(id)
                    },
                ),
                unfinished: (old(self)@.unfinished - 1) as nat,
                events: old(self)@.events.push(Event::TripCancelled(id)),
                ..old(self)@
            }),
            final(self)@.total_blocked_time() == old(self)@.total_blocked_time(),
    {
        let ghost a = self@;
        proof {
            lemma_count_positive(a.trips, id.0 as int);
        }
        self.trips[id.0].info.cancellation_reason = Some(reason);
        self.unfinished_trips -= 1;
        self.events.push(Event::TripCancelled(id));
        proof {
            let b = self@;
            let ti = id.0 as int;
            let p = a.trips[ti].person.0 as int;
            assert(b.trips =~= a.trips.update(ti, b.trips[ti]));
            assert(b.people =~= a.people);
            lemma_queue_fits(a, b, ti);
            lemma_agents_fit(a, b, ti, None);
            if let PersonState::Trip(x) = a.people[p].state {
                assert(a.trip(x).ongoing());
            }
            assert(a.fits(b, ti));
            lemma_step(a, b, ti);
        }
    }

    /// Marks trip `id` as cancelled for `reason`, and as started if `begun`
    /// says so, whatever state the manager is in.
    fn mark_cancelled_raw(&mut self, id: TripID, reason: String, begun: bool)
        requires
            old(self).registry_ok(),
            old(self)@.has_trip(id),
            old(self)@.unfinished > 0,
        ensures
            final(self).registry_ok(),
            final(self)@ == (ManagerState {
                trips: old(self)@.trips.update(
                    id.0 as int,
                    Trip {
                        started: old(self)@.trip(id).started || begun,
                        info: TripInfo {
                            cancellation_reason: Some(reason),
                            ..old(self)@.trip(id).info
                        },
                        ..old(self)@.trip(id)
                    },
                ),
                unfinished: (old(self)@.unfinished - 1) as nat,
                ..old(self)@
            }),
    {
        let trip = &mut self.trips[id.0];
        trip.info.cancellation_reason = Some(reason);
        trip.started = trip.started || begun;
        self.unfinished_trips -= 1;
        proof {
            assert(self@.trips =~= old(self)@.trips.update(id.0 as int, self@.trips[id.0 as int]));
        }
    }

    /// Puts person `p` into `state` and takes the first delayed trip out
    /// of their queue, whatever state the manager is in.
    fn free_raw(&mut self, p: PersonID, state: PersonState) -> (next: Option<
        crate::trip::DelayedTrip,
    >)
        requires
            old(self).registry_ok(),
            old(self)@.has_person(p),
        ensures
            final(self).registry_ok(),
            next == first_delayed(old(self)@.person(p).delayed_trips@),
            final(self)@.person(p).delayed_trips@ == rest_delayed(
                old(self)@.person(p).delayed_trips@,
            ),
            final(self)@ == (ManagerState {
                people: old(self)@.people.update(
                    p.0 as int,
                    Person {
                        state,
                        delayed_trips: final(self)@.person(p).delayed_trips,
                        ..old(self)@.person(p)
                    },
                ),
                ..old(self)@
            }),
    {
        let person = &mut self.people[p.0];
        person.state = state;
        let next = if person.delayed_trips.len() > 0 {
            Some(person.delayed_trips.remove(0))
        } else {
            None
        };
        proof {
            assert(self@.person(p).delayed_trips@ =~= rest_delayed(
                old(self)@.person(p).delayed_trips@,
            ));
            assert(self@.people =~= old(self)@.people.update(p.0 as int, self@.people[p.0 as int]));
        }
        next
    }

    /// The changes of a cancellation, whatever state the manager is in.
    fn cancel_raw(
        &mut self,
        now: Time,
        id: TripID,
        reason: String,
        abandoned_vehicle: Option<Vehicle>,
        begun: bool,
        inside: Option<BuildingID>,
    ) -> (out: Outcome)
        requires
            old(self).registry_ok(),
            old(self)@.has_trip(id),
            old(self)@.has_person(old(self)@.trip(id).person),
            old(self)@.trip(id).legs@.len() > 0,
            old(self)@.unfinished > 0,
        ensures
            final(self).registry_ok(),
            old(self)@.cancels_from(
                final(self)@,
                id,
                reason@,
                abandoned_vehicle,
                begun,
                inside,
                now,
                out,
            ),
            final(self)@.trip(id).info.cancellation_reason == Some(reason),
    {
        let ghost a = self@;
        let trip = &self.trips[id.0];
        let end = trip.info.end;
        let person = trip.person;
        let head = trip.legs[0];
        let before = match inside {
            Some(b) => PersonState::Inside(b),
            None => self.people[person.0].state,
        };
        let (arrival, state) = match end {
            TripEndpoint::Bldg(b) => (
                Event::PersonEntersBuilding(person, b),
                PersonState::Inside(b),
            ),
            TripEndpoint::Border(i, loc) => (
                Event::PersonLeavesMap(person, None, i, loc),
                PersonState::OffMap,
            ),
        };
        let warp = match (abandoned_vehicle, end) {
            (Some(vehicle), TripEndpoint::Bldg(b)) => if vehicle.vehicle_type == VehicleType::Car {
                Some(VehicleWarp { person, vehicle, near: b, since: now })
            } else {
                None
            },
            _ => None,
        };
        let stale = match (abandoned_vehicle, head) {
            (None, TripLeg::Drive(c, _)) => Some(AgentID::Car(c)),
            _ => None,
        };
        self.mark_cancelled_raw(id, reason, begun);
        let next = self.free_raw(person, state);
        self.events.push(Event::TripCancelled(id));
        if let PersonState::Inside(b) = before {
            self.events.push(Event::PersonLeavesBuilding(person, b));
        }
        self.events.push(arrival);
        if let Some(x) = stale {
            self.active_trip_mode.unbind(x);
        }
        let out = Outcome { command: None, unpark: None, warp, next };
        proof {
            let b = self@;
            assert(b.events =~= a.events.push(Event::TripCancelled(id)) + leaving(
                person,
                a.whereabouts(id, inside),
            ) + seq![arriving(person, end)]);
            assert(b.agents =~= a.agents_after_cancel(id, abandoned_vehicle));
        }
        out
    }

    /// Cancels trip `id` and puts its person where the trip was to end.
    pub(in crate::manager) fn cancel(
        &mut self,
        now: Time,
        id: TripID,
        reason: String,
        abandoned_vehicle: Option<Vehicle>,
        begun: bool,
        inside: Option<BuildingID>,
    ) -> (out: Outcome)
        requires
            old(self).wf(),
            old(self)@.cancellable(id, abandoned_vehicle),
        ensures
            final(self).wf(),
            old(self)@.cancels_from(
                final(self)@,
                id,
                reason@,
                abandoned_vehicle,
                begun,
                inside,
                now,
                out,
            ),
            final(self)@.trip(id).info.cancellation_reason == Some(reason),
            final(self)@.total_blocked_time() == old(self)@.total_blocked_time(),
    {
        proof {
            lemma_count_positive(self@.trips, id.0 as int);
        }
        let out = self.cancel_raw(now, id, reason, abandoned_vehicle, begun, inside);
        proof {
            lemma_cancels(
                old(self)@,
                self@,
                id,
                reason@,
                abandoned_vehicle,
                begun,
                inside,
                now,
                out,
            );
        }
        out
    }

    /// Cancels a trip on its way. The person is put where the trip was to
    /// end, as if they had got there. A car that is left behind at a
    /// building comes back in the outcome, to be parked near it.
    pub fn cancel_trip(
        &mut self,
        now: Time,
        id: TripID,
        reason: String,
        abandoned_vehicle: Option<Vehicle>,
    ) -> (out: Outcome)
        requires
            old(self).wf(),
            old(self)@.cancellable(id, abandoned_vehicle),
        ensures
            final(self).wf(),
            old(self)@.cancels(final(self)@, id, reason@, abandoned_vehicle, false, now, out),
            final(self)@.trip(id).info.cancellation_reason == Some(reason),
            final(self)@.total_blocked_time() == old(self)@.total_blocked_time(),
    {
        self.cancel(now, id, reason, abandoned_vehicle, false, None)
    }

    /// Takes note of what became of a car that was left behind: it stands
    /// in `spot` now, or no free spot was found for it. Listeners are told
    /// which. The result is the parked car for the parking manager to
    /// reserve the spot for and to take in, if a spot was found.
    pub fn vehicle_warped(&mut self, warp: VehicleWarp, spot: Option<ParkingSpot>) -> (parked:
        Option<ParkedCar>)
        requires
            old(self).wf(),
        ensures
            final(self).wf(),
            final(self)@.events.len() == old(self)@.events.len() + 1,
            final(self)@.events.drop_last() == old(self)@.events,
            final(self)@.events.last().is_alert(
                AlertLocation::Person(warp.person),
                warp_text(warp.person, spot),
            ),
            final(self)@ == (ManagerState { events: final(self)@.events, ..old(self)@ }),
            parked == match spot {
                Some(s) => Some(ParkedCar { vehicle: warp.vehicle, spot: s, parked_since: warp.since }),
                None => None,
            },
    {
        let text = say_warp(warp.person, spot);
        self.events.push(Event::Alert(AlertLocation::Person(warp.person), text));
        proof {
            assert(self@.events.drop_last() =~= old(self)@.events);
            lemma_frame(old(self)@, self@, -1);
        }
        match spot {
            Some(s) => Some(ParkedCar { vehicle: warp.vehicle, spot: s, parked_since: warp.since }),
            None => None,
        }
    }
}

/// Cancelling a trip that can be cancelled keeps the invariant, and the
/// sum of the blocked times.
pub proof fn lemma_cancels(
    a: ManagerState,
    b: ManagerState,
    id: TripID,
    reason: Seq<char>,
    abandoned_vehicle: Option<Vehicle>,
    begun: bool,
    inside: Option<BuildingID>,
    now: Time,
    out: Outcome,
)
    requires
        a.wf(),
        a.cancellable(id, abandoned_vehicle),
        a.cancels_from(b, id, reason, abandoned_vehicle, begun, inside, now, out),
    ensures
        b.wf(),
        b.total_blocked_time() == a.total_blocked_time(),
{
    let ti = id.0 as int;
    let p = a.trips[ti].person.0 as int;
    assert(a.trips[ti].consistent());
    lemma_agents_fit(a, b, ti, None);
    assert(b.people[p].on_bus matches Some(bus) ==> b.agents.dom().contains(
        AgentID::BusPassenger(b.people[p].id, bus),
    )) by {
        if let Some(bus) = a.people[p].on_bus {
            assert(a.agents.dom().contains(AgentID::BusPassenger(PersonID(p as usize), bus)));
        }
    }
    lemma_queue_fits(a, b, ti);
    if let PersonState::Trip(x) = a.people[p].state {
        assert(a.trip(x).ongoing());
    }
    assert(a.fits(b, ti));
    lemma_step(a, b, ti);
}

} // verus!
