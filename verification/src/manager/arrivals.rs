//! The ends of legs: what the trip manager does when an agent gets where
//! it was going.

use crate::events::{Event, Outcome};
use crate::ids::{AgentID, BuildingID, CarID, IntersectionID, PedestrianID, PersonID, TripID};
use crate::manager::{
    first_delayed, lemma_agents_fit, lemma_count_positive, lemma_queue_fits, lemma_step,
    rest_delayed, ManagerState, TripManager,
};
use crate::person::{Person, PersonState};
use crate::places::Position;
use crate::trip::{Trip, TripEndpoint, TripLeg};
use crate::units::{Duration, Time};
use vstd::pervasive::unreached;
use vstd::prelude::*;

verus! {

impl ManagerState {
    /// Whether `next` is `self` after trip `t` has finished at `now`: the
    /// agent, if one was active, is gone from the registry; its blocked
    /// time is added to the trip's; no legs are left; the trip counts as
    /// finished; the person is in `state` and rides no bus; listeners hear
    /// of the finished trip and then of `arrival`; and the first delayed
    /// trip of the person, if any, has left the queue for `out.next`.
    pub open spec fn finishes(
        self,
        next: ManagerState,
        t: TripID,
        agent: Option<AgentID>,
        now: Time,
        blocked: Duration,
        state: PersonState,
        arrival: Seq<Event>,
        out: Outcome,
    ) -> bool {
        let ta = self.trip(t);
        let tb = next.trip(t);
        let pa = self.traveller(t);
        let pb = next.traveller(t);
        &&& self.touches(next, t.0 as int)
        &&& tb.legs@.len() == 0
        &&& tb == (Trip {
            finished_at: Some(now),
            total_blocked_time: Duration((ta.total_blocked_time.0 + blocked.0) as i64),
            legs: tb.legs,
            ..ta
        })
        &&& pb == (Person { state, on_bus: None, delayed_trips: pb.delayed_trips, ..pa })
        &&& pb.delayed_trips@ == rest_delayed(pa.delayed_trips@)
        &&& next.agents == match agent {
            Some(a) => self.agents.remove(a),
            None => self.agents,
        }
        &&& next.unfinished == self.unfinished - 1
        &&& next.events == self.events.push(
            Event::TripFinished {
                trip: t,
                mode: ta.info.mode,
                total_time: now.spec_since(ta.info.departure),
                blocked_time: tb.total_blocked_time,
            },
        ) + arrival
        &&& out.command.is_none()
        &&& out.unpark.is_none()
        &&& out.warp.is_none()
        &&& out.next == first_delayed(pa.delayed_trips@)
    }

    /// Whether `agent` is active and moves a trip that can take `blocked`
    /// more blocked time.
    pub open spec fn moving(self, agent: AgentID, blocked: Duration) -> bool {
        &&& self.agents.dom().contains(agent)
        &&& self.trip(self.agents[agent]).total_blocked_time.can_add(blocked)
    }

    /// The event that tells that the person of trip `t` has left the map
    /// through `i`, if the trip ends at a border.
    pub open spec fn departure_event(self, t: TripID, agent: AgentID, i: IntersectionID) -> Seq<
        Event,
    > {
        match self.trip(t).info.end {
            TripEndpoint::Border(_, loc) => seq![
                Event::PersonLeavesMap(self.trip(t).person, Some(agent), i, loc),
            ],
            TripEndpoint::Bldg(_) => seq![],
        }
    }
}

impl TripManager {
    /// Registers `agent` as the one that now moves trip `t`.
    pub fn agent_starting_trip_leg(&mut self, agent: AgentID, t: TripID)
        requires
            old(self).wf(),
            old(self)@.pre_agent_starting_trip_leg(agent, t),
        ensures
            final(self).wf(),
            final(self)@ == (ManagerState {
                agents: old(self)@.agents.insert(agent, t),
                ..old(self)@
            }),
    {
        self.active_trip_mode.bind(agent, t);
        proof {
            let a = old(self)@;
            let b = self@;
            let p = a.trips[t.0 as int].person.0 as int;
            assert(a.people[p].state == PersonState::Trip(TripID(t.0)));
            lemma_queue_fits(a, b, t.0 as int);
            assert(a.fits(b, t.0 as int));
            lemma_step(a, b, t.0 as int);
        }
    }

    /// Ends trip `t`, whose last leg `agent` has just completed.
    pub(in crate::manager) fn finish(
        &mut self,
        t: TripID,
        agent: Option<AgentID>,
        now: Time,
        blocked: Duration,
        state: PersonState,
        arrival: Option<Event>,
    ) -> (out: Outcome)
        requires
            old(self).wf(),
            old(self)@.has_trip(t),
            old(self)@.trip(t).ongoing(),
            match agent {
                Some(a) => old(self)@.agents.dom().contains(a) && old(self)@.agents[a] == t,
                None => crate::manager::expected_agent(
                    old(self)@.trip(t),
                    old(self)@.traveller(t),
                ).is_none(),
            },
            old(self)@.trip(t).total_blocked_time.can_add(blocked),
            now.can_measure_from(old(self)@.trip(t).info.departure),
            !(state is Trip),
        ensures
            final(self).wf(),
            old(self)@.finishes(
                final(self)@,
                t,
                agent,
                now,
                blocked,
                state,
                match arrival {
                    Some(e) => seq![e],
                    None => seq![],
                },
                out,
            ),
            final(self)@.total_blocked_time() == old(self)@.total_blocked_time() + blocked.0,
    {
        let ghost a = self@;
        proof {
            lemma_count_positive(a.trips, t.0 as int);
        }
        if let Some(x) = agent {
            self.active_trip_mode.unbind(x);
        }
        let trip = &mut self.trips[t.0];
        trip.total_blocked_time = trip.total_blocked_time.plus(blocked);
        trip.legs.clear();
        trip.finished_at = Some(now);
        let total_time = now.since(trip.info.departure);
        let finished = Event::TripFinished {
            trip: t,
            mode: trip.info.mode,
            total_time,
            blocked_time: trip.total_blocked_time,
        };
        let p = trip.person.0;
        self.unfinished_trips -= 1;
        self.events.push(finished);
        if let Some(e) = arrival {
            self.events.push(e);
        }
        let person = &mut self.people[p];
        person.state = state;
        person.on_bus = None;
        let next = if person.delayed_trips.len() > 0 {
            Some(person.delayed_trips.remove(0))
        } else {
            None
        };
        let out = Outcome { command: None, unpark: None, warp: None, next };
        proof {
            let b = self@;
            let ti = t.0 as int;
            let pi = p as int;
            assert(a.people[pi].state == PersonState::Trip(TripID(t.0)));
            assert(b.people[pi].delayed_trips@ =~= rest_delayed(a.people[pi].delayed_trips@));
            assert(b.events =~= a.events.push(finished) + match arrival {
                Some(e) => seq![e],
                None => seq![],
            });
            if let Some(x) = agent {
                assert(crate::manager::expected_agent(a.trip(t), a.traveller(t)) == Some(x));
            }
            lemma_agents_fit(a, b, ti, None);
            lemma_queue_fits(a, b, ti);
            assert(a.fits(b, ti));
            lemma_step(a, b, ti);
        }
        out
    }

    /// A pedestrian has reached the building at which their trip ends.
    /// `sidewalk_pos` is where the map puts the door of the building; the
    /// walk was to lead to that very spot.
    pub fn ped_reached_building(
        &mut self,
        now: Time,
        ped: PedestrianID,
        bldg: BuildingID,
        sidewalk_pos: Position,
        blocked_time: Duration,
    ) -> (out: Outcome)
        requires
            old(self).wf(),
            old(self)@.pre_ped_reached_building(now, ped, bldg, sidewalk_pos, blocked_time),
        ensures
            final(self).wf(),
            ({
                let t = old(self)@.agents[AgentID::Pedestrian(ped)];
                old(self)@.finishes(
                    final(self)@,
                    t,
                    Some(AgentID::Pedestrian(ped)),
                    now,
                    blocked_time,
                    PersonState::Inside(bldg),
                    seq![Event::PersonEntersBuilding(old(self)@.trip(t).person, bldg)],
                    out,
                )
            }),
            final(self)@.total_blocked_time() == old(self)@.total_blocked_time() + blocked_time.0,
    {
        let agent = AgentID::Pedestrian(ped);
        let t = match self.active_trip_mode.lookup(agent) {
            Some(t) => t,
            None => unreached(),
        };
        let person = self.trips[t.0].person;
        self.finish(
            t,
            Some(agent),
            now,
            blocked_time,
            PersonState::Inside(bldg),
            Some(Event::PersonEntersBuilding(person, bldg)),
        )
    }

    /// A pedestrian has walked off the map through the border `i`, where
    /// their trip ends.
    pub fn ped_reached_border(
        &mut self,
        now: Time,
        ped: PedestrianID,
        i: IntersectionID,
        blocked_time: Duration,
    ) -> (out: Outcome)
        requires
            old(self).wf(),
            old(self)@.pre_ped_reached_border(now, ped, i, blocked_time),
        ensures
            final(self).wf(),
            ({
                let agent = AgentID::Pedestrian(ped);
                let t = old(self)@.agents[agent];
                old(self)@.finishes(
                    final(self)@,
                    t,
                    Some(agent),
                    now,
                    blocked_time,
                    PersonState::OffMap,
                    old(self)@.departure_event(t, agent, i),
                    out,
                )
            }),
            final(self)@.total_blocked_time() == old(self)@.total_blocked_time() + blocked_time.0,
    {
        let agent = AgentID::Pedestrian(ped);
        let t = match self.active_trip_mode.lookup(agent) {
            Some(t) => t,
            None => unreached(),
        };
        let person = self.trips[t.0].person;
        let arrival = match self.trips[t.0].info.end {
            TripEndpoint::Border(_, loc) => Some(Event::PersonLeavesMap(person, Some(agent), i, loc)),
            TripEndpoint::Bldg(_) => None,
        };
        self.finish(t, Some(agent), now, blocked_time, PersonState::OffMap, arrival)
    }

    /// A person has ridden a bus off the map, which ends their trip. The
    /// person is no longer on the bus.
    pub fn transit_rider_reached_border(&mut self, now: Time, person: PersonID, bus: CarID) -> (out:
        Outcome)
        requires
            old(self).wf(),
            old(self)@.pre_transit_rider_reached_border(now, person, bus),
        ensures
            final(self).wf(),
            ({
                let agent = AgentID::BusPassenger(person, bus);
                let t = old(self)@.agents[agent];
                old(self)@.finishes(
                    final(self)@,
                    t,
                    Some(agent),
                    now,
                    Duration(0),
                    PersonState::OffMap,
                    old(self)@.departure_event(t, agent, old(self)@.trip(t).info.end->Border_0),
                    out,
                )
            }),
            final(self)@.total_blocked_time() == old(self)@.total_blocked_time(),
    {
        let agent = AgentID::BusPassenger(person, bus);
        let t = match self.active_trip_mode.lookup(agent) {
            Some(t) => t,
            None => unreached(),
        };
        let rider = self.trips[t.0].person;
        let arrival = match self.trips[t.0].info.end {
            TripEndpoint::Border(i, loc) => Some(Event::PersonLeavesMap(rider, Some(agent), i, loc)),
            TripEndpoint::Bldg(_) => None,
        };
        self.finish(t, Some(agent), now, Duration::zero(), PersonState::OffMap, arrival)
    }

    /// A car or a bike has left the map through the border `i`, where the
    /// trip ends.
    pub fn car_or_bike_reached_border(
        &mut self,
        now: Time,
        car: CarID,
        i: IntersectionID,
        blocked_time: Duration,
    ) -> (out: Outcome)
        requires
            old(self).wf(),
            old(self)@.pre_car_or_bike_reached_border(now, car, i, blocked_time),
        ensures
            final(self).wf(),
            ({
                let agent = AgentID::Car(car);
                let t = old(self)@.agents[agent];
                old(self)@.finishes(
                    final(self)@,
                    t,
                    Some(agent),
                    now,
                    blocked_time,
                    PersonState::OffMap,
                    old(self)@.departure_event(t, agent, i),
                    out,
                )
            }),
            final(self)@.total_blocked_time() == old(self)@.total_blocked_time() + blocked_time.0,
    {
        let agent = AgentID::Car(car);
        let t = match self.active_trip_mode.lookup(agent) {
            Some(t) => t,
            None => unreached(),
        };
        let person = self.trips[t.0].person;
        let arrival = match self.trips[t.0].info.end {
            TripEndpoint::Border(_, loc) => Some(Event::PersonLeavesMap(person, Some(agent), i, loc)),
            TripEndpoint::Bldg(_) => None,
        };
        self.finish(t, Some(agent), now, blocked_time, PersonState::OffMap, arrival)
    }

    /// The time of a trip beyond the map is over.
    pub fn remote_trip_finished(&mut self, now: Time, id: TripID) -> (out: Outcome)
        requires
            old(self).wf(),
            old(self)@.pre_remote_trip_finished(now, id),
        ensures
            final(self).wf(),
            old(self)@.finishes(
                final(self)@,
                id,
                None,
                now,
                Duration(0),
                PersonState::OffMap,
                seq![
                    Event::PersonEntersRemoteBuilding(
                        old(self)@.trip(id).person,
                        old(self)@.trip(id).legs@[0]->Remote_0,
                    ),
                ],
                out,
            ),
            final(self)@.total_blocked_time() == old(self)@.total_blocked_time(),
    {
        let person = self.trips[id.0].person;
        let to = match self.trips[id.0].legs[0] {
            TripLeg::Remote(to) => to,
            _ => unreached(),
        };
        self.finish(
            id,
            None,
            now,
            Duration::zero(),
            PersonState::OffMap,
            Some(Event::PersonEntersRemoteBuilding(person, to)),
        )
    }
}

} // verus!
