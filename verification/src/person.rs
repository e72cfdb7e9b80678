//! People: who they are, what they own, and where they are right now.

use crate::ids::{BuildingID, CarID, OrigPersonID, PedestrianID, PersonID, TripID};
use crate::trip::DelayedTrip;
use crate::units::Speed;
use crate::vehicles::Vehicle;
use vstd::prelude::*;

verus! {

/// Where a person is.
#[derive(Clone, Copy, Debug, PartialEq, Eq, Structural)]
pub enum PersonState {
    /// On the way, making this trip.
    Trip(TripID),
    Inside(BuildingID),
    OffMap,
}

/// A person. People are created once and never go away.
#[derive(Clone, Debug, PartialEq, Eq)]
pub struct Person {
    pub id: PersonID,
    pub orig_id: Option<OrigPersonID>,
    /// The person's trips, in the order of their departures.
    pub trips: Vec<TripID>,
    pub state: PersonState,
    /// The person's pedestrian; it has the person's own index.
    pub ped: PedestrianID,
    pub ped_speed: Speed,
    /// Both cars and bikes.
    pub vehicles: Vec<Vehicle>,
    /// Trips whose departure came while the person was still on another
    /// trip, in the order in which they should have started.
    pub delayed_trips: Vec<DelayedTrip>,
    /// The bus that the person is riding, if any.
    pub on_bus: Option<CarID>,
}

impl Person {
    /// Whether one of the person's vehicles has the identifier `id`.
    pub open spec fn owns(self, id: CarID) -> bool {
        exists|i: int| 0 <= i < self.vehicles@.len() && (#[trigger] self.vehicles@[i]).id == id
    }

    /// Whether the vehicle at `i` is the first with identifier `id`.
    pub open spec fn first_at(self, id: CarID, i: int) -> bool {
        &&& 0 <= i < self.vehicles@.len()
        &&& self.vehicles@[i].id == id
        &&& forall|j: int| 0 <= j < i ==> (#[trigger] self.vehicles@[j]).id != id
    }

    /// The person's vehicle with identifier `id`: the first one, should
    /// several have it.
    pub open spec fn vehicle(self, id: CarID) -> Vehicle {
        self.vehicles@[choose|i: int| self.first_at(id, i)]
    }

    /// The person's vehicle with identifier `id`: the first one, should
    /// several have it.
    pub fn get_vehicle(&self, id: CarID) -> (v: Vehicle)
        requires
            self.owns(id),
        ensures
            v == self.vehicle(id),
            v.id == id,
    {
        let mut i: usize = 0;
        while i < self.vehicles.len()
            invariant
                i <= self.vehicles@.len(),
                self.owns(id),
                forall|j: int| 0 <= j < i ==> (#[trigger] self.vehicles@[j]).id != id,
            decreases self.vehicles@.len() - i,
        {
            if self.vehicles[i].id == id {
                proof {
                    assert(self.first_at(id, i as int));
                    let k = choose|k: int| self.first_at(id, k);
                    assert(self.first_at(id, k));
                    if k < i {
                        assert(self.vehicles@[k].id != id);
                    } else if i < k {
                        assert(self.vehicles@[i as int].id != id);
                    }
                }
                return self.vehicles[i];
            }
            i += 1;
        }
        proof {
            let k = choose|k: int|
                0 <= k < self.vehicles@.len() && (#[trigger] self.vehicles@[k]).id == id;
            assert(self.vehicles@[k].id != id);
        }
        self.vehicles[0]
    }

    /// Whether the person owns a vehicle with identifier `id`.
    pub fn has_vehicle(&self, id: CarID) -> (b: bool)
        ensures
            b == self.owns(id),
    {
        let mut i: usize = 0;
        while i < self.vehicles.len()
            invariant
                i <= self.vehicles@.len(),
                forall|j: int| 0 <= j < i ==> (#[trigger] self.vehicles@[j]).id != id,
            decreases self.vehicles@.len() - i,
        {
            if self.vehicles[i].id == id {
                return true;
            }
            i += 1;
        }
        false
    }
}

} // verus!
