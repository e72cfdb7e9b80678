//! Vehicles that people own, and cars that stand parked.

use crate::ids::{CarID, PersonID, VehicleType};
use crate::places::ParkingSpot;
use crate::units::{Distance, Speed, Time};
use vstd::prelude::*;

verus! {

/// A car or a bike.
#[derive(Clone, Copy, Debug, PartialEq, Eq, Structural)]
pub struct Vehicle {
    pub id: CarID,
    pub owner: Option<PersonID>,
    pub vehicle_type: VehicleType,
    pub length: Distance,
    pub max_speed: Option<Speed>,
}

/// A vehicle before it has been given an identifier and an owner.
#[derive(Clone, Copy, Debug, PartialEq, Eq, Structural)]
pub struct VehicleSpec {
    pub vehicle_type: VehicleType,
    pub length: Distance,
    pub max_speed: Option<Speed>,
}

impl VehicleSpec {
    /// The vehicle that this description gives once it has `id` and `owner`.
    pub open spec fn spec_make(self, id: CarID, owner: Option<PersonID>) -> Vehicle {
        Vehicle {
            id,
            owner,
            vehicle_type: self.vehicle_type,
            length: self.length,
            max_speed: self.max_speed,
        }
    }

    /// The vehicle that this description gives once it has `id` and `owner`.
    #[verifier::when_used_as_spec(spec_make)]
    pub fn make(self, id: CarID, owner: Option<PersonID>) -> (v: Vehicle)
        ensures
            v == self.spec_make(id, owner),
    {
        Vehicle {
            id,
            owner,
            vehicle_type: self.vehicle_type,
            length: self.length,
            max_speed: self.max_speed,
        }
    }
}

/// A car standing in a parking spot.
#[derive(Clone, Copy, Debug, PartialEq, Eq, Structural)]
pub struct ParkedCar {
    pub vehicle: Vehicle,
    pub spot: ParkingSpot,
    pub parked_since: Time,
}

} // verus!
