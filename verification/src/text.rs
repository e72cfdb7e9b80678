//! The wording of the messages that the trip manager writes: reasons for
//! cancelling trips, and alerts.

use crate::ids::{AgentID, BuildingID, CarID, IntersectionID, PersonID, TripID, VehicleType};
use crate::places::{DrivingGoal, ParkingSpot, PathRequest, Position, SidewalkPOI};
use crate::trip::TripLeg;
use vstd::prelude::*;
use vstd::string::StringExecFns;

verus! {

/// The decimal digit `d`, as text.
pub open spec fn digit(d: nat) -> Seq<char> {
    if d == 0 {
        "0"@
    } else if d == 1 {
        "1"@
    } else if d == 2 {
        "2"@
    } else if d == 3 {
        "3"@
    } else if d == 4 {
        "4"@
    } else if d == 5 {
        "5"@
    } else if d == 6 {
        "6"@
    } else if d == 7 {
        "7"@
    } else if d == 8 {
        "8"@
    } else {
        "9"@
    }
}

/// The number `n` in decimal, without leading zeros.
pub open spec fn decimal(n: nat) -> Seq<char>
    decreases n,
{
    if n < 10 {
        digit(n)
    } else {
        decimal(n / 10) + digit(n % 10)
    }
}

/// A position, as text: its lane and how far along the lane it is.
pub open spec fn position_text(p: Position) -> Seq<char> {
    "Position(Lane #"@ + decimal(p.lane.0 as nat) + ", "@ + decimal(p.dist_along.0 as nat) + ")"@
}

/// A parking spot, as text.
pub open spec fn spot_text(s: ParkingSpot) -> Seq<char> {
    match s {
        ParkingSpot::Onstreet(l, i) => "Onstreet(Lane #"@ + decimal(l.0 as nat) + ", "@ + decimal(
            i as nat,
        ) + ")"@,
        ParkingSpot::Offstreet(b, i) => "Offstreet(Building #"@ + decimal(b.0 as nat) + ", "@
            + decimal(i as nat) + ")"@,
        ParkingSpot::Lot(l, i) => "Lot(Parking lot #"@ + decimal(l.0 as nat) + ", "@ + decimal(
            i as nat,
        ) + ")"@,
    }
}

/// The goal of a drive, as text.
pub open spec fn goal_text(g: DrivingGoal) -> Seq<char> {
    match g {
        DrivingGoal::ParkNear(b) => "ParkNear(Building #"@ + decimal(b.0 as nat) + ")"@,
        DrivingGoal::Border(i, l, _) => "Border(Intersection #"@ + decimal(i.0 as nat)
            + ", Lane #"@ + decimal(l.0 as nat) + ")"@,
    }
}

/// A vehicle, as text: its kind and its number.
pub open spec fn car_text(c: CarID) -> Seq<char> {
    (match c.1 {
        VehicleType::Car => "Car #"@,
        VehicleType::Bike => "Bike #"@,
        VehicleType::Bus => "Bus #"@,
        VehicleType::Train => "Train #"@,
    }) + decimal(c.0 as nat)
}

/// An agent, as text.
pub open spec fn agent_text(a: AgentID) -> Seq<char> {
    match a {
        AgentID::Car(c) => car_text(c),
        AgentID::Pedestrian(p) => "Pedestrian #"@ + decimal(p.0 as nat),
        AgentID::BusPassenger(p, c) => "Person "@ + decimal(p.0 as nat) + " on "@ + car_text(c),
    }
}

/// What a spot on a sidewalk connects to, as text.
pub open spec fn poi_text(p: SidewalkPOI) -> Seq<char> {
    match p {
        SidewalkPOI::ParkingSpot(s) => spot_text(s),
        SidewalkPOI::DeferredParkingSpot => "DeferredParkingSpot"@,
        SidewalkPOI::Building(b) => "Building #"@ + decimal(b.0 as nat),
        SidewalkPOI::BusStop(s) => "BusStop(Lane #"@ + decimal(s.sidewalk.0 as nat) + ", "@
            + decimal(s.idx as nat) + ")"@,
        SidewalkPOI::Border(i, _) => "Border(Intersection #"@ + decimal(i.0 as nat) + ")"@,
        SidewalkPOI::BikeRack(pos) => "BikeRack("@ + position_text(pos) + ")"@,
        SidewalkPOI::SuddenlyAppear => "SuddenlyAppear"@,
    }
}

/// A leg of a trip, as text.
pub open spec fn leg_text(l: TripLeg) -> Seq<char> {
    match l {
        TripLeg::Walk(spot) => "Walk("@ + poi_text(spot.connection) + ")"@,
        TripLeg::Drive(c, g) => "Drive("@ + car_text(c) + ", "@ + goal_text(g) + ")"@,
        TripLeg::RideBus(r, stop) => "RideBus(Route #"@ + decimal(r.0 as nat) + match stop {
            Some(s) => ", BusStop(Lane #"@ + decimal(s.sidewalk.0 as nat) + ", "@ + decimal(
                s.idx as nat,
            ) + "))"@,
            None => ", off the map)"@,
        },
        TripLeg::Remote(loc) => "Remote(Parcel #"@ + decimal(loc.parcel_id as nat) + ")"@,
    }
}

/// What there is to say of the trip that an agent is moving: where the
/// trip is headed, or that there is none.
pub open spec fn debug_text(agent: AgentID, moving: Option<(TripID, TripLeg)>) -> Seq<char> {
    match moving {
        Some((t, goal)) => "Trip #"@ + decimal(t.0 as nat) + " has goal "@ + leg_text(goal),
        None => agent_text(agent) + " has no trip, must be parked car"@,
    }
}

/// Why a trip was cancelled when no path led from the parked car to the
/// goal of the drive.
pub open spec fn no_drive_path(start: Position, end: Position) -> Seq<char> {
    "no path to drive from "@ + position_text(start) + " to "@ + position_text(end)
}

/// Why a trip was cancelled when a bike could not get to its goal at all.
pub open spec fn no_bike_connection(goal: DrivingGoal) -> Seq<char> {
    "no bike connection at "@ + goal_text(goal)
}

/// Why a trip was cancelled when no path led from the bike rack to the goal.
pub open spec fn no_bike_path(start: Position, end: Position) -> Seq<char> {
    "no path for the bike portion (or sidewalk connection at end), from "@ + position_text(start)
        + " to "@ + position_text(end)
}

/// Why a trip was cancelled when no path led on foot from `start` to `end`.
pub open spec fn no_walk_path(start: Position, end: Position) -> Seq<char> {
    "no path for the walking portion from "@ + position_text(start) + " to "@ + position_text(end)
}

/// Why a trip was cancelled when its first path, the answer to `req`, was
/// missing or refused; `kind` names the way the trip was to start.
pub open spec fn no_first_path(kind: Seq<char>, req: PathRequest) -> Seq<char> {
    kind + " couldn't find the first path from "@ + position_text(req.start) + " to "@
        + position_text(req.end)
}

/// Why a trip was cancelled when the car it counted on was parked nowhere.
pub open spec fn car_unavailable(car: CarID) -> Seq<char> {
    "should have "@ + car_text(car) + " parked, but it's unavailable"@
}

/// Why a trip was cancelled when its vehicle found no room to appear.
pub open spec fn no_room(i: IntersectionID, error: Seq<char>) -> Seq<char> {
    "couldn't spawn at border Intersection #"@ + decimal(i.0 as nat) + ": "@ + error
}

/// Why a trip was cancelled when no place was found near the building
/// from which a bike could be ridden.
pub open spec fn no_bike_start(b: BuildingID) -> Seq<char> {
    "UsingBike couldn't find a way to start biking from Building #"@ + decimal(b.0 as nat)
}

/// What listeners are told when the car of a cancelled trip has been
/// moved to `spot`, or could not be moved anywhere.
pub open spec fn warp_text(person: PersonID, spot: Option<ParkingSpot>) -> Seq<char> {
    match spot {
        Some(s) => "Person "@ + decimal(person.0 as nat)
            + " had a trip cancelled, and their car was warped to "@ + spot_text(s),
        None => "Person "@ + decimal(person.0 as nat)
            + " had a trip cancelled, but nowhere to warp their car"@,
    }
}

fn digit_str(d: usize) -> (s: &'static str)
    requires
        d < 10,
    ensures
        s@ == digit(d as nat),
{
    if d == 0 {
        "0"
    } else if d == 1 {
        "1"
    } else if d == 2 {
        "2"
    } else if d == 3 {
        "3"
    } else if d == 4 {
        "4"
    } else if d == 5 {
        "5"
    } else if d == 6 {
        "6"
    } else if d == 7 {
        "7"
    } else if d == 8 {
        "8"
    } else {
        "9"
    }
}

/// Appends `n`, in decimal, to `s`.
pub fn push_decimal(s: &mut String, n: usize)
    ensures
        final(s)@ == old(s)@ + decimal(n as nat),
    decreases n,
{
    if n >= 10 {
        push_decimal(s, n / 10);
    }
    s.append(digit_str(n % 10));
}

/// Appends `n`, in decimal, to `s`.
pub fn push_decimal_long(s: &mut String, n: u64)
    ensures
        final(s)@ == old(s)@ + decimal(n as nat),
    decreases n,
{
    if n >= 10 {
        push_decimal_long(s, n / 10);
    }
    s.append(digit_str((n % 10) as usize));
}

/// Appends `p`, as text, to `s`.
pub fn push_position(s: &mut String, p: Position)
    ensures
        final(s)@ == old(s)@ + position_text(p),
{
    s.append("Position(Lane #");
    push_decimal(s, p.lane.0);
    s.append(", ");
    push_decimal_long(s, p.dist_along.0);
    s.append(")");
}

/// Appends `sp`, as text, to `s`.
pub fn push_spot(s: &mut String, sp: ParkingSpot)
    ensures
        final(s)@ == old(s)@ + spot_text(sp),
{
    match sp {
        ParkingSpot::Onstreet(l, i) => {
            s.append("Onstreet(Lane #");
            push_decimal(s, l.0);
            s.append(", ");
            push_decimal(s, i);
            s.append(")");
        },
        ParkingSpot::Offstreet(b, i) => {
            s.append("Offstreet(Building #");
            push_decimal(s, b.0);
            s.append(", ");
            push_decimal(s, i);
            s.append(")");
        },
        ParkingSpot::Lot(l, i) => {
            s.append("Lot(Parking lot #");
            push_decimal(s, l.0);
            s.append(", ");
            push_decimal(s, i);
            s.append(")");
        },
    }
}

/// Appends `g`, as text, to `s`.
pub fn push_goal(s: &mut String, g: DrivingGoal)
    ensures
        final(s)@ == old(s)@ + goal_text(g),
{
    match g {
        DrivingGoal::ParkNear(b) => {
            s.append("ParkNear(Building #");
            push_decimal(s, b.0);
            s.append(")");
        },
        DrivingGoal::Border(i, l, _) => {
            s.append("Border(Intersection #");
            push_decimal(s, i.0);
            s.append(", Lane #");
            push_decimal(s, l.0);
            s.append(")");
        },
    }
}

/// Appends `c`, as text, to `s`.
pub fn push_car(s: &mut String, c: CarID)
    ensures
        final(s)@ == old(s)@ + car_text(c),
{
    s.append(
        match c.1 {
            VehicleType::Car => "Car #",
            VehicleType::Bike => "Bike #",
            VehicleType::Bus => "Bus #",
            VehicleType::Train => "Train #",
        },
    );
    push_decimal(s, c.0);
}

/// Appends `p`, as text, to `s`.
pub fn push_poi(s: &mut String, p: SidewalkPOI)
    ensures
        final(s)@ == old(s)@ + poi_text(p),
{
    match p {
        SidewalkPOI::ParkingSpot(sp) => {
            push_spot(s, sp);
        },
        SidewalkPOI::DeferredParkingSpot => {
            s.append("DeferredParkingSpot");
        },
        SidewalkPOI::Building(b) => {
            s.append("Building #");
            push_decimal(s, b.0);
        },
        SidewalkPOI::BusStop(stop) => {
            s.append("BusStop(Lane #");
            push_decimal(s, stop.sidewalk.0);
            s.append(", ");
            push_decimal(s, stop.idx);
            s.append(")");
        },
        SidewalkPOI::Border(i, _) => {
            s.append("Border(Intersection #");
            push_decimal(s, i.0);
            s.append(")");
        },
        SidewalkPOI::BikeRack(pos) => {
            s.append("BikeRack(");
            push_position(s, pos);
            s.append(")");
        },
        SidewalkPOI::SuddenlyAppear => {
            s.append("SuddenlyAppear");
        },
    }
}

/// Appends `l`, as text, to `s`.
pub fn push_leg(s: &mut String, l: TripLeg)
    ensures
        final(s)@ == old(s)@ + leg_text(l),
{
    match l {
        TripLeg::Walk(spot) => {
            s.append("Walk(");
            push_poi(s, spot.connection);
            s.append(")");
        },
        TripLeg::Drive(c, g) => {
            s.append("Drive(");
            push_car(s, c);
            s.append(", ");
            push_goal(s, g);
            s.append(")");
        },
        TripLeg::RideBus(r, stop) => {
            s.append("RideBus(Route #");
            push_decimal(s, r.0);
            match stop {
                Some(st) => {
                    s.append(", BusStop(Lane #");
                    push_decimal(s, st.sidewalk.0);
                    s.append(", ");
                    push_decimal(s, st.idx);
                    s.append("))");
                },
                None => {
                    s.append(", off the map)");
                },
            }
        },
        TripLeg::Remote(loc) => {
            s.append("Remote(Parcel #");
            push_decimal(s, loc.parcel_id);
            s.append(")");
        },
    }
}

/// The text of `debug_text`.
pub fn say_debug(agent: AgentID, moving: Option<(TripID, TripLeg)>) -> (s: String)
    ensures
        s@ == debug_text(agent, moving),
{
    match moving {
        Some((t, goal)) => {
            let mut s = String::from_str("Trip #");
            push_decimal(&mut s, t.0);
            s.append(" has goal ");
            push_leg(&mut s, goal);
            s
        },
        None => {
            let mut s = String::new();
            match agent {
                AgentID::Car(c) => {
                    push_car(&mut s, c);
                },
                AgentID::Pedestrian(p) => {
                    s.append("Pedestrian #");
                    push_decimal(&mut s, p.0);
                },
                AgentID::BusPassenger(p, c) => {
                    s.append("Person ");
                    push_decimal(&mut s, p.0);
                    s.append(" on ");
                    push_car(&mut s, c);
                },
            }
            s.append(" has no trip, must be parked car");
            s
        },
    }
}

/// The text of `no_drive_path`.
pub fn say_no_drive_path(start: Position, end: Position) -> (s: String)
    ensures
        s@ == no_drive_path(start, end),
{
    let mut s = String::from_str("no path to drive from ");
    push_position(&mut s, start);
    s.append(" to ");
    push_position(&mut s, end);
    s
}

/// The text of `no_bike_connection`.
pub fn say_no_bike_connection(goal: DrivingGoal) -> (s: String)
    ensures
        s@ == no_bike_connection(goal),
{
    let mut s = String::from_str("no bike connection at ");
    push_goal(&mut s, goal);
    s
}

/// The text of `no_bike_path`.
pub fn say_no_bike_path(start: Position, end: Position) -> (s: String)
    ensures
        s@ == no_bike_path(start, end),
{
    let mut s = String::from_str(
        "no path for the bike portion (or sidewalk connection at end), from ",
    );
    push_position(&mut s, start);
    s.append(" to ");
    push_position(&mut s, end);
    s
}

/// The text of `no_walk_path`.
pub fn say_no_walk_path(start: Position, end: Position) -> (s: String)
    ensures
        s@ == no_walk_path(start, end),
{
    let mut s = String::from_str("no path for the walking portion from ");
    push_position(&mut s, start);
    s.append(" to ");
    push_position(&mut s, end);
    s
}

/// The text of `no_first_path`.
pub fn say_no_first_path(kind: &str, req: PathRequest) -> (s: String)
    ensures
        s@ == no_first_path(kind@, req),
{
    let mut s = String::from_str(kind);
    s.append(" couldn't find the first path from ");
    push_position(&mut s, req.start);
    s.append(" to ");
    push_position(&mut s, req.end);
    s
}

/// The text of `car_unavailable`.
pub fn say_car_unavailable(car: CarID) -> (s: String)
    ensures
        s@ == car_unavailable(car),
{
    let mut s = String::from_str("should have ");
    push_car(&mut s, car);
    s.append(" parked, but it's unavailable");
    s
}

/// The text of `no_room`.
pub fn say_no_room(i: IntersectionID, error: &str) -> (s: String)
    ensures
        s@ == no_room(i, error@),
{
    let mut s = String::from_str("couldn't spawn at border Intersection #");
    push_decimal(&mut s, i.0);
    s.append(": ");
    s.append(error);
    s
}

/// The text of `no_bike_start`.
pub fn say_no_bike_start(b: BuildingID) -> (s: String)
    ensures
        s@ == no_bike_start(b),
{
    let mut s = String::from_str("UsingBike couldn't find a way to start biking from Building #");
    push_decimal(&mut s, b.0);
    s
}

/// The text of `warp_text`.
pub fn say_warp(person: PersonID, spot: Option<ParkingSpot>) -> (s: String)
    ensures
        s@ == warp_text(person, spot),
{
    let mut s = String::from_str("Person ");
    push_decimal(&mut s, person.0);
    match spot {
        Some(sp) => {
            s.append(" had a trip cancelled, and their car was warped to ");
            push_spot(&mut s, sp);
        },
        None => {
            s.append(" had a trip cancelled, but nowhere to warp their car");
        },
    }
    s
}

} // verus!
