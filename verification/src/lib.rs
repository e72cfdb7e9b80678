//! People, the trips they make through a simulated day, and the leg-by-leg
//! state machine that carries each trip from its origin to its destination.
//!
//! The trip manager decides; it does not look at the map, park cars or
//! move agents. Whoever drives it asks those who do, hands their answers
//! in, and carries out what comes back:
//!
//! - Before a trip is started, `TripSpec::questions` says what to ask of
//!   the map and the parking manager, and `TripManager::needs_path`
//!   whether to look for the path now. When an agent arrives somewhere,
//!   `TripManager::agent_legs` says what it was doing and what comes next.
//! - Every handler has a guard, `may_..`, that says whether it accepts its
//!   arguments; what it asks is what `pre_..` says of the state.
//! - Every handler that can end a leg returns an `Outcome`: a command for
//!   the scheduler, a car to take out of its spot, a car to find a spot
//!   for, and a delayed trip to start, to be seen to in this order.
//!
//! Every function of the trip manager keeps its invariant,
//! `ManagerState::wf`; `laws` holds what follows from it.

pub mod events;
pub mod ids;
pub mod laws;
pub mod manager;
pub mod person;
pub mod places;
pub mod registry;
pub mod text;
pub mod trip;
pub mod units;
pub mod vehicles;

pub use crate::events::{Command, CreateCar, CreatePedestrian, Event, Outcome};
pub use crate::manager::TripManager;
pub use crate::person::{Person, PersonState};
pub use crate::trip::{TripEndpoint, TripInfo, TripLeg, TripMode, TripResult};
