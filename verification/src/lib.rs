//! A real-time proximity-based location-sharing engine. Mobile entities
//! (customers, shared taxis, buses) hold live sessions on named routes;
//! the engine fans location changes out only to the sessions whose
//! entity currently lies within a fixed geographic radius of the
//! subject, and reconciles each session's visibility set as entities
//! move or disconnect.
//!
//! The crate holds the engine's decisions: the per-route registry with
//! its ID allocator (`registry`), the entity model and the visibility
//! rule (`geo`), and the per-connection reconciliation state machine
//! with the event protocol (`session`). The sockets, the broadcast
//! channel and the task plumbing live outside; they hand frames and
//! events in and carry notifications out.

pub mod geo;
pub mod registry;
pub mod session;

pub use geo::Bus;
pub use geo::Customer;
pub use geo::Location;
pub use geo::SharedTaxi;
pub use geo::User;
pub use registry::RouteState;
pub use session::FrameOutcome;
pub use session::StateMessage;
pub use session::UserReceiveMessage;
pub use session::UserSendMessage;
pub use session::UserState;
