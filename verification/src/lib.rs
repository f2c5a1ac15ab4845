//! Attendee lottery: a cache of the attendees of an organizer's latest event,
//! the refresh cycle that fills it, and the drawing of winners from it.

pub mod cache;
pub mod cycle;
pub mod error;
pub mod model;
pub mod random;
pub mod refresh;
pub mod response;
pub mod sampling;
pub mod text;
pub mod upstream;
pub mod winners;
