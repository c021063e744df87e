//! Match schedule selection and calendar event derivation for an esports league.

pub mod events;
pub mod laws;
pub mod leagues;
pub mod matches;
pub mod text;
pub mod time;
