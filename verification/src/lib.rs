//! Decision logic of the war and affiliation services: what to fetch, what
//! to store and who is at war, with the I/O left to the caller.
pub mod affiliation;
pub mod bulk_affiliation;
pub mod clock;
pub mod decimal;
pub mod war;
pub mod war_list;
pub mod war_updater;
