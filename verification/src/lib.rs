//! Store registry and weekly business hours: which stores exist, when each of
//! them opens and closes on every day of the week, and whether a store is open
//! at a given moment.

pub mod calendar;
pub mod models;
pub mod schedule;
pub mod weekly;
pub mod store;
pub mod handlers;
