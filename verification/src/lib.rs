//! A weekly-recurring schedule engine: activities made of weekday-bound
//! time frames, a query for the activity in progress at a given instant,
//! and forward simulation to the next free instant.

pub mod activity;
pub mod schedule;
pub mod time;
pub mod timeframe;
