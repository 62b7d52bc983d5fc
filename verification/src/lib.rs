//! Usage tracking for devices: which app runs when, how long the screen is in use,
//! and the daily, weekly and monthly statistics built from those reports.
pub mod text;
pub mod time;
pub mod models;
pub mod usage;
pub mod recorder;
pub mod tally;
pub mod stats;
pub mod eyetime;
pub mod settings;
pub mod access;
pub mod summary;
