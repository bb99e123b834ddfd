//! The logic of a home-automation board for smart plugs.

pub mod actions;
pub mod automations;
pub mod calendar;
pub mod clock;
pub mod conditions;
pub mod devices;
pub mod dup;
pub mod encode;
pub mod energy;
pub mod hooks;
pub mod lists;
pub mod merge;
pub mod migration;
pub mod schedules;
pub mod settings;
pub mod sheets;
pub mod state;
pub mod table;
pub mod text;
pub mod time;
pub mod unicode;
pub mod value;
