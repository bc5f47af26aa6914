//! Verified core of a disk-cache sweeper: a parallel directory walker model,
//! result batching, admission-controlled size accounting, deletion planning,
//! and the interactive application state that stays correct under
//! out-of-order background completions.

pub mod analytics;
pub mod config;
pub mod delete;
pub mod display;
pub mod events;
pub mod input;
pub mod profiles;
pub mod risk;
pub mod scan;
pub mod size;
pub mod sorting;
pub mod state;
pub mod text;
