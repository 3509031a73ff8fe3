//! A parameter-search service core: parameter spaces, candidate proposals,
//! the best-seen bookkeeping of a parallel hill climb, the progress watcher
//! and the controller state machine. Double-precision values are carried as
//! their IEEE-754 bit patterns and times as whole nanoseconds.

pub mod algo;
pub mod api;
pub mod app_config;
pub mod app_state;
pub mod domain;
pub mod ieee;
pub mod json;
pub mod msg_handling;
pub mod obj_func;
pub mod param;
pub mod processing;
pub mod processing_watcher;

pub use ieee::RealBits;
