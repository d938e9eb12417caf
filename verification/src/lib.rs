pub mod builder;
pub mod cutlist;
pub mod error;
pub mod invocation;
pub mod job;
pub mod locator;
pub mod pathname;
pub mod planner;
pub mod probe;
pub mod progress;
pub mod text;
