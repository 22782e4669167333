//! Verified core of a Docker container monitor and of an athlete
//! registration router.

pub mod container;
pub mod ranking;
pub mod selection;
pub mod report;
pub mod text;
pub mod host;
pub mod athlete;
pub mod lifecycle;
