//! Named sets of static host-name mappings: the line model of a hosts file,
//! the profile store and the session controller that keeps them in step.

pub mod app;
pub mod db_manager;
pub mod dns_lookup;
pub mod host_manager;
pub mod round_trip;
pub mod screen;
pub mod text;
