//! IPv6-only CNI plugin core: configuration and environment handling,
//! address planning, input validation for network commands and the
//! command dispatch that drives a network driver.

pub mod cni;
pub mod command_dispatcher;
pub mod command_steps;
pub mod driver;
pub mod driver_dryrun;
pub mod driver_factory;
pub mod driver_script;
pub mod environment;
pub mod error;
pub mod ip_json;
pub mod json;
pub mod orchestrator;
pub mod output;
pub mod text;
pub mod utils;

