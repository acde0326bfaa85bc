//! What the library promises, said of its inputs and results.

pub mod detection;
pub mod exchange;
pub mod configuration;
pub mod markets;
pub mod messages;
pub mod command_line;
pub mod reporting;
pub mod running;
pub mod basics;
