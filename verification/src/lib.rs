//! Scanner for sideways markets with historical upward spikes.

pub mod alerts;
pub mod binance;
pub mod cli;
pub mod config;
pub mod detector;
pub mod feed;
pub mod healthcheck;
pub mod json;
pub mod laws;
pub mod market;
pub mod number;
pub mod ordering;
pub mod pager;
pub mod retry;
pub mod session;
pub mod state;
pub mod status;
pub mod telegram;
pub mod text;
pub mod text_map;
pub mod time_utils;
