//! A resource scheduler: named resources with a limit on how many holders
//! may use each at once, tokens that holders keep alive by pinging, and the
//! reclaiming of tokens whose holders went silent.

pub mod clock;
pub mod config;
pub mod permits;
pub mod cond;
pub mod laws;
pub mod messages;
pub mod service;
pub mod client;
pub mod wait;
