//! The decisions of an Internet health checker: which probes a round makes and what they amount
//! to, how a link is scored, which link is recommended, how the service is configured, and what
//! is told to an MQTT broker.

pub mod config;
pub mod discovery;
pub mod latency;
pub mod links;
pub mod mqtt;
pub mod round;
pub mod score;
pub mod single;
pub mod status;
pub mod text;
pub mod window;
