//! Bounded, observable request serving.
pub mod address;
pub mod body;
pub mod buffer;
pub mod codec;
pub mod connection;
pub mod edge;
pub mod error;
pub mod gauges;
pub mod lifecycle;
pub mod limits;
pub mod memory;
pub mod peer_rate;
pub mod peers;
pub mod pipeline;
pub mod response;
pub mod stress;
pub mod telemetry;
pub mod text;
pub mod time;
pub mod transport;
pub mod tls;
