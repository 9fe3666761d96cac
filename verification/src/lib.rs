//! Host- and device-side core of a serial LED-effect controller system:
//! the wire protocol and its codec, the transport retry policy, the
//! discovery worker with its controller registry, and the effect engine
//! with its parameter persistence.

pub mod color;
pub mod commands;
pub mod dispatch;
pub mod effects;
pub mod engine;
pub mod framer;
pub mod legacy;
pub mod message;
pub mod params;
pub mod store;
pub mod strutil;
pub mod worker;
pub mod wire;

pub use color::RGBLedColor;
pub use params::ParameterTypes;
