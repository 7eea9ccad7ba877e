//! Support for backends built on SDL2.

pub mod metrics;
