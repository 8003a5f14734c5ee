//! Simulation of one adaptive-bitrate playback session: bitrate strategies, the
//! segment-by-segment engine that evolves the playback buffer, and the
//! quality-of-experience score of the records it produces.

pub mod abr;
pub mod metrics;
pub mod models;
pub mod playback;
