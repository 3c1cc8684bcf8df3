//! Framing of packets for byte streams.
pub mod ccsds;
pub mod cobs;
