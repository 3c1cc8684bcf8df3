//! CCSDS packet handling.
pub mod scheduler;
