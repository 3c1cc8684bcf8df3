//! Mode tree helpers which command children with sequence tables and keep their target modes.
pub mod subsystem;
