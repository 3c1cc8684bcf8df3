//! Servers which exchange telecommands and telemetry with clients: the framing and the
//! bookkeeping of a connection.
pub mod tcp_cobs_server;
pub mod tcp_server;
pub mod udp_server;
