//! The attitude control devices of the simulator: magnetometer and magnetorquer messages.
use vstd::prelude::*;
use core::time::Duration;

verus! {

#[derive(Debug, Copy, Clone, PartialEq, Eq, Structural)]
pub enum MgmRequestLis3Mdl {
    RequestSensorData,
}

/// Raw sensor values of the LIS3MDL magnetometer.
#[derive(Default, Debug, Copy, Clone, PartialEq, Eq, Structural)]
pub struct MgmLis3RawValues {
    pub x: i16,
    pub y: i16,
    pub z: i16,
}

/// Simple model of a magnetorquer dipole using i16 values.
#[derive(Default, Debug, Copy, Clone, PartialEq, Eq, Structural)]
pub struct MgtDipole {
    pub x: i16,
    pub y: i16,
    pub z: i16,
}

#[derive(Debug, Copy, Clone, PartialEq, Eq, Structural)]
pub enum MgtRequestType {
    ApplyTorque,
}

#[derive(Debug, Copy, Clone)]
pub enum MgtRequest {
    ApplyTorque { duration: Duration, dipole: MgtDipole },
    RequestHk,
}

#[derive(Debug, Copy, Clone, PartialEq, Eq, Structural)]
pub struct MgtHkSet {
    pub dipole: MgtDipole,
    pub torquing: bool,
}

#[derive(Debug, Copy, Clone, PartialEq, Eq, Structural)]
pub enum MgtReply {
    Ack(MgtRequestType),
    Nak(MgtRequestType),
    Hk(MgtHkSet),
}

} // verus!
