//! Messages exchanged with the satellite simulator, and the models of its devices.
use vstd::prelude::*;

pub mod acs;
pub mod eps;

verus! {

#[derive(Debug, Copy, Clone, PartialEq, Eq, Hash, Structural)]
pub enum SimComponent {
    SimCtrl,
    MgmLis3Mdl,
    Mgt,
    Pcdu,
}

/// A message for a component of the simulator, with its JSON payload.
#[derive(Debug, Clone, PartialEq, Eq)]
pub struct SimMessage {
    pub target: SimComponent,
    pub payload: String,
}

#[derive(Debug, Copy, Clone, PartialEq, Eq, Structural)]
pub enum SimMessageType {
    Request,
    Reply,
}

/// A generic simulation reply type. Right now, the payload data is expected to be
/// JSON, which might be changed in the future.
#[derive(Debug, Clone, PartialEq, Eq)]
pub struct SimReply {
    inner: SimMessage,
}

impl SimReply {
    pub closed spec fn spec_inner(self) -> SimMessage {
        self.inner
    }

    /// A reply for the target with the given serialized payload.
    pub fn from_message(inner: SimMessage) -> (r: Self)
        ensures
            r.spec_inner() == inner,
    {
        Self { inner }
    }

    /// The component the reply comes from.
    pub fn component(&self) -> (r: SimComponent)
        ensures
            r == self.spec_inner().target,
    {
        self.inner.target
    }

    /// The serialized payload.
    pub fn payload(&self) -> (r: &String)
        ensures
            *r == self.spec_inner().payload,
    {
        &self.inner.payload
    }

    pub fn msg_type(&self) -> (r: SimMessageType)
        ensures
            r == SimMessageType::Reply,
    {
        SimMessageType::Reply
    }
}

#[derive(Debug, Copy, Clone, PartialEq, Eq, Structural)]
pub enum SimCtrlRequest {
    Ping,
}

#[derive(Debug, Clone, PartialEq, Eq)]
pub enum SimMessageError<P> {
    SerdeJson(String),
    TargetRequestMissmatch(P),
}

/// The threading model of the simulator.
#[derive(Debug, Copy, Clone, PartialEq, Eq, Structural)]
pub enum ThreadingModel {
    Default,
    Single,
}

} // verus!
