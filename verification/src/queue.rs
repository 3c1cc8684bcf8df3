//! Error types shared by the message queue abstractions.
use vstd::prelude::*;
use crate::ComponentId;

verus! {

/// Generic error type for sending something via a message queue.
#[derive(Debug, Copy, Clone, PartialEq, Eq, Structural)]
pub enum GenericSendError {
    RxDisconnected,
    QueueFull(Option<u32>),
    TargetDoesNotExist(ComponentId),
}

/// Generic error type for receiving something from a message queue.
#[derive(Debug, Copy, Clone, PartialEq, Eq, Structural)]
pub enum GenericReceiveError {
    Empty,
    TxDisconnected(Option<ComponentId>),
}

/// Error of a targeted messaging operation: either the send or the receive side failed.
#[derive(Debug, Copy, Clone, PartialEq, Eq, Structural)]
pub enum GenericTargetedMessagingError {
    Send(GenericSendError),
    Receive(GenericReceiveError),
}

impl From<GenericSendError> for GenericTargetedMessagingError {
    fn from(value: GenericSendError) -> (r: Self) {
        GenericTargetedMessagingError::Send(value)
    }
}

impl vstd::std_specs::convert::FromSpecImpl<GenericSendError> for GenericTargetedMessagingError {
    open spec fn obeys_from_spec() -> bool {
        true
    }

    open spec fn from_spec(v: GenericSendError) -> Self {
        GenericTargetedMessagingError::Send(v)
    }
}

impl From<GenericReceiveError> for GenericTargetedMessagingError {
    fn from(value: GenericReceiveError) -> (r: Self) {
        GenericTargetedMessagingError::Receive(value)
    }
}

impl vstd::std_specs::convert::FromSpecImpl<GenericReceiveError> for GenericTargetedMessagingError {
    open spec fn obeys_from_spec() -> bool {
        true
    }

    open spec fn from_spec(v: GenericReceiveError) -> Self {
        GenericTargetedMessagingError::Receive(v)
    }
}

} // verus!
