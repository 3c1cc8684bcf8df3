//! Generic request and reply messages which carry the metadata of their requestor.
use vstd::prelude::*;
use crate::ComponentId;

verus! {

/// Generic request ID type, used to tie replies to requests.
pub type RequestId = u32;

/// The request ID and the sender of a message.
#[derive(Debug, Copy, Clone, PartialEq, Eq, Structural)]
pub struct MessageMetadata {
    request_id: RequestId,
    sender_id: ComponentId,
}

impl MessageMetadata {
    pub closed spec fn spec_request_id(self) -> RequestId {
        self.request_id
    }

    pub closed spec fn spec_sender_id(self) -> ComponentId {
        self.sender_id
    }

    pub fn new(request_id: RequestId, sender_id: ComponentId) -> (r: Self)
        ensures
            r.spec_request_id() == request_id,
            r.spec_sender_id() == sender_id,
    {
        Self { request_id, sender_id }
    }

    pub fn request_id(&self) -> (r: RequestId)
        ensures
            r == self.spec_request_id(),
    {
        self.request_id
    }

    pub fn sender_id(&self) -> (r: ComponentId)
        ensures
            r == self.spec_sender_id(),
    {
        self.sender_id
    }
}

/// A message together with the metadata of its requestor.
#[derive(Debug, Clone, PartialEq, Eq)]
pub struct GenericMessage<Message> {
    pub requestor_info: MessageMetadata,
    pub message: Message,
}

impl<Message> GenericMessage<Message> {
    pub fn new(requestor_info: MessageMetadata, message: Message) -> (r: Self)
        ensures
            r.requestor_info == requestor_info,
            r.message == message,
    {
        Self { requestor_info, message }
    }

    pub fn request_id(&self) -> (r: RequestId)
        ensures
            r == self.requestor_info.spec_request_id(),
    {
        self.requestor_info.request_id()
    }

    pub fn sender_id(&self) -> (r: ComponentId)
        ensures
            r == self.requestor_info.spec_sender_id(),
    {
        self.requestor_info.sender_id()
    }
}

} // verus!
