//! Modes and submodes of components, and the requests and replies used to command them.
use vstd::prelude::*;
use crate::bytes::ByteConversionError;
use crate::queue::{GenericReceiveError, GenericSendError};
use crate::request::{GenericMessage, MessageMetadata, RequestId};
use crate::res_code::ResultU16;
use crate::ComponentId;

verus! {

pub type Mode = u32;

pub type Submode = u16;

pub const INVALID_MODE_VAL: Mode = 0xffff_ffffu32;

pub const UNKNOWN_MODE_VAL: Mode = 0xffff_fffeu32;

/// The big-endian value of four bytes.
pub open spec fn be_u32(b0: u8, b1: u8, b2: u8, b3: u8) -> u32 {
    (b0 as int * 0x100_0000 + b1 as int * 0x1_0000 + b2 as int * 0x100 + b3 as int) as u32
}

/// The big-endian value of two bytes.
pub open spec fn be_u16(b0: u8, b1: u8) -> u16 {
    (b0 as int * 0x100 + b1 as int) as u16
}

/// The big-endian bytes of a [u32].
pub open spec fn u32_be_bytes(v: u32) -> Seq<u8> {
    seq![(v / 0x100_0000) as u8, ((v / 0x1_0000) % 0x100) as u8, ((v / 0x100) % 0x100) as u8, (v % 0x100) as u8]
}

/// The big-endian bytes of a [u16].
pub open spec fn u16_be_bytes(v: u16) -> Seq<u8> {
    seq![(v / 0x100) as u8, (v % 0x100) as u8]
}

/// A mode together with a submode.
#[derive(Debug, Copy, Clone, PartialEq, Eq, Structural)]
pub struct ModeAndSubmode {
    mode: Mode,
    submode: Submode,
}

impl ModeAndSubmode {
    pub const RAW_LEN: usize = 6;

    pub closed spec fn spec_mode(self) -> Mode {
        self.mode
    }

    pub closed spec fn spec_submode(self) -> Submode {
        self.submode
    }

    /// The value with the given mode and submode.
    pub closed spec fn spec_new(mode: Mode, submode: Submode) -> ModeAndSubmode {
        ModeAndSubmode { mode, submode }
    }

    /// Two values are equal exactly when their modes and submodes are equal.
    pub proof fn lemma_eq(a: ModeAndSubmode, b: ModeAndSubmode)
        ensures
            (a == b) <==> (a.spec_mode() == b.spec_mode() && a.spec_submode()
                == b.spec_submode()),
    {
    }

    /// The big-endian representation: the mode, then the submode.
    pub open spec fn spec_be_bytes(self) -> Seq<u8> {
        u32_be_bytes(self.spec_mode()) + u16_be_bytes(self.spec_submode())
    }

    pub fn new_mode_only(mode: Mode) -> (r: Self)
        ensures
            r == ModeAndSubmode::spec_new(mode, 0),
            r.spec_mode() == mode,
            r.spec_submode() == 0,
    {
        Self { mode, submode: 0 }
    }

    pub fn new(mode: Mode, submode: Submode) -> (r: Self)
        ensures
            r == ModeAndSubmode::spec_new(mode, submode),
            r.spec_mode() == mode,
            r.spec_submode() == submode,
    {
        Self { mode, submode }
    }

    /// Reads the value from its big-endian representation at the start of the buffer.
    pub fn from_be_bytes(buf: &[u8]) -> (r: Result<Self, ByteConversionError>)
        ensures
            buf@.len() < 6 ==> r == Err::<Self, ByteConversionError>(ByteConversionError::FromSliceTooSmall { expected: 6, found: buf@.len() as usize }),
            buf@.len() >= 6 ==> r == Ok::<Self, ByteConversionError>(ModeAndSubmode::spec_new(be_u32(buf@[0], buf@[1], buf@[2], buf@[3]), be_u16(buf@[4], buf@[5]))),
    {
        if buf.len() < 6 {
            return Err(
                ByteConversionError::FromSliceTooSmall { expected: Self::RAW_LEN, found: buf.len() },
            );
        }
        let b0: u8 = buf[0];
        let b1: u8 = buf[1];
        let b2: u8 = buf[2];
        let b3: u8 = buf[3];
        let b4: u8 = buf[4];
        let b5: u8 = buf[5];
        let mode: u32 = ((b0 as u32) << 24u32) | ((b1 as u32) << 16u32) | ((b2 as u32) << 8u32) | (b3 as u32);
        let submode: u16 = ((b4 as u16) << 8u16) | (b5 as u16);
        assert(((b0 as u32) << 24u32) | ((b1 as u32) << 16u32) | ((b2 as u32) << 8u32) | (b3 as u32)
            == (b0 as int * 0x100_0000 + b1 as int * 0x1_0000 + b2 as int * 0x100 + b3 as int) as u32)
            by (bit_vector);
        assert(((b4 as u16) << 8u16) | (b5 as u16) == (b4 as int * 0x100 + b5 as int) as u16)
            by (bit_vector);
        Ok(Self { mode, submode })
    }

    /// Writes the big-endian representation (the mode, then the submode) to the start of the
    /// buffer.
    pub fn write_to_be_bytes(&self, buf: &mut [u8]) -> (r: Result<usize, ByteConversionError>)
        ensures
            final(buf)@.len() == old(buf)@.len(),
            old(buf)@.len() < 6 ==> r == Err::<usize, ByteConversionError>(ByteConversionError::ToSliceTooSmall { expected: 6, found: old(buf)@.len() as usize }) && final(buf)@ == old(buf)@,
            old(buf)@.len() >= 6 ==> r == Ok::<usize, ByteConversionError>(6) && final(buf)@ == self.spec_be_bytes() + old(buf)@.skip(6),
    {
        if buf.len() < Self::RAW_LEN {
            return Err(
                ByteConversionError::ToSliceTooSmall { expected: Self::RAW_LEN, found: buf.len() },
            );
        }
        let m: u32 = self.mode;
        let s: u16 = self.submode;
        buf[0] = (m >> 24u32) as u8;
        buf[1] = ((m >> 16u32) & 0xff) as u8;
        buf[2] = ((m >> 8u32) & 0xff) as u8;
        buf[3] = (m & 0xff) as u8;
        buf[4] = (s >> 8u16) as u8;
        buf[5] = (s & 0xff) as u8;
        assert((m >> 24u32) as u8 == (m / 0x100_0000) as u8) by (bit_vector);
        assert(((m >> 16u32) & 0xffu32) as u8 == ((m / 0x1_0000) % 0x100) as u8) by (bit_vector);
        assert(((m >> 8u32) & 0xffu32) as u8 == ((m / 0x100) % 0x100) as u8) by (bit_vector);
        assert((m & 0xffu32) as u8 == (m % 0x100) as u8) by (bit_vector);
        assert((s >> 8u16) as u8 == (s / 0x100) as u8) by (bit_vector);
        assert((s & 0xffu16) as u8 == (s % 0x100) as u8) by (bit_vector);
        assert(buf@ =~= self.spec_be_bytes() + old(buf)@.skip(6));
        Ok(Self::RAW_LEN)
    }

    pub fn mode(&self) -> (r: Mode)
        ensures
            r == self.spec_mode(),
    {
        self.mode
    }

    pub fn submode(&self) -> (r: Submode)
        ensures
            r == self.spec_submode(),
    {
        self.submode
    }
}

/// Reading back the bytes written by [ModeAndSubmode::write_to_be_bytes] gives the same mode and
/// submode.
pub proof fn law_mode_and_submode_bytes_roundtrip(ms: ModeAndSubmode)
    ensures
        ({
            let b = ms.spec_be_bytes();
            ModeAndSubmode::spec_new(be_u32(b[0], b[1], b[2], b[3]), be_u16(b[4], b[5])) == ms
        }),
{
    let m = ms.spec_mode();
    let s = ms.spec_submode();
    assert(be_u32((m / 0x100_0000) as u8, ((m / 0x1_0000) % 0x100) as u8, ((m / 0x100) % 0x100) as u8, (m % 0x100) as u8) == m) by (bit_vector);
    assert(be_u16((s / 0x100) as u8, (s % 0x100) as u8) == s) by (bit_vector);
}

/// A mode command for a given target.
#[derive(Debug, Copy, Clone, PartialEq, Eq, Structural)]
pub struct TargetedModeCommand {
    pub address: ComponentId,
    pub mode_submode: ModeAndSubmode,
}

impl TargetedModeCommand {
    pub fn new(address: ComponentId, mode_submode: ModeAndSubmode) -> (r: Self)
        ensures
            r.address == address,
            r.mode_submode == mode_submode,
    {
        Self { address, mode_submode }
    }

    pub fn address(&self) -> (r: ComponentId)
        ensures
            r == self.address,
    {
        self.address
    }

    pub fn mode_submode(&self) -> (r: ModeAndSubmode)
        ensures
            r == self.mode_submode,
    {
        self.mode_submode
    }

    pub fn mode(&self) -> (r: u32)
        ensures
            r == self.mode_submode.spec_mode(),
    {
        self.mode_submode.mode
    }

    pub fn submode(&self) -> (r: u16)
        ensures
            r == self.mode_submode.spec_submode(),
    {
        self.mode_submode.submode
    }
}

#[derive(Debug, Copy, Clone, PartialEq, Eq, Structural)]
pub enum ModeRequest {
    /// Mode information. Can be used to notify other components of changed modes.
    ModeInfo(ModeAndSubmode),
    SetMode { mode_and_submode: ModeAndSubmode, forced: bool },
    ReadMode,
    AnnounceMode,
    AnnounceModeRecursive,
}

#[derive(Debug, Copy, Clone, PartialEq, Eq, Structural)]
pub struct TargetedModeRequest {
    target_id: ComponentId,
    mode_request: ModeRequest,
}

#[derive(Debug, Copy, Clone, PartialEq, Eq, Structural)]
pub enum ModeReply {
    /// Mode information. Can be used to notify other components of changed modes.
    ModeInfo(ModeAndSubmode),
    /// Reply to a mode request to confirm the commanded mode was reached.
    ModeReply(ModeAndSubmode),
    /// Can not reach the commanded mode. Contains a reason as a [ResultU16].
    CantReachMode(ResultU16),
    /// We are in the wrong mode for unknown reasons. Contains the expected and reached mode.
    WrongMode { expected: ModeAndSubmode, reached: ModeAndSubmode },
}

pub type GenericModeReply = GenericMessage<ModeReply>;

/// An object which can send mode requests to other components.
///
/// What it sent is described by the mode requests it handed on so far, in order: each with its
/// request ID and its target.
pub trait ModeRequestSender {
    /// The mode requests which were handed on so far, in order.
    spec fn spec_sent(&self) -> Vec<(RequestId, ComponentId, ModeRequest)>;

    /// Whether the sender succeeds with every request from now on.
    spec fn spec_accepts_all(&self) -> bool;

    fn local_channel_id(&self) -> ComponentId;

    /// Sends the request to the target. Where it succeeds, the request is appended to what was
    /// sent; where it fails, what was sent stays. A sender which succeeds with every request
    /// succeeds with this one and keeps doing so.
    fn send_mode_request(
        &mut self,
        request_id: RequestId,
        target_id: ComponentId,
        request: ModeRequest,
    ) -> (r: Result<(), GenericSendError>)
        ensures
            r is Ok ==> final(self).spec_sent()@ == old(self).spec_sent()@.push((request_id, target_id, request)),
            r is Err ==> final(self).spec_sent()@ == old(self).spec_sent()@,
            old(self).spec_accepts_all() ==> r is Ok && final(self).spec_accepts_all(),
    ;
}

/// An object which can receive mode requests.
pub trait ModeRequestReceiver {
    fn try_recv_mode_request(&self) -> Result<Option<GenericMessage<ModeRequest>>, GenericReceiveError>;
}

#[derive(Debug, Copy, Clone, PartialEq, Eq, Structural)]
pub enum ModeError {
    Send(GenericSendError),
    Receive(GenericReceiveError),
    Busy,
}

impl From<GenericSendError> for ModeError {
    fn from(value: GenericSendError) -> (r: Self) {
        ModeError::Send(value)
    }
}

impl vstd::std_specs::convert::FromSpecImpl<GenericSendError> for ModeError {
    open spec fn obeys_from_spec() -> bool {
        true
    }

    open spec fn from_spec(v: GenericSendError) -> Self {
        ModeError::Send(v)
    }
}

impl From<GenericReceiveError> for ModeError {
    fn from(value: GenericReceiveError) -> (r: Self) {
        ModeError::Receive(value)
    }
}

impl vstd::std_specs::convert::FromSpecImpl<GenericReceiveError> for ModeError {
    open spec fn obeys_from_spec() -> bool {
        true
    }

    open spec fn from_spec(v: GenericReceiveError) -> Self {
        ModeError::Receive(v)
    }
}

/// An object which has a mode and a submode.
pub trait ModeProvider {
    /// The mode and submode that the object is in.
    spec fn spec_mode_and_submode(&self) -> ModeAndSubmode;

    fn mode_and_submode(&self) -> (r: ModeAndSubmode)
        ensures
            r == self.spec_mode_and_submode(),
    ;

    fn mode(&self) -> (r: Mode)
        ensures
            r == self.spec_mode_and_submode().spec_mode(),
    {
        self.mode_and_submode().mode()
    }

    fn submode(&self) -> (r: Submode)
        ensures
            r == self.spec_mode_and_submode().spec_submode(),
    {
        self.mode_and_submode().submode()
    }
}

/// An object which handles mode requests.
pub trait ModeRequestHandler: ModeProvider {
    type Error;

    fn start_transition(
        &mut self,
        requestor: MessageMetadata,
        mode_and_submode: ModeAndSubmode,
        forced: bool,
    ) -> Result<(), Self::Error>;

    fn announce_mode(&self, requestor_info: Option<MessageMetadata>, recursive: bool);

    fn handle_mode_reached(&mut self, requestor_info: Option<MessageMetadata>) -> Result<(), Self::Error>;

    fn handle_mode_info(&mut self, requestor_info: MessageMetadata, info: ModeAndSubmode) -> Result<(), Self::Error>;

    fn send_mode_reply(&self, requestor_info: MessageMetadata, reply: ModeReply) -> Result<(), Self::Error>;

    /// Dispatches a mode request: a set-mode request starts a transition, a read-mode request is
    /// answered with the current mode, an announce request announces the mode (recursively or
    /// not) and succeeds, and mode information is handed to [Self::handle_mode_info].
    fn handle_mode_request(&mut self, request: GenericMessage<ModeRequest>) -> (r: Result<(), Self::Error>)
        ensures
            (request.message is AnnounceMode || request.message is AnnounceModeRecursive) ==> r is Ok,
    {
        match request.message {
            ModeRequest::SetMode { mode_and_submode, forced } => {
                self.start_transition(request.requestor_info, mode_and_submode, forced)
            },
            ModeRequest::ReadMode => {
                let current = self.mode_and_submode();
                self.send_mode_reply(request.requestor_info, ModeReply::ModeReply(current))
            },
            ModeRequest::AnnounceMode => {
                self.announce_mode(Some(request.requestor_info), false);
                Ok(())
            },
            ModeRequest::AnnounceModeRecursive => {
                self.announce_mode(Some(request.requestor_info), true);
                Ok(())
            },
            ModeRequest::ModeInfo(info) => self.handle_mode_info(request.requestor_info, info),
        }
    }
}

/// An object which can receive mode replies.
pub trait ModeReplyReceiver {
    fn try_recv_mode_reply(&self) -> Result<Option<GenericMessage<ModeReply>>, GenericReceiveError>;
}

/// An object which can send mode replies.
pub trait ModeReplySender {
    fn local_channel_id(&self) -> ComponentId;

    /// The requestor is assumed to be the target of the reply.
    fn send_mode_reply(&self, requestor_info: MessageMetadata, reply: ModeReply) -> Result<(), GenericSendError>;
}

} // verus!
