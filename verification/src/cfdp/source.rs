//! The CFDP source handler: it caches a put request, starts its transaction and keeps the
//! PDU configuration of the transfer.
use vstd::prelude::*;
use vstd::string::StringSliceAdditionalSpecFns;
use core::str::Utf8Error;
use spacepackets::cfdp::TransmissionMode;
use crate::bytes::ByteConversionError;
use crate::cfdp::filestore::FilestoreError;
use crate::cfdp::request::{set_effect, set_outcome, ReadablePutRequest, StaticPutRequestCacher};
use crate::cfdp::{
    FileDirectiveType, LocalEntityConfig, PacketInfo, PacketTarget, PduType, RemoteEntityConfig,
    State, TransactionId, UnsignedByteField, UserFaultHandler,
};

verus! {

#[derive(Debug, Copy, Clone, PartialEq, Eq, Structural)]
pub enum TransactionStep {
    Idle,
    TransactionStart,
    SendingMetadata,
    SendingFileData,
    /// Re-transmitting missing packets in acknowledged mode
    Retransmitting,
    SendingEof,
    WaitingForEofAck,
    WaitingForFinished,
    SendingAckOfFinished,
    NoticeOfCompletion,
}

/// Parameters of the file transfer of a transaction.
#[derive(Default, Debug, Copy, Clone, PartialEq, Eq, Structural)]
pub struct FileParams {
    pub progress: usize,
    pub segment_len: usize,
    pub metadata_only: bool,
    pub file_size: u64,
    pub no_eof: bool,
}

/// The state, the transaction step and the number of packets ready to be sent of the source
/// handler.
pub struct StateHelper {
    state: State,
    step: TransactionStep,
    num_packets_ready: u32,
}

impl StateHelper {
    pub closed spec fn spec_state(self) -> State {
        self.state
    }

    pub closed spec fn spec_step(self) -> TransactionStep {
        self.step
    }

    pub closed spec fn spec_num_packets_ready(self) -> u32 {
        self.num_packets_ready
    }
}

impl Default for StateHelper {
    /// An idle helper with no packets ready.
    fn default() -> (r: Self)
        ensures
            r.spec_state() == State::Idle,
            r.spec_step() == TransactionStep::Idle,
            r.spec_num_packets_ready() == 0,
    {
        Self { state: State::Idle, step: TransactionStep::Idle, num_packets_ready: 0 }
    }
}

/// The state of a transfer: its transaction, the configuration of the remote entity, and the
/// transmission mode and closure request in effect.
#[derive(Debug, Copy, Clone)]
pub struct TransferState {
    pub transaction_id: TransactionId,
    pub remote_cfg: RemoteEntityConfig,
    pub transmission_mode: TransmissionMode,
    pub closure_requested: bool,
}

/// Whether a file is larger than what 32 bits can hold.
#[derive(Debug, Copy, Clone, PartialEq, Eq, Structural)]
pub enum LargeFileFlag {
    Normal,
    Large,
}

/// Which way the PDUs go.
#[derive(Debug, Copy, Clone, PartialEq, Eq, Structural)]
pub enum Direction {
    TowardsReceiver,
    TowardsSender,
}

/// The fields that all PDUs of a file transfer share.
#[derive(Debug, Copy, Clone)]
pub struct PduConfig {
    pub source_id: UnsignedByteField,
    pub dest_id: UnsignedByteField,
    pub file_flag: LargeFileFlag,
    pub direction: Direction,
    pub crc_flag: bool,
    pub transaction_seq_num: UnsignedByteField,
    pub trans_mode: TransmissionMode,
}

/// Errors of the source handler.
#[derive(Debug)]
pub enum SourceError {
    CantProcessPacketType { pdu_type: PduType, directive_type: Option<FileDirectiveType> },
    UnexpectedFileDataPdu,
    PutRequestAlreadyActive,
    PutRequestCaching(ByteConversionError),
    FilestoreError(FilestoreError),
    SourceFileNotValidUtf8(Utf8Error),
    DestFileNotValidUtf8(Utf8Error),
}

/// Errors of a put request.
#[derive(Debug)]
pub enum PutRequestError {
    Storage(ByteConversionError),
    AlreadyBusy,
}

/// Whether the bytes are the UTF-8 encoding of some string.
pub open spec fn is_utf8(bytes: Seq<u8>) -> bool {
    exists|t: &str| t.spec_bytes() == bytes
}

/// The larger of the two widths.
pub open spec fn larger_width(a: usize, b: usize) -> usize {
    if a >= b { a } else { b }
}

/// The flag for a file of the size: large where the size does not fit into 32 bits.
pub open spec fn file_flag_for(size: u64) -> LargeFileFlag {
    if size > u32::MAX as u64 { LargeFileFlag::Large } else { LargeFileFlag::Normal }
}

/// The value, or the default where there is none.
pub open spec fn or_default<T>(value: Option<T>, default: T) -> T {
    match value {
        Some(v) => v,
        None => default,
    }
}

/// The CFDP source handler: it caches a put request, starts the transaction for it and keeps
/// the PDU configuration of the transfer. The filestore, the PDU sender, the table of remote
/// entity configurations and the sequence counter stay with the caller, which hands over what
/// they give.
pub struct SourceHandler<U: UserFaultHandler> {
    local_cfg: LocalEntityConfig<U>,
    put_request_cacher: StaticPutRequestCacher,
    state_helper: StateHelper,
    tstate: Option<TransferState>,
    fparams: FileParams,
    pdu_conf: Option<PduConfig>,
}

impl<U: UserFaultHandler> SourceHandler<U> {
    #[verifier::type_invariant]
    spec fn inv(self) -> bool {
        &&& self.put_request_cacher.static_fields.source_file_len <= 255
        &&& self.put_request_cacher.static_fields.dest_file_len <= 255
        &&& self.state_helper.state == State::Busy ==> self.tstate is Some
    }

    pub closed spec fn spec_local_id(self) -> UnsignedByteField {
        self.local_cfg.id
    }

    pub closed spec fn spec_cacher(self) -> StaticPutRequestCacher {
        self.put_request_cacher
    }

    pub closed spec fn spec_state(self) -> State {
        self.state_helper.state
    }

    pub closed spec fn spec_step(self) -> TransactionStep {
        self.state_helper.step
    }

    pub closed spec fn spec_num_packets_ready(self) -> u32 {
        self.state_helper.num_packets_ready
    }

    pub closed spec fn spec_tstate(self) -> Option<TransferState> {
        self.tstate
    }

    pub closed spec fn spec_fparams(self) -> FileParams {
        self.fparams
    }

    pub closed spec fn spec_pdu_conf(self) -> Option<PduConfig> {
        self.pdu_conf
    }

    /// An idle handler of the local entity, which caches put requests in the cacher.
    pub fn new(cfg: LocalEntityConfig<U>, put_request_cacher: StaticPutRequestCacher) -> (r: Self)
        requires
            put_request_cacher.static_fields.source_file_len <= 255,
            put_request_cacher.static_fields.dest_file_len <= 255,
        ensures
            r.spec_local_id() == cfg.id,
            r.spec_cacher() == put_request_cacher,
            r.spec_state() == State::Idle,
            r.spec_step() == TransactionStep::Idle,
            r.spec_num_packets_ready() == 0,
            r.spec_tstate() is None,
            r.spec_fparams() == (FileParams { progress: 0, segment_len: 0, metadata_only: false, file_size: 0, no_eof: false }),
            r.spec_pdu_conf() is None,
    {
        Self {
            local_cfg: cfg,
            put_request_cacher,
            state_helper: StateHelper::default(),
            tstate: None,
            fparams: FileParams { progress: 0, segment_len: 0, metadata_only: false, file_size: 0, no_eof: false },
            pdu_conf: None,
        }
    }

    /// The state of the handler.
    pub fn state(&self) -> (r: State)
        ensures
            r == self.spec_state(),
    {
        self.state_helper.state
    }

    /// The step of the transaction.
    pub fn step(&self) -> (r: TransactionStep)
        ensures
            r == self.spec_step(),
    {
        self.state_helper.step
    }

    /// The state of the current transfer, where there is one.
    pub fn transfer_state(&self) -> (r: Option<TransferState>)
        ensures
            r == self.spec_tstate(),
    {
        self.tstate
    }

    /// The parameters of the file transfer.
    pub fn file_params(&self) -> (r: FileParams)
        ensures
            r == self.spec_fparams(),
    {
        self.fparams
    }

    /// The PDU configuration of the transfer, once a transaction was started.
    pub fn pdu_conf(&self) -> (r: Option<PduConfig>)
        ensures
            r == self.spec_pdu_conf(),
    {
        self.pdu_conf
    }

    /// The cached put request.
    pub fn put_request_cacher(&self) -> (r: &StaticPutRequestCacher)
        ensures
            *r == self.spec_cacher(),
    {
        &self.put_request_cacher
    }

    /// The transmission mode of the current transfer, where there is one.
    pub fn transmission_mode(&self) -> (r: Option<TransmissionMode>)
        ensures
            self.spec_tstate() is None ==> r is None,
            self.spec_tstate() matches Some(t) ==> r == Some(t.transmission_mode),
    {
        match self.tstate {
            Some(t) => Some(t.transmission_mode),
            None => None,
        }
    }

    /// Takes a put request where the handler is idle: it is cached, the handler becomes busy
    /// and the transfer state is set up with the sequence number, with the transmission mode
    /// and the closure request of the put request or, where it has none, the defaults of the
    /// remote entity configuration. A busy handler refuses the request and stays as it is;
    /// where the request cannot be cached, the caching error is returned. An idle handler's
    /// cache changes as [StaticPutRequestCacher::set] changes it.
    pub fn put_request<P: ReadablePutRequest>(
        &mut self,
        put_request: &P,
        remote_cfg: &RemoteEntityConfig,
        seq_num: UnsignedByteField,
    ) -> (r: Result<(), PutRequestError>)
        requires
            forall|k: int| 0 <= k < put_request.spec_fs_requests().len() ==> old(self).spec_cacher().fs_requests@.len() + #[trigger] put_request.spec_fs_requests()[k].len() <= usize::MAX,
        ensures
            old(self).spec_state() != State::Idle ==> (r matches Err(PutRequestError::AlreadyBusy) && *final(self) == *old(self)),
            old(self).spec_state() == State::Idle ==> {
                let cached = set_outcome(put_request, old(self).spec_cacher().fs_requests@.len());
                &&& cached matches Err(e) ==> (r matches Err(PutRequestError::Storage(e2)) && e2 == e)
                &&& cached is Ok ==> r is Ok
                &&& set_effect(old(self).spec_cacher(), final(self).spec_cacher(), put_request)
            },
            final(self).spec_local_id() == old(self).spec_local_id(),
            r is Ok ==> {
                &&& final(self).spec_state() == State::Busy
                &&& final(self).spec_step() == old(self).spec_step()
                &&& final(self).spec_num_packets_ready() == 0
                &&& final(self).spec_cacher().static_fields.destination_id == put_request.spec_destination_id()
                &&& final(self).spec_cacher().static_fields.trans_mode == put_request.spec_trans_mode()
                &&& final(self).spec_cacher().static_fields.closure_requested == put_request.spec_closure_requested()
                &&& final(self).spec_cacher().static_fields.seg_ctrl == put_request.spec_seg_ctrl()
                &&& final(self).spec_tstate() matches Some(t) && {
                    &&& t.transaction_id.source_id_spec() == put_request.spec_destination_id()
                    &&& t.transaction_id.seq_num_spec() == seq_num
                    &&& t.remote_cfg == *remote_cfg
                    &&& t.transmission_mode == or_default(put_request.spec_trans_mode(), remote_cfg.default_transmission_mode)
                    &&& t.closure_requested == or_default(put_request.spec_closure_requested(), remote_cfg.closure_requested_by_default)
                }
                &&& final(self).spec_fparams() == old(self).spec_fparams()
                &&& final(self).spec_pdu_conf() == old(self).spec_pdu_conf()
            },
    {
        proof {
            use_type_invariant(&*self);
        }
        if self.state_helper.state != State::Idle {
            return Err(PutRequestError::AlreadyBusy);
        }
        let mut cacher = StaticPutRequestCacher::new(0);
        core::mem::swap(&mut cacher, &mut self.put_request_cacher);
        let cached = cacher.set(put_request);
        core::mem::swap(&mut cacher, &mut self.put_request_cacher);
        match cached {
            Err(e) => {
                return Err(PutRequestError::Storage(e));
            },
            Ok(()) => {},
        }
        let transmission_mode = match self.put_request_cacher.static_fields.trans_mode {
            Some(m) => m,
            None => remote_cfg.default_transmission_mode,
        };
        let closure_requested = match self.put_request_cacher.static_fields.closure_requested {
            Some(c) => c,
            None => remote_cfg.closure_requested_by_default,
        };
        let transaction_id = TransactionId::new(self.put_request_cacher.static_fields.destination_id, seq_num);
        self.tstate = Some(TransferState {
            transaction_id,
            remote_cfg: *remote_cfg,
            transmission_mode,
            closure_requested,
        });
        self.state_helper.state = State::Busy;
        self.state_helper.num_packets_ready = 0;
        Ok(())
    }

    /// Starts the transaction of the cached put request. Without a source path the transfer
    /// carries the metadata only and no EOF. With one, the source and destination paths must
    /// be valid UTF-8 and the source file must exist: the caller hands over its size, or none
    /// where it does not exist; a file larger than 32 bits can hold is a large file. The PDU
    /// configuration then takes both entity IDs at the larger of their two widths, the
    /// direction towards the receiver, the CRC default of the remote entity and the sequence
    /// number and transmission mode of the transfer. On an error nothing changes.
    pub fn handle_transaction_start(&mut self, source_file_size: Option<u64>) -> (r: Result<(), SourceError>)
        requires
            old(self).spec_tstate() is Some,
        ensures
            ({
                let sf = old(self).spec_cacher().static_fields;
                let has_src = sf.source_file_len > 0;
                let src_ok = is_utf8(sf.source_file_buf@.take(sf.source_file_len as int));
                let dest_ok = is_utf8(sf.dest_file_buf@.take(sf.dest_file_len as int));
                let t = old(self).spec_tstate()->0;
                let prev_flag = match old(self).spec_pdu_conf() {
                    Some(c) => c.file_flag,
                    None => LargeFileFlag::Normal,
                };
                let width = larger_width(old(self).spec_local_id().width_spec(), sf.destination_id.width_spec());
                &&& has_src && !src_ok ==> (r matches Err(SourceError::SourceFileNotValidUtf8(_)))
                &&& has_src && src_ok && source_file_size is None ==> (r matches Err(SourceError::FilestoreError(FilestoreError::FileDoesNotExist)))
                &&& has_src && src_ok && source_file_size is Some && !dest_ok ==> (r matches Err(SourceError::DestFileNotValidUtf8(_)))
                &&& !has_src || (src_ok && source_file_size is Some && dest_ok) ==> r is Ok
                &&& r is Err ==> *final(self) == *old(self)
                &&& r is Ok ==> {
                    &&& final(self).spec_state() == old(self).spec_state()
                    &&& final(self).spec_step() == old(self).spec_step()
                    &&& final(self).spec_num_packets_ready() == old(self).spec_num_packets_ready()
                    &&& final(self).spec_tstate() == old(self).spec_tstate()
                    &&& final(self).spec_cacher() == old(self).spec_cacher()
                    &&& final(self).spec_local_id() == old(self).spec_local_id()
                    &&& !has_src ==> final(self).spec_fparams() == (FileParams { metadata_only: true, no_eof: true, ..old(self).spec_fparams() })
                    &&& has_src ==> final(self).spec_fparams() == old(self).spec_fparams()
                    &&& final(self).spec_pdu_conf() matches Some(c) && {
                        &&& c.source_id.width_spec() == width
                        &&& c.source_id.value_spec() == old(self).spec_local_id().value_spec()
                        &&& c.dest_id.width_spec() == width
                        &&& c.dest_id.value_spec() == sf.destination_id.value_spec()
                        &&& c.file_flag == (if has_src { file_flag_for(source_file_size->0) } else { prev_flag })
                        &&& c.direction == Direction::TowardsReceiver
                        &&& c.crc_flag == t.remote_cfg.crc_on_transmission_by_default
                        &&& c.transaction_seq_num == t.transaction_id.seq_num_spec()
                        &&& c.trans_mode == t.transmission_mode
                    }
                }
            }),
    {
        proof {
            use_type_invariant(&*self);
        }
        let tstate = self.tstate.unwrap();
        let mut file_flag = match self.pdu_conf {
            Some(c) => c.file_flag,
            None => LargeFileFlag::Normal,
        };
        let has_src = self.put_request_cacher.has_source_file();
        if has_src {
            match self.put_request_cacher.source_file() {
                Err(e) => {
                    return Err(SourceError::SourceFileNotValidUtf8(e));
                },
                Ok(_) => {},
            }
            let size = match source_file_size {
                None => {
                    return Err(SourceError::FilestoreError(FilestoreError::FileDoesNotExist));
                },
                Some(size) => size,
            };
            match self.put_request_cacher.dest_file() {
                Err(e) => {
                    return Err(SourceError::DestFileNotValidUtf8(e));
                },
                Ok(_) => {},
            }
            file_flag = if size > u32::MAX as u64 { LargeFileFlag::Large } else { LargeFileFlag::Normal };
        } else {
            self.fparams.metadata_only = true;
            self.fparams.no_eof = true;
        }
        let local_id = self.local_cfg.id;
        let dest_id = self.put_request_cacher.static_fields.destination_id;
        let width = if local_id.width() >= dest_id.width() { local_id.width() } else { dest_id.width() };
        let source_id = if local_id.width() == width { local_id } else { UnsignedByteField::new(width, local_id.value()) };
        let dest_id = if dest_id.width() == width { dest_id } else { UnsignedByteField::new(width, dest_id.value()) };
        self.pdu_conf = Some(PduConfig {
            source_id,
            dest_id,
            file_flag,
            direction: Direction::TowardsReceiver,
            crc_flag: tstate.remote_cfg.crc_on_transmission_by_default,
            transaction_seq_num: *tstate.transaction_id.seq_num(),
            trans_mode: tstate.transmission_mode,
        });
        Ok(())
    }
    /// Takes a packet meant for the source entity. A packet for another target, a file data
    /// PDU and an EOF, prompt or metadata PDU are refused with an error; a finished, NAK or
    /// keep-alive PDU is taken and changes nothing yet.
    pub fn insert_packet(&mut self, packet_info: &PacketInfo) -> (r: Result<(), SourceError>)
        requires
            insert_packet_defined(*packet_info),
        ensures
            r == insert_packet_outcome(*packet_info),
            *final(self) == *old(self),
    {
        if packet_info.target() != PacketTarget::SourceEntity {
            return Err(SourceError::CantProcessPacketType {
                pdu_type: packet_info.pdu_type(),
                directive_type: packet_info.pdu_directive(),
            });
        }
        if packet_info.pdu_type() == PduType::FileData {
            return Err(SourceError::UnexpectedFileDataPdu);
        }
        match packet_info.pdu_directive().unwrap() {
            FileDirectiveType::FinishedPdu | FileDirectiveType::NakPdu | FileDirectiveType::KeepAlivePdu => Ok(()),
            _ => Err(SourceError::CantProcessPacketType {
                pdu_type: packet_info.pdu_type(),
                directive_type: packet_info.pdu_directive(),
            }),
        }
    }

    /// Drives the handler, which must be busy: the packet, where there is one, is inserted
    /// first, and its error returned. Then an idle step becomes the start of the transaction;
    /// the start (see [Self::handle_transaction_start], with the size of the source file where
    /// it exists) moves the step on to sending the metadata, or returns its error with the
    /// step left at the start. No PDU is sent yet: the count of sent PDUs is 0.
    pub fn state_machine(&mut self, packet_to_insert: Option<&PacketInfo>, source_file_size: Option<u64>) -> (r: Result<u32, SourceError>)
        requires
            old(self).spec_state() == State::Busy,
            packet_to_insert matches Some(p) ==> insert_packet_defined(*p),
        ensures
            ({
                let inserted = match packet_to_insert {
                    Some(p) => insert_packet_outcome(*p),
                    None => Ok(()),
                };
                let starts = old(self).spec_step() == TransactionStep::Idle || old(self).spec_step() == TransactionStep::TransactionStart;
                &&& inserted matches Err(e) ==> r == Err::<u32, SourceError>(e) && *final(self) == *old(self)
                &&& inserted is Ok && !starts ==> r == Ok::<u32, SourceError>(0) && *final(self) == *old(self)
                &&& inserted is Ok && starts ==> {
                    &&& r is Ok ==> r == Ok::<u32, SourceError>(0) && final(self).spec_step() == TransactionStep::SendingMetadata
                    &&& r is Err ==> final(self).spec_step() == TransactionStep::TransactionStart
                    &&& final(self).spec_state() == State::Busy
                }
            }),
    {
        proof {
            use_type_invariant(&*self);
        }
        if let Some(packet) = packet_to_insert {
            match self.insert_packet(packet) {
                Err(e) => {
                    return Err(e);
                },
                Ok(()) => {},
            }
        }
        if self.state_helper.step == TransactionStep::Idle {
            self.state_helper.step = TransactionStep::TransactionStart;
        }
        if self.state_helper.step == TransactionStep::TransactionStart {
            match self.handle_transaction_start(source_file_size) {
                Err(e) => {
                    return Err(e);
                },
                Ok(()) => {},
            }
            self.state_helper.step = TransactionStep::SendingMetadata;
        }
        Ok(0)
    }
}

/// Whether inserting the packet is defined: a directive packet for the source entity carries
/// its directive, and it is not an ACK PDU, which the handler does not take yet.
pub open spec fn insert_packet_defined(p: PacketInfo) -> bool {
    p.spec_target() == PacketTarget::SourceEntity && p.spec_pdu_type() != PduType::FileData ==> {
        &&& p.spec_pdu_directive() is Some
        &&& p.spec_pdu_directive() != Some(FileDirectiveType::AckPdu)
    }
}

/// What inserting the packet into the source handler gives.
pub open spec fn insert_packet_outcome(p: PacketInfo) -> Result<(), SourceError> {
    if p.spec_target() != PacketTarget::SourceEntity {
        Err(SourceError::CantProcessPacketType { pdu_type: p.spec_pdu_type(), directive_type: p.spec_pdu_directive() })
    } else if p.spec_pdu_type() == PduType::FileData {
        Err(SourceError::UnexpectedFileDataPdu)
    } else {
        match p.spec_pdu_directive() {
            Some(FileDirectiveType::FinishedPdu) | Some(FileDirectiveType::NakPdu) | Some(FileDirectiveType::KeepAlivePdu) => Ok(()),
            _ => Err(SourceError::CantProcessPacketType { pdu_type: p.spec_pdu_type(), directive_type: p.spec_pdu_directive() }),
        }
    }
}

} // verus!
