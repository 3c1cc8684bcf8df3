//! CFDP entities: the routing of received PDUs to the source or destination handler, and the
//! states and timers of transactions.
use vstd::prelude::*;
use std::time::Instant;
use crate::bytes::ByteConversionError;
use crate::cfdp::filestore::ChecksumType;
use spacepackets::cfdp::TransmissionMode;
use spacepackets::cfdp::pdu as sp_pdu;
use crate::mode::be_u16;
use crate::time::{duration_as_secs, instant_elapsed, instant_now};

pub mod filestore;
pub mod request;
pub mod source;

verus! {

#[derive(Debug, Clone, Copy, PartialEq, Eq, Structural)]
pub enum EntityType {
    Sending,
    Receiving,
}

/// Generic abstraction for a check timer which is used by the check limit handling, the NAK
/// activity limit and the positive ACK procedures of the CFDP protocol.
pub trait CheckTimer {
    fn has_expired(&self) -> bool;

    fn reset(&mut self);
}

/// Simple check timer on the standard monotonic clock, with an accuracy of a second.
#[derive(Debug)]
pub struct StdCheckTimer {
    expiry_time_seconds: u64,
    start_time: Instant,
}

impl StdCheckTimer {
    pub closed spec fn spec_expiry_time_seconds(self) -> u64 {
        self.expiry_time_seconds
    }

    /// A timer which expires after the given number of seconds, started now.
    pub fn new(expiry_time_seconds: u64) -> (r: Self)
        ensures
            r.spec_expiry_time_seconds() == expiry_time_seconds,
    {
        Self { expiry_time_seconds, start_time: instant_now() }
    }
}

impl CheckTimer for StdCheckTimer {
    /// The timer expired when more whole seconds than the expiry time elapsed since it was
    /// started or reset.
    fn has_expired(&self) -> (r: bool) {
        let elapsed_time = instant_elapsed(&self.start_time);
        duration_as_secs(&elapsed_time) > self.expiry_time_seconds
    }

    /// Restarts the timer now; its expiry time stays.
    fn reset(&mut self)
        ensures
            final(self).spec_expiry_time_seconds() == old(self).spec_expiry_time_seconds(),
    {
        self.start_time = instant_now();
    }
}

/// Condition codes of CFDP, as the standard lists them.
#[derive(Debug, Copy, Clone, PartialEq, Eq, Structural)]
pub enum ConditionCode {
    /// This is not an error condition for which a fault handler override can be specified.
    NoError,
    PositiveAckLimitReached,
    KeepAliveLimitReached,
    InvalidTransmissionMode,
    FilestoreRejection,
    FileChecksumFailure,
    FileSizeError,
    NakLimitReached,
    InactivityDetected,
    CheckLimitReached,
    UnsupportedChecksumType,
    /// Not an actual fault condition for which fault handler overrides can be specified.
    SuspendRequestReceived,
    /// Not an actual fault condition for which fault handler overrides can be specified.
    CancelRequestReceived,
}

/// Fault handler codes of CFDP: what is done about a fault.
#[derive(Debug, Copy, Clone, PartialEq, Eq, Structural)]
pub enum FaultHandlerCode {
    NoticeOfCancellation,
    NoticeOfSuspension,
    IgnoreError,
    AbandonTransaction,
}

/// An unsigned value together with the width in bytes it is written with.
#[derive(Debug, Copy, Clone, PartialEq, Eq, Structural)]
pub struct UnsignedByteField {
    width: usize,
    value: u64,
}

impl UnsignedByteField {
    pub closed spec fn width_spec(self) -> usize {
        self.width
    }

    pub closed spec fn value_spec(self) -> u64 {
        self.value
    }

    /// Generic constructor.
    pub fn new(width: usize, value: u64) -> (r: Self)
        ensures
            r.width_spec() == width,
            r.value_spec() == value,
    {
        Self { width, value }
    }

    /// Type-erased raw value.
    pub fn value(&self) -> (r: u64)
        ensures
            r == self.value_spec(),
    {
        self.value
    }

    /// Width in bytes.
    pub fn width(&self) -> (r: usize)
        ensures
            r == self.width_spec(),
    {
        self.width
    }
}

/// The CFDP transaction ID of a CFDP transaction consists of the source entity ID and the
/// sequence number of that transfer which is also determined by the CFDP source entity.
///
/// Two transaction IDs are equal when their values are, whatever their widths.
#[derive(Debug, Eq, Copy, Clone)]
pub struct TransactionId {
    source_id: UnsignedByteField,
    seq_num: UnsignedByteField,
}

impl TransactionId {
    pub closed spec fn source_id_spec(self) -> UnsignedByteField {
        self.source_id
    }

    pub closed spec fn seq_num_spec(self) -> UnsignedByteField {
        self.seq_num
    }

    pub fn new(source_id: UnsignedByteField, seq_num: UnsignedByteField) -> (r: Self)
        ensures
            r.source_id_spec() == source_id,
            r.seq_num_spec() == seq_num,
    {
        Self { source_id, seq_num }
    }

    pub fn source_id(&self) -> (r: &UnsignedByteField)
        ensures
            *r == self.source_id_spec(),
    {
        &self.source_id
    }

    pub fn seq_num(&self) -> (r: &UnsignedByteField)
        ensures
            *r == self.seq_num_spec(),
    {
        &self.seq_num
    }
}

impl PartialEq for TransactionId {
    fn eq(&self, other: &Self) -> (r: bool) {
        self.source_id.value == other.source_id.value && self.seq_num.value == other.seq_num.value
    }
}

impl vstd::std_specs::cmp::PartialEqSpecImpl for TransactionId {
    open spec fn obeys_eq_spec() -> bool {
        true
    }

    open spec fn eq_spec(&self, other: &Self) -> bool {
        self.source_id_spec().value_spec() == other.source_id_spec().value_spec()
            && self.seq_num_spec().value_spec() == other.seq_num_spec().value_spec()
    }
}

/// Callbacks which are called when a particular CFDP fault handler is called.
///
/// It is passed into the CFDP handlers as part of the [DefaultFaultHandler] and provides a way
/// to specify custom user error handlers. For each error reported by the [DefaultFaultHandler],
/// the callback of its [FaultHandlerCode] is called.
pub trait UserFaultHandler {
    fn notice_of_suspension_cb(
        &mut self,
        transaction_id: TransactionId,
        cond: ConditionCode,
        progress: u64,
    );

    fn notice_of_cancellation_cb(
        &mut self,
        transaction_id: TransactionId,
        cond: ConditionCode,
        progress: u64,
    );

    fn abandoned_cb(&mut self, transaction_id: TransactionId, cond: ConditionCode, progress: u64);

    fn ignore_cb(&mut self, transaction_id: TransactionId, cond: ConditionCode, progress: u64);
}

/// Number of condition codes for which a fault handler can be chosen.
pub const NUM_FAULT_HANDLERS: usize = 10;

/// The slot of a condition code in the table of fault handlers; the codes that are no faults
/// have none.
pub open spec fn handler_slot(c: ConditionCode) -> Option<int> {
    match c {
        ConditionCode::PositiveAckLimitReached => Some(0),
        ConditionCode::KeepAliveLimitReached => Some(1),
        ConditionCode::InvalidTransmissionMode => Some(2),
        ConditionCode::FilestoreRejection => Some(3),
        ConditionCode::FileChecksumFailure => Some(4),
        ConditionCode::FileSizeError => Some(5),
        ConditionCode::NakLimitReached => Some(6),
        ConditionCode::InactivityDetected => Some(7),
        ConditionCode::CheckLimitReached => Some(8),
        ConditionCode::UnsupportedChecksumType => Some(9),
        _ => None,
    }
}

/// The handler a table gives for a condition code: its slot's entry, and ignoring the error
/// for the codes that are no faults.
pub open spec fn handler_in(table: Seq<FaultHandlerCode>, c: ConditionCode) -> FaultHandlerCode {
    match handler_slot(c) {
        Some(i) => table[i],
        None => FaultHandlerCode::IgnoreError,
    }
}

/// The table after the handler of `c` was set to `h`; codes that are no faults leave it as it
/// is.
pub open spec fn table_with(
    table: Seq<FaultHandlerCode>,
    c: ConditionCode,
    h: FaultHandlerCode,
) -> Seq<FaultHandlerCode> {
    match handler_slot(c) {
        Some(i) => table.update(i, h),
        None => table,
    }
}

/// The handler a fresh fault handler gives for each condition code: checksum failures and
/// unsupported checksum types are ignored, as are the codes that are no faults; every other
/// fault cancels the transaction.
pub open spec fn default_handler(c: ConditionCode) -> FaultHandlerCode {
    match c {
        ConditionCode::FileChecksumFailure => FaultHandlerCode::IgnoreError,
        ConditionCode::UnsupportedChecksumType => FaultHandlerCode::IgnoreError,
        _ => match handler_slot(c) {
            Some(_) => FaultHandlerCode::NoticeOfCancellation,
            None => FaultHandlerCode::IgnoreError,
        },
    }
}

/// This structure is used to implement the fault handling as specified in chapter 4.8 of the
/// CFDP standard.
///
/// It does so by mapping each applicable [ConditionCode] to a fault handler which is denoted by
/// the four [FaultHandlerCode]s. This code is used to select the error handling inside the CFDP
/// handler itself in addition to dispatching to a user-provided callback function provided by
/// the [UserFaultHandler].
///
/// Checksum failures and unsupported checksum types are ignored by default; for all other
/// faults, the default fault handling operation is to cancel the transaction. These defaults can
/// be overriden by using the [Self::set_fault_handler] method.
pub struct DefaultFaultHandler<U: UserFaultHandler> {
    handler_array: Vec<FaultHandlerCode>,
    user_fault_handler: U,
}

impl<U: UserFaultHandler> DefaultFaultHandler<U> {
    /// The fault handler of each slot.
    pub closed spec fn handlers(&self) -> Seq<FaultHandlerCode> {
        self.handler_array@
    }

    pub closed spec fn wf(&self) -> bool {
        self.handler_array@.len() == NUM_FAULT_HANDLERS
    }

    fn condition_code_to_array_index(conditon_code: ConditionCode) -> (r: Option<usize>)
        ensures
            r matches Some(i) ==> handler_slot(conditon_code) == Some(i as int),
            r is None ==> handler_slot(conditon_code) is None,
    {
        Some(
            match conditon_code {
                ConditionCode::PositiveAckLimitReached => 0,
                ConditionCode::KeepAliveLimitReached => 1,
                ConditionCode::InvalidTransmissionMode => 2,
                ConditionCode::FilestoreRejection => 3,
                ConditionCode::FileChecksumFailure => 4,
                ConditionCode::FileSizeError => 5,
                ConditionCode::NakLimitReached => 6,
                ConditionCode::InactivityDetected => 7,
                ConditionCode::CheckLimitReached => 8,
                ConditionCode::UnsupportedChecksumType => 9,
                _ => return None,
            },
        )
    }

    /// Set the fault handler of a condition code; codes that are no faults are left out.
    pub fn set_fault_handler(&mut self, condition_code: ConditionCode, fault_handler: FaultHandlerCode)
        requires
            old(self).wf(),
        ensures
            final(self).wf(),
            final(self).handlers() == table_with(old(self).handlers(), condition_code, fault_handler),
    {
        let array_idx = Self::condition_code_to_array_index(condition_code);
        if array_idx.is_none() {
            return;
        }
        self.handler_array.set(array_idx.unwrap(), fault_handler);
    }

    /// A fault handler with the default handlers.
    pub fn new(user_fault_handler: U) -> (r: Self)
        ensures
            r.wf(),
            forall|c: ConditionCode| handler_in(r.handlers(), c) == default_handler(c),
    {
        let mut init_array: Vec<FaultHandlerCode> = Vec::new();
        let mut i: usize = 0;
        while i < NUM_FAULT_HANDLERS
            invariant
                i <= NUM_FAULT_HANDLERS,
                init_array@.len() == i,
                forall|j: int| 0 <= j < i ==> init_array@[j] == FaultHandlerCode::NoticeOfCancellation,
            decreases NUM_FAULT_HANDLERS - i,
        {
            init_array.push(FaultHandlerCode::NoticeOfCancellation);
            i += 1;
        }
        init_array.set(
            Self::condition_code_to_array_index(ConditionCode::FileChecksumFailure).unwrap(),
            FaultHandlerCode::IgnoreError,
        );
        init_array.set(
            Self::condition_code_to_array_index(ConditionCode::UnsupportedChecksumType).unwrap(),
            FaultHandlerCode::IgnoreError,
        );
        Self { handler_array: init_array, user_fault_handler }
    }

    /// The fault handler of a condition code; codes that are no faults are ignored.
    pub fn get_fault_handler(&self, condition_code: ConditionCode) -> (r: FaultHandlerCode)
        requires
            self.wf(),
        ensures
            r == handler_in(self.handlers(), condition_code),
    {
        let array_idx = Self::condition_code_to_array_index(condition_code);
        if array_idx.is_none() {
            return FaultHandlerCode::IgnoreError;
        }
        self.handler_array[array_idx.unwrap()]
    }

    /// Report a fault: calls the callback of the user fault handler that belongs to the fault
    /// handler of the condition, and returns that fault handler. Codes that are no faults are
    /// ignored without a callback.
    pub fn report_fault(
        &mut self,
        transaction_id: TransactionId,
        condition: ConditionCode,
        progress: u64,
    ) -> (r: FaultHandlerCode)
        requires
            old(self).wf(),
        ensures
            final(self).wf(),
            final(self).handlers() == old(self).handlers(),
            r == handler_in(old(self).handlers(), condition),
    {
        let array_idx = Self::condition_code_to_array_index(condition);
        if array_idx.is_none() {
            return FaultHandlerCode::IgnoreError;
        }
        let fh_code = self.handler_array[array_idx.unwrap()];
        match fh_code {
            FaultHandlerCode::NoticeOfCancellation => {
                self.user_fault_handler.notice_of_cancellation_cb(transaction_id, condition, progress);
            },
            FaultHandlerCode::NoticeOfSuspension => {
                self.user_fault_handler.notice_of_suspension_cb(transaction_id, condition, progress);
            },
            FaultHandlerCode::IgnoreError => {
                self.user_fault_handler.ignore_cb(transaction_id, condition, progress);
            },
            FaultHandlerCode::AbandonTransaction => {
                self.user_fault_handler.abandoned_cb(transaction_id, condition, progress);
            },
        }
        fh_code
    }
}

/// Setting the handler of a fault condition makes the table give that handler for it and
/// leaves the handlers of all other conditions as they were; for codes that are no faults
/// setting changes nothing.
pub proof fn law_fault_handler_set_then_get(
    table: Seq<FaultHandlerCode>,
    c: ConditionCode,
    h: FaultHandlerCode,
    other: ConditionCode,
)
    requires
        table.len() == NUM_FAULT_HANDLERS,
    ensures
        handler_slot(c) is Some ==> handler_in(table_with(table, c, h), c) == h,
        other != c ==> handler_in(table_with(table, c, h), other) == handler_in(table, other),
        handler_slot(c) is None ==> table_with(table, c, h) == table,
{
}

/// The configuration of a remote entity. The intervals of the positive ACK timer and of the
/// NAK timer, which are fractional seconds, are kept by the application beside it.
#[derive(Debug, Copy, Clone)]
pub struct RemoteEntityConfig {
    pub entity_id: UnsignedByteField,
    pub max_packet_len: usize,
    pub max_file_segment_len: usize,
    pub closure_requested_by_default: bool,
    pub crc_on_transmission_by_default: bool,
    pub default_transmission_mode: TransmissionMode,
    pub default_crc_type: ChecksumType,
    pub positive_ack_timer_expiration_limit: u32,
    pub check_limit: u32,
    pub disposition_on_cancellation: bool,
    pub immediate_nak_mode: bool,
    pub nak_timer_expiration_limit: u32,
}

impl RemoteEntityConfig {
    /// A configuration with the given values and the default limits: a check limit of 2,
    /// expiration limits of 2 for both timers, immediate NAK mode and no disposition on
    /// cancellation.
    pub fn new_with_default_values(
        entity_id: UnsignedByteField,
        max_file_segment_len: usize,
        max_packet_len: usize,
        closure_requested_by_default: bool,
        crc_on_transmission_by_default: bool,
        default_transmission_mode: TransmissionMode,
        default_crc_type: ChecksumType,
    ) -> (r: Self)
        ensures
            r.entity_id == entity_id,
            r.max_file_segment_len == max_file_segment_len,
            r.max_packet_len == max_packet_len,
            r.closure_requested_by_default == closure_requested_by_default,
            r.crc_on_transmission_by_default == crc_on_transmission_by_default,
            r.default_transmission_mode == default_transmission_mode,
            r.default_crc_type == default_crc_type,
            r.check_limit == 2,
            r.positive_ack_timer_expiration_limit == 2,
            !r.disposition_on_cancellation,
            r.immediate_nak_mode,
            r.nak_timer_expiration_limit == 2,
    {
        Self {
            entity_id,
            max_file_segment_len,
            max_packet_len,
            closure_requested_by_default,
            crc_on_transmission_by_default,
            default_transmission_mode,
            default_crc_type,
            check_limit: 2,
            positive_ack_timer_expiration_limit: 2,
            disposition_on_cancellation: false,
            immediate_nak_mode: true,
            nak_timer_expiration_limit: 2,
        }
    }
}

/// A table of remote entity configurations, by the remote entity ID.
pub trait RemoteEntityConfigProvider {
    /// The configurations, by remote entity ID.
    spec fn spec_configs(&self) -> Map<u64, RemoteEntityConfig>;

    /// Retrieve the remote entity configuration for the given remote ID.
    fn get_remote_config(&self, remote_id: u64) -> (r: Option<&RemoteEntityConfig>)
        ensures
            r is None <==> !self.spec_configs().contains_key(remote_id),
            r matches Some(c) ==> *c == self.spec_configs()[remote_id],
    ;

    /// Add a new remote configuration, under the value of its entity ID. Return [true] if the
    /// configuration was inserted successfully, and [false] if a configuration already exists,
    /// which then stays.
    fn add_config(&mut self, cfg: &RemoteEntityConfig) -> (r: bool)
        ensures
            r == !old(self).spec_configs().contains_key(cfg.entity_id.value_spec()),
            r ==> final(self).spec_configs() == old(self).spec_configs().insert(cfg.entity_id.value_spec(), *cfg),
            !r ==> final(self).spec_configs() == old(self).spec_configs(),
    ;

    /// Remove a configuration. Returns [true] if the configuration was removed successfully,
    /// and [false] if no configuration exists for the given remote ID.
    fn remove_config(&mut self, remote_id: u64) -> (r: bool)
        ensures
            r == old(self).spec_configs().contains_key(remote_id),
            final(self).spec_configs() == old(self).spec_configs().remove(remote_id),
    ;
}

/// A table of remote entity configurations held in a hash map.
pub struct StdRemoteEntityConfigProvider {
    remote_cfg_table: std::collections::HashMap<u64, RemoteEntityConfig>,
}

impl StdRemoteEntityConfigProvider {
    /// An empty table.
    pub fn new() -> (r: Self)
        ensures
            r.spec_configs() == Map::<u64, RemoteEntityConfig>::empty(),
    {
        Self { remote_cfg_table: std::collections::HashMap::new() }
    }
}

impl Default for StdRemoteEntityConfigProvider {
    /// An empty table.
    fn default() -> (r: Self)
        ensures
            r.spec_configs() == Map::<u64, RemoteEntityConfig>::empty(),
    {
        Self::new()
    }
}

impl RemoteEntityConfigProvider for StdRemoteEntityConfigProvider {
    closed spec fn spec_configs(&self) -> Map<u64, RemoteEntityConfig> {
        self.remote_cfg_table@
    }

    fn get_remote_config(&self, remote_id: u64) -> (r: Option<&RemoteEntityConfig>) {
        broadcast use vstd::std_specs::hash::group_hash_axioms;
        self.remote_cfg_table.get(&remote_id)
    }

    fn add_config(&mut self, cfg: &RemoteEntityConfig) -> (r: bool) {
        broadcast use vstd::std_specs::hash::group_hash_axioms;
        let id = cfg.entity_id.value();
        if self.remote_cfg_table.contains_key(&id) {
            return false;
        }
        self.remote_cfg_table.insert(id, *cfg);
        true
    }

    fn remove_config(&mut self, remote_id: u64) -> (r: bool) {
        broadcast use vstd::std_specs::hash::group_hash_axioms;
        self.remote_cfg_table.remove(&remote_id).is_some()
    }
}

/// The local entity configuration: the entity ID, the indications given to the user and the
/// fault handler.
pub struct LocalEntityConfig<U: UserFaultHandler> {
    pub id: UnsignedByteField,
    pub indication_cfg: IndicationConfig,
    pub default_fault_handler: DefaultFaultHandler<U>,
}

/// Which indications the CFDP user is given.
pub struct IndicationConfig {
    pub eof_sent: bool,
    pub eof_recv: bool,
    pub file_segment_recv: bool,
    pub transaction_finished: bool,
    pub suspended: bool,
    pub resumed: bool,
}

impl Default for IndicationConfig {
    /// Every indication is given.
    fn default() -> (r: Self)
        ensures
            r.eof_sent && r.eof_recv && r.file_segment_recv && r.transaction_finished && r.suspended && r.resumed,
    {
        Self {
            eof_sent: true,
            eof_recv: true,
            file_segment_recv: true,
            transaction_finished: true,
            suspended: true,
            resumed: true,
        }
    }
}

#[derive(Debug, Copy, Clone, PartialEq, Eq, Structural)]
pub enum TransactionStep {
    Idle,
    TransactionStart,
    ReceivingFileDataPdus,
    ReceivingFileDataPdusWithCheckLimitHandling,
    SendingAckPdu,
    TransferCompletion,
    SendingFinishedPdu,
}

#[derive(Debug, Copy, Clone, PartialEq, Eq, Structural)]
pub enum State {
    Idle,
    Busy,
    Suspended,
}

#[derive(Debug, PartialEq, Eq, Copy, Clone, Structural)]
pub enum PacketTarget {
    SourceEntity,
    DestEntity,
}

/// The type of a PDU.
#[derive(Debug, PartialEq, Eq, Copy, Clone, Structural)]
pub enum PduType {
    FileDirective,
    FileData,
}

/// The directive of a file directive PDU.
#[derive(Debug, PartialEq, Eq, Copy, Clone, Structural)]
pub enum FileDirectiveType {
    EofPdu,
    FinishedPdu,
    AckPdu,
    MetadataPdu,
    NakPdu,
    PromptPdu,
    KeepAlivePdu,
}

/// The directive with the raw directive code, if there is one: the codes are 0x04 to 0x09 for
/// EOF, Finished, ACK, Metadata, NAK and Prompt, and 0x0c for Keep Alive.
pub open spec fn spec_directive_from_raw(raw: u8) -> Option<FileDirectiveType> {
    if raw == 0x04 {
        Some(FileDirectiveType::EofPdu)
    } else if raw == 0x05 {
        Some(FileDirectiveType::FinishedPdu)
    } else if raw == 0x06 {
        Some(FileDirectiveType::AckPdu)
    } else if raw == 0x07 {
        Some(FileDirectiveType::MetadataPdu)
    } else if raw == 0x08 {
        Some(FileDirectiveType::NakPdu)
    } else if raw == 0x09 {
        Some(FileDirectiveType::PromptPdu)
    } else if raw == 0x0c {
        Some(FileDirectiveType::KeepAlivePdu)
    } else {
        None
    }
}

impl FileDirectiveType {
    /// The directive with the raw directive code, if there is one.
    pub fn from_raw(raw: u8) -> (r: Option<Self>)
        ensures
            r == spec_directive_from_raw(raw),
    {
        match raw {
            0x04 => Some(FileDirectiveType::EofPdu),
            0x05 => Some(FileDirectiveType::FinishedPdu),
            0x06 => Some(FileDirectiveType::AckPdu),
            0x07 => Some(FileDirectiveType::MetadataPdu),
            0x08 => Some(FileDirectiveType::NakPdu),
            0x09 => Some(FileDirectiveType::PromptPdu),
            0x0c => Some(FileDirectiveType::KeepAlivePdu),
            _ => None,
        }
    }
}

/// Errors of the parsing of a PDU.
#[derive(Debug, Copy, Clone, PartialEq, Eq, Structural)]
pub enum PduError {
    ByteConversion(ByteConversionError),
    CfdpVersionMissmatch(u8),
    InvalidEntityLen(u8),
    InvalidTransactionSeqNumLen(u8),
    /// The directive type field holds a value which is not a directive code.
    InvalidDirectiveType { found: u8, expected: Option<FileDirectiveType> },
    /// Generic error for invalid PDU formats.
    Format,
}

/// The width in bytes which a 3-bit length field of the PDU header gives: the field plus one.
pub open spec fn pdu_width_field(bits: u8) -> int {
    (bits & 0b111u8) as int + 1
}

/// Whether a width of the entity IDs or of the sequence number is one of 1, 2, 4 and 8 bytes.
pub open spec fn valid_pdu_width(w: int) -> bool {
    w == 1 || w == 2 || w == 4 || w == 8
}

/// The parse of the PDU header at the start of the bytes, as far as the routing reads it: the
/// PDU type (bit 4 of the first byte), the length of the data field (the big-endian value of the
/// second and third byte) and the length of the header (4 bytes, the two entity IDs and the
/// sequence number). The parse fails where fewer than 4 bytes are given, where the version (the
/// upper 3 bits of the first byte) is not 1, where the width of the entity IDs (bits 4 to 6 of
/// the fourth byte, plus one) or that of the sequence number (bits 0 to 2 of the fourth byte,
/// plus one) is not 1, 2, 4 or 8, and where the bytes do not hold the whole header.
pub open spec fn pdu_header_parse(raw: Seq<u8>) -> Result<(PduType, usize, usize), PduError> {
    if raw.len() < 4 {
        Err(PduError::ByteConversion(ByteConversionError::FromSliceTooSmall { found: raw.len() as usize, expected: 4 }))
    } else if (raw[0] >> 5u8) & 0b111u8 != 1 {
        Err(PduError::CfdpVersionMissmatch((raw[0] >> 5u8) & 0b111u8))
    } else if !valid_pdu_width(pdu_width_field(raw[3] >> 4u8)) {
        Err(PduError::InvalidEntityLen(pdu_width_field(raw[3] >> 4u8) as u8))
    } else if !valid_pdu_width(pdu_width_field(raw[3])) {
        Err(PduError::InvalidTransactionSeqNumLen(pdu_width_field(raw[3]) as u8))
    } else if raw.len() < 4 + 2 * pdu_width_field(raw[3] >> 4u8) + pdu_width_field(raw[3]) {
        Err(PduError::ByteConversion(ByteConversionError::FromSliceTooSmall {
            found: raw.len() as usize,
            expected: (4 + 2 * pdu_width_field(raw[3] >> 4u8) + pdu_width_field(raw[3])) as usize,
        }))
    } else {
        Ok((
            if raw[0] & 0x10u8 != 0 { PduType::FileData } else { PduType::FileDirective },
            be_u16(raw[1], raw[2]) as usize,
            (4 + 2 * pdu_width_field(raw[3] >> 4u8) + pdu_width_field(raw[3])) as usize,
        ))
    }
}

/// The fields of the PDU header at the start of the bytes which the routing reads, where the
/// header can be parsed.
pub open spec fn pdu_header_fields(raw: Seq<u8>) -> Option<(PduType, usize, usize)> {
    match pdu_header_parse(raw) {
        Ok(v) => Some(v),
        Err(_) => None,
    }
}

/// Calls `spacepackets::cfdp::pdu::PduHeader::from_bytes` and reads the PDU type, the data field
/// length and the header length of the parsed header; an error is mapped to the library's own
/// [PduError].
///
/// Claimed of the call: it returns [pdu_header_parse] of the bytes, as the source of
/// `from_bytes` shows it step by step.
#[verifier::external_body]
fn pdu_header_from_bytes(raw: &[u8]) -> (r: Result<(PduType, usize, usize), PduError>)
    ensures
        r == pdu_header_parse(raw@),
{
    match sp_pdu::PduHeader::from_bytes(raw) {
        Ok((header, header_len)) => Ok((
            match header.pdu_type() {
                spacepackets::cfdp::PduType::FileDirective => PduType::FileDirective,
                spacepackets::cfdp::PduType::FileData => PduType::FileData,
            },
            header.pdu_datafield_len(),
            header_len,
        )),
        Err(sp_pdu::PduError::ByteConversion(spacepackets::ByteConversionError::FromSliceTooSmall { found, expected })) => Err(PduError::ByteConversion(ByteConversionError::FromSliceTooSmall { found, expected })),
        Err(sp_pdu::PduError::CfdpVersionMissmatch(v)) => Err(PduError::CfdpVersionMissmatch(v)),
        Err(sp_pdu::PduError::InvalidEntityLen(v)) => Err(PduError::InvalidEntityLen(v)),
        Err(sp_pdu::PduError::InvalidTransactionSeqNumLen(v)) => Err(PduError::InvalidTransactionSeqNumLen(v)),
        Err(_) => Err(PduError::Format),
    }
}

/// The target of a directive PDU whose directive and, for an ACK PDU, acknowledged directive
/// code are given: NAK, Finished and Keep Alive PDUs go to the source entity; Metadata, EOF and
/// Prompt PDUs to the destination entity; an ACK PDU of an EOF PDU to the source entity and one
/// of a Finished PDU to the destination entity.
pub open spec fn spec_directive_target(directive: FileDirectiveType, acked_raw: Option<u8>) -> Result<PacketTarget, PduError> {
    match directive {
        FileDirectiveType::NakPdu | FileDirectiveType::FinishedPdu | FileDirectiveType::KeepAlivePdu => Ok(PacketTarget::SourceEntity),
        FileDirectiveType::MetadataPdu | FileDirectiveType::EofPdu | FileDirectiveType::PromptPdu => Ok(PacketTarget::DestEntity),
        FileDirectiveType::AckPdu => match acked_raw {
            Some(acked) => match spec_directive_from_raw(acked) {
                Some(FileDirectiveType::EofPdu) => Ok(PacketTarget::SourceEntity),
                Some(FileDirectiveType::FinishedPdu) => Ok(PacketTarget::DestEntity),
                Some(_) => Err(PduError::InvalidDirectiveType { found: acked, expected: None }),
                None => Err(PduError::Format),
            },
            None => Err(PduError::Format),
        },
    }
}

/// This is a helper struct which contains base information about a particular PDU packet.
/// This is also necessary information for CFDP packet routing. For example, some packet types
/// like file data PDUs can only be used by CFDP source entities.
pub struct PacketInfo<'raw_packet> {
    pdu_type: PduType,
    pdu_directive: Option<FileDirectiveType>,
    target: PacketTarget,
    raw_packet: &'raw_packet [u8],
}

/// The routing of the raw bytes of a PDU, given the header fields which were parsed from them:
/// the PDU type, the directive (for a directive PDU) and the target, or the error.
pub open spec fn spec_route(raw: Seq<u8>, header: (PduType, usize, usize)) -> Result<(PduType, Option<FileDirectiveType>, PacketTarget), PduError> {
    let (pdu_type, datafield_len, header_len) = header;
    if pdu_type == PduType::FileData {
        Ok((pdu_type, None, PacketTarget::DestEntity))
    } else if datafield_len < 1 {
        Err(PduError::Format)
    } else {
        let raw_directive = raw[header_len as int];
        match spec_directive_from_raw(raw_directive) {
            None => Err(PduError::InvalidDirectiveType { found: raw_directive, expected: None }),
            Some(directive) => {
                let acked = Some(raw[header_len + 1]);
                match directive {
                    FileDirectiveType::AckPdu => match spec_directive_from_raw(raw[header_len + 1]) {
                        None => Err(PduError::InvalidDirectiveType { found: raw_directive, expected: None }),
                        Some(_) => match spec_directive_target(directive, acked) {
                            Ok(target) => Ok((pdu_type, Some(directive), target)),
                            Err(e) => Err(e),
                        },
                    },
                    _ => match spec_directive_target(directive, acked) {
                        Ok(target) => Ok((pdu_type, Some(directive), target)),
                        Err(e) => Err(e),
                    },
                }
            },
        }
    }
}

/// Whether the bytes hold the fields which the routing reads after the header: the directive
/// of a directive PDU with a data field, and the acknowledged directive of an ACK PDU.
pub open spec fn routing_reads_within(raw: Seq<u8>, header: (PduType, usize, usize)) -> bool {
    let (pdu_type, datafield_len, header_len) = header;
    pdu_type == PduType::FileData || datafield_len < 1 || (header_len < raw.len() && (spec_directive_from_raw(raw[header_len as int]) == Some(FileDirectiveType::AckPdu) ==> header_len + 1 < raw.len()))
}

impl<'raw> PacketInfo<'raw> {
    pub closed spec fn spec_pdu_type(self) -> PduType {
        self.pdu_type
    }

    pub closed spec fn spec_pdu_directive(self) -> Option<FileDirectiveType> {
        self.pdu_directive
    }

    pub closed spec fn spec_target(self) -> PacketTarget {
        self.target
    }

    pub closed spec fn spec_raw_packet(self) -> Seq<u8> {
        self.raw_packet@
    }

    /// Routes the raw bytes of a PDU: a file data PDU goes to the destination entity; a
    /// directive PDU, which needs a directive field, goes where its directive (and, for an ACK
    /// PDU, the acknowledged directive) sends it.
    pub fn new(raw_packet: &'raw [u8]) -> (r: Result<Self, PduError>)
        requires
            pdu_header_fields(raw_packet@) matches Some(h) ==> routing_reads_within(raw_packet@, h),
        ensures
            pdu_header_fields(raw_packet@) is None ==> r is Err,
            pdu_header_fields(raw_packet@) matches Some(h) ==> match spec_route(raw_packet@, h) {
                Ok(v) => (r matches Ok(info) && info.spec_pdu_type() == v.0 && info.spec_pdu_directive() == v.1 && info.spec_target() == v.2 && info.spec_raw_packet() == raw_packet@),
                Err(e) => r == Err::<Self, PduError>(e),
            },
    {
        let parsed = pdu_header_from_bytes(raw_packet);
        let (pdu_type, datafield_len, header_len) = match parsed {
            Ok(v) => v,
            Err(e) => {
                return Err(e);
            },
        };
        if pdu_type == PduType::FileData {
            return Ok(Self { pdu_type, pdu_directive: None, target: PacketTarget::DestEntity, raw_packet });
        }
        if datafield_len < 1 {
            return Err(PduError::Format);
        }
        // Route depending on PDU type and directive type if applicable. The routing is based on
        // section 4.5 of the CFDP standard which specifies the PDU forwarding procedure.
        let raw_directive = raw_packet[header_len];
        let directive = match FileDirectiveType::from_raw(raw_directive) {
            Some(d) => d,
            None => {
                return Err(PduError::InvalidDirectiveType { found: raw_directive, expected: None });
            },
        };
        let packet_target = match directive {
            // Section c) of 4.5.3: These PDUs should always be targeted towards the file sender
            // a.k.a. the source handler
            FileDirectiveType::NakPdu | FileDirectiveType::FinishedPdu | FileDirectiveType::KeepAlivePdu => PacketTarget::SourceEntity,
            // Section b) of 4.5.3: These PDUs should always be targeted towards the file
            // receiver a.k.a. the destination handler
            FileDirectiveType::MetadataPdu | FileDirectiveType::EofPdu | FileDirectiveType::PromptPdu => PacketTarget::DestEntity,
            // Section a): Recipient depends of the type of PDU that is being acknowledged.
            FileDirectiveType::AckPdu => {
                let acked_raw = raw_packet[header_len + 1];
                let acked_directive = match FileDirectiveType::from_raw(acked_raw) {
                    Some(d) => d,
                    None => {
                        return Err(PduError::InvalidDirectiveType { found: raw_directive, expected: None });
                    },
                };
                if acked_directive == FileDirectiveType::EofPdu {
                    PacketTarget::SourceEntity
                } else if acked_directive == FileDirectiveType::FinishedPdu {
                    PacketTarget::DestEntity
                } else {
                    return Err(PduError::InvalidDirectiveType { found: acked_raw, expected: None });
                }
            },
        };
        Ok(Self { pdu_type, pdu_directive: Some(directive), target: packet_target, raw_packet })
    }

    /// Routes the raw bytes of a PDU as [Self::new] does, where the bytes hold the fields which
    /// the routing reads after the header; [None] where they end before them.
    pub fn try_new(raw_packet: &'raw [u8]) -> (r: Option<Result<Self, PduError>>)
        ensures
            pdu_header_fields(raw_packet@) is None ==> (r matches Some(res) && res is Err),
            pdu_header_fields(raw_packet@) matches Some(h) ==> if routing_reads_within(raw_packet@, h) {
                (r matches Some(res) && match spec_route(raw_packet@, h) {
                    Ok(v) => (res matches Ok(info) && info.spec_pdu_type() == v.0 && info.spec_pdu_directive() == v.1 && info.spec_target() == v.2 && info.spec_raw_packet() == raw_packet@),
                    Err(e) => res == Err::<Self, PduError>(e),
                })
            } else {
                r is None
            },
    {
        let parsed = pdu_header_from_bytes(raw_packet);
        match parsed {
            Err(e) => Some(Err(e)),
            Ok((pdu_type, datafield_len, header_len)) => {
                if pdu_type == PduType::FileData || datafield_len < 1 {
                    return Some(Self::new(raw_packet));
                }
                if header_len >= raw_packet.len() {
                    return None;
                }
                let is_ack = match FileDirectiveType::from_raw(raw_packet[header_len]) {
                    Some(FileDirectiveType::AckPdu) => true,
                    _ => false,
                };
                if is_ack && header_len + 1 >= raw_packet.len() {
                    return None;
                }
                Some(Self::new(raw_packet))
            },
        }
    }

    pub fn pdu_type(&self) -> (r: PduType)
        ensures
            r == self.spec_pdu_type(),
    {
        self.pdu_type
    }

    pub fn pdu_directive(&self) -> (r: Option<FileDirectiveType>)
        ensures
            r == self.spec_pdu_directive(),
    {
        self.pdu_directive
    }

    pub fn target(&self) -> (r: PacketTarget)
        ensures
            r == self.spec_target(),
    {
        self.target
    }

    pub fn raw_packet(&self) -> (r: &[u8])
        ensures
            r@ == self.spec_raw_packet(),
    {
        self.raw_packet
    }
}

} // verus!
