//! Put requests: checks of their file paths, and a cache which holds a put request in buffers
//! of fixed size.
use vstd::prelude::*;
use vstd::string::StringSliceAdditionalSpecFns;
use vstd::utf8::encode_utf8;
use core::str::Utf8Error;
use spacepackets::cfdp::{SegmentationControl, TransmissionMode};
use crate::bytes::ByteConversionError;
use crate::cfdp::UnsignedByteField;

verus! {

/// A file path is longer than 255 bytes; holds the length of the path.
#[derive(Debug, Copy, Clone, PartialEq, Eq, Structural)]
pub struct FilePathTooLarge(pub usize);

/// A TLV of a put request has an invalid type.
#[derive(Debug, Copy, Clone, PartialEq, Eq)]
pub struct TlvWithInvalidType(pub(crate) ());

/// The length of the UTF-8 encoding of the string, as `str::len` returns it.
pub open spec fn byte_len(s: &str) -> usize {
    s.spec_bytes().len() as usize
}

/// The outcome of the path checks: the length of the first given path which is longer than
/// 255 bytes, as an error.
pub open spec fn generic_path_checks_spec(source_file: Option<&str>, dest_file: Option<&str>) -> Result<(), FilePathTooLarge> {
    if source_file matches Some(s) && byte_len(s) > 255 {
        Err(FilePathTooLarge(byte_len(source_file->Some_0)))
    } else if dest_file matches Some(d) && byte_len(d) > 255 {
        Err(FilePathTooLarge(byte_len(dest_file->Some_0)))
    } else {
        Ok(())
    }
}

/// Checks that the source and destination file paths, where given, are at most 255 bytes long
/// in UTF-8:
/// the error holds the length of the first path which is longer.
pub fn generic_path_checks(source_file: Option<&str>, dest_file: Option<&str>) -> (r: Result<(), FilePathTooLarge>)
    ensures
        r == generic_path_checks_spec(source_file, dest_file),
        ({
            let src_too_long = source_file matches Some(s) && byte_len(s) > 255;
            let dest_too_long = dest_file matches Some(d) && byte_len(d) > 255;
            &&& src_too_long ==> r == Err::<(), FilePathTooLarge>(FilePathTooLarge(byte_len(source_file->Some_0)))
            &&& !src_too_long && dest_too_long ==> r == Err::<(), FilePathTooLarge>(FilePathTooLarge(byte_len(dest_file->Some_0)))
            &&& !src_too_long && !dest_too_long ==> r is Ok
        }),
{
    if let Some(src_file) = source_file {
        let len = src_file.len();
        if len > 255 {
            return Err(FilePathTooLarge(len));
        }
    }
    if let Some(dest_file) = dest_file {
        let len = dest_file.len();
        if len > 255 {
            return Err(FilePathTooLarge(len));
        }
    }
    Ok(())
}


#[verifier::external_type_specification]
#[verifier::external_body]
pub struct ExTransmissionMode(spacepackets::cfdp::TransmissionMode);

#[verifier::external_type_specification]
#[verifier::external_body]
pub struct ExSegmentationControl(spacepackets::cfdp::SegmentationControl);

#[verifier::external_type_specification]
#[verifier::external_body]
pub struct ExUtf8Error(core::str::Utf8Error);

/// The raw value of the TLV type of filestore requests.
pub const TLV_TYPE_FILESTORE_REQUEST: u8 = 0x00;
/// The raw value of the TLV type of messages to the user.
pub const TLV_TYPE_MSG_TO_USER: u8 = 0x02;
/// The raw value of the TLV type of fault handler overrides.
pub const TLV_TYPE_FAULT_HANDLER: u8 = 0x04;
/// The raw value of the TLV type of flow labels.
pub const TLV_TYPE_FLOW_LABEL: u8 = 0x05;

/// The value of a TLV is longer than 255 bytes; holds its length.
#[derive(Debug, Copy, Clone, PartialEq, Eq, Structural)]
pub struct TlvDataTooLarge(pub usize);

/// A type-length-value field of CFDP: a type byte and a value of at most 255 bytes.
#[derive(Debug, PartialEq, Eq)]
pub struct Tlv {
    tlv_type: u8,
    value: Vec<u8>,
}

impl Tlv {
    #[verifier::type_invariant]
    spec fn value_fits(self) -> bool {
        self.value@.len() <= 255
    }

    /// The raw type byte.
    pub closed spec fn spec_type(self) -> u8 {
        self.tlv_type
    }

    /// The value.
    pub closed spec fn spec_value(self) -> Seq<u8> {
        self.value@
    }

    /// The bytes of the whole TLV: the type byte, the length byte and the value.
    pub open spec fn full_bytes(self) -> Seq<u8> {
        seq![self.spec_type(), self.spec_value().len() as u8] + self.spec_value()
    }

    /// A TLV of the type with the value, or [TlvDataTooLarge] where the value is longer than
    /// 255 bytes.
    pub fn new(tlv_type: u8, value: &[u8]) -> (r: Result<Tlv, TlvDataTooLarge>)
        ensures
            value@.len() > 255 ==> r == Err::<Tlv, TlvDataTooLarge>(TlvDataTooLarge(value@.len() as usize)),
            value@.len() <= 255 ==> (r matches Ok(t) && t.spec_type() == tlv_type && t.spec_value() == value@),
    {
        if value.len() > 255 {
            return Err(TlvDataTooLarge(value.len()));
        }
        Ok(Tlv { tlv_type, value: vstd::slice::slice_to_vec(value) })
    }

    /// The raw type byte.
    pub fn tlv_type_raw(&self) -> (r: u8)
        ensures
            r == self.spec_type(),
    {
        self.tlv_type
    }

    /// The value.
    pub fn value(&self) -> (r: &[u8])
        ensures
            r@ == self.spec_value(),
    {
        self.value.as_slice()
    }

    /// The length of the whole TLV.
    pub fn len_full(&self) -> (r: usize)
        ensures
            r == self.full_bytes().len(),
    {
        proof {
            use_type_invariant(self);
        }
        self.value.len() + 2
    }

    /// The bytes of the whole TLV.
    pub fn to_bytes(&self) -> (r: Vec<u8>)
        ensures
            r@ == self.full_bytes(),
    {
        proof {
            use_type_invariant(self);
        }
        let mut bytes: Vec<u8> = Vec::new();
        bytes.push(self.tlv_type);
        bytes.push(self.value.len() as u8);
        let mut i: usize = 0;
        while i < self.value.len()
            invariant
                i <= self.value@.len(),
                bytes@ == seq![self.tlv_type, self.value@.len() as u8] + self.value@.take(i as int),
            decreases self.value@.len() - i,
        {
            bytes.push(self.value[i]);
            proof {
                assert(self.value@.take(i + 1) =~= self.value@.take(i as int).push(self.value@[i as int]));
            }
            i += 1;
        }
        assert(self.value@.take(i as int) =~= self.value@);
        bytes
    }
}

impl Clone for Tlv {
    fn clone(&self) -> (r: Self)
        ensures
            r.spec_type() == self.spec_type(),
            r.spec_value() == self.spec_value(),
    {
        proof {
            use_type_invariant(self);
        }
        let value = vstd::slice::slice_to_vec(self.value.as_slice());
        Tlv { tlv_type: self.tlv_type, value }
    }
}

/// The bytes of each TLV of the list, in order.
pub open spec fn tlv_list_bytes(list: Seq<Tlv>) -> Seq<Seq<u8>> {
    list.map_values(|t: Tlv| t.full_bytes())
}

/// The bytes of each TLV of the list, in order.
fn tlvs_to_bytes(list: &[Tlv]) -> (r: Vec<Vec<u8>>)
    ensures
        r.deep_view() == tlv_list_bytes(list@),
{
    let mut out: Vec<Vec<u8>> = Vec::new();
    let mut i: usize = 0;
    while i < list.len()
        invariant
            i <= list@.len(),
            out@.len() == i,
            forall|k: int| 0 <= k < i ==> (#[trigger] out@[k])@ == list@[k].full_bytes(),
        decreases list@.len() - i,
    {
        let b = list[i].to_bytes();
        out.push(b);
        i += 1;
    }
    assert forall|k: int| 0 <= k < out@.len() implies #[trigger] out.deep_view()[k] == tlv_list_bytes(list@)[k] by {
        assert(out@[k].deep_view() =~= out@[k]@);
    }
    assert(out.deep_view() =~= tlv_list_bytes(list@));
    out
}

/// Whether every TLV of the list, where there is one, has the type.
pub open spec fn tlv_list_has_type(list: Option<&[Tlv]>, tlv_type: u8) -> bool {
    match list {
        Some(l) => forall|k: int| 0 <= k < l@.len() ==> (#[trigger] l@[k]).spec_type() == tlv_type,
        None => true,
    }
}

/// Checks that every TLV of the list, where there is one, has the type.
pub fn generic_tlv_list_type_check(opt_tlvs: Option<&[Tlv]>, tlv_type: u8) -> (r: bool)
    ensures
        r == tlv_list_has_type(opt_tlvs, tlv_type),
{
    if let Some(tlvs) = opt_tlvs {
        let mut i: usize = 0;
        while i < tlvs.len()
            invariant
                opt_tlvs == Some(tlvs),
                i <= tlvs@.len(),
                forall|k: int| 0 <= k < i ==> (#[trigger] tlvs@[k]).spec_type() == tlv_type,
            decreases tlvs@.len() - i,
        {
            let t: u8 = tlvs[i].tlv_type_raw();
            if t != tlv_type {
                assert(tlvs@[i as int].spec_type() != tlv_type);
                assert(opt_tlvs->0@ == tlvs@);
                return false;
            }
            i += 1;
        }
    }
    true
}

/// The characters of the string, where there is one.
pub open spec fn opt_str_view(s: Option<&str>) -> Option<Seq<char>> {
    match s {
        Some(t) => Some(t@),
        None => None,
    }
}

/// A put request whose fields can be read.
///
/// Its TLVs are given as the bytes of each TLV (type, length and value), in order.
pub trait ReadablePutRequest {
    spec fn spec_destination_id(&self) -> UnsignedByteField;

    spec fn spec_source_file(&self) -> Option<Seq<char>>;

    spec fn spec_dest_file(&self) -> Option<Seq<char>>;

    spec fn spec_trans_mode(&self) -> Option<TransmissionMode>;

    spec fn spec_closure_requested(&self) -> Option<bool>;

    spec fn spec_seg_ctrl(&self) -> Option<SegmentationControl>;

    spec fn spec_msgs_to_user(&self) -> Seq<Seq<u8>>;

    spec fn spec_fault_handler_overrides(&self) -> Seq<Seq<u8>>;

    spec fn spec_flow_label(&self) -> Option<Seq<u8>>;

    spec fn spec_fs_requests(&self) -> Seq<Seq<u8>>;

    fn destination_id(&self) -> (r: UnsignedByteField)
        ensures
            r == self.spec_destination_id(),
    ;

    fn source_file(&self) -> (r: Option<&str>)
        ensures
            opt_str_view(r) == self.spec_source_file(),
    ;

    fn dest_file(&self) -> (r: Option<&str>)
        ensures
            opt_str_view(r) == self.spec_dest_file(),
    ;

    fn trans_mode(&self) -> (r: Option<TransmissionMode>)
        ensures
            r == self.spec_trans_mode(),
    ;

    fn closure_requested(&self) -> (r: Option<bool>)
        ensures
            r == self.spec_closure_requested(),
    ;

    fn seg_ctrl(&self) -> (r: Option<SegmentationControl>)
        ensures
            r == self.spec_seg_ctrl(),
    ;

    fn has_msgs_to_user(&self) -> (r: bool)
        ensures
            r == (self.spec_msgs_to_user().len() > 0),
    ;

    fn msgs_to_user(&self) -> (r: Vec<Vec<u8>>)
        ensures
            r.deep_view() == self.spec_msgs_to_user(),
    ;

    fn has_fault_handler_overrides(&self) -> (r: bool)
        ensures
            r == (self.spec_fault_handler_overrides().len() > 0),
    ;

    fn fault_handler_overrides(&self) -> (r: Vec<Vec<u8>>)
        ensures
            r.deep_view() == self.spec_fault_handler_overrides(),
    ;

    fn flow_label(&self) -> (r: Option<Vec<u8>>)
        ensures
            r matches Some(v) ==> self.spec_flow_label() == Some(v@),
            r is None ==> self.spec_flow_label() is None,
    ;

    fn has_fs_requests(&self) -> (r: bool)
        ensures
            r == (self.spec_fs_requests().len() > 0),
    ;

    fn fs_requests(&self) -> (r: Vec<Vec<u8>>)
        ensures
            r.deep_view() == self.spec_fs_requests(),
    ;
}

/// A put request which borrows its paths and TLVs.
#[derive(Debug, Clone, Copy)]
pub struct PutRequest<'a> {
    pub destination_id: UnsignedByteField,
    pub source_file: Option<&'a str>,
    pub dest_file: Option<&'a str>,
    pub trans_mode: Option<TransmissionMode>,
    pub closure_requested: Option<bool>,
    pub seg_ctrl: Option<SegmentationControl>,
    pub msgs_to_user: Option<&'a [Tlv]>,
    pub fault_handler_overrides: Option<&'a [Tlv]>,
    pub flow_label: Option<&'a Tlv>,
    pub fs_requests: Option<&'a [Tlv]>,
}

/// The bytes of the TLVs of the list, where there is one; none otherwise.
pub open spec fn opt_tlv_list_bytes(list: Option<&[Tlv]>) -> Seq<Seq<u8>> {
    match list {
        Some(l) => tlv_list_bytes(l@),
        None => Seq::empty(),
    }
}

/// The bytes of the TLVs of the list, where there is one; an empty list otherwise.
fn opt_tlvs_to_bytes(list: Option<&[Tlv]>) -> (r: Vec<Vec<u8>>)
    ensures
        r.deep_view() == opt_tlv_list_bytes(list),
{
    match list {
        Some(l) => tlvs_to_bytes(l),
        None => {
            let r: Vec<Vec<u8>> = Vec::new();
            assert(r.deep_view() =~= Seq::<Seq<u8>>::empty());
            r
        },
    }
}

impl<'a> PutRequest<'a> {
    /// A put request with all its fields, or [FilePathTooLarge] where a path is longer than 255
    /// bytes, as [generic_path_checks] checks.
    pub fn new(
        destination_id: UnsignedByteField,
        source_file: Option<&'a str>,
        dest_file: Option<&'a str>,
        trans_mode: Option<TransmissionMode>,
        closure_requested: Option<bool>,
        seg_ctrl: Option<SegmentationControl>,
        msgs_to_user: Option<&'a [Tlv]>,
        fault_handler_overrides: Option<&'a [Tlv]>,
        flow_label: Option<&'a Tlv>,
        fs_requests: Option<&'a [Tlv]>,
    ) -> (r: Result<Self, FilePathTooLarge>)
        ensures
            generic_path_checks_spec(source_file, dest_file) matches Err(e) ==> r == Err::<Self, FilePathTooLarge>(e),
            generic_path_checks_spec(source_file, dest_file) is Ok ==> (r matches Ok(p) && {
                &&& p.destination_id == destination_id
                &&& p.source_file == source_file
                &&& p.dest_file == dest_file
                &&& p.trans_mode == trans_mode
                &&& p.closure_requested == closure_requested
                &&& p.seg_ctrl == seg_ctrl
                &&& p.msgs_to_user == msgs_to_user
                &&& p.fault_handler_overrides == fault_handler_overrides
                &&& p.flow_label == flow_label
                &&& p.fs_requests == fs_requests
            }),
    {
        match generic_path_checks(source_file, dest_file) {
            Err(e) => Err(e),
            Ok(()) => Ok(Self {
                destination_id,
                source_file,
                dest_file,
                trans_mode,
                closure_requested,
                seg_ctrl,
                msgs_to_user,
                fault_handler_overrides,
                flow_label,
                fs_requests,
            }),
        }
    }

    /// A put request of a file from the source path to the destination path, without options
    /// but the transmission mode and the closure request, or [FilePathTooLarge] where a path is
    /// longer than 255 bytes.
    pub fn new_regular_request(
        dest_id: UnsignedByteField,
        source_file: &'a str,
        dest_file: &'a str,
        trans_mode: Option<TransmissionMode>,
        closure_requested: Option<bool>,
    ) -> (r: Result<Self, FilePathTooLarge>)
        ensures
            generic_path_checks_spec(Some(source_file), Some(dest_file)) matches Err(e) ==> r == Err::<Self, FilePathTooLarge>(e),
            generic_path_checks_spec(Some(source_file), Some(dest_file)) is Ok ==> (r matches Ok(p) && {
                &&& p.destination_id == dest_id
                &&& p.source_file == Some(source_file)
                &&& p.dest_file == Some(dest_file)
                &&& p.trans_mode == trans_mode
                &&& p.closure_requested == closure_requested
                &&& p.seg_ctrl is None
                &&& p.msgs_to_user is None
                &&& p.fault_handler_overrides is None
                &&& p.flow_label is None
                &&& p.fs_requests is None
            }),
    {
        Self::new(dest_id, Some(source_file), Some(dest_file), trans_mode, closure_requested, None, None, None, None, None)
    }

    /// A put request which only carries messages to the user.
    pub fn new_msgs_to_user_only(dest_id: UnsignedByteField, msgs_to_user: &'a [Tlv]) -> (r: Self)
        ensures
            r.destination_id == dest_id,
            r.source_file is None,
            r.dest_file is None,
            r.trans_mode is None,
            r.closure_requested is None,
            r.seg_ctrl is None,
            r.msgs_to_user == Some(msgs_to_user),
            r.fault_handler_overrides is None,
            r.flow_label is None,
            r.fs_requests is None,
    {
        Self {
            destination_id: dest_id,
            source_file: None,
            dest_file: None,
            trans_mode: None,
            closure_requested: None,
            seg_ctrl: None,
            msgs_to_user: Some(msgs_to_user),
            fault_handler_overrides: None,
            flow_label: None,
            fs_requests: None,
        }
    }

    /// Checks the TLV types of all TLV fields: the messages to the user, the flow label, the
    /// fault handler overrides and the filestore requests each have their own type.
    pub fn check_tlv_type_validities(&self) -> (r: bool)
        ensures
            r == (tlv_list_has_type(self.msgs_to_user, TLV_TYPE_MSG_TO_USER)
                && (self.flow_label matches Some(t) ==> t.spec_type() == TLV_TYPE_FLOW_LABEL)
                && tlv_list_has_type(self.fault_handler_overrides, TLV_TYPE_FAULT_HANDLER)
                && tlv_list_has_type(self.fs_requests, TLV_TYPE_FILESTORE_REQUEST)),
    {
        if !generic_tlv_list_type_check(self.msgs_to_user, TLV_TYPE_MSG_TO_USER) {
            return false;
        }
        if let Some(flow_label) = self.flow_label {
            if flow_label.tlv_type_raw() != TLV_TYPE_FLOW_LABEL {
                return false;
            }
        }
        if !generic_tlv_list_type_check(self.fault_handler_overrides, TLV_TYPE_FAULT_HANDLER) {
            return false;
        }
        generic_tlv_list_type_check(self.fs_requests, TLV_TYPE_FILESTORE_REQUEST)
    }
}

impl<'a> ReadablePutRequest for PutRequest<'a> {
    open spec fn spec_destination_id(&self) -> UnsignedByteField {
        self.destination_id
    }

    open spec fn spec_source_file(&self) -> Option<Seq<char>> {
        opt_str_view(self.source_file)
    }

    open spec fn spec_dest_file(&self) -> Option<Seq<char>> {
        opt_str_view(self.dest_file)
    }

    open spec fn spec_trans_mode(&self) -> Option<TransmissionMode> {
        self.trans_mode
    }

    open spec fn spec_closure_requested(&self) -> Option<bool> {
        self.closure_requested
    }

    open spec fn spec_seg_ctrl(&self) -> Option<SegmentationControl> {
        self.seg_ctrl
    }

    open spec fn spec_msgs_to_user(&self) -> Seq<Seq<u8>> {
        opt_tlv_list_bytes(self.msgs_to_user)
    }

    open spec fn spec_fault_handler_overrides(&self) -> Seq<Seq<u8>> {
        opt_tlv_list_bytes(self.fault_handler_overrides)
    }

    open spec fn spec_flow_label(&self) -> Option<Seq<u8>> {
        match self.flow_label {
            Some(t) => Some(t.full_bytes()),
            None => None,
        }
    }

    open spec fn spec_fs_requests(&self) -> Seq<Seq<u8>> {
        opt_tlv_list_bytes(self.fs_requests)
    }

    fn destination_id(&self) -> (r: UnsignedByteField) {
        self.destination_id
    }

    fn source_file(&self) -> (r: Option<&str>) {
        self.source_file
    }

    fn dest_file(&self) -> (r: Option<&str>) {
        self.dest_file
    }

    fn trans_mode(&self) -> (r: Option<TransmissionMode>) {
        self.trans_mode
    }

    fn closure_requested(&self) -> (r: Option<bool>) {
        self.closure_requested
    }

    fn seg_ctrl(&self) -> (r: Option<SegmentationControl>) {
        self.seg_ctrl
    }

    fn has_msgs_to_user(&self) -> (r: bool) {
        match self.msgs_to_user {
            Some(l) => l.len() > 0,
            None => false,
        }
    }

    fn msgs_to_user(&self) -> (r: Vec<Vec<u8>>) {
        opt_tlvs_to_bytes(self.msgs_to_user)
    }

    fn has_fault_handler_overrides(&self) -> (r: bool) {
        match self.fault_handler_overrides {
            Some(l) => l.len() > 0,
            None => false,
        }
    }

    fn fault_handler_overrides(&self) -> (r: Vec<Vec<u8>>) {
        opt_tlvs_to_bytes(self.fault_handler_overrides)
    }

    fn flow_label(&self) -> (r: Option<Vec<u8>>) {
        match self.flow_label {
            Some(t) => Some(t.to_bytes()),
            None => None,
        }
    }

    fn has_fs_requests(&self) -> (r: bool) {
        match self.fs_requests {
            Some(l) => l.len() > 0,
            None => false,
        }
    }

    fn fs_requests(&self) -> (r: Vec<Vec<u8>>) {
        opt_tlvs_to_bytes(self.fs_requests)
    }
}

/// The bytes of the TLVs of the owned list, where there is one; none otherwise.
pub open spec fn opt_tlv_vec_bytes(list: Option<Vec<Tlv>>) -> Seq<Seq<u8>> {
    match list {
        Some(l) => tlv_list_bytes(l@),
        None => Seq::empty(),
    }
}

/// Whether every TLV of the owned list, where there is one, has the type.
pub open spec fn tlv_vec_has_type(list: Option<Vec<Tlv>>, tlv_type: u8) -> bool {
    match list {
        Some(l) => forall|k: int| 0 <= k < l@.len() ==> (#[trigger] l@[k]).spec_type() == tlv_type,
        None => true,
    }
}

/// The list as a slice, where there is one.
fn opt_vec_as_slice(list: &Option<Vec<Tlv>>) -> (r: Option<&[Tlv]>)
    ensures
        list is None ==> r is None,
        list matches Some(v) ==> (r matches Some(s) && s@ == v@),
{
    match list {
        Some(v) => Some(v.as_slice()),
        None => None,
    }
}

/// A copy of each TLV of the list, in order.
fn clone_tlvs(list: &[Tlv]) -> (r: Vec<Tlv>)
    ensures
        r@.len() == list@.len(),
        forall|k: int| 0 <= k < list@.len() ==> (#[trigger] r@[k]).spec_type() == list@[k].spec_type() && r@[k].spec_value() == list@[k].spec_value(),
{
    let mut out: Vec<Tlv> = Vec::new();
    let mut i: usize = 0;
    while i < list.len()
        invariant
            i <= list@.len(),
            out@.len() == i,
            forall|k: int| 0 <= k < i ==> (#[trigger] out@[k]).spec_type() == list@[k].spec_type() && out@[k].spec_value() == list@[k].spec_value(),
        decreases list@.len() - i,
    {
        out.push(list[i].clone());
        i += 1;
    }
    out
}

/// Copies of the TLVs of the list, where there is one.
fn clone_opt_tlvs(list: Option<&[Tlv]>) -> (r: Option<Vec<Tlv>>)
    ensures
        list is None ==> r is None,
        list matches Some(l) ==> (r matches Some(v) && v@.len() == l@.len() && forall|k: int| 0 <= k < l@.len() ==> (#[trigger] v@[k]).spec_type() == l@[k].spec_type() && v@[k].spec_value() == l@[k].spec_value()),
{
    match list {
        Some(l) => Some(clone_tlvs(l)),
        None => None,
    }
}

proof fn lemma_cloned_tlv_type(a: Seq<Tlv>, b: Seq<Tlv>, t: u8)
    requires
        a.len() == b.len(),
        forall|k: int| 0 <= k < a.len() ==> (#[trigger] a[k]).spec_type() == b[k].spec_type(),
    ensures
        (forall|k: int| 0 <= k < a.len() ==> (#[trigger] a[k]).spec_type() == t)
            == (forall|k: int| 0 <= k < b.len() ==> (#[trigger] b[k]).spec_type() == t),
{
    if forall|k: int| 0 <= k < a.len() ==> (#[trigger] a[k]).spec_type() == t {
        assert forall|k: int| 0 <= k < b.len() implies (#[trigger] b[k]).spec_type() == t by {
            assert(a[k].spec_type() == t);
        }
    }
    if forall|k: int| 0 <= k < b.len() ==> (#[trigger] b[k]).spec_type() == t {
        assert forall|k: int| 0 <= k < a.len() implies (#[trigger] a[k]).spec_type() == t by {
            assert(b[k].spec_type() == t);
        }
    }
}

proof fn lemma_cloned_tlv_bytes(a: Seq<Tlv>, b: Seq<Tlv>)
    requires
        a.len() == b.len(),
        forall|k: int| 0 <= k < a.len() ==> (#[trigger] a[k]).spec_type() == b[k].spec_type() && a[k].spec_value() == b[k].spec_value(),
    ensures
        tlv_list_bytes(a) == tlv_list_bytes(b),
{
    assert(tlv_list_bytes(a) =~= tlv_list_bytes(b));
}

/// A put request which owns its paths and TLVs.
#[derive(Debug, Clone, PartialEq, Eq)]
pub struct PutRequestOwned {
    pub destination_id: UnsignedByteField,
    pub source_file: Option<String>,
    pub dest_file: Option<String>,
    pub trans_mode: Option<TransmissionMode>,
    pub closure_requested: Option<bool>,
    pub seg_ctrl: Option<SegmentationControl>,
    pub msgs_to_user: Option<Vec<Tlv>>,
    pub fault_handler_overrides: Option<Vec<Tlv>>,
    pub flow_label: Option<Tlv>,
    pub fs_requests: Option<Vec<Tlv>>,
}

/// The characters of the owned string, where there is one.
pub open spec fn opt_string_view(s: Option<String>) -> Option<Seq<char>> {
    match s {
        Some(t) => Some(t@),
        None => None,
    }
}

/// An owned copy of the string, where there is one.
fn opt_to_string(s: Option<&str>) -> (r: Option<String>)
    ensures
        opt_string_view(r) == opt_str_view(s),
{
    match s {
        Some(t) => Some(String::from_str(t)),
        None => None,
    }
}

impl PutRequestOwned {
    /// A put request of a file from the source path to the destination path, without options
    /// but the transmission mode and the closure request, or [FilePathTooLarge] where a path is
    /// longer than 255 bytes.
    pub fn new_regular_request(
        dest_id: UnsignedByteField,
        source_file: &str,
        dest_file: &str,
        trans_mode: Option<TransmissionMode>,
        closure_requested: Option<bool>,
    ) -> (r: Result<Self, FilePathTooLarge>)
        ensures
            generic_path_checks_spec(Some(source_file), Some(dest_file)) matches Err(e) ==> r == Err::<Self, FilePathTooLarge>(e),
            generic_path_checks_spec(Some(source_file), Some(dest_file)) is Ok ==> (r matches Ok(p) && {
                &&& p.destination_id == dest_id
                &&& p.spec_source_file() == Some(source_file@)
                &&& p.spec_dest_file() == Some(dest_file@)
                &&& p.trans_mode == trans_mode
                &&& p.closure_requested == closure_requested
                &&& p.seg_ctrl is None
                &&& p.msgs_to_user is None
                &&& p.fault_handler_overrides is None
                &&& p.flow_label is None
                &&& p.fs_requests is None
            }),
    {
        match generic_path_checks(Some(source_file), Some(dest_file)) {
            Err(e) => Err(e),
            Ok(()) => Ok(Self {
                destination_id: dest_id,
                source_file: Some(String::from_str(source_file)),
                dest_file: Some(String::from_str(dest_file)),
                trans_mode,
                closure_requested,
                seg_ctrl: None,
                msgs_to_user: None,
                fault_handler_overrides: None,
                flow_label: None,
                fs_requests: None,
            }),
        }
    }

    /// A put request which only carries copies of the messages to the user; it is always
    /// built.
    pub fn new_msgs_to_user_only(dest_id: UnsignedByteField, msgs_to_user: &[Tlv]) -> (r: Result<Self, TlvWithInvalidType>)
        ensures
            r matches Ok(p) && {
                &&& p.destination_id == dest_id
                &&& p.spec_source_file() is None
                &&& p.spec_dest_file() is None
                &&& p.trans_mode is None
                &&& p.closure_requested is None
                &&& p.seg_ctrl is None
                &&& p.msgs_to_user is Some
                &&& p.spec_msgs_to_user() == tlv_list_bytes(msgs_to_user@)
                &&& tlv_vec_has_type(p.msgs_to_user, TLV_TYPE_MSG_TO_USER) == tlv_list_has_type(Some(msgs_to_user), TLV_TYPE_MSG_TO_USER)
                &&& p.fault_handler_overrides is None
                &&& p.flow_label is None
                &&& p.fs_requests is None
            },
    {
        let msgs = clone_tlvs(msgs_to_user);
        proof {
            lemma_cloned_tlv_bytes(msgs@, msgs_to_user@);
            lemma_cloned_tlv_type(msgs@, msgs_to_user@, TLV_TYPE_MSG_TO_USER);
        }
        let r = Self {
            destination_id: dest_id,
            source_file: None,
            dest_file: None,
            trans_mode: None,
            closure_requested: None,
            seg_ctrl: None,
            msgs_to_user: Some(msgs),
            fault_handler_overrides: None,
            flow_label: None,
            fs_requests: None,
        };
        assert(r.spec_msgs_to_user() == tlv_list_bytes(msgs_to_user@));
        assert(r.msgs_to_user == Some(msgs));
        assert(tlv_vec_has_type(Some(msgs), TLV_TYPE_MSG_TO_USER) == (forall|k: int| 0 <= k < msgs@.len() ==> (#[trigger] msgs@[k]).spec_type() == TLV_TYPE_MSG_TO_USER));
        assert(Some(msgs_to_user)->0@ == msgs_to_user@);
        Ok(r)
    }

    /// An owned copy of the borrowed put request: the same paths, options and TLVs.
    pub fn from_put_request(req: PutRequest<'_>) -> (r: Self)
        ensures
            r.destination_id == req.destination_id,
            r.spec_source_file() == opt_str_view(req.source_file),
            r.spec_dest_file() == opt_str_view(req.dest_file),
            r.trans_mode == req.trans_mode,
            r.closure_requested == req.closure_requested,
            r.seg_ctrl == req.seg_ctrl,
            r.spec_msgs_to_user() == opt_tlv_list_bytes(req.msgs_to_user),
            r.spec_fault_handler_overrides() == opt_tlv_list_bytes(req.fault_handler_overrides),
            r.spec_flow_label() == req.spec_flow_label(),
            r.spec_fs_requests() == opt_tlv_list_bytes(req.fs_requests),
            tlv_vec_has_type(r.msgs_to_user, TLV_TYPE_MSG_TO_USER) == tlv_list_has_type(req.msgs_to_user, TLV_TYPE_MSG_TO_USER),
            tlv_vec_has_type(r.fault_handler_overrides, TLV_TYPE_FAULT_HANDLER) == tlv_list_has_type(req.fault_handler_overrides, TLV_TYPE_FAULT_HANDLER),
            tlv_vec_has_type(r.fs_requests, TLV_TYPE_FILESTORE_REQUEST) == tlv_list_has_type(req.fs_requests, TLV_TYPE_FILESTORE_REQUEST),
    {
        let msgs_to_user = clone_opt_tlvs(req.msgs_to_user);
        let fault_handler_overrides = clone_opt_tlvs(req.fault_handler_overrides);
        let fs_requests = clone_opt_tlvs(req.fs_requests);
        let flow_label = match req.flow_label {
            Some(t) => Some(t.clone()),
            None => None,
        };
        proof {
            if msgs_to_user is Some {
                lemma_cloned_tlv_bytes(msgs_to_user->0@, req.msgs_to_user->0@);
                lemma_cloned_tlv_type(msgs_to_user->0@, req.msgs_to_user->0@, TLV_TYPE_MSG_TO_USER);
            }
            if fault_handler_overrides is Some {
                lemma_cloned_tlv_bytes(fault_handler_overrides->0@, req.fault_handler_overrides->0@);
                lemma_cloned_tlv_type(fault_handler_overrides->0@, req.fault_handler_overrides->0@, TLV_TYPE_FAULT_HANDLER);
            }
            if fs_requests is Some {
                lemma_cloned_tlv_bytes(fs_requests->0@, req.fs_requests->0@);
                lemma_cloned_tlv_type(fs_requests->0@, req.fs_requests->0@, TLV_TYPE_FILESTORE_REQUEST);
            }
        }
        Self {
            destination_id: req.destination_id,
            source_file: opt_to_string(req.source_file),
            dest_file: opt_to_string(req.dest_file),
            trans_mode: req.trans_mode,
            closure_requested: req.closure_requested,
            seg_ctrl: req.seg_ctrl,
            msgs_to_user,
            fault_handler_overrides,
            flow_label,
            fs_requests,
        }
    }

    /// Checks the TLV types of all TLV fields: the messages to the user, the flow label, the
    /// fault handler overrides and the filestore requests each have their own type.
    pub fn check_tlv_type_validities(&self) -> (r: bool)
        ensures
            r == (tlv_vec_has_type(self.msgs_to_user, TLV_TYPE_MSG_TO_USER)
                && (self.flow_label matches Some(t) ==> t.spec_type() == TLV_TYPE_FLOW_LABEL)
                && tlv_vec_has_type(self.fault_handler_overrides, TLV_TYPE_FAULT_HANDLER)
                && tlv_vec_has_type(self.fs_requests, TLV_TYPE_FILESTORE_REQUEST)),
    {
        if !generic_tlv_list_type_check(opt_vec_as_slice(&self.msgs_to_user), TLV_TYPE_MSG_TO_USER) {
            return false;
        }
        if let Some(flow_label) = &self.flow_label {
            if flow_label.tlv_type_raw() != TLV_TYPE_FLOW_LABEL {
                return false;
            }
        }
        if !generic_tlv_list_type_check(opt_vec_as_slice(&self.fault_handler_overrides), TLV_TYPE_FAULT_HANDLER) {
            return false;
        }
        generic_tlv_list_type_check(opt_vec_as_slice(&self.fs_requests), TLV_TYPE_FILESTORE_REQUEST)
    }
}

impl ReadablePutRequest for PutRequestOwned {
    open spec fn spec_destination_id(&self) -> UnsignedByteField {
        self.destination_id
    }

    open spec fn spec_source_file(&self) -> Option<Seq<char>> {
        opt_string_view(self.source_file)
    }

    open spec fn spec_dest_file(&self) -> Option<Seq<char>> {
        opt_string_view(self.dest_file)
    }

    open spec fn spec_trans_mode(&self) -> Option<TransmissionMode> {
        self.trans_mode
    }

    open spec fn spec_closure_requested(&self) -> Option<bool> {
        self.closure_requested
    }

    open spec fn spec_seg_ctrl(&self) -> Option<SegmentationControl> {
        self.seg_ctrl
    }

    open spec fn spec_msgs_to_user(&self) -> Seq<Seq<u8>> {
        opt_tlv_vec_bytes(self.msgs_to_user)
    }

    open spec fn spec_fault_handler_overrides(&self) -> Seq<Seq<u8>> {
        opt_tlv_vec_bytes(self.fault_handler_overrides)
    }

    open spec fn spec_flow_label(&self) -> Option<Seq<u8>> {
        match self.flow_label {
            Some(t) => Some(t.full_bytes()),
            None => None,
        }
    }

    open spec fn spec_fs_requests(&self) -> Seq<Seq<u8>> {
        opt_tlv_vec_bytes(self.fs_requests)
    }

    fn destination_id(&self) -> (r: UnsignedByteField) {
        self.destination_id
    }

    fn source_file(&self) -> (r: Option<&str>) {
        match &self.source_file {
            Some(s) => Some(s.as_str()),
            None => None,
        }
    }

    fn dest_file(&self) -> (r: Option<&str>) {
        match &self.dest_file {
            Some(s) => Some(s.as_str()),
            None => None,
        }
    }

    fn trans_mode(&self) -> (r: Option<TransmissionMode>) {
        self.trans_mode
    }

    fn closure_requested(&self) -> (r: Option<bool>) {
        self.closure_requested
    }

    fn seg_ctrl(&self) -> (r: Option<SegmentationControl>) {
        self.seg_ctrl
    }

    fn has_msgs_to_user(&self) -> (r: bool) {
        match &self.msgs_to_user {
            Some(l) => l.len() > 0,
            None => false,
        }
    }

    fn msgs_to_user(&self) -> (r: Vec<Vec<u8>>) {
        opt_tlvs_to_bytes(opt_vec_as_slice(&self.msgs_to_user))
    }

    fn has_fault_handler_overrides(&self) -> (r: bool) {
        match &self.fault_handler_overrides {
            Some(l) => l.len() > 0,
            None => false,
        }
    }

    fn fault_handler_overrides(&self) -> (r: Vec<Vec<u8>>) {
        opt_tlvs_to_bytes(opt_vec_as_slice(&self.fault_handler_overrides))
    }

    fn flow_label(&self) -> (r: Option<Vec<u8>>) {
        match &self.flow_label {
            Some(t) => Some(t.to_bytes()),
            None => None,
        }
    }

    fn has_fs_requests(&self) -> (r: bool) {
        match &self.fs_requests {
            Some(l) => l.len() > 0,
            None => false,
        }
    }

    fn fs_requests(&self) -> (r: Vec<Vec<u8>>) {
        opt_tlvs_to_bytes(opt_vec_as_slice(&self.fs_requests))
    }
}

/// What caching the put request in a cacher whose filestore request buffer has the capacity
/// gives: the first path longer than 255 bytes, or the first filestore request that does not
/// fit, as an error.
pub open spec fn set_outcome<P: ReadablePutRequest>(put_request: &P, capacity: nat) -> Result<(), ByteConversionError> {
    let src = put_request.spec_source_file();
    let dest = put_request.spec_dest_file();
    let stored = store_tlvs(put_request.spec_fs_requests(), capacity);
    if src matches Some(s) && encode_utf8(s).len() > 255 {
        Err(ByteConversionError::ToSliceTooSmall { found: 255, expected: encode_utf8(src->Some_0).len() as usize })
    } else if dest matches Some(d) && encode_utf8(d).len() > 255 {
        Err(ByteConversionError::ToSliceTooSmall { found: 255, expected: encode_utf8(dest->Some_0).len() as usize })
    } else if stored.2 is Some {
        Err(ByteConversionError::ToSliceTooSmall { found: (stored.2->0).0 as usize, expected: (stored.2->0).1 as usize })
    } else {
        Ok(())
    }
}

/// What caching the put request does to the cacher, whatever the outcome: the destination ID
/// is taken; a source path that fits is stored with its length, and no source path leaves the
/// stored one; past the source path, the same holds of the destination path; past both, the
/// options are taken and, where all filestore requests fit, they are stored one after the
/// other with their total length. The buffer of the filestore requests keeps its length.
pub open spec fn set_effect<P: ReadablePutRequest>(before: StaticPutRequestCacher, after: StaticPutRequestCacher, put_request: &P) -> bool {
    let src = put_request.spec_source_file();
    let dest = put_request.spec_dest_file();
    let src_too_long = src matches Some(s) && encode_utf8(s).len() > 255;
    let dest_too_long = dest matches Some(d) && encode_utf8(d).len() > 255;
    let stored = store_tlvs(put_request.spec_fs_requests(), before.fs_requests@.len());
    &&& after.static_fields.destination_id == put_request.spec_destination_id()
    &&& after.fs_requests@.len() == before.fs_requests@.len()
    &&& !src_too_long ==> (src matches Some(s) ==> after.static_fields.source_file_len == encode_utf8(s).len() && after.static_fields.source_file_buf@.take(encode_utf8(s).len() as int) == encode_utf8(s))
    &&& src is None ==> after.static_fields.source_file_len == before.static_fields.source_file_len && after.static_fields.source_file_buf == before.static_fields.source_file_buf
    &&& !src_too_long && !dest_too_long ==> {
        &&& dest matches Some(d) ==> after.static_fields.dest_file_len == encode_utf8(d).len() && after.static_fields.dest_file_buf@.take(encode_utf8(d).len() as int) == encode_utf8(d)
        &&& dest is None ==> after.static_fields.dest_file_len == before.static_fields.dest_file_len && after.static_fields.dest_file_buf == before.static_fields.dest_file_buf
        &&& after.static_fields.trans_mode == put_request.spec_trans_mode()
        &&& after.static_fields.closure_requested == put_request.spec_closure_requested()
        &&& after.static_fields.seg_ctrl == put_request.spec_seg_ctrl()
        &&& stored.2 is None ==> {
            &&& after.fs_requests_len == stored.0
            &&& after.fs_requests@.take(stored.0 as int) == concat_tlvs(stored.1)
        }
    }
}

/// The fields of a put request which have a fixed size: the paths are held in buffers of 255
/// bytes together with their lengths.
#[derive(Debug)]
pub struct StaticPutRequestFields {
    pub destination_id: UnsignedByteField,
    /// Static buffer to store the source file path.
    pub source_file_buf: [u8; 255],
    /// Current source path length.
    pub source_file_len: usize,
    /// Static buffer to store the dest file path.
    pub dest_file_buf: [u8; 255],
    /// Current destination path length.
    pub dest_file_len: usize,
    pub trans_mode: Option<TransmissionMode>,
    pub closure_requested: Option<bool>,
    pub seg_ctrl: Option<SegmentationControl>,
}

impl StaticPutRequestFields {
    /// Fields with a zero destination ID, empty paths and no options.
    pub fn new() -> (r: Self)
        ensures
            r.destination_id.width_spec() == 0 && r.destination_id.value_spec() == 0,
            r.source_file_len == 0,
            r.dest_file_len == 0,
            r.trans_mode is None,
            r.closure_requested is None,
            r.seg_ctrl is None,
    {
        Self {
            destination_id: UnsignedByteField::new(0, 0),
            source_file_buf: [0; 255],
            source_file_len: 0,
            dest_file_buf: [0; 255],
            dest_file_len: 0,
            trans_mode: None,
            closure_requested: None,
            seg_ctrl: None,
        }
    }

    /// Resets the destination ID, the path lengths and the options; the path buffers keep their
    /// bytes.
    pub fn clear(&mut self)
        ensures
            final(self).destination_id.width_spec() == 0 && final(self).destination_id.value_spec() == 0,
            final(self).source_file_len == 0,
            final(self).dest_file_len == 0,
            final(self).trans_mode is None,
            final(self).closure_requested is None,
            final(self).seg_ctrl is None,
            final(self).source_file_buf == old(self).source_file_buf,
            final(self).dest_file_buf == old(self).dest_file_buf,
    {
        self.destination_id = UnsignedByteField::new(0, 0);
        self.source_file_len = 0;
        self.dest_file_len = 0;
        self.trans_mode = None;
        self.closure_requested = None;
        self.seg_ctrl = None;
    }
}

/// The concatenation of the TLVs.
pub open spec fn concat_tlvs(tlvs: Seq<Seq<u8>>) -> Seq<u8>
    decreases tlvs.len(),
{
    if tlvs.len() == 0 {
        Seq::empty()
    } else {
        concat_tlvs(tlvs.drop_last()) + tlvs.last()
    }
}

/// Storing the TLVs one after the other into a buffer of `capacity` bytes: the index after the
/// stored TLVs, the TLVs which were stored, and the error of the last TLV which did not fit,
/// if one did not: it holds the capacity and the index that TLV would have ended at. A TLV
/// which does not fit is left out and the following ones are still stored.
pub open spec fn store_tlvs(tlvs: Seq<Seq<u8>>, capacity: nat) -> (nat, Seq<Seq<u8>>, Option<(nat, nat)>)
    decreases tlvs.len(),
{
    if tlvs.len() == 0 {
        (0, Seq::empty(), None)
    } else {
        let prev = store_tlvs(tlvs.drop_last(), capacity);
        let t = tlvs.last();
        if prev.0 + t.len() > capacity {
            (prev.0, prev.1, Some((capacity, prev.0 + t.len())))
        } else {
            (prev.0 + t.len(), prev.1.push(t), prev.2)
        }
    }
}

proof fn lemma_store_tlvs_index(tlvs: Seq<Seq<u8>>, capacity: nat)
    ensures
        store_tlvs(tlvs, capacity).0 == concat_tlvs(store_tlvs(tlvs, capacity).1).len(),
        store_tlvs(tlvs, capacity).0 <= capacity,
    decreases tlvs.len(),
{
    if tlvs.len() > 0 {
        lemma_store_tlvs_index(tlvs.drop_last(), capacity);
        let prev = store_tlvs(tlvs.drop_last(), capacity);
        let t = tlvs.last();
        if prev.0 + t.len() <= capacity {
            assert(prev.1.push(t).drop_last() =~= prev.1);
        }
    }
}

/// Calls `core::str::from_utf8` on the bytes. Claimed of the call, as its documentation
/// states: where it succeeds, the string slice holds exactly the bytes; it fails only where the
/// bytes are not UTF-8, so it succeeds on the bytes of any string slice.
#[verifier::external_body]
fn str_from_utf8(bytes: &[u8]) -> (r: Result<&str, Utf8Error>)
    ensures
        r matches Ok(s) ==> s.spec_bytes() == bytes@,
        (exists|t: &str| t.spec_bytes() == bytes@) ==> r is Ok,
{
    core::str::from_utf8(bytes)
}

/// Copies the bytes to the start of the path buffer.
fn copy_path(buf: &mut [u8; 255], bytes: &[u8])
    requires
        bytes@.len() <= 255,
    ensures
        final(buf)@.take(bytes@.len() as int) == bytes@,
{
    let mut i: usize = 0;
    while i < bytes.len()
        invariant
            bytes@.len() <= 255,
            i <= bytes@.len(),
            buf@.len() == 255,
            forall|k: int| 0 <= k < i ==> buf@[k] == bytes@[k],
        decreases bytes@.len() - i,
    {
        buf[i] = bytes[i];
        i += 1;
    }
    assert(buf@.take(bytes@.len() as int) =~= bytes@);
}

/// This is a put request cache structure which can be used to cache [ReadablePutRequest]s
/// without requiring run-time allocation. The user must specify the static buffer sizes used
/// to store TLVs or list of TLVs.
#[derive(Debug)]
pub struct StaticPutRequestCacher {
    pub static_fields: StaticPutRequestFields,
    /// Static buffer to store file store requests.
    pub fs_requests: Vec<u8>,
    /// Current total length of stored filestore requests.
    pub fs_requests_len: usize,
}

impl StaticPutRequestCacher {
    /// An empty cache whose filestore request buffer holds `max_fs_requests_storage` bytes.
    pub fn new(max_fs_requests_storage: usize) -> (r: Self)
        ensures
            r.static_fields.destination_id.width_spec() == 0 && r.static_fields.destination_id.value_spec() == 0,
            r.static_fields.source_file_len == 0,
            r.static_fields.dest_file_len == 0,
            r.static_fields.trans_mode is None,
            r.static_fields.closure_requested is None,
            r.static_fields.seg_ctrl is None,
            r.fs_requests@.len() == max_fs_requests_storage,
            r.fs_requests_len == 0,
    {
        Self {
            static_fields: StaticPutRequestFields::new(),
            fs_requests: vec![0; max_fs_requests_storage],
            fs_requests_len: 0,
        }
    }

    /// Caches the put request. The destination ID is taken first. A source path, then a
    /// destination path, of more than 255 bytes fails the call with the buffer length 255 and
    /// the path length; a path which fits is stored. Then the options are taken and the
    /// filestore requests are stored one after the other: where one does not fit into the
    /// buffer, the call fails with the buffer length and the index at which that request would
    /// have ended.
    pub fn set<P: ReadablePutRequest>(&mut self, put_request: &P) -> (r: Result<(), ByteConversionError>)
        requires
            forall|k: int| 0 <= k < put_request.spec_fs_requests().len() ==> old(self).fs_requests@.len() + #[trigger] put_request.spec_fs_requests()[k].len() <= usize::MAX,
        ensures
            r == set_outcome(put_request, old(self).fs_requests@.len()),
            old(self).static_fields.source_file_len <= 255 ==> final(self).static_fields.source_file_len <= 255,
            old(self).static_fields.dest_file_len <= 255 ==> final(self).static_fields.dest_file_len <= 255,
            set_effect(*old(self), *final(self), put_request),
    {
        self.static_fields.destination_id = put_request.destination_id();
        if let Some(source_file) = put_request.source_file() {
            let bytes = source_file.as_bytes();
            let len = bytes.len();
            if len > 255 {
                return Err(ByteConversionError::ToSliceTooSmall { found: 255, expected: len });
            }
            copy_path(&mut self.static_fields.source_file_buf, bytes);
            self.static_fields.source_file_len = len;
        }
        if let Some(dest_file) = put_request.dest_file() {
            let bytes = dest_file.as_bytes();
            let len = bytes.len();
            if len > 255 {
                return Err(ByteConversionError::ToSliceTooSmall { found: 255, expected: len });
            }
            copy_path(&mut self.static_fields.dest_file_buf, bytes);
            self.static_fields.dest_file_len = len;
        }
        self.static_fields.trans_mode = put_request.trans_mode();
        self.static_fields.closure_requested = put_request.closure_requested();
        self.static_fields.seg_ctrl = put_request.seg_ctrl();
        let tlvs = put_request.fs_requests();
        let ghost all = tlvs.deep_view();
        let capacity = self.fs_requests.len();
        let ghost fields = self.static_fields;
        let mut current_idx: usize = 0;
        let mut error_if_too_large: Option<ByteConversionError> = None;
        let mut k: usize = 0;
        while k < tlvs.len()
            invariant
                all == tlvs.deep_view(),
                fields == self.static_fields,
                capacity == self.fs_requests@.len(),
                all == put_request.spec_fs_requests(),
                forall|m: int| 0 <= m < all.len() ==> capacity + #[trigger] all[m].len() <= usize::MAX,
                k <= tlvs@.len(),
                ({
                    let st = store_tlvs(all.take(k as int), capacity as nat);
                    &&& current_idx == st.0
                    &&& self.fs_requests@.take(current_idx as int) == concat_tlvs(st.1)
                    &&& error_if_too_large == match st.2 {
                        Some(e) => Some(ByteConversionError::ToSliceTooSmall { found: e.0 as usize, expected: e.1 as usize }),
                        None => None::<ByteConversionError>,
                    }
                }),
            decreases tlvs@.len() - k,
        {
            proof {
                assert(all.take(k + 1).drop_last() =~= all.take(k as int));
                assert(all.take(k + 1).last() == tlvs@[k as int]@);
                lemma_store_tlvs_index(all.take(k as int), capacity as nat);
            }
            let tlv = &tlvs[k];
            assert(capacity + all[k as int].len() <= usize::MAX);
            if tlv.len() > capacity - current_idx {
                error_if_too_large = Some(ByteConversionError::ToSliceTooSmall { found: capacity, expected: current_idx + tlv.len() });
            } else {
                let ghost before = self.fs_requests@;
                let mut j: usize = 0;
                while j < tlv.len()
                    invariant
                        fields == self.static_fields,
                        capacity == self.fs_requests@.len(),
                        current_idx + tlv@.len() <= capacity,
                        j <= tlv@.len(),
                        before.len() == capacity,
                        forall|m: int| 0 <= m < current_idx ==> self.fs_requests@[m] == before[m],
                        forall|m: int| 0 <= m < j ==> self.fs_requests@[current_idx + m] == tlv@[m],
                    decreases tlv@.len() - j,
                {
                    self.fs_requests.set(current_idx + j, tlv[j]);
                    j += 1;
                }
                proof {
                    let st = store_tlvs(all.take(k as int), capacity as nat);
                    assert(concat_tlvs(st.1.push(tlv@)) == concat_tlvs(st.1) + tlv@) by {
                        assert(st.1.push(tlv@).drop_last() =~= st.1);
                    }
                    assert(self.fs_requests@.take(current_idx + tlv@.len()) =~= before.take(current_idx as int) + tlv@);
                }
                current_idx = current_idx + tlv.len();
            }
            k += 1;
        }
        proof {
            assert(all.take(k as int) =~= all);
        }
        if let Some(err) = error_if_too_large {
            return Err(err);
        }
        self.fs_requests_len = current_idx;
        Ok(())
    }

    /// Whether a source path is cached: whether its length is not 0.
    pub fn has_source_file(&self) -> (r: bool)
        ensures
            r == (self.static_fields.source_file_len > 0),
    {
        self.static_fields.source_file_len > 0
    }

    /// The cached source path, where its bytes are valid UTF-8.
    pub fn source_file(&self) -> (r: Result<&str, Utf8Error>)
        requires
            self.static_fields.source_file_len <= 255,
        ensures
            r matches Ok(s) ==> s.spec_bytes() == self.static_fields.source_file_buf@.take(self.static_fields.source_file_len as int),
            (exists|t: &str| t.spec_bytes() == self.static_fields.source_file_buf@.take(self.static_fields.source_file_len as int)) ==> r is Ok,
    {
        str_from_utf8(vstd::slice::slice_subrange(self.static_fields.source_file_buf.as_slice(), 0, self.static_fields.source_file_len))
    }

    /// The cached destination path, where its bytes are valid UTF-8.
    pub fn dest_file(&self) -> (r: Result<&str, Utf8Error>)
        requires
            self.static_fields.dest_file_len <= 255,
        ensures
            r matches Ok(s) ==> s.spec_bytes() == self.static_fields.dest_file_buf@.take(self.static_fields.dest_file_len as int),
            (exists|t: &str| t.spec_bytes() == self.static_fields.dest_file_buf@.take(self.static_fields.dest_file_len as int)) ==> r is Ok,
    {
        str_from_utf8(vstd::slice::slice_subrange(self.static_fields.dest_file_buf.as_slice(), 0, self.static_fields.dest_file_len))
    }

    /// This clears the cacher structure. This is a cheap operation because it only sets the
    /// optional values to [None] and the lengths of the stored paths and TLVs to 0; the values
    /// in the buffers stay.
    pub fn clear(&mut self)
        ensures
            final(self).static_fields.source_file_len == 0,
            final(self).static_fields.dest_file_len == 0,
            final(self).static_fields.trans_mode is None,
            final(self).static_fields.closure_requested is None,
            final(self).static_fields.seg_ctrl is None,
            final(self).static_fields.destination_id.width_spec() == 0 && final(self).static_fields.destination_id.value_spec() == 0,
            final(self).fs_requests_len == 0,
            final(self).fs_requests == old(self).fs_requests,
    {
        self.static_fields.clear();
        self.fs_requests_len = 0;
    }
}

} // verus!
