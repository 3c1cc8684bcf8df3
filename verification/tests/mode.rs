use satrs::bytes::ByteConversionError;
use satrs::mode::{
    ModeAndSubmode, ModeProvider, ModeReply, ModeRequest, ModeRequestHandler, TargetedModeCommand,
};
use satrs::mode_tree::{
    ModeStoreProvider, ModeStoreVec, ModeStoreVecValue, SequenceTableEntry, TargetNotInModeStoreError,
    TargetTableEntry, TargetTablesMapValue,
};
use satrs::request::{GenericMessage, MessageMetadata};

#[test]
fn mode_and_submode_accessors() {
    let ms = ModeAndSubmode::new(5, 3);
    assert_eq!(ms.mode(), 5);
    assert_eq!(ms.submode(), 3);
    let mo = ModeAndSubmode::new_mode_only(8);
    assert_eq!(mo.mode(), 8);
    assert_eq!(mo.submode(), 0);
}

#[test]
fn mode_and_submode_writes_big_endian_bytes() {
    let ms = ModeAndSubmode::new(0x0102_0304, 0x0506);
    let mut buf = [0xff_u8; 8];
    assert_eq!(ms.write_to_be_bytes(&mut buf), Ok(6));
    assert_eq!(buf, [1, 2, 3, 4, 5, 6, 0xff, 0xff]);
    assert_eq!(ModeAndSubmode::from_be_bytes(&buf), Ok(ms));
}

#[test]
fn mode_and_submode_byte_errors() {
    let ms = ModeAndSubmode::new(1, 2);
    let mut small = [0_u8; 5];
    assert_eq!(
        ms.write_to_be_bytes(&mut small),
        Err(ByteConversionError::ToSliceTooSmall { found: 5, expected: 6 })
    );
    assert_eq!(small, [0; 5]);
    assert_eq!(
        ModeAndSubmode::from_be_bytes(&small),
        Err(ByteConversionError::FromSliceTooSmall { found: 5, expected: 6 })
    );
}

#[test]
fn targeted_mode_command_accessors() {
    let cmd = TargetedModeCommand::new(12, ModeAndSubmode::new(3, 4));
    assert_eq!(cmd.address(), 12);
    assert_eq!(cmd.mode_submode(), ModeAndSubmode::new(3, 4));
    assert_eq!(cmd.mode(), 3);
    assert_eq!(cmd.submode(), 4);
}

#[derive(Default)]
struct HandlerMock {
    mode: Option<ModeAndSubmode>,
    transitions: Vec<(ModeAndSubmode, bool)>,
    announcements: Vec<bool>,
    infos: Vec<ModeAndSubmode>,
    replies: std::cell::RefCell<Vec<ModeReply>>,
}

impl ModeProvider for HandlerMock {
    fn spec_mode_and_submode(&self) -> ModeAndSubmode {
        self.mode_and_submode()
    }

    fn mode_and_submode(&self) -> ModeAndSubmode {
        self.mode.unwrap_or(ModeAndSubmode::new(0, 0))
    }
}

impl ModeRequestHandler for HandlerMock {
    type Error = ();

    fn start_transition(
        &mut self,
        _requestor: MessageMetadata,
        mode_and_submode: ModeAndSubmode,
        forced: bool,
    ) -> Result<(), Self::Error> {
        self.transitions.push((mode_and_submode, forced));
        Ok(())
    }

    fn announce_mode(&self, _requestor_info: Option<MessageMetadata>, _recursive: bool) {}

    fn handle_mode_reached(&mut self, _requestor_info: Option<MessageMetadata>) -> Result<(), Self::Error> {
        Ok(())
    }

    fn handle_mode_info(&mut self, _requestor_info: MessageMetadata, info: ModeAndSubmode) -> Result<(), Self::Error> {
        self.infos.push(info);
        Ok(())
    }

    fn send_mode_reply(&self, _requestor_info: MessageMetadata, reply: ModeReply) -> Result<(), Self::Error> {
        self.replies.borrow_mut().push(reply);
        Ok(())
    }
}

#[test]
fn mode_request_handler_dispatches_requests() {
    let mut handler = HandlerMock {
        mode: Some(ModeAndSubmode::new(2, 1)),
        ..Default::default()
    };
    let meta = MessageMetadata::new(1, 2);
    handler
        .handle_mode_request(GenericMessage::new(
            meta,
            ModeRequest::SetMode { mode_and_submode: ModeAndSubmode::new(4, 0), forced: true },
        ))
        .unwrap();
    assert_eq!(handler.transitions, vec![(ModeAndSubmode::new(4, 0), true)]);
    handler
        .handle_mode_request(GenericMessage::new(meta, ModeRequest::ReadMode))
        .unwrap();
    assert_eq!(*handler.replies.borrow(), vec![ModeReply::ModeReply(ModeAndSubmode::new(2, 1))]);
    handler
        .handle_mode_request(GenericMessage::new(meta, ModeRequest::ModeInfo(ModeAndSubmode::new(9, 9))))
        .unwrap();
    assert_eq!(handler.infos, vec![ModeAndSubmode::new(9, 9)]);
    assert!(handler
        .handle_mode_request(GenericMessage::new(meta, ModeRequest::AnnounceModeRecursive))
        .is_ok());
    let _ = &handler.announcements;
    assert_eq!(handler.mode(), 2);
    assert_eq!(handler.submode(), 1);
}

#[test]
fn mode_store_vec_add_get_set() {
    let mut store = ModeStoreVec::default();
    assert!(!store.has_component(1));
    assert_eq!(store.get_mode(1), None);
    store.add_component(1, ModeAndSubmode::new(1, 0));
    store.add_component(2, ModeAndSubmode::new(2, 0));
    assert!(store.has_component(1));
    assert_eq!(store.get_mode(2), Some(ModeAndSubmode::new(2, 0)));
    assert_eq!(store.set_mode(2, ModeAndSubmode::new(5, 5)), Ok(()));
    assert_eq!(store.get_mode(2), Some(ModeAndSubmode::new(5, 5)));
    assert_eq!(store.get_mode(1), Some(ModeAndSubmode::new(1, 0)));
    assert_eq!(
        store.set_mode(3, ModeAndSubmode::new(5, 5)),
        Err(TargetNotInModeStoreError(3))
    );
}

#[test]
fn mode_store_vec_reply_handler() {
    let mut store = ModeStoreVec::default();
    store.add_component(1, ModeAndSubmode::new(0, 0));
    store.add_component(2, ModeAndSubmode::new(0, 0));
    store.0[0].awaiting_reply = true;
    store.0[1].awaiting_reply = true;
    assert_eq!(store.mode_reply_handler(1, Some(ModeAndSubmode::new(3, 0)), false), None);
    assert!(store.0[0].awaiting_reply);
    assert_eq!(store.get_mode(1), Some(ModeAndSubmode::new(3, 0)));
    assert_eq!(store.mode_reply_handler(1, None, true), Some(true));
    assert!(!store.0[0].awaiting_reply);
    assert_eq!(store.mode_reply_handler(2, Some(ModeAndSubmode::new(4, 0)), true), Some(false));
    assert_eq!(store.get_mode(2), Some(ModeAndSubmode::new(4, 0)));
}

#[test]
fn mode_store_vec_value_accessors() {
    let v = ModeStoreVecValue::new(7, ModeAndSubmode::new(1, 2));
    assert_eq!(v.id(), 7);
    assert_eq!(v.mode_and_submode(), ModeAndSubmode::new(1, 2));
    assert!(!v.awaiting_reply);
}

#[test]
fn table_entries() {
    let mut entry = TargetTableEntry::new("T", 1, ModeAndSubmode::new(1, 0), None);
    assert!(entry.monitor_state);
    assert_eq!(entry.allowed_submode_mask(), None);
    entry.set_allowed_submode_mask(0b11);
    assert_eq!(entry.allowed_submode_mask(), Some(0b11));
    let precise = TargetTableEntry::new_with_precise_submode("P", 2, ModeAndSubmode::new(2, 0));
    assert_eq!(precise.common.target_id, 2);
    assert_eq!(precise.allowed_submode_mask(), None);
    let mut seq = SequenceTableEntry::new("S", 3, ModeAndSubmode::new(3, 0), true);
    assert!(seq.check_success);
    seq.set_allowed_submode_mask(1);
    assert_eq!(seq.common.allowed_submode_mask(), Some(1));
    let mut table = TargetTablesMapValue::new("TABLE", Some(4));
    table.add_entry(entry);
    table.add_entry(precise);
    assert_eq!(table.entries.len(), 2);
    assert_eq!(table.fallback_mode, Some(4));
}

#[test]
fn mode_provider_gives_mode_and_submode() {
    let handler = HandlerMock {
        mode: Some(ModeAndSubmode::new(5, 3)),
        ..Default::default()
    };
    assert_eq!(handler.mode(), 5);
    assert_eq!(handler.submode(), 3);
}

struct ParentNode {
    id: u32,
    children: Vec<(u32, &'static str)>,
}

struct ChildNode {
    id: u32,
    parents: Vec<(u32, &'static str)>,
}

impl satrs::mode_tree::ModeNode for ParentNode {
    fn spec_id(&self) -> u32 {
        self.id
    }

    fn id(&self) -> u32 {
        self.id
    }
}

impl satrs::mode_tree::ModeNode for ChildNode {
    fn spec_id(&self) -> u32 {
        self.id
    }

    fn id(&self) -> u32 {
        self.id
    }
}

impl satrs::mode_tree::ModeParent for ParentNode {
    type Sender = &'static str;

    fn spec_child_sender(&self, id: u32) -> Option<&'static str> {
        self.children.iter().rev().find(|c| c.0 == id).map(|c| c.1)
    }

    fn add_mode_child(&mut self, id: u32, request_sender: Self::Sender) {
        self.children.push((id, request_sender));
    }
}

impl satrs::mode_tree::ModeChild for ChildNode {
    type Sender = &'static str;

    fn spec_parent_sender(&self, id: u32) -> Option<&'static str> {
        self.parents.iter().rev().find(|p| p.0 == id).map(|p| p.1)
    }

    fn add_mode_parent(&mut self, id: u32, reply_sender: Self::Sender) {
        self.parents.push((id, reply_sender));
    }
}

#[test]
fn connect_mode_nodes_links_parent_and_child() {
    let mut parent = ParentNode { id: 10, children: Vec::new() };
    let mut child = ChildNode { id: 20, parents: Vec::new() };
    satrs::mode_tree::connect_mode_nodes(&mut parent, "req", &mut child, "reply");
    assert_eq!(parent.children, vec![(20, "req")]);
    assert_eq!(child.parents, vec![(10, "reply")]);
}
