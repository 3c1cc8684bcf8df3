use std::cell::RefCell;

use satrs::dev_mgmt::{AssemblyCommandingHelper, AssemblyHelperResult};
use satrs::legacy::subsystem::ModeTreeHelperState;
use satrs::mode::{ModeAndSubmode, ModeReply, ModeRequest, ModeRequestSender};
use satrs::mode_tree::ModeStoreProvider;
use satrs::queue::{GenericSendError, GenericTargetedMessagingError};
use satrs::request::{GenericMessage, MessageMetadata, RequestId};
use satrs::res_code::ResultU16;
use satrs::ComponentId;

#[derive(Default)]
struct SenderMock {
    requests: RefCell<Vec<(RequestId, ComponentId, ModeRequest)>>,
    fail_for: Option<ComponentId>,
}

impl ModeRequestSender for SenderMock {
    fn spec_accepts_all(&self) -> bool {
        self.fail_for.is_none()
    }

    fn spec_sent(&self) -> Vec<(RequestId, ComponentId, ModeRequest)> {
        self.requests.borrow().clone()
    }

    fn local_channel_id(&self) -> ComponentId {
        0
    }

    fn send_mode_request(
        &mut self,
        request_id: RequestId,
        target_id: ComponentId,
        request: ModeRequest,
    ) -> Result<(), GenericSendError> {
        if self.fail_for == Some(target_id) {
            return Err(GenericSendError::TargetDoesNotExist(target_id));
        }
        self.requests.borrow_mut().push((request_id, target_id, request));
        Ok(())
    }
}

fn helper_with_two_children() -> AssemblyCommandingHelper {
    let mut helper = AssemblyCommandingHelper::default();
    helper.add_mode_child(1, ModeAndSubmode::new(0, 0));
    helper.add_mode_child(2, ModeAndSubmode::new(0, 0));
    helper
}

#[test]
fn assembly_commanding_completes_after_all_replies() {
    let mut helper = helper_with_two_children();
    let mut sender = SenderMock::default();
    let target = ModeAndSubmode::new(3, 1);
    helper
        .send_mode_cmd_to_all_children_with_reply_awaition(5, target, false, &mut sender)
        .unwrap();
    assert_eq!(helper.state, ModeTreeHelperState::ModeCommanding);
    assert_eq!(helper.active_request_id, Some(5));
    assert_eq!(sender.requests.borrow().len(), 2);
    assert_eq!(
        sender.requests.borrow()[1],
        (5, 2, ModeRequest::SetMode { mode_and_submode: target, forced: false })
    );
    assert_eq!(helper.count_number_of_children_with_target_mode(), Some(0));
    let reply0 = GenericMessage::new(MessageMetadata::new(5, 1), ModeReply::ModeReply(target));
    assert_eq!(helper.handle_mode_reply(&reply0), AssemblyHelperResult::Idle);
    assert_eq!(helper.count_number_of_children_with_target_mode(), Some(1));
    let reply1 = GenericMessage::new(MessageMetadata::new(5, 2), ModeReply::ModeReply(target));
    assert_eq!(helper.handle_mode_reply(&reply1), AssemblyHelperResult::ModeCommandingDone);
    assert_eq!(helper.state, ModeTreeHelperState::TargetKeeping);
    assert_eq!(helper.active_request_id, None);
    assert_eq!(helper.count_number_of_children_with_target_mode(), Some(2));
    // A child reporting another mode violates the target mode.
    let wrong = GenericMessage::new(
        MessageMetadata::new(6, 2),
        ModeReply::WrongMode { expected: target, reached: ModeAndSubmode::new(1, 0) },
    );
    assert_eq!(helper.handle_mode_reply(&wrong), AssemblyHelperResult::TargetKeepingViolation(2));
}

#[test]
fn assembly_ignores_replies_of_strangers_and_old_requests() {
    let mut helper = helper_with_two_children();
    let mut sender = SenderMock::default();
    let target = ModeAndSubmode::new(3, 1);
    helper
        .send_mode_cmd_to_all_children_with_reply_awaition(5, target, true, &mut sender)
        .unwrap();
    let stranger = GenericMessage::new(MessageMetadata::new(5, 9), ModeReply::ModeReply(target));
    assert_eq!(helper.handle_mode_reply(&stranger), AssemblyHelperResult::Idle);
    let old = GenericMessage::new(MessageMetadata::new(4, 1), ModeReply::CantReachMode(ResultU16::new(1, 1)));
    assert_eq!(helper.handle_mode_reply(&old), AssemblyHelperResult::Idle);
    assert!(helper.children_mode_store.0[0].awaiting_reply);
    assert_eq!(helper.state, ModeTreeHelperState::ModeCommanding);
}

#[test]
fn assembly_send_error_is_returned() {
    let mut helper = helper_with_two_children();
    let mut sender = SenderMock { fail_for: Some(2), ..Default::default() };
    let result = helper.send_mode_cmd_to_all_children_with_reply_awaition(
        5,
        ModeAndSubmode::new(1, 1),
        false,
        &mut sender,
    );
    assert_eq!(
        result,
        Err(GenericTargetedMessagingError::Send(GenericSendError::TargetDoesNotExist(2)))
    );
    assert!(helper.children_mode_store.0[0].awaiting_reply);
    assert!(!helper.children_mode_store.0[1].awaiting_reply);
    assert_eq!(helper.state, ModeTreeHelperState::Idle);
}

#[test]
fn assembly_announce_and_count_without_target() {
    let helper = helper_with_two_children();
    let mut sender = SenderMock::default();
    assert_eq!(helper.count_number_of_children_with_target_mode(), None);
    helper.send_announce_mode_cmd_to_children(3, &mut sender, true).unwrap();
    assert_eq!(
        *sender.requests.borrow(),
        vec![(3, 1, ModeRequest::AnnounceModeRecursive), (3, 2, ModeRequest::AnnounceModeRecursive)]
    );
    assert!(helper.children_mode_store.has_component(2));
}
