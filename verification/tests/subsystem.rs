use std::cell::RefCell;
use std::collections::VecDeque;

use satrs::health::{HealthState, HealthTableProvider};
use satrs::legacy::subsystem::{
    IsChildCommandable, ModeCommandingResult, ModeTreeHelperState, SequenceExecutionHelper,
    SequenceExecutionHelperState, StartSequenceError, SubsystemCommandingHelper,
    SubsystemHelperResult, ModeTreeHelperError,
};
use satrs::mode::{Mode, ModeAndSubmode, ModeReply, ModeRequest, ModeRequestSender, UNKNOWN_MODE_VAL};
use satrs::mode_tree::{
    ModeStoreProvider, ModeStoreVec, SequenceModeTables, SequenceTableEntry,
    SequenceTableMapTable, SequenceTablesMapValue, TargetModeTables, TargetTableEntry,
    TargetTablesMapValue,
};
use satrs::queue::{GenericSendError, GenericTargetedMessagingError};
use satrs::request::{GenericMessage, MessageMetadata, RequestId};
use satrs::ComponentId;

const TARGET0: ComponentId = 1;
const TARGET1: ComponentId = 2;
const TARGET2: ComponentId = 3;

const MODE0: Mode = 1;
const MODE1: Mode = 2;
const MODE2: Mode = 3;

struct ModeReqWrapper {
    request_id: RequestId,
    target_id: ComponentId,
    request: ModeRequest,
}

#[derive(Default)]
struct ModeReqSenderMock {
    requests: RefCell<VecDeque<ModeReqWrapper>>,
}

impl ModeRequestSender for ModeReqSenderMock {
    fn spec_accepts_all(&self) -> bool {
        true
    }

    fn spec_sent(&self) -> Vec<(RequestId, ComponentId, ModeRequest)> {
        self.requests
            .borrow()
            .iter()
            .map(|w| (w.request_id, w.target_id, w.request))
            .collect()
    }

    fn local_channel_id(&self) -> ComponentId {
        0
    }

    fn send_mode_request(
        &mut self,
        request_id: RequestId,
        target_id: ComponentId,
        request: ModeRequest,
    ) -> Result<(), GenericSendError> {
        self.requests.borrow_mut().push_back(ModeReqWrapper {
            request_id,
            target_id,
            request,
        });
        Ok(())
    }
}

#[derive(Debug, Default)]
struct IsCommandableMock {
    commandable_map: std::collections::HashMap<ComponentId, bool>,
}

impl IsChildCommandable for IsCommandableMock {
    fn spec_is_commandable(&self, id: ComponentId) -> bool {
        self.is_commandable(id)
    }

    fn is_commandable(&self, id: ComponentId) -> bool {
        self.commandable_map.get(&id).copied().unwrap_or(true)
    }
}

struct SequenceExecutorTestbench {
    sender: ModeReqSenderMock,
    mode_store: ModeStoreVec,
    seq_tables: SequenceModeTables,
    execution_helper: SequenceExecutionHelper,
    is_commandable_mock: IsCommandableMock,
}

impl SequenceExecutorTestbench {
    fn new() -> Self {
        Self::new_with(|_, _| {})
    }

    /// A testbench whose sample sequence tables are adjusted before they are stored.
    fn new_with(adjust: impl Fn(Mode, &mut SequenceTablesMapValue)) -> Self {
        let mode_store = create_default_mode_store();
        let (seq_tables, _) = create_simple_sample_seq_tables_with(adjust);
        Self {
            sender: ModeReqSenderMock::default(),
            mode_store,
            seq_tables,
            execution_helper: SequenceExecutionHelper::new(),
            is_commandable_mock: IsCommandableMock::default(),
        }
    }

    fn run(&mut self) -> Result<ModeCommandingResult, GenericTargetedMessagingError> {
        self.execution_helper.run(
            &self.seq_tables,
            &mut self.sender,
            &mut self.mode_store,
            &self.is_commandable_mock,
        )
    }

    fn check_run_is_no_op(&mut self) {
        // Assure that no unexpected behaviour occurs.
        assert_eq!(
            self.execution_helper
                .run(
                    &self.seq_tables,
                    &mut self.sender,
                    &mut self.mode_store,
                    &self.is_commandable_mock
                )
                .unwrap(),
            ModeCommandingResult::Done
        );
        assert_eq!(
            self.execution_helper.state(),
            SequenceExecutionHelperState::Idle
        );
        assert!(self.sender.requests.borrow().is_empty());
    }

    fn generic_checks_subsystem_md1_step0(&mut self, expected_req_id: RequestId) {
        assert_eq!(
            self.execution_helper.target_mode().unwrap(),
            MODE1
        );
        assert_eq!(self.sender.requests.borrow().len(), 2);
        let req_0 = self.sender.requests.get_mut().pop_front().unwrap();
        assert_eq!(req_0.target_id, TARGET0);
        assert_eq!(req_0.request_id, expected_req_id);
        assert_eq!(
            req_0.request,
            ModeRequest::SetMode {
                mode_and_submode: subsystem_md1_st0_tgt0_mode(),
                forced: false
            }
        );
        let req_1 = self.sender.requests.borrow_mut().pop_front().unwrap();
        assert_eq!(req_1.target_id, TARGET1);
        assert_eq!(
            req_1.request,
            ModeRequest::SetMode {
                mode_and_submode: subsystem_md1_st0_tgt1_mode(),
                forced: false
            }
        );
    }
    fn generic_checks_subsystem_md1_step1(&mut self, expected_req_id: RequestId) {
        assert_eq!(
            self.execution_helper.target_mode().unwrap(),
            MODE1
        );
        assert_eq!(self.sender.requests.borrow().len(), 1);
        let req_0 = self.sender.requests.get_mut().pop_front().unwrap();
        assert_eq!(req_0.target_id, TARGET2);
        assert_eq!(req_0.request_id, expected_req_id);
        assert_eq!(
            req_0.request,
            ModeRequest::SetMode {
                mode_and_submode: subsystem_md1_st1_tgt2_mode(),
                forced: false
            }
        );
    }

    fn generic_checks_subsystem_md0(&mut self, expected_req_id: RequestId) {
        assert_eq!(
            self.execution_helper.target_mode().unwrap(),
            MODE0
        );
        assert_eq!(self.execution_helper.current_sequence_index().unwrap(), 0);
        assert_eq!(self.sender.requests.borrow().len(), 2);
        let req_0 = self.sender.requests.get_mut().pop_front().unwrap();
        assert_eq!(req_0.target_id, TARGET0);
        assert_eq!(req_0.request_id, expected_req_id);
        assert_eq!(
            req_0.request,
            ModeRequest::SetMode {
                mode_and_submode: subsystem_md0_tgt0_mode(),
                forced: false
            }
        );
        let req_1 = self.sender.requests.borrow_mut().pop_front().unwrap();
        assert_eq!(req_1.target_id, TARGET1);
        assert_eq!(
            req_1.request,
            ModeRequest::SetMode {
                mode_and_submode: subsystem_md0_tgt1_mode(),
                forced: false
            }
        );
    }
}

fn create_default_mode_store() -> ModeStoreVec {
    let mut mode_store = ModeStoreVec::default();
    mode_store.add_component(TARGET0, ModeAndSubmode::new(UNKNOWN_MODE_VAL, 0));
    mode_store.add_component(TARGET1, ModeAndSubmode::new(UNKNOWN_MODE_VAL, 0));
    mode_store.add_component(TARGET2, ModeAndSubmode::new(UNKNOWN_MODE_VAL, 0));
    mode_store
}

fn create_simple_sample_seq_tables() -> (SequenceModeTables, TargetModeTables) {
    create_simple_sample_seq_tables_with(|_, _| {})
}

fn create_simple_sample_seq_tables_with(
    adjust: impl Fn(Mode, &mut SequenceTablesMapValue),
) -> (SequenceModeTables, TargetModeTables) {
    let mut seq_tables = SequenceModeTables::default();
    // Mode 0 - One step command
    let mut table_val = SequenceTablesMapValue::new("MODE_0");
    let mut table_seq_0 = SequenceTableMapTable::new("MODE_0_SEQ_0");
    table_seq_0.add_entry(SequenceTableEntry::new(
        "TARGET_0",
        TARGET0,
        subsystem_md0_tgt0_mode(),
        false,
    ));
    table_seq_0.add_entry(SequenceTableEntry::new(
        "TARGET_1",
        TARGET1,
        subsystem_md0_tgt1_mode(),
        false,
    ));
    table_val.add_sequence_table(table_seq_0);
    adjust(MODE0, &mut table_val);
    seq_tables.insert(MODE0, table_val);

    // Mode 1 - Multi Step command
    let mut table_val = SequenceTablesMapValue::new("MODE_1");
    let mut table_seq_0 = SequenceTableMapTable::new("MODE_1_SEQ_0");
    table_seq_0.add_entry(SequenceTableEntry::new(
        "MD1_SEQ0_TGT0",
        TARGET0,
        subsystem_md1_st0_tgt0_mode(),
        false,
    ));
    table_seq_0.add_entry(SequenceTableEntry::new(
        "MD1_SEQ0_TGT1",
        TARGET1,
        subsystem_md1_st0_tgt1_mode(),
        false,
    ));
    table_val.add_sequence_table(table_seq_0);
    let mut table_seq_1 = SequenceTableMapTable::new("MODE_1_SEQ_1");
    table_seq_1.add_entry(SequenceTableEntry::new(
        "MD1_SEQ1_TGT2",
        TARGET2,
        subsystem_md1_st1_tgt2_mode(),
        false,
    ));
    table_val.add_sequence_table(table_seq_1);
    adjust(MODE1, &mut table_val);
    seq_tables.insert(MODE1, table_val);

    let mode_tables = TargetModeTables::default();
    // The tests only need the sequence tables.
    (seq_tables, mode_tables)
}

struct SubsystemHelperTestbench {
    sender: ModeReqSenderMock,
    helper: SubsystemCommandingHelper,
    is_commandable_mock: IsCommandableMock,
}

impl SubsystemHelperTestbench {
    fn new() -> Self {
        Self::new_with(|_, _| {})
    }

    /// A testbench whose sample sequence tables are adjusted before they are stored.
    fn new_with(adjust: impl Fn(Mode, &mut SequenceTablesMapValue)) -> Self {
        let (sequence_tables, target_tables) = create_simple_sample_seq_tables_with(adjust);
        Self {
            sender: ModeReqSenderMock::default(),
            helper: SubsystemCommandingHelper::new(
                create_default_mode_store(),
                target_tables,
                sequence_tables,
            ),
            is_commandable_mock: IsCommandableMock::default(),
        }
    }

    fn start_command_sequence(
        &mut self,
        mode: Mode,
        request_id: RequestId,
    ) -> Result<(), StartSequenceError> {
        self.helper.start_command_sequence(mode, request_id)
    }

    fn send_announce_mode_cmd_to_children(
        &mut self,
        request_id: RequestId,
        recursive: bool,
    ) -> Result<(), GenericTargetedMessagingError> {
        self.helper
            .send_announce_mode_cmd_to_children(request_id, &mut self.sender, recursive)
    }

    fn state_machine(
        &mut self,
        opt_reply: Option<GenericMessage<ModeReply>>,
    ) -> Result<SubsystemHelperResult, ModeTreeHelperError> {
        self.helper
            .state_machine(opt_reply, &mut self.sender, &self.is_commandable_mock)
    }

    fn generic_checks_subsystem_md0(&mut self, expected_req_id: RequestId) {
        assert_eq!(self.sender.requests.borrow().len(), 2);
        let req0 = self.sender.requests.borrow_mut().pop_front().unwrap();
        assert_eq!(req0.request_id, expected_req_id);
        assert_eq!(req0.target_id, TARGET0);
        assert_eq!(
            req0.request,
            ModeRequest::SetMode {
                mode_and_submode: subsystem_md0_tgt0_mode(),
                forced: false
            }
        );

        let req1 = self.sender.requests.borrow_mut().pop_front().unwrap();
        assert_eq!(req1.request_id, expected_req_id);
        assert_eq!(req1.target_id, TARGET1);
        assert_eq!(
            req1.request,
            ModeRequest::SetMode {
                mode_and_submode: subsystem_md0_tgt1_mode(),
                forced: false
            }
        );
    }

    fn generic_checks_subsystem_md1_step0(&mut self, expected_req_id: RequestId) {
        assert_eq!(self.sender.requests.borrow().len(), 2);
        let req0 = self.sender.requests.borrow_mut().pop_front().unwrap();
        assert_eq!(req0.request_id, expected_req_id);
        assert_eq!(req0.target_id, TARGET0);
        assert_eq!(
            req0.request,
            ModeRequest::SetMode {
                mode_and_submode: subsystem_md1_st0_tgt0_mode(),
                forced: false
            }
        );

        let req1 = self.sender.requests.borrow_mut().pop_front().unwrap();
        assert_eq!(req1.request_id, expected_req_id);
        assert_eq!(req1.target_id, TARGET1);
        assert_eq!(
            req1.request,
            ModeRequest::SetMode {
                mode_and_submode: subsystem_md1_st0_tgt1_mode(),
                forced: false
            }
        );
    }

    fn generic_checks_subsystem_md1_step1(&mut self, expected_req_id: RequestId) {
        assert_eq!(self.sender.requests.borrow().len(), 1);
        let req0 = self.sender.requests.borrow_mut().pop_front().unwrap();
        assert_eq!(req0.request_id, expected_req_id);
        assert_eq!(req0.target_id, TARGET2);
        assert_eq!(
            req0.request,
            ModeRequest::SetMode {
                mode_and_submode: subsystem_md1_st1_tgt2_mode(),
                forced: false
            }
        );
    }
}

fn subsystem_md0_tgt0_mode() -> ModeAndSubmode {
    ModeAndSubmode::new(MODE0, 0)
}
fn subsystem_md0_tgt1_mode() -> ModeAndSubmode {
    ModeAndSubmode::new(MODE1, 0)
}

fn subsystem_md1_st0_tgt0_mode() -> ModeAndSubmode {
    ModeAndSubmode::new(MODE2, 0)
}
fn subsystem_md1_st0_tgt1_mode() -> ModeAndSubmode {
    ModeAndSubmode::new(MODE0, 0)
}
fn subsystem_md1_st1_tgt2_mode() -> ModeAndSubmode {
    ModeAndSubmode::new(MODE1, 0)
}

#[test]
fn test_init_state() {
    let execution_helper = SequenceExecutionHelper::new();
    assert_eq!(execution_helper.state(), SequenceExecutionHelperState::Idle);
    assert!(!execution_helper.awaiting_success_check());
    assert!(execution_helper.target_mode().is_none());
    assert!(execution_helper.current_sequence_index().is_none());
}

#[test]
fn test_sequence_execution_helper_no_success_check() {
    let mut tb = SequenceExecutorTestbench::new();
    let expected_req_id = 1;
    tb.execution_helper
        .load(MODE0, expected_req_id, &tb.seq_tables)
        .unwrap();
    assert_eq!(
        tb.execution_helper.state(),
        SequenceExecutionHelperState::Busy
    );
    assert!(!tb.execution_helper.awaiting_success_check());
    assert_eq!(
        tb.execution_helper.target_mode().unwrap(),
        MODE0
    );
    assert_eq!(
        tb.run().expect("sequence exeecution helper run failure"),
        ModeCommandingResult::Done
    );
    assert_eq!(
        tb.execution_helper.state(),
        SequenceExecutionHelperState::Idle
    );
    assert!(!tb.execution_helper.awaiting_success_check());
    tb.generic_checks_subsystem_md0(expected_req_id);
    tb.check_run_is_no_op();
}

#[test]
fn test_sequence_execution_helper_with_success_check() {
    let mut tb = SequenceExecutorTestbench::new_with(|mode, table| {
        if mode == MODE0 {
            table.entries[0].entries[0].check_success = true;
            table.entries[0].entries[1].check_success = true;
        }
    });
    let expected_req_id = 1;
    tb.execution_helper
        .load(MODE0, expected_req_id, &tb.seq_tables)
        .unwrap();

    assert_eq!(
        tb.execution_helper.state(),
        SequenceExecutionHelperState::Busy
    );
    assert!(!tb.execution_helper.awaiting_success_check());
    assert_eq!(
        tb.execution_helper.target_mode().unwrap(),
        MODE0
    );
    assert_eq!(
        tb.run().expect("sequence exeecution helper run failure"),
        ModeCommandingResult::AwaitingSuccessCheck
    );
    assert_eq!(
        tb.execution_helper.state(),
        SequenceExecutionHelperState::AwaitingSuccessCheck
    );
    // These are not cleared, even if the execution helper is already IDLE. This is okay for
    // now.
    assert!(tb.execution_helper.awaiting_success_check());
    tb.generic_checks_subsystem_md0(expected_req_id);
    tb.execution_helper.confirm_sequence_done();
    assert_eq!(
        tb.execution_helper.state(),
        SequenceExecutionHelperState::Idle
    );

    tb.check_run_is_no_op();
}

#[test]
fn test_sequence_execution_helper_with_partial_check() {
    let mut tb = SequenceExecutorTestbench::new_with(|mode, table| {
        if mode == MODE0 {
            table.entries[0].entries[0].check_success = true;
        }
    });
    let expected_req_id = 1;
    tb.execution_helper
        .load(MODE0, expected_req_id, &tb.seq_tables)
        .unwrap();

    assert_eq!(
        tb.execution_helper.state(),
        SequenceExecutionHelperState::Busy
    );
    assert!(!tb.execution_helper.awaiting_success_check());
    assert_eq!(
        tb.run().expect("sequence execution helper run failure"),
        ModeCommandingResult::AwaitingSuccessCheck
    );
    assert_eq!(
        tb.execution_helper.state(),
        SequenceExecutionHelperState::AwaitingSuccessCheck
    );
    // These are not cleared, even if the execution helper is already IDLE. This is okay for
    // now.
    assert!(tb.execution_helper.awaiting_success_check());
    tb.generic_checks_subsystem_md0(expected_req_id);
    tb.execution_helper.confirm_sequence_done();
    assert_eq!(
        tb.execution_helper.state(),
        SequenceExecutionHelperState::Idle
    );
    tb.check_run_is_no_op();
}

#[test]
fn test_sequence_execution_helper_multi_step_no_success_check() {
    let mut tb = SequenceExecutorTestbench::new();
    let expected_req_id = 1;
    tb.execution_helper
        .load(MODE1, expected_req_id, &tb.seq_tables)
        .unwrap();
    assert_eq!(
        tb.execution_helper.state(),
        SequenceExecutionHelperState::Busy
    );
    assert!(!tb.execution_helper.awaiting_success_check());
    assert_eq!(
        tb.execution_helper.target_mode().unwrap(),
        MODE1
    );
    assert_eq!(
        tb.run().expect("sequence execution helper run failure"),
        ModeCommandingResult::StepDone
    );
    assert_eq!(
        tb.execution_helper.state(),
        SequenceExecutionHelperState::Busy
    );
    assert!(!tb.execution_helper.awaiting_success_check());
    tb.generic_checks_subsystem_md1_step0(expected_req_id);
    assert_eq!(tb.execution_helper.current_sequence_index().unwrap(), 1);

    assert_eq!(
        tb.run().expect("sequence execution helper run failure"),
        ModeCommandingResult::Done
    );
    tb.generic_checks_subsystem_md1_step1(expected_req_id);
    assert_eq!(
        tb.execution_helper.state(),
        SequenceExecutionHelperState::Idle
    );
    tb.check_run_is_no_op();
}

#[test]
fn test_sequence_execution_helper_multi_step_full_success_check() {
    // Loading only checks that the mode has a table, so the success checks may be set on the
    // table before it is stored.
    let mut tb = SequenceExecutorTestbench::new_with(|mode, table| {
        if mode == MODE1 {
            table.entries[0].entries[0].check_success = true;
            table.entries[0].entries[1].check_success = true;
            table.entries[1].entries[0].check_success = true;
        }
    });
    let expected_req_id = 1;
    tb.execution_helper
        .load(MODE1, expected_req_id, &tb.seq_tables)
        .unwrap();

    assert_eq!(
        tb.execution_helper.state(),
        SequenceExecutionHelperState::Busy
    );
    assert!(!tb.execution_helper.awaiting_success_check());
    assert_eq!(
        tb.execution_helper.target_mode().unwrap(),
        MODE1
    );
    assert_eq!(
        tb.run().expect("sequence execution helper run failure"),
        ModeCommandingResult::AwaitingSuccessCheck
    );
    assert_eq!(
        tb.execution_helper.state(),
        SequenceExecutionHelperState::AwaitingSuccessCheck
    );
    assert!(tb.execution_helper.awaiting_success_check());
    tb.generic_checks_subsystem_md1_step0(expected_req_id);
    assert_eq!(tb.execution_helper.current_sequence_index().unwrap(), 0);
    tb.execution_helper.confirm_sequence_done();

    assert_eq!(
        tb.run().expect("sequence execution helper run failure"),
        ModeCommandingResult::AwaitingSuccessCheck
    );
    assert_eq!(
        tb.execution_helper.state(),
        SequenceExecutionHelperState::AwaitingSuccessCheck
    );
    assert!(tb.execution_helper.awaiting_success_check());
    assert_eq!(tb.execution_helper.current_sequence_index().unwrap(), 1);
    tb.generic_checks_subsystem_md1_step1(expected_req_id);
    tb.execution_helper.confirm_sequence_done();
    tb.check_run_is_no_op();
}

// Tests of the subsystem commanding helper.
#[test]
fn test_subsystem_helper_basic_state() {
    let tb = SubsystemHelperTestbench::new();
    assert_eq!(tb.helper.state(), ModeTreeHelperState::Idle);
    assert!(tb.helper.internal_request_id().is_none());
    assert_eq!(tb.helper.mode(), UNKNOWN_MODE_VAL);
    assert!(tb.helper.request_id().is_none());
}

#[test]
fn test_subsystem_helper_announce_recursive() {
    let mut tb = SubsystemHelperTestbench::new();
    let expected_req_id = 1;
    tb.send_announce_mode_cmd_to_children(expected_req_id, true)
        .unwrap();
    assert_eq!(tb.sender.requests.borrow().len(), 3);
    let check_req = |req: ModeReqWrapper, target_id: ComponentId| {
        assert_eq!(req.target_id, target_id);
        assert_eq!(req.request_id, expected_req_id);
        assert_eq!(req.request, ModeRequest::AnnounceModeRecursive);
    };
    let req0 = tb.sender.requests.borrow_mut().pop_front().unwrap();
    check_req(req0, TARGET0);
    let req1 = tb.sender.requests.borrow_mut().pop_front().unwrap();
    check_req(req1, TARGET1);
    let req2 = tb.sender.requests.borrow_mut().pop_front().unwrap();
    check_req(req2, TARGET2);
}

#[test]
fn test_subsystem_helper_announce() {
    let mut tb = SubsystemHelperTestbench::new();
    let expected_req_id = 1;
    tb.send_announce_mode_cmd_to_children(expected_req_id, false)
        .unwrap();
    assert_eq!(tb.sender.requests.borrow().len(), 3);
    let check_req = |req: ModeReqWrapper, target_id: ComponentId| {
        assert_eq!(req.target_id, target_id);
        assert_eq!(req.request_id, expected_req_id);
        assert_eq!(req.request, ModeRequest::AnnounceMode);
    };
    let req0 = tb.sender.requests.borrow_mut().pop_front().unwrap();
    check_req(req0, TARGET0);
    let req1 = tb.sender.requests.borrow_mut().pop_front().unwrap();
    check_req(req1, TARGET1);
    let req2 = tb.sender.requests.borrow_mut().pop_front().unwrap();
    check_req(req2, TARGET2);
}

#[test]
fn test_subsystem_helper_cmd_mode0_no_success_checks() {
    let mut tb = SubsystemHelperTestbench::new();
    let expected_req_id = 1;
    tb.start_command_sequence(MODE0, expected_req_id)
        .unwrap();
    assert_eq!(tb.helper.request_id().unwrap(), 1);
    assert_eq!(tb.helper.state(), ModeTreeHelperState::ModeCommanding);
    assert_eq!(tb.sender.requests.borrow().len(), 0);
    assert_eq!(
        tb.state_machine(None).unwrap(),
        SubsystemHelperResult::ModeCommanding(ModeCommandingResult::Done)
    );
    assert_eq!(tb.helper.state(), ModeTreeHelperState::TargetKeeping);
    assert_eq!(tb.helper.mode(), MODE0);
    tb.generic_checks_subsystem_md0(tb.helper.internal_request_id().unwrap());
    // FSM call should be a no-op.
    assert_eq!(
        tb.state_machine(None).unwrap(),
        SubsystemHelperResult::TargetKeeping
    );
    assert_eq!(tb.helper.state(), ModeTreeHelperState::TargetKeeping);
    assert_eq!(tb.helper.mode(), MODE0);
}

#[test]
fn test_subsystem_helper_cmd_mode1_no_success_checks() {
    let mut tb = SubsystemHelperTestbench::new();
    let expected_req_id = 1;
    tb.start_command_sequence(MODE1, expected_req_id)
        .unwrap();
    assert_eq!(tb.helper.state(), ModeTreeHelperState::ModeCommanding);
    assert_eq!(tb.sender.requests.borrow().len(), 0);
    // Need to cache this before it is incremented, because it is incremented
    // immediately in the state machine (no reply checking)
    let expected_req_id = tb.helper.internal_request_id().unwrap();
    assert_eq!(
        tb.state_machine(None).unwrap(),
        SubsystemHelperResult::ModeCommanding(ModeCommandingResult::StepDone)
    );
    // Assert that this was already incremented because no reply checking is necessary.
    assert_eq!(
        tb.helper.internal_request_id().unwrap(),
        expected_req_id + 1
    );
    assert_eq!(tb.helper.state(), ModeTreeHelperState::ModeCommanding);
    assert_eq!(tb.helper.mode(), UNKNOWN_MODE_VAL);
    tb.generic_checks_subsystem_md1_step0(expected_req_id);
    // Second commanding step.
    assert_eq!(
        tb.state_machine(None).unwrap(),
        SubsystemHelperResult::ModeCommanding(ModeCommandingResult::Done)
    );
    assert_eq!(tb.helper.state(), ModeTreeHelperState::TargetKeeping);
    assert_eq!(tb.helper.mode(), MODE1);
    tb.generic_checks_subsystem_md1_step1(tb.helper.internal_request_id().unwrap());

    // FSM call should be a no-op.
    assert_eq!(
        tb.state_machine(None).unwrap(),
        SubsystemHelperResult::TargetKeeping
    );
    assert_eq!(tb.helper.state(), ModeTreeHelperState::TargetKeeping);
    assert_eq!(tb.helper.mode(), MODE1);
}

#[test]
fn test_subsystem_helper_cmd_mode0_with_success_checks() {
    let mut tb = SubsystemHelperTestbench::new_with(|mode, table| {
        if mode == MODE0 {
            table.entries[0].entries[0].check_success = true;
            table.entries[0].entries[1].check_success = true;
        }
    });
    let expected_req_id = 1;
    tb.start_command_sequence(MODE0, expected_req_id)
        .unwrap();
    assert_eq!(tb.helper.state(), ModeTreeHelperState::ModeCommanding);
    assert_eq!(tb.sender.requests.borrow().len(), 0);
    assert_eq!(
        tb.state_machine(None).unwrap(),
        SubsystemHelperResult::ModeCommanding(ModeCommandingResult::AwaitingSuccessCheck)
    );
    assert_eq!(tb.helper.state(), ModeTreeHelperState::ModeCommanding);
    assert_eq!(tb.helper.mode(), UNKNOWN_MODE_VAL);
    tb.generic_checks_subsystem_md0(tb.helper.internal_request_id().unwrap());
    let mode_reply_ok_0 = GenericMessage::new(
        MessageMetadata::new(
            tb.helper.internal_request_id().unwrap(),
            TARGET0,
        ),
        ModeReply::ModeInfo(subsystem_md0_tgt0_mode()),
    );
    let mode_reply_ok_1 = GenericMessage::new(
        MessageMetadata::new(
            tb.helper.internal_request_id().unwrap(),
            TARGET1,
        ),
        ModeReply::ModeInfo(subsystem_md0_tgt1_mode()),
    );
    // One success reply still expected.
    assert_eq!(
        tb.state_machine(Some(mode_reply_ok_0)).unwrap(),
        SubsystemHelperResult::ModeCommanding(ModeCommandingResult::AwaitingSuccessCheck)
    );
    assert_eq!(
        tb.state_machine(Some(mode_reply_ok_1)).unwrap(),
        SubsystemHelperResult::ModeCommanding(ModeCommandingResult::Done)
    );

    // FSM call should be a no-op.
    assert_eq!(
        tb.state_machine(None).unwrap(),
        SubsystemHelperResult::TargetKeeping
    );
    assert_eq!(tb.helper.state(), ModeTreeHelperState::TargetKeeping);
    assert_eq!(tb.helper.mode(), MODE0);
}

#[test]
fn test_subsystem_helper_cmd_mode1_with_success_checks() {
    let mut tb = SubsystemHelperTestbench::new_with(|mode, table| {
        if mode == MODE1 {
            table.entries[0].entries[0].check_success = true;
            table.entries[0].entries[1].check_success = true;
            table.entries[1].entries[0].check_success = true;
        }
    });
    let expected_req_id = 1;
    tb.start_command_sequence(MODE1, expected_req_id)
        .unwrap();
    assert_eq!(tb.helper.state(), ModeTreeHelperState::ModeCommanding);
    assert_eq!(tb.sender.requests.borrow().len(), 0);
    assert_eq!(
        tb.state_machine(None).unwrap(),
        SubsystemHelperResult::ModeCommanding(ModeCommandingResult::AwaitingSuccessCheck)
    );
    assert_eq!(tb.helper.state(), ModeTreeHelperState::ModeCommanding);
    assert_eq!(tb.helper.mode(), UNKNOWN_MODE_VAL);
    tb.generic_checks_subsystem_md1_step0(tb.helper.internal_request_id().unwrap());
    let mode_reply_ok_0 = GenericMessage::new(
        MessageMetadata::new(
            tb.helper.internal_request_id().unwrap(),
            TARGET0,
        ),
        ModeReply::ModeInfo(subsystem_md0_tgt0_mode()),
    );
    let mode_reply_ok_1 = GenericMessage::new(
        MessageMetadata::new(
            tb.helper.internal_request_id().unwrap(),
            TARGET1,
        ),
        ModeReply::ModeInfo(subsystem_md0_tgt1_mode()),
    );
    // One success reply still expected.
    assert_eq!(
        tb.state_machine(Some(mode_reply_ok_0)).unwrap(),
        SubsystemHelperResult::ModeCommanding(ModeCommandingResult::AwaitingSuccessCheck)
    );
    assert_eq!(
        tb.state_machine(Some(mode_reply_ok_1)).unwrap(),
        SubsystemHelperResult::ModeCommanding(ModeCommandingResult::StepDone)
    );

    assert_eq!(
        tb.state_machine(None).unwrap(),
        SubsystemHelperResult::ModeCommanding(ModeCommandingResult::AwaitingSuccessCheck)
    );
    let mode_reply_ok = GenericMessage::new(
        MessageMetadata::new(
            tb.helper.internal_request_id().unwrap(),
            TARGET2,
        ),
        ModeReply::ModeInfo(subsystem_md1_st1_tgt2_mode()),
    );
    assert_eq!(
        tb.state_machine(Some(mode_reply_ok)).unwrap(),
        SubsystemHelperResult::ModeCommanding(ModeCommandingResult::Done)
    );

    // FSM call should be a no-op.
    assert_eq!(
        tb.state_machine(None).unwrap(),
        SubsystemHelperResult::TargetKeeping
    );
    assert_eq!(tb.helper.state(), ModeTreeHelperState::TargetKeeping);
    assert_eq!(tb.helper.mode(), MODE1);
}

#[test]
fn test_subsystem_helper_cmd_mode1_with_partial_success_checks_0() {
    let mut tb = SubsystemHelperTestbench::new_with(|mode, table| {
        if mode == MODE1 {
            table.entries[0].entries[0].check_success = true;
            table.entries[0].entries[1].check_success = false;
            table.entries[1].entries[0].check_success = false;
        }
    });
    let expected_req_id = 1;
    tb.start_command_sequence(MODE1, expected_req_id)
        .unwrap();
    assert_eq!(tb.helper.state(), ModeTreeHelperState::ModeCommanding);
    assert_eq!(tb.sender.requests.borrow().len(), 0);
    assert_eq!(
        tb.state_machine(None).unwrap(),
        SubsystemHelperResult::ModeCommanding(ModeCommandingResult::AwaitingSuccessCheck)
    );
    assert_eq!(tb.helper.state(), ModeTreeHelperState::ModeCommanding);
    assert_eq!(tb.helper.mode(), UNKNOWN_MODE_VAL);
    tb.generic_checks_subsystem_md1_step0(tb.helper.internal_request_id().unwrap());
    let mode_reply_ok_0 = GenericMessage::new(
        MessageMetadata::new(
            tb.helper.internal_request_id().unwrap(),
            TARGET0,
        ),
        ModeReply::ModeInfo(subsystem_md0_tgt0_mode()),
    );
    let mode_reply_ok_1 = GenericMessage::new(
        MessageMetadata::new(
            tb.helper.internal_request_id().unwrap(),
            TARGET1,
        ),
        ModeReply::ModeInfo(subsystem_md0_tgt1_mode()),
    );
    // One success reply still expected.
    assert_eq!(
        tb.state_machine(Some(mode_reply_ok_1)).unwrap(),
        SubsystemHelperResult::ModeCommanding(ModeCommandingResult::AwaitingSuccessCheck)
    );
    assert_eq!(
        tb.state_machine(Some(mode_reply_ok_0)).unwrap(),
        SubsystemHelperResult::ModeCommanding(ModeCommandingResult::StepDone)
    );

    // Inserting the reply makes no difference: This call completes the sequence commanding.
    let mode_reply_ok = GenericMessage::new(
        MessageMetadata::new(expected_req_id, TARGET2),
        ModeReply::ModeInfo(subsystem_md1_st1_tgt2_mode()),
    );
    assert_eq!(
        tb.state_machine(Some(mode_reply_ok)).unwrap(),
        SubsystemHelperResult::ModeCommanding(ModeCommandingResult::Done)
    );
    // The internal request ID is still cached.
    tb.generic_checks_subsystem_md1_step1(tb.helper.internal_request_id().unwrap());

    // FSM call should be a no-op.
    assert_eq!(
        tb.state_machine(None).unwrap(),
        SubsystemHelperResult::TargetKeeping
    );
    assert_eq!(tb.helper.state(), ModeTreeHelperState::TargetKeeping);
    assert_eq!(tb.helper.mode(), MODE1);
}

#[test]
fn test_subsystem_helper_cmd_mode1_with_partial_success_checks_1() {
    let mut tb = SubsystemHelperTestbench::new_with(|mode, table| {
        if mode == MODE1 {
            table.entries[0].entries[0].check_success = true;
            table.entries[0].entries[1].check_success = false;
            table.entries[1].entries[0].check_success = false;
        }
    });
    let expected_req_id = 1;
    tb.start_command_sequence(MODE1, expected_req_id)
        .unwrap();
    assert_eq!(tb.helper.state(), ModeTreeHelperState::ModeCommanding);
    assert_eq!(tb.sender.requests.borrow().len(), 0);
    assert_eq!(
        tb.state_machine(None).unwrap(),
        SubsystemHelperResult::ModeCommanding(ModeCommandingResult::AwaitingSuccessCheck)
    );
    assert_eq!(tb.helper.state(), ModeTreeHelperState::ModeCommanding);
    assert_eq!(tb.helper.mode(), UNKNOWN_MODE_VAL);
    tb.generic_checks_subsystem_md1_step0(tb.helper.internal_request_id().unwrap());
    let mode_reply_ok_0 = GenericMessage::new(
        MessageMetadata::new(
            tb.helper.internal_request_id().unwrap(),
            TARGET0,
        ),
        ModeReply::ModeInfo(subsystem_md0_tgt0_mode()),
    );
    let mode_reply_ok_1 = GenericMessage::new(
        MessageMetadata::new(
            tb.helper.internal_request_id().unwrap(),
            TARGET1,
        ),
        ModeReply::ModeInfo(subsystem_md0_tgt1_mode()),
    );
    // This completes the step, so the next FSM call will perform the next step
    // in sequence commanding.
    assert_eq!(
        tb.state_machine(Some(mode_reply_ok_0)).unwrap(),
        SubsystemHelperResult::ModeCommanding(ModeCommandingResult::StepDone)
    );
    assert_eq!(
        tb.state_machine(Some(mode_reply_ok_1)).unwrap(),
        SubsystemHelperResult::ModeCommanding(ModeCommandingResult::Done)
    );

    // Inserting the reply makes no difference: Sequence command is done and target keeping
    // is performed.
    let mode_reply_ok = GenericMessage::new(
        MessageMetadata::new(
            tb.helper.internal_request_id().unwrap(),
            TARGET2,
        ),
        ModeReply::ModeInfo(subsystem_md1_st1_tgt2_mode()),
    );
    assert_eq!(
        tb.state_machine(Some(mode_reply_ok)).unwrap(),
        SubsystemHelperResult::TargetKeeping
    );
    // The internal request ID is still cached.
    tb.generic_checks_subsystem_md1_step1(tb.helper.internal_request_id().unwrap());

    // FSM call should be a no-op.
    assert_eq!(
        tb.state_machine(None).unwrap(),
        SubsystemHelperResult::TargetKeeping
    );
    assert_eq!(tb.helper.state(), ModeTreeHelperState::TargetKeeping);
    assert_eq!(tb.helper.mode(), MODE1);
}

#[test]
fn subsystem_helper_rejects_request_id_above_24_bits() {
    let mut tb = SubsystemHelperTestbench::new();
    let result = tb.start_command_sequence(MODE0, 0x100_0000);
    assert_eq!(result, Err(StartSequenceError::InvalidRequestId(0x100_0000)));
    assert_eq!(tb.helper.state(), ModeTreeHelperState::Idle);
    assert!(tb.helper.internal_request_id().is_none());
}

#[test]
fn subsystem_helper_rejects_unknown_mode() {
    let mut tb = SubsystemHelperTestbench::new();
    let result = tb.start_command_sequence(MODE2, 5);
    assert!(matches!(result, Err(StartSequenceError::ModeDoesNotExist(_))));
    assert_eq!(tb.helper.state(), ModeTreeHelperState::Idle);
    assert_eq!(tb.helper.request_id(), Some(5));
}

#[test]
fn subsystem_helper_request_id_is_shifted_internally() {
    let mut tb = SubsystemHelperTestbench::new();
    tb.start_command_sequence(MODE0, 0x12_3456).unwrap();
    assert_eq!(tb.helper.internal_request_id(), Some(0x1234_5600));
    assert_eq!(tb.helper.request_id(), Some(0x12_3456));
}

#[test]
fn subsystem_helper_cant_reach_mode_fails_commanding() {
    let mut tb = SubsystemHelperTestbench::new_with(|mode, table| {
        if mode == MODE0 {
            table.entries[0].entries[0].check_success = true;
        }
    });
    tb.start_command_sequence(MODE0, 1).unwrap();
    assert_eq!(
        tb.state_machine(None).unwrap(),
        SubsystemHelperResult::ModeCommanding(ModeCommandingResult::AwaitingSuccessCheck)
    );
    let failure = GenericMessage::new(
        MessageMetadata::new(tb.helper.internal_request_id().unwrap(), TARGET0),
        ModeReply::CantReachMode(satrs::res_code::ResultU16::new(1, 2)),
    );
    // The reply of the only awaited child completes the step before the failure is reported.
    let result = tb.state_machine(Some(failure));
    assert_eq!(
        result,
        Err(ModeTreeHelperError::ModeCommmandFailure {
            seq_table_index: Some(1)
        })
    );
    assert_eq!(tb.helper.state(), ModeTreeHelperState::Idle);
}

#[test]
fn subsystem_helper_reply_of_unknown_component_is_ignored() {
    let mut tb = SubsystemHelperTestbench::new();
    let reply = GenericMessage::new(
        MessageMetadata::new(1, 99),
        ModeReply::ModeInfo(subsystem_md0_tgt0_mode()),
    );
    assert_eq!(tb.state_machine(Some(reply)).unwrap(), SubsystemHelperResult::Idle);
    assert_eq!(tb.helper.state(), ModeTreeHelperState::Idle);
}

#[test]
fn subsystem_helper_update_child_mode() {
    let mut tb = SubsystemHelperTestbench::new();
    let mode = ModeAndSubmode::new(7, 3);
    tb.helper.update_child_mode(TARGET1, mode).unwrap();
    assert_eq!(tb.helper.children_mode_store.get_mode(TARGET1), Some(mode));
    assert_eq!(
        tb.helper.update_child_mode(42, mode),
        Err(satrs::mode_tree::TargetNotInModeStoreError(42))
    );
}

#[test]
fn subsystem_helper_fallback_mode_and_target_keeping_violation() {
    let mut tb = SubsystemHelperTestbench::new();
    assert!(tb.helper.fallback_mode().is_err());
    let mut target_table = TargetTablesMapValue::new("MODE_0_TARGET", Some(MODE2));
    target_table.add_entry(TargetTableEntry::new_with_precise_submode(
        "TARGET_0",
        TARGET0,
        subsystem_md0_tgt0_mode(),
    ));
    let mut seq_val = SequenceTablesMapValue::new("MODE_0");
    let mut seq = SequenceTableMapTable::new("MODE_0_SEQ_0");
    seq.add_entry(SequenceTableEntry::new("TARGET_0", TARGET0, subsystem_md0_tgt0_mode(), false));
    seq_val.add_sequence_table(seq);
    tb.helper.add_target_and_sequence_table(MODE0, target_table, seq_val);
    tb.start_command_sequence(MODE0, 1).unwrap();
    assert_eq!(
        tb.state_machine(None).unwrap(),
        SubsystemHelperResult::ModeCommanding(ModeCommandingResult::Done)
    );
    assert_eq!(tb.helper.fallback_mode(), Ok(Some(MODE2)));
    // Child still has the unknown mode: the target mode is violated.
    assert_eq!(
        tb.state_machine(None),
        Err(ModeTreeHelperError::TargetKeepingViolation {
            fallback_mode: Some(MODE2)
        })
    );
    tb.helper
        .update_child_mode(TARGET0, subsystem_md0_tgt0_mode())
        .unwrap();
    assert_eq!(tb.state_machine(None).unwrap(), SubsystemHelperResult::TargetKeeping);
}

#[test]
fn sequence_helper_load_of_unknown_mode_fails() {
    let mut tb = SequenceExecutorTestbench::new();
    let result = tb.execution_helper.load(MODE2, 1, &tb.seq_tables);
    assert!(result.is_err());
    assert_eq!(tb.execution_helper.state(), SequenceExecutionHelperState::Idle);
}

#[test]
fn sequence_helper_skips_children_which_are_not_commandable() {
    let mut tb = SequenceExecutorTestbench::new();
    tb.is_commandable_mock.commandable_map.insert(TARGET0, false);
    tb.execution_helper.load(MODE0, 1, &tb.seq_tables).unwrap();
    assert_eq!(tb.run().unwrap(), ModeCommandingResult::Done);
    assert_eq!(tb.sender.requests.borrow().len(), 1);
    assert_eq!(tb.sender.requests.borrow()[0].target_id, TARGET1);
}

struct HealthTableMock {
    states: std::collections::HashMap<ComponentId, HealthState>,
}

impl HealthTableProvider for HealthTableMock {
    fn spec_health(&self, id: ComponentId) -> Option<HealthState> {
        self.health(id)
    }

    fn health(&self, id: ComponentId) -> Option<HealthState> {
        self.states.get(&id).copied()
    }

    fn set_health(&mut self, id: ComponentId, health: HealthState) {
        self.states.insert(id, health);
    }
}

#[test]
fn health_table_decides_commandability() {
    let mut table = HealthTableMock { states: std::collections::HashMap::new() };
    table.set_health(TARGET0, HealthState::ExternalControl);
    table.set_health(TARGET1, HealthState::Faulty);
    assert!(!table.is_commandable(TARGET0));
    assert!(table.is_commandable(TARGET1));
    assert!(table.is_commandable(TARGET2));
}

#[test]
fn run_on_empty_sequence_is_done_and_idle() {
    let mut tb = SequenceExecutorTestbench::new();
    tb.seq_tables
        .insert(MODE2, SequenceTablesMapValue::new("MODE_2_EMPTY"));
    tb.execution_helper.load(MODE2, 4, &tb.seq_tables).unwrap();
    assert_eq!(tb.run().unwrap(), ModeCommandingResult::Done);
    assert_eq!(
        tb.execution_helper.state(),
        SequenceExecutionHelperState::Idle
    );
    assert!(tb.sender.requests.borrow().is_empty());
}
