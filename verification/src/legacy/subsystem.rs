//! Helpers for subsystem components: execution of mode sequences and keeping of target modes.
use vstd::prelude::*;
use crate::health::{HealthState, HealthTableProvider};
use crate::mode::{Mode, ModeAndSubmode, ModeReply, ModeRequest, ModeRequestSender, UNKNOWN_MODE_VAL};
use crate::mode_tree::{
    ModeStoreProvider, ModeStoreVec, SequenceModeTables, SequenceTableMapTable,
    SequenceTablesMapValue, TargetModeTables, TargetNotInModeStoreError, TargetTablesMapValue,
    sequence_tables_contents, target_tables_contents, entries_contain, announce_request,
    lemma_requests_to_children_step, requests_to_children, SequenceTableEntry,
};
use crate::queue::GenericTargetedMessagingError;
use crate::request::{GenericMessage, RequestId};
use crate::ComponentId;

verus! {

#[derive(Debug, PartialEq, Eq, Copy, Clone, Structural)]
pub enum SequenceExecutionHelperState {
    /// The sequence execution is IDLE, no command is loaded or the sequence exection has
    /// finished
    Idle,
    /// The sequence helper is executing a sequence and no replies need to be awaited.
    Busy,
    /// The sequence helper is still awaiting a reply from a mode children. The reply awaition
    /// is a property of a mode commanding sequence
    AwaitingSuccessCheck,
}

#[derive(Debug, PartialEq, Eq, Copy, Clone, Structural)]
pub enum ModeCommandingResult {
    /// The commanding of all children is finished
    Done,
    /// One step of a commanding chain is finished
    StepDone,
    /// Reply awaition is required for some children
    AwaitingSuccessCheck,
}

/// The mode has no sequence table.
#[derive(Debug, Copy, Clone, PartialEq, Eq, Structural)]
pub struct ModeDoesNotExistError(pub Mode);

#[derive(Debug, Copy, Clone, PartialEq, Eq, Structural)]
pub enum StartSequenceError {
    ModeDoesNotExist(ModeDoesNotExistError),
    InvalidRequestId(RequestId),
}

impl From<ModeDoesNotExistError> for StartSequenceError {
    fn from(value: ModeDoesNotExistError) -> (r: Self) {
        StartSequenceError::ModeDoesNotExist(value)
    }
}

impl vstd::std_specs::convert::FromSpecImpl<ModeDoesNotExistError> for StartSequenceError {
    open spec fn obeys_from_spec() -> bool {
        true
    }

    open spec fn from_spec(v: ModeDoesNotExistError) -> Self {
        StartSequenceError::ModeDoesNotExist(v)
    }
}

/// An object which tells whether a child can be commanded.
///
/// It answers from its own state: asked twice about the same child, with no change of the object
/// in between, it gives the same answer.
pub trait IsChildCommandable {
    /// Whether the child can be commanded.
    spec fn spec_is_commandable(&self, id: ComponentId) -> bool;

    fn is_commandable(&self, id: ComponentId) -> (r: bool)
        ensures
            r == self.spec_is_commandable(id),
    ;
}

impl<T: HealthTableProvider> IsChildCommandable for T {
    /// A child can be commanded unless its health is [HealthState::ExternalControl].
    open spec fn spec_is_commandable(&self, id: ComponentId) -> bool {
        match self.spec_health(id) {
            Some(h) => h != HealthState::ExternalControl,
            None => true,
        }
    }

    fn is_commandable(&self, id: ComponentId) -> (r: bool) {
        match self.health(id) {
            Some(h) => h != HealthState::ExternalControl,
            None => true,
        }
    }
}

/// This sequence execution helper includes some boilerplate logic to
/// execute [SequenceModeTables].
///
/// It takes care of commanding the [ModeRequest]s specified in those tables and also includes the
/// states required to track the current progress of a sequence execution and take care of
/// reply and success awaition.
#[derive(Debug)]
pub struct SequenceExecutionHelper {
    target_mode: Option<Mode>,
    state: SequenceExecutionHelperState,
    request_id: Option<RequestId>,
    current_sequence_index: Option<usize>,
    last_sequence_index: Option<usize>,
}

/// Whether some entry of the sequence which needs a success check targets the component.
pub open spec fn checked_in_sequence(table: SequenceTableMapTable, id: ComponentId) -> bool {
    exists|e: int| 0 <= e < table.entries@.len() && #[trigger] table.entries@[e].check_success && table.entries@[e].common.target_id == id
}

/// Whether some entry among the first `n` of the sequence needs a success check and targets the
/// component, which can be commanded.
pub open spec fn commanded_with_check<C: IsChildCommandable>(table: SequenceTableMapTable, commandable: &C, id: ComponentId, n: int) -> bool {
    exists|e: int| 0 <= e < n && #[trigger] table.entries@[e].check_success && table.entries@[e].common.target_id == id && commandable.spec_is_commandable(id)
}

/// Whether some entry among the first `n` of the sequence needs a success check and targets a
/// component which can be commanded.
pub open spec fn some_commanded_with_check<C: IsChildCommandable>(table: SequenceTableMapTable, commandable: &C, n: int) -> bool {
    exists|e: int| 0 <= e < n && #[trigger] table.entries@[e].check_success && commandable.spec_is_commandable(table.entries@[e].common.target_id)
}

/// The set-mode requests which the entries of a sequence send: one request, not forced, with
/// the request ID to the target of each entry whose target can be commanded, in table order.
pub open spec fn sequence_requests<C: IsChildCommandable>(entries: Seq<SequenceTableEntry>, commandable: &C, request_id: RequestId) -> Seq<(RequestId, ComponentId, ModeRequest)>
    decreases entries.len(),
{
    if entries.len() == 0 {
        Seq::empty()
    } else {
        let prev = sequence_requests(entries.drop_last(), commandable, request_id);
        let e = entries.last();
        if commandable.spec_is_commandable(e.common.target_id) {
            prev.push((request_id, e.common.target_id, ModeRequest::SetMode { mode_and_submode: e.common.mode_submode, forced: false }))
        } else {
            prev
        }
    }
}

/// Whether some entry of the sequence needs a success check.
pub open spec fn sequence_needs_check(table: SequenceTableMapTable) -> bool {
    exists|e: int| 0 <= e < table.entries@.len() && #[trigger] table.entries@[e].check_success
}

/// The two stores hold the same children with the same modes.
pub open spec fn same_children_and_modes(a: ModeStoreVec, b: ModeStoreVec) -> bool {
    &&& a.0@.len() == b.0@.len()
    &&& forall|j: int| 0 <= j < a.0@.len() ==> #[trigger] a.0@[j].spec_id() == b.0@[j].spec_id()
    &&& forall|j: int| 0 <= j < a.0@.len() ==> #[trigger] a.0@[j].spec_mode_and_submode() == b.0@[j].spec_mode_and_submode()
}

impl SequenceExecutionHelper {
    pub closed spec fn spec_target_mode(self) -> Option<Mode> {
        self.target_mode
    }

    pub closed spec fn spec_state(self) -> SequenceExecutionHelperState {
        self.state
    }

    pub closed spec fn spec_request_id(self) -> Option<RequestId> {
        self.request_id
    }

    pub closed spec fn spec_current_sequence_index(self) -> Option<usize> {
        self.current_sequence_index
    }

    pub closed spec fn spec_last_sequence_index(self) -> Option<usize> {
        self.last_sequence_index
    }

    /// A helper which is idle and has nothing loaded.
    pub fn new() -> (r: Self)
        ensures
            r.spec_target_mode() is None,
            r.spec_state() == SequenceExecutionHelperState::Idle,
            r.spec_request_id() is None,
            r.spec_current_sequence_index() is None,
            r.spec_last_sequence_index() is None,
    {
        Self {
            target_mode: None,
            state: SequenceExecutionHelperState::Idle,
            request_id: None,
            current_sequence_index: None,
            last_sequence_index: None,
        }
    }

    /// Load a new mode sequence to be executed
    pub fn load(&mut self, mode: Mode, request_id: RequestId, sequence_tables: &SequenceModeTables) -> (r: Result<(), ModeDoesNotExistError>)
        ensures
            sequence_tables_contents(*sequence_tables).contains_key(mode) ==> r is Ok && final(self).spec_target_mode() == Some(mode) && final(self).spec_request_id() == Some(request_id) && final(self).spec_state() == SequenceExecutionHelperState::Busy && final(self).spec_current_sequence_index() is None && final(self).spec_last_sequence_index() == old(self).spec_last_sequence_index(),
            !sequence_tables_contents(*sequence_tables).contains_key(mode) ==> r == Err::<(), ModeDoesNotExistError>(ModeDoesNotExistError(mode)) && *final(self) == *old(self),
    {
        if !sequence_tables.contains_table(mode) {
            return Err(ModeDoesNotExistError(mode));
        }
        self.target_mode = Some(mode);
        self.request_id = Some(request_id);
        self.state = SequenceExecutionHelperState::Busy;
        self.current_sequence_index = None;
        Ok(())
    }

    /// Run the sequence execution helper.
    ///
    /// This function will execute the sequence in the given [SequenceModeTables] based on the
    /// mode loaded in [Self::load]. It calls [Self::execute_sequence_and_map_to_result] and
    /// automatically takes care of state management, including increments of the sequence table
    /// index.
    ///
    /// * [ModeCommandingResult::AwaitingSuccessCheck] - The sequence is still awaiting a success.
    /// * [ModeCommandingResult::Done] - The sequence is done, the helper is idle again.
    /// * [ModeCommandingResult::StepDone] - The sequence has advanced one step.
    pub fn run<S: ModeRequestSender, C: IsChildCommandable>(
        &mut self,
        table: &SequenceModeTables,
        sender: &mut S,
        children_mode_store: &mut ModeStoreVec,
        is_commandable: &C,
    ) -> (r: Result<ModeCommandingResult, GenericTargetedMessagingError>)
        requires
            old(self).spec_runs_step() ==> old(self).spec_can_run_on(*table),
        ensures
            r is Ok ==> final(sender).spec_sent()@ == old(sender).spec_sent()@ + old(self).step_requests(*table, is_commandable),
            !old(self).spec_runs_step() ==> final(sender).spec_sent() == old(sender).spec_sent(),
            old(sender).spec_accepts_all() ==> r is Ok,
            old(self).spec_state() == SequenceExecutionHelperState::Idle ==> r == Ok::<ModeCommandingResult, GenericTargetedMessagingError>(ModeCommandingResult::Done) && *final(self) == *old(self) && *final(children_mode_store) == *old(children_mode_store),
            old(self).spec_state() == SequenceExecutionHelperState::AwaitingSuccessCheck ==> r == Ok::<ModeCommandingResult, GenericTargetedMessagingError>(ModeCommandingResult::AwaitingSuccessCheck) && *final(self) == *old(self) && *final(children_mode_store) == *old(children_mode_store),
            old(self).spec_state() == SequenceExecutionHelperState::Busy && old(self).spec_target_mode() is None ==> r == Ok::<ModeCommandingResult, GenericTargetedMessagingError>(ModeCommandingResult::Done) && *final(self) == *old(self) && *final(children_mode_store) == *old(children_mode_store),
            old(self).spec_runs_step() ==> ({
                let seqs = sequence_tables_contents(*table)[old(self).spec_target_mode()->Some_0].entries@;
                let idx = match old(self).spec_current_sequence_index() {
                    Some(i) => i as int,
                    None => 0int,
                };
                &&& final(self).spec_target_mode() == old(self).spec_target_mode()
                &&& final(self).spec_request_id() == old(self).spec_request_id()
                &&& if old(self).spec_current_sequence_index() is None && seqs.len() == 0 {
                    &&& r == Ok::<ModeCommandingResult, GenericTargetedMessagingError>(ModeCommandingResult::Done)
                    &&& final(self).spec_state() == SequenceExecutionHelperState::Idle
                    &&& final(self).spec_current_sequence_index() is None
                    &&& final(self).spec_last_sequence_index() == old(self).spec_last_sequence_index()
                    &&& *final(children_mode_store) == *old(children_mode_store)
                } else {
                    &&& old(self).spec_current_sequence_index() is None ==> final(self).spec_last_sequence_index() == Some((seqs.len() - 1) as usize)
                    &&& old(self).spec_current_sequence_index() is Some ==> final(self).spec_last_sequence_index() == old(self).spec_last_sequence_index()
                    &&& final(self).step_outcome(old(self).spec_request_id(), seqs, idx, r)
                    &&& old(self).spec_request_id() is Some ==> step_store_outcome(*old(children_mode_store), *final(children_mode_store), seqs[idx], r)
                    &&& old(self).spec_request_id() is None ==> *final(children_mode_store) == *old(children_mode_store)
                }
            }),
    {
        if self.state == SequenceExecutionHelperState::Idle {
            return Ok(ModeCommandingResult::Done);
        }
        if self.state == SequenceExecutionHelperState::AwaitingSuccessCheck {
            return Ok(ModeCommandingResult::AwaitingSuccessCheck);
        }
        if self.target_mode.is_none() {
            return Ok(ModeCommandingResult::Done);
        }
        let target: Mode = match self.target_mode {
            Some(t) => t,
            None => 0,
        };
        match self.current_sequence_index {
            Some(idx) => {
                let seq_table_value = match table.get_table(target) {
                    Some(v) => v,
                    None => {
                        return Ok(ModeCommandingResult::Done);
                    },
                };
                self.execute_sequence_and_map_to_result(
                    seq_table_value,
                    idx,
                    sender,
                    children_mode_store,
                    is_commandable,
                )
            },
            None => {
                let seq_table_value = match table.get_table(target) {
                    Some(v) => v,
                    None => {
                        return Ok(ModeCommandingResult::Done);
                    },
                };
                if seq_table_value.entries.len() == 0 {
                    // An empty sequence is done at once.
                    self.state = SequenceExecutionHelperState::Idle;
                    Ok(ModeCommandingResult::Done)
                } else {
                    self.last_sequence_index = Some(seq_table_value.entries.len() - 1);
                    self.current_sequence_index = Some(0);
                    self.execute_sequence_and_map_to_result(
                        seq_table_value,
                        0,
                        sender,
                        children_mode_store,
                        is_commandable,
                    )
                }
            },
        }
    }

    /// Whether [Self::run] executes a step of the loaded sequence.
    pub open spec fn spec_runs_step(self) -> bool {
        self.spec_state() == SequenceExecutionHelperState::Busy && self.spec_target_mode() is Some
    }

    /// The mode requests which a run of the helper sends: those of the step at the current index
    /// (the first one where the sequence was not started yet) of the loaded sequence, where the
    /// helper runs a step with a request ID; none otherwise.
    pub open spec fn step_requests<C: IsChildCommandable>(self, table: SequenceModeTables, commandable: &C) -> Seq<(RequestId, ComponentId, ModeRequest)> {
        let seqs = sequence_tables_contents(table)[self.spec_target_mode()->Some_0].entries@;
        let idx = match self.spec_current_sequence_index() {
            Some(i) => i as int,
            None => 0int,
        };
        if self.spec_runs_step() && self.spec_request_id() is Some && idx < seqs.len() {
            sequence_requests(seqs[idx].entries@, commandable, self.spec_request_id()->Some_0)
        } else {
            Seq::empty()
        }
    }

    /// Whether the sequence tables hold the loaded mode, with a step at the current index where
    /// there is one.
    pub open spec fn spec_can_run_on(self, table: SequenceModeTables) -> bool {
        let contents = sequence_tables_contents(table);
        let mode = self.spec_target_mode()->Some_0;
        &&& contents.contains_key(mode)
        &&& self.spec_current_sequence_index() matches Some(i) ==> i < contents[mode].entries@.len()
    }

    /// The state of the helper after a step of the sequence at `idx` was executed with result
    /// `r`, starting from a busy helper.
    pub open spec fn step_outcome(
        self,
        request_id: Option<RequestId>,
        seqs: Seq<SequenceTableMapTable>,
        idx: int,
        r: Result<ModeCommandingResult, GenericTargetedMessagingError>,
    ) -> bool {
        match r {
            Ok(ModeCommandingResult::AwaitingSuccessCheck) => {
                &&& request_id is Some
                &&& self.spec_state() == SequenceExecutionHelperState::AwaitingSuccessCheck
                &&& self.spec_current_sequence_index() == Some(idx as usize)
            },
            Ok(ModeCommandingResult::Done) => {
                &&& request_id is Some ==> idx == seqs.len() - 1 && self.spec_state() == SequenceExecutionHelperState::Idle
                &&& request_id is None ==> self.spec_state() == SequenceExecutionHelperState::Busy
                &&& self.spec_current_sequence_index() == Some(idx as usize)
            },
            Ok(ModeCommandingResult::StepDone) => {
                &&& request_id is Some
                &&& idx < seqs.len() - 1
                &&& self.spec_state() == SequenceExecutionHelperState::Busy
                &&& self.spec_current_sequence_index() == Some((idx + 1) as usize)
            },
            Err(e) => {
                &&& e is Send
                &&& self.spec_state() == SequenceExecutionHelperState::Busy
                &&& self.spec_current_sequence_index() == Some(idx as usize)
            },
        }
    }

    /// Retrieve the currently loaded target mode
    pub fn target_mode(&self) -> (r: Option<Mode>)
        ensures
            r == self.spec_target_mode(),
    {
        self.target_mode
    }

    /// Confirm that a sequence which is awaiting a success check is done
    pub fn confirm_sequence_done(&mut self)
        requires
            old(self).spec_state() == SequenceExecutionHelperState::AwaitingSuccessCheck ==> old(self).spec_current_sequence_index() is Some && old(self).spec_current_sequence_index()->Some_0 < usize::MAX,
        ensures
            old(self).spec_state() != SequenceExecutionHelperState::AwaitingSuccessCheck ==> *final(self) == *old(self),
            old(self).spec_state() == SequenceExecutionHelperState::AwaitingSuccessCheck ==> ({
                let cur = old(self).spec_current_sequence_index()->Some_0;
                &&& final(self).spec_state() == if old(self).spec_last_sequence_index() == Some(cur) {
                    SequenceExecutionHelperState::Idle
                } else {
                    SequenceExecutionHelperState::Busy
                }
                &&& final(self).spec_current_sequence_index() == Some((cur + 1) as usize)
                &&& final(self).spec_target_mode() == old(self).spec_target_mode()
                &&& final(self).spec_request_id() == old(self).spec_request_id()
                &&& final(self).spec_last_sequence_index() == old(self).spec_last_sequence_index()
            }),
    {
        if self.state == SequenceExecutionHelperState::AwaitingSuccessCheck {
            self.state = SequenceExecutionHelperState::Busy;
            if let (Some(last_sequence_index), Some(current_sequence_index)) = (self.last_sequence_index, self.current_sequence_index) {
                if current_sequence_index == last_sequence_index {
                    self.state = SequenceExecutionHelperState::Idle;
                }
            }
            let cur: usize = match self.current_sequence_index {
                Some(c) => c,
                None => 0,
            };
            self.current_sequence_index = Some(cur + 1);
        }
    }

    /// Internal state of the execution helper.
    pub fn state(&self) -> (r: SequenceExecutionHelperState)
        ensures
            r == self.spec_state(),
    {
        self.state
    }

    pub fn request_id(&self) -> (r: Option<RequestId>)
        ensures
            r == self.spec_request_id(),
    {
        self.request_id
    }

    pub fn set_request_id(&mut self, request_id: RequestId)
        ensures
            final(self).spec_request_id() == Some(request_id),
            final(self).spec_target_mode() == old(self).spec_target_mode(),
            final(self).spec_state() == old(self).spec_state(),
            final(self).spec_current_sequence_index() == old(self).spec_current_sequence_index(),
            final(self).spec_last_sequence_index() == old(self).spec_last_sequence_index(),
    {
        self.request_id = Some(request_id);
    }

    pub fn awaiting_success_check(&self) -> (r: bool)
        ensures
            r == (self.spec_state() == SequenceExecutionHelperState::AwaitingSuccessCheck),
    {
        self.state == SequenceExecutionHelperState::AwaitingSuccessCheck
    }

    pub fn current_sequence_index(&self) -> (r: Option<usize>)
        ensures
            r == self.spec_current_sequence_index(),
    {
        self.current_sequence_index
    }

    /// Execute a sequence at the given sequence index for a given [SequenceTablesMapValue].
    ///
    /// This method calls [Self::execute_sequence] and maps the result to a [ModeCommandingResult].
    /// It is also called by the [Self::run] method of this helper.
    pub fn execute_sequence_and_map_to_result<S: ModeRequestSender, C: IsChildCommandable>(
        &mut self,
        seq_table_value: &SequenceTablesMapValue,
        sequence_idx: usize,
        sender: &mut S,
        mode_store_vec: &mut ModeStoreVec,
        is_commandable: &C,
    ) -> (r: Result<ModeCommandingResult, GenericTargetedMessagingError>)
        requires
            old(self).spec_state() != SequenceExecutionHelperState::Idle && old(self).spec_request_id() is Some ==> sequence_idx < seq_table_value.entries@.len(),
        ensures
            final(self).spec_target_mode() == old(self).spec_target_mode(),
            final(self).spec_request_id() == old(self).spec_request_id(),
            final(self).spec_last_sequence_index() == old(self).spec_last_sequence_index(),
            old(self).spec_state() == SequenceExecutionHelperState::Idle || old(self).spec_request_id() is None ==> r == Ok::<ModeCommandingResult, GenericTargetedMessagingError>(ModeCommandingResult::Done) && *final(self) == *old(self) && *final(mode_store_vec) == *old(mode_store_vec) && final(sender).spec_sent() == old(sender).spec_sent(),
            old(self).spec_state() != SequenceExecutionHelperState::Idle && old(self).spec_request_id() is Some && r is Ok ==> final(sender).spec_sent()@ == old(sender).spec_sent()@ + sequence_requests(seq_table_value.entries@[sequence_idx as int].entries@, is_commandable, old(self).spec_request_id()->Some_0),
            old(self).spec_state() != SequenceExecutionHelperState::Idle && old(self).spec_request_id() is Some && r is Ok ==> (r == Ok::<ModeCommandingResult, GenericTargetedMessagingError>(ModeCommandingResult::AwaitingSuccessCheck) <==> some_commanded_with_check(seq_table_value.entries@[sequence_idx as int], is_commandable, seq_table_value.entries@[sequence_idx as int].entries@.len() as int)),
            old(sender).spec_accepts_all() ==> r is Ok,
            old(self).spec_state() != SequenceExecutionHelperState::Idle && old(self).spec_request_id() is Some ==> ({
                let seqs = seq_table_value.entries@;
                &&& step_store_outcome(*old(mode_store_vec), *final(mode_store_vec), seqs[sequence_idx as int], r)
                &&& match r {
                    Ok(ModeCommandingResult::AwaitingSuccessCheck) => final(self).spec_state() == SequenceExecutionHelperState::AwaitingSuccessCheck && final(self).spec_current_sequence_index() == old(self).spec_current_sequence_index(),
                    Ok(ModeCommandingResult::Done) => sequence_idx == seqs.len() - 1 && final(self).spec_state() == SequenceExecutionHelperState::Idle && final(self).spec_current_sequence_index() == old(self).spec_current_sequence_index(),
                    Ok(ModeCommandingResult::StepDone) => sequence_idx < seqs.len() - 1 && final(self).spec_state() == old(self).spec_state() && final(self).spec_current_sequence_index() == Some((sequence_idx + 1) as usize),
                    Err(e) => e is Send && *final(self) == *old(self),
                }
            }),
    {
        if self.state == SequenceExecutionHelperState::Idle || self.request_id.is_none() {
            return Ok(ModeCommandingResult::Done);
        }
        let rid: RequestId = match self.request_id {
            Some(r) => r,
            None => 0,
        };
        let needs_check = Self::execute_sequence(
            rid,
            &seq_table_value.entries[sequence_idx],
            sender,
            mode_store_vec,
            is_commandable,
        );
        match needs_check {
            Err(e) => Err(e),
            Ok(true) => {
                self.state = SequenceExecutionHelperState::AwaitingSuccessCheck;
                Ok(ModeCommandingResult::AwaitingSuccessCheck)
            },
            Ok(false) => {
                if seq_table_value.entries.len() - 1 == sequence_idx {
                    self.state = SequenceExecutionHelperState::Idle;
                    Ok(ModeCommandingResult::Done)
                } else {
                    self.current_sequence_index = Some(sequence_idx + 1);
                    Ok(ModeCommandingResult::StepDone)
                }
            },
        }
    }

    /// Generic stateless execution helper method.
    ///
    /// This method itereates through the entries of the given sequence table and sends out
    /// [ModeRequest]s to set the modes of the commandable children according to the table
    /// entries. It also sets the reply awaition field in the children mode store where a success
    /// check is required to true.
    ///
    /// It returns whether any commanding success check is required by any commanded entry.
    pub fn execute_sequence<S: ModeRequestSender, C: IsChildCommandable>(
        request_id: RequestId,
        map_table: &SequenceTableMapTable,
        sender: &mut S,
        children_mode_store: &mut ModeStoreVec,
        commandable: &C,
    ) -> (r: Result<bool, GenericTargetedMessagingError>)
        ensures
            same_children_and_modes(*final(children_mode_store), *old(children_mode_store)),
            forall|j: int| 0 <= j < old(children_mode_store).0@.len() ==> #[trigger] final(children_mode_store).0@[j].spec_awaiting_reply() == old(children_mode_store).0@[j].spec_awaiting_reply() || checked_in_sequence(*map_table, old(children_mode_store).0@[j].spec_id()),
            r == Ok::<bool, GenericTargetedMessagingError>(false) ==> *final(children_mode_store) == *old(children_mode_store),
            r == Ok::<bool, GenericTargetedMessagingError>(true) ==> sequence_needs_check(*map_table),
            !sequence_needs_check(*map_table) ==> *final(children_mode_store) == *old(children_mode_store) && r != Ok::<bool, GenericTargetedMessagingError>(true),
            r matches Err(e) ==> e is Send,
            map_table.entries@.len() == 0 ==> r == Ok::<bool, GenericTargetedMessagingError>(false),
            r is Ok ==> r->Ok_0 == some_commanded_with_check(*map_table, commandable, map_table.entries@.len() as int),
            r is Ok ==> final(sender).spec_sent()@ == old(sender).spec_sent()@ + sequence_requests(map_table.entries@, commandable, request_id),
            old(sender).spec_accepts_all() ==> r is Ok,
            r is Err ==> exists|j: int| 0 <= j < map_table.entries@.len() && final(sender).spec_sent()@ == old(sender).spec_sent()@ + sequence_requests(#[trigger] map_table.entries@.take(j), commandable, request_id),
            r is Ok ==> forall|j: int| 0 <= j < old(children_mode_store).0@.len() ==> #[trigger] final(children_mode_store).0@[j].spec_awaiting_reply() == (old(children_mode_store).0@[j].spec_awaiting_reply() || commanded_with_check(*map_table, commandable, old(children_mode_store).0@[j].spec_id(), map_table.entries@.len() as int)),
    {
        let ghost old_store = *children_mode_store;
        let mut some_succes_check_required = false;
        let mut i: usize = 0;
        while i < map_table.entries.len()
            invariant
                i <= map_table.entries@.len(),
                old_store == *old(children_mode_store),
                same_children_and_modes(*children_mode_store, old_store),
                forall|j: int| 0 <= j < old_store.0@.len() ==> #[trigger] children_mode_store.0@[j].spec_awaiting_reply() == old_store.0@[j].spec_awaiting_reply() || checked_in_sequence(*map_table, old_store.0@[j].spec_id()),
                !some_succes_check_required ==> *children_mode_store == old_store,
                some_succes_check_required ==> sequence_needs_check(*map_table),
                some_succes_check_required == some_commanded_with_check(*map_table, commandable, i as int),
                forall|j: int| 0 <= j < old_store.0@.len() ==> #[trigger] children_mode_store.0@[j].spec_awaiting_reply() == (old_store.0@[j].spec_awaiting_reply() || commanded_with_check(*map_table, commandable, old_store.0@[j].spec_id(), i as int)),
                sender.spec_sent()@ == old(sender).spec_sent()@ + sequence_requests(map_table.entries@.take(i as int), commandable, request_id),
                old(sender).spec_accepts_all() ==> sender.spec_accepts_all(),
            decreases map_table.entries@.len() - i,
        {
            let entry = &map_table.entries[i];
            proof {
                lemma_commanded_step(*map_table, commandable, i as int);
                let ents = map_table.entries@;
                assert(ents.take(i + 1).drop_last() =~= ents.take(i as int));
                assert(ents.take(i + 1).last() == ents[i as int]);
            }
            if !commandable.is_commandable(entry.common.target_id) {
                i += 1;
                continue;
            }
            let sent = sender.send_mode_request(
                request_id,
                entry.common.target_id,
                ModeRequest::SetMode { mode_and_submode: entry.common.mode_submode, forced: false },
            );
            if let Err(e) = sent {
                return Err(GenericTargetedMessagingError::Send(e));
            }
            if entry.check_success {
                let ghost before = *children_mode_store;
                children_mode_store.mark_awaiting_reply(entry.common.target_id);
                proof {
                    assert(map_table.entries@[i as int].check_success);
                    assert forall|j: int| 0 <= j < old_store.0@.len() implies #[trigger] children_mode_store.0@[j].spec_awaiting_reply() == old_store.0@[j].spec_awaiting_reply() || checked_in_sequence(*map_table, old_store.0@[j].spec_id()) by {
                        if old_store.0@[j].spec_id() == entry.common.target_id {
                            assert(map_table.entries@[i as int].common.target_id == old_store.0@[j].spec_id());
                        } else {
                            assert(before.0@[j].spec_awaiting_reply() == old_store.0@[j].spec_awaiting_reply() || checked_in_sequence(*map_table, old_store.0@[j].spec_id()));
                        }
                    }
                    assert forall|j: int| 0 <= j < old_store.0@.len() implies #[trigger] children_mode_store.0@[j].spec_awaiting_reply() == (old_store.0@[j].spec_awaiting_reply() || commanded_with_check(*map_table, commandable, old_store.0@[j].spec_id(), i + 1)) by {
                        assert(before.0@[j].spec_awaiting_reply() == (old_store.0@[j].spec_awaiting_reply() || commanded_with_check(*map_table, commandable, old_store.0@[j].spec_id(), i as int)));
                        assert(commanded_with_check(*map_table, commandable, old_store.0@[j].spec_id(), i + 1) == (commanded_with_check(*map_table, commandable, old_store.0@[j].spec_id(), i as int) || old_store.0@[j].spec_id() == entry.common.target_id));
                    }
                }
                some_succes_check_required = true;
            }
            i += 1;
        }
        assert(map_table.entries@.take(i as int) =~= map_table.entries@);
        Ok(some_succes_check_required)
    }
}

/// Taking one more entry of the sequence into account adds exactly what that entry commands
/// with a success check.
proof fn lemma_commanded_step<C: IsChildCommandable>(table: SequenceTableMapTable, commandable: &C, i: int)
    requires
        0 <= i < table.entries@.len(),
    ensures
        some_commanded_with_check(table, commandable, i + 1) == (some_commanded_with_check(table, commandable, i) || (table.entries@[i].check_success && commandable.spec_is_commandable(table.entries@[i].common.target_id))),
        forall|id: ComponentId| #[trigger] commanded_with_check(table, commandable, id, i + 1) == (commanded_with_check(table, commandable, id, i) || (table.entries@[i].check_success && table.entries@[i].common.target_id == id && commandable.spec_is_commandable(id))),
{
    let ent = table.entries@;
    if some_commanded_with_check(table, commandable, i + 1) {
        let e = choose|e: int| 0 <= e < i + 1 && #[trigger] ent[e].check_success && commandable.spec_is_commandable(ent[e].common.target_id);
        if e < i {
            assert(ent[e].check_success);
        }
    }
    if some_commanded_with_check(table, commandable, i) {
        let e = choose|e: int| 0 <= e < i && #[trigger] ent[e].check_success && commandable.spec_is_commandable(ent[e].common.target_id);
        assert(ent[e].check_success);
    }
    if ent[i].check_success && commandable.spec_is_commandable(ent[i].common.target_id) {
        assert(ent[i].check_success);
    }
    assert forall|id: ComponentId| #[trigger] commanded_with_check(table, commandable, id, i + 1) == (commanded_with_check(table, commandable, id, i) || (ent[i].check_success && ent[i].common.target_id == id && commandable.spec_is_commandable(id))) by {
        if commanded_with_check(table, commandable, id, i + 1) {
            let e = choose|e: int| 0 <= e < i + 1 && #[trigger] ent[e].check_success && ent[e].common.target_id == id && commandable.spec_is_commandable(id);
            if e < i {
                assert(ent[e].check_success);
            }
        }
        if commanded_with_check(table, commandable, id, i) {
            let e = choose|e: int| 0 <= e < i && #[trigger] ent[e].check_success && ent[e].common.target_id == id && commandable.spec_is_commandable(id);
            assert(ent[e].check_success);
        }
        if ent[i].check_success && ent[i].common.target_id == id && commandable.spec_is_commandable(id) {
            assert(ent[i].check_success);
        }
    }
}

/// The store after a step of a sequence was executed with the result `r`.
pub open spec fn step_store_outcome(
    before: ModeStoreVec,
    after: ModeStoreVec,
    seq: SequenceTableMapTable,
    r: Result<ModeCommandingResult, GenericTargetedMessagingError>,
) -> bool {
    &&& same_children_and_modes(after, before)
    &&& forall|j: int| 0 <= j < before.0@.len() ==> #[trigger] after.0@[j].spec_awaiting_reply() == before.0@[j].spec_awaiting_reply() || checked_in_sequence(seq, before.0@[j].spec_id())
    &&& (r is Ok && r != Ok::<ModeCommandingResult, GenericTargetedMessagingError>(ModeCommandingResult::AwaitingSuccessCheck)) ==> after == before
    &&& r == Ok::<ModeCommandingResult, GenericTargetedMessagingError>(ModeCommandingResult::AwaitingSuccessCheck) ==> sequence_needs_check(seq)
    &&& !sequence_needs_check(seq) ==> after == before
}


#[derive(Debug, Default, PartialEq, Eq, Clone, Copy, Structural)]
pub enum ModeTreeHelperState {
    #[default]
    Idle,
    /// The helper is currently trying to keep a target mode.
    TargetKeeping,
    /// The helper is currently busy to command a mode.
    ModeCommanding,
}

#[derive(Debug, Default, PartialEq, Eq, Copy, Clone, Structural)]
pub enum SubsystemHelperResult {
    #[default]
    Idle,
    /// Busy with target keeping.
    TargetKeeping,
    /// Result of a mode commanding operation
    ModeCommanding(ModeCommandingResult),
}

impl From<ModeCommandingResult> for SubsystemHelperResult {
    fn from(value: ModeCommandingResult) -> (r: Self) {
        Self::ModeCommanding(value)
    }
}

impl vstd::std_specs::convert::FromSpecImpl<ModeCommandingResult> for SubsystemHelperResult {
    open spec fn obeys_from_spec() -> bool {
        true
    }

    open spec fn from_spec(v: ModeCommandingResult) -> Self {
        SubsystemHelperResult::ModeCommanding(v)
    }
}

#[derive(Debug, Copy, Clone, PartialEq, Eq, Structural)]
pub enum ModeTreeHelperError {
    Message(GenericTargetedMessagingError),
    /// The current mode is not contained in the target table.
    CurrentModeNotInTargetTable(Mode),
    /// Mode command has failed, for example while executing a mode table.
    ModeCommmandFailure {
        /// Table index of the sequence table entry which failed.
        seq_table_index: Option<usize>,
    },
    /// Target mode keeping violation.
    TargetKeepingViolation {
        /// Fallback mode of the target table whose mode was violated.
        fallback_mode: Option<Mode>,
    },
}

impl From<GenericTargetedMessagingError> for ModeTreeHelperError {
    fn from(value: GenericTargetedMessagingError) -> (r: Self) {
        ModeTreeHelperError::Message(value)
    }
}

impl vstd::std_specs::convert::FromSpecImpl<GenericTargetedMessagingError> for ModeTreeHelperError {
    open spec fn obeys_from_spec() -> bool {
        true
    }

    open spec fn from_spec(v: GenericTargetedMessagingError) -> Self {
        ModeTreeHelperError::Message(v)
    }
}

/// Whether the mode of a child violates a target table entry: with an allowed submode mask, the
/// mode and the submode bits outside the mask must both differ; without one, the mode and
/// submode must differ from the entry's.
pub open spec fn entry_violated_by(entry: crate::mode_tree::TargetTableEntry, ms: ModeAndSubmode) -> bool {
    match entry.common.allowed_submode_mask {
        Some(mask) => {
            let fixed_bits = !mask;
            ms.spec_mode() != entry.common.mode_submode.spec_mode() && (ms.spec_submode() & fixed_bits) != (entry.common.mode_submode.spec_submode() & fixed_bits)
        },
        None => ms != entry.common.mode_submode,
    }
}

/// Whether the entry at `m` is the last entry of the target before `bound` in the store, and
/// violates the table entry.
pub open spec fn is_last_violation(store: ModeStoreVec, entry: crate::mode_tree::TargetTableEntry, bound: int, m: int) -> bool {
    &&& 0 <= m < bound
    &&& store.0@[m].spec_id() == entry.common.target_id
    &&& entry_violated_by(entry, store.0@[m].spec_mode_and_submode())
    &&& forall|k: int| m < k < bound ==> #[trigger] store.0@[k].spec_id() != entry.common.target_id
}

/// Whether the last entry of the target before `bound` in the store violates the table entry.
pub open spec fn violated_before(store: ModeStoreVec, entry: crate::mode_tree::TargetTableEntry, bound: int) -> bool {
    exists|m: int| #[trigger] is_last_violation(store, entry, bound, m)
}

/// Whether the last entry of the target in the store violates the table entry.
pub open spec fn store_violates(store: ModeStoreVec, entry: crate::mode_tree::TargetTableEntry) -> bool {
    violated_before(store, entry, store.0@.len() as int)
}

/// Whether some monitored entry of the target table is violated by the store.
pub open spec fn table_violated(store: ModeStoreVec, table: TargetTablesMapValue) -> bool {
    exists|e: int| 0 <= e < table.entries@.len() && #[trigger] table.entries@[e].monitor_state && store_violates(store, table.entries@[e])
}

/// Without an allowed submode mask, a child violates its target table entry exactly when its
/// mode or its submode differs from the entry's: a child in the right mode but in another
/// submode violates an entry with a precise submode.
pub proof fn law_unmasked_entry_checks_mode_and_submode(entry: crate::mode_tree::TargetTableEntry, ms: ModeAndSubmode)
    requires
        entry.common.allowed_submode_mask is None,
    ensures
        entry_violated_by(entry, ms) <==> (ms.spec_mode() != entry.common.mode_submode.spec_mode()
            || ms.spec_submode() != entry.common.mode_submode.spec_submode()),
{
    ModeAndSubmode::lemma_eq(ms, entry.common.mode_submode);
}

/// Target keeping reports a violation when a monitored entry without an allowed submode mask
/// names a child whose latest mode in the store has the entry's mode but another submode.
pub proof fn law_wrong_submode_breaks_target_keeping(store: ModeStoreVec, table: TargetTablesMapValue, e: int, m: int)
    requires
        0 <= e < table.entries@.len(),
        table.entries@[e].monitor_state,
        table.entries@[e].common.allowed_submode_mask is None,
        0 <= m < store.0@.len(),
        store.0@[m].spec_id() == table.entries@[e].common.target_id,
        forall|k: int| m < k < store.0@.len() ==> #[trigger] store.0@[k].spec_id() != table.entries@[e].common.target_id,
        store.0@[m].spec_mode_and_submode().spec_submode() != table.entries@[e].common.mode_submode.spec_submode(),
    ensures
        table_violated(store, table),
{
    let entry = table.entries@[e];
    law_unmasked_entry_checks_mode_and_submode(entry, store.0@[m].spec_mode_and_submode());
    assert(is_last_violation(store, entry, store.0@.len() as int, m));
    assert(store_violates(store, entry));
}

/// The internal request ID of a step of sequence commanding: the request ID in the upper 24 bits
/// and the step index in the lower 8 bits.
pub open spec fn internal_request_id_of(request_id: u32, step: usize) -> u32 {
    (request_id << 8u32) | (step as u32)
}

/// The internal request ID of a step encodes the request ID of the command sequence in its upper
/// 24 bits, for request IDs that fit in 24 bits and step indices that fit in 8 bits.
pub proof fn law_internal_request_id_keeps_request_id(request_id: u32, step: u32)
    requires
        request_id < 0x100_0000,
        step < 0x100,
    ensures
        ((request_id << 8u32) | step) >> 8u32 == request_id,
        ((request_id << 8u32) | step) & 0xffu32 == step,
{
    assert(((request_id << 8u32) | step) >> 8u32 == request_id) by (bit_vector)
        requires
            request_id < 0x100_0000,
            step < 0x100,
    ;
    assert(((request_id << 8u32) | step) & 0xffu32 == step) by (bit_vector)
        requires
            step < 0x100,
    ;
}

/// This is a helper object which can be used by a subsystem component to execute mode sequences
/// and perform target keeping.
///
/// This helper object tries to compose as much data and state information as possible which is
/// required for this process.
pub struct SubsystemCommandingHelper {
    /// State of the helper.
    state: ModeTreeHelperState,
    /// Current mode of the owner subsystem.
    current_mode: Mode,
    /// This data structure is used to track all mode children.
    pub children_mode_store: ModeStoreVec,
    /// This field is set when a mode sequence is executed. It is used to determine whether mode
    /// replies are relevant for reply awaition logic.
    active_internal_request_id: Option<RequestId>,
    /// The primary data structure to keep the target state information for subsystem
    /// [modes][Mode]. it specifies the mode each child should have for a certain subsystem mode
    /// and is relevant for target keeping.
    pub target_tables: TargetModeTables,
    /// The primary data structure to keep the sequence commanding information for commanded
    /// subsystem [modes][Mode]. It specifies the actual commands and the order they should be
    /// sent in to reach a certain [mode][Mode].
    pub sequence_tables: SequenceModeTables,
    /// The sequence execution helper is used to execute sequences in the [Self::sequence_tables].
    pub seq_exec_helper: SequenceExecutionHelper,
}

impl Default for SubsystemCommandingHelper {
    fn default() -> (r: Self)
        ensures
            r.spec_state() == ModeTreeHelperState::Idle,
            r.spec_current_mode() == UNKNOWN_MODE_VAL,
            r.spec_children()@.len() == 0,
            r.spec_active_request_id() is None,
            forall|m: Mode| !#[trigger] target_tables_contents(r.spec_target_tables()).contains_key(m),
            forall|m: Mode| !#[trigger] sequence_tables_contents(r.spec_sequence_tables()).contains_key(m),
            r.spec_seq_exec().spec_state() == SequenceExecutionHelperState::Idle,
            r.spec_seq_exec().spec_target_mode() is None,
    {
        Self {
            current_mode: UNKNOWN_MODE_VAL,
            state: ModeTreeHelperState::Idle,
            children_mode_store: ModeStoreVec(Vec::new()),
            active_internal_request_id: None,
            target_tables: TargetModeTables::new_empty(),
            sequence_tables: SequenceModeTables::new_empty(),
            seq_exec_helper: SequenceExecutionHelper::new(),
        }
    }
}

impl SubsystemCommandingHelper {
    pub closed spec fn spec_state(self) -> ModeTreeHelperState {
        self.state
    }

    pub closed spec fn spec_current_mode(self) -> Mode {
        self.current_mode
    }

    pub closed spec fn spec_children(self) -> Vec<crate::mode_tree::ModeStoreVecValue> {
        self.children_mode_store.0
    }

    pub closed spec fn spec_store(self) -> ModeStoreVec {
        self.children_mode_store
    }

    pub closed spec fn spec_active_request_id(self) -> Option<RequestId> {
        self.active_internal_request_id
    }

    pub closed spec fn spec_target_tables(self) -> TargetModeTables {
        self.target_tables
    }

    pub closed spec fn spec_sequence_tables(self) -> SequenceModeTables {
        self.sequence_tables
    }

    pub closed spec fn spec_seq_exec(self) -> SequenceExecutionHelper {
        self.seq_exec_helper
    }

    /// Create a new substem commanding helper with an intial [ModeTreeHelperState::Idle] state,
    /// the given mode children store and the given target and sequence mode tables.
    pub fn new(children_mode_store: ModeStoreVec, target_tables: TargetModeTables, sequence_tables: SequenceModeTables) -> (r: Self)
        ensures
            r.spec_state() == ModeTreeHelperState::Idle,
            r.spec_current_mode() == UNKNOWN_MODE_VAL,
            r.spec_store() == children_mode_store,
            r.spec_active_request_id() is None,
            r.spec_target_tables() == target_tables,
            r.spec_sequence_tables() == sequence_tables,
            r.spec_seq_exec().spec_state() == SequenceExecutionHelperState::Idle,
            r.spec_seq_exec().spec_target_mode() is None,
            r.spec_seq_exec().spec_request_id() is None,
            r.spec_seq_exec().spec_current_sequence_index() is None,
    {
        Self {
            current_mode: UNKNOWN_MODE_VAL,
            state: ModeTreeHelperState::Idle,
            children_mode_store,
            active_internal_request_id: None,
            target_tables,
            sequence_tables,
            seq_exec_helper: SequenceExecutionHelper::new(),
        }
    }

    pub fn state(&self) -> (r: ModeTreeHelperState)
        ensures
            r == self.spec_state(),
    {
        self.state
    }

    pub fn mode(&self) -> (r: Mode)
        ensures
            r == self.spec_current_mode(),
    {
        self.current_mode
    }

    /// The request ID of the active command sequence: the internal request ID shifted 8 to the
    /// right.
    pub fn request_id(&self) -> (r: Option<RequestId>)
        ensures
            r == match self.spec_active_request_id() {
                Some(v) => Some(v >> 8u32),
                None => None,
            },
    {
        match self.active_internal_request_id {
            Some(v) => Some(v >> 8u32),
            None => None,
        }
    }

    /// This returns the internal request ID, which is the regular [Self::request_id] specified
    /// by the user shifted 8 to the left and then incremented with the current sequence
    /// commanding step.
    pub fn internal_request_id(&self) -> (r: Option<RequestId>)
        ensures
            r == self.spec_active_request_id(),
    {
        self.active_internal_request_id
    }

    /// Retrieve the fallback mode for the current mode of the subsystem by trying to retrieve
    /// it from the target table.
    ///
    /// If the current mode does not have a fallback mode, returns [None].
    /// If the current mode is not inside the target table, returns a [ModeDoesNotExistError].
    pub fn fallback_mode(&self) -> (r: Result<Option<Mode>, ModeDoesNotExistError>)
        ensures
            ({
                let tables = target_tables_contents(self.spec_target_tables());
                let mode = self.spec_current_mode();
                &&& tables.contains_key(mode) ==> r == Ok::<Option<Mode>, ModeDoesNotExistError>(tables[mode].fallback_mode)
                &&& !tables.contains_key(mode) ==> r == Err::<Option<Mode>, ModeDoesNotExistError>(ModeDoesNotExistError(mode))
            }),
    {
        match self.target_tables.get_table(self.current_mode) {
            Some(v) => Ok(v.fallback_mode),
            None => Err(ModeDoesNotExistError(self.current_mode)),
        }
    }

    /// Add a mode child to the internal [Self::children_mode_store].
    pub fn add_mode_child(&mut self, child: ComponentId, mode: ModeAndSubmode)
        ensures
            final(self).spec_store().spec_contains(child),
            !old(self).spec_store().spec_contains(child) ==> final(self).spec_store().spec_mode_of(child) == Some(mode),
            final(self).spec_state() == old(self).spec_state(),
            final(self).spec_seq_exec() == old(self).spec_seq_exec(),
            final(self).spec_active_request_id() == old(self).spec_active_request_id(),
            final(self).spec_current_mode() == old(self).spec_current_mode(),
            final(self).spec_children()@.len() == old(self).spec_children()@.len() + 1,
            final(self).spec_children()@.take(old(self).spec_children()@.len() as int) == old(self).spec_children()@,
            final(self).spec_children()@.last().spec_id() == child,
            final(self).spec_children()@.last().spec_mode_and_submode() == mode,
            !final(self).spec_children()@.last().spec_awaiting_reply(),
    {
        self.children_mode_store.add_component(child, mode);
    }

    /// Add a target mode table and an associated sequence mode table.
    pub fn add_target_and_sequence_table(&mut self, mode: Mode, target_table_val: TargetTablesMapValue, sequence_table_val: SequenceTablesMapValue)
        ensures
            target_tables_contents(final(self).spec_target_tables()) == target_tables_contents(old(self).spec_target_tables()).insert(mode, target_table_val),
            sequence_tables_contents(final(self).spec_sequence_tables()) == sequence_tables_contents(old(self).spec_sequence_tables()).insert(mode, sequence_table_val),
            final(self).spec_state() == old(self).spec_state(),
            final(self).spec_store() == old(self).spec_store(),
            final(self).spec_seq_exec() == old(self).spec_seq_exec(),
    {
        self.target_tables.insert_table(mode, target_table_val);
        self.sequence_tables.insert_table(mode, sequence_table_val);
    }

    /// Starts a command sequence for a given [mode][Mode].
    ///
    /// The request ID must fit in 24 bits, because 8 bits are reserved for internal sequence index
    /// tracking.
    pub fn start_command_sequence(&mut self, mode: Mode, request_id: RequestId) -> (r: Result<(), StartSequenceError>)
        ensures
            request_id > 0xff_ffff ==> r == Err::<(), StartSequenceError>(StartSequenceError::InvalidRequestId(request_id)) && *final(self) == *old(self),
            request_id <= 0xff_ffff && !sequence_tables_contents(old(self).spec_sequence_tables()).contains_key(mode) ==> r == Err::<(), StartSequenceError>(StartSequenceError::ModeDoesNotExist(ModeDoesNotExistError(mode))) && final(self).spec_active_request_id() == Some((request_id << 8u32) as u32) && final(self).spec_state() == old(self).spec_state() && final(self).spec_seq_exec() == old(self).spec_seq_exec(),
            request_id <= 0xff_ffff && sequence_tables_contents(old(self).spec_sequence_tables()).contains_key(mode) ==> r is Ok && final(self).spec_active_request_id() == Some((request_id << 8u32) as u32) && final(self).spec_state() == ModeTreeHelperState::ModeCommanding && final(self).spec_seq_exec().spec_target_mode() == Some(mode) && final(self).spec_seq_exec().spec_request_id() == Some((request_id << 8u32) as u32) && final(self).spec_seq_exec().spec_state() == SequenceExecutionHelperState::Busy && final(self).spec_seq_exec().spec_current_sequence_index() is None,
            request_id <= 0xff_ffff ==> final(self).spec_store() == old(self).spec_store() && final(self).spec_current_mode() == old(self).spec_current_mode() && final(self).spec_sequence_tables() == old(self).spec_sequence_tables() && final(self).spec_target_tables() == old(self).spec_target_tables(),
            r is Ok ==> final(self).wf(),
    {
        if request_id > 0xff_ffff {
            return Err(StartSequenceError::InvalidRequestId(request_id));
        }
        let internal: RequestId = request_id << 8u32;
        self.active_internal_request_id = Some(internal);
        let loaded = self.seq_exec_helper.load(mode, internal, &self.sequence_tables);
        match loaded {
            Err(e) => {
                return Err(StartSequenceError::ModeDoesNotExist(e));
            },
            Ok(()) => {},
        }
        self.state = ModeTreeHelperState::ModeCommanding;
        Ok(())
    }

    /// The helper is consistent: while it commands a mode, a command sequence with a request ID
    /// is active and the sequence helper has a target mode.
    pub open spec fn wf(self) -> bool {
        self.spec_state() == ModeTreeHelperState::ModeCommanding ==> self.spec_active_request_id() is Some && self.spec_seq_exec().spec_target_mode() is Some
    }

    /// Sends an announce mode request, recursive or not, to all children.
    pub fn send_announce_mode_cmd_to_children<S: ModeRequestSender>(&self, request_id: RequestId, req_sender: &mut S, recursive: bool) -> (r: Result<(), GenericTargetedMessagingError>)
        ensures
            r matches Err(e) ==> e is Send,
            self.spec_children()@.len() == 0 ==> r is Ok && final(req_sender).spec_sent() == old(req_sender).spec_sent(),
            r is Ok ==> final(req_sender).spec_sent()@ == old(req_sender).spec_sent()@ + requests_to_children(
                self.spec_children()@,
                request_id,
                announce_request(recursive),
            ),
            old(req_sender).spec_accepts_all() ==> r is Ok,
            r is Err ==> exists|k: int| 0 <= k < self.spec_children()@.len() && final(req_sender).spec_sent()@ == old(req_sender).spec_sent()@ + requests_to_children(
                #[trigger] self.spec_children()@.take(k),
                request_id,
                announce_request(recursive),
            ),
    {
        let mut request = ModeRequest::AnnounceMode;
        if recursive {
            request = ModeRequest::AnnounceModeRecursive;
        }
        let ghost children = self.children_mode_store.0@;
        let mut i: usize = 0;
        while i < self.children_mode_store.0.len()
            invariant
                i <= self.children_mode_store.0@.len(),
                children == self.children_mode_store.0@,
                request == announce_request(recursive),
                req_sender.spec_sent()@ == old(req_sender).spec_sent()@ + requests_to_children(children.take(i as int), request_id, request),
                children.len() == 0 ==> req_sender.spec_sent() == old(req_sender).spec_sent(),
                old(req_sender).spec_accepts_all() ==> req_sender.spec_accepts_all(),
            decreases self.children_mode_store.0@.len() - i,
        {
            proof {
                lemma_requests_to_children_step(children, request_id, request, i as int);
            }
            let child_id = self.children_mode_store.0[i].id();
            let sent = req_sender.send_mode_request(request_id, child_id, request);
            if let Err(e) = sent {
                return Err(GenericTargetedMessagingError::Send(e));
            }
            assert(req_sender.spec_sent()@ =~= old(req_sender).spec_sent()@ + requests_to_children(children.take(i + 1), request_id, request));
            i += 1;
        }
        assert(children.take(i as int) =~= children);
        Ok(())
    }

    /// Sets the stored mode of the first entry of a child, or fails with
    /// [TargetNotInModeStoreError] where the store does not hold the child.
    pub fn update_child_mode(&mut self, child: ComponentId, mode: ModeAndSubmode) -> (r: Result<(), TargetNotInModeStoreError>)
        ensures
            entries_contain(old(self).spec_children()@, child) ==> r is Ok && final(self).spec_store().spec_mode_of(child) == Some(mode),
            !entries_contain(old(self).spec_children()@, child) ==> r == Err::<(), TargetNotInModeStoreError>(TargetNotInModeStoreError(child)) && *final(self) == *old(self),
            final(self).spec_state() == old(self).spec_state(),
            final(self).spec_seq_exec() == old(self).spec_seq_exec(),
    {
        let ghost before = self.children_mode_store.0@;
        let found = self.children_mode_store.update_first_mode_of(child, mode);
        if !found {
            return Err(TargetNotInModeStoreError(child));
        }
        proof {
            crate::mode_tree::lemma_first_index_props(before, child);
            let k = crate::mode_tree::first_index_of(before, child);
            assert forall|j: int| 0 <= j < k implies #[trigger] self.children_mode_store.0@[j].spec_id() != child by {
                assert(self.children_mode_store.0@[j] == before[j]);
            }
            crate::mode_tree::lemma_first_index_of(self.children_mode_store.0@, child, k);
        }
        Ok(())
    }

    /// Checks the modes of the children against the monitored entries of the target table.
    fn perform_target_keeping(&self, target_table: &TargetTablesMapValue) -> (r: Result<(), ModeTreeHelperError>)
        ensures
            table_violated(self.spec_store(), *target_table) ==> r == Err::<(), ModeTreeHelperError>(ModeTreeHelperError::TargetKeepingViolation { fallback_mode: target_table.fallback_mode }),
            !table_violated(self.spec_store(), *target_table) ==> r is Ok,
    {
        let store = &self.children_mode_store;
        let mut e: usize = 0;
        while e < target_table.entries.len()
            invariant
                e <= target_table.entries@.len(),
                *store == self.spec_store(),
                forall|k: int| 0 <= k < e ==> !(#[trigger] target_table.entries@[k].monitor_state && store_violates(*store, target_table.entries@[k])),
            decreases target_table.entries@.len() - e,
        {
            let entry = &target_table.entries[e];
            if !entry.monitor_state {
                e += 1;
                continue;
            }
            let mut target_mode_violated = false;
            let mut j: usize = 0;
            while j < store.0.len()
                invariant
                    j <= store.0@.len(),
                    e < target_table.entries@.len(),
                    entry == target_table.entries@[e as int],
                    target_mode_violated == violated_before(*store, *entry, j as int),
                decreases store.0@.len() - j,
            {
                let val = &store.0[j];
                if val.id() == entry.common.target_id {
                    let ms = val.mode_and_submode();
                    target_mode_violated = match entry.common.allowed_submode_mask {
                        Some(allowed_submode_mask) => {
                            let fixed_bits: u16 = !allowed_submode_mask;
                            (ms.mode() != entry.common.mode_submode.mode()) && ((ms.submode() & fixed_bits) != (entry.common.mode_submode.submode() & fixed_bits))
                        },
                        None => ms != entry.common.mode_submode,
                    };
                    proof {
                        if target_mode_violated {
                            assert(is_last_violation(*store, *entry, j + 1, j as int));
                        } else {
                            if violated_before(*store, *entry, j + 1) {
                                let m = choose|m: int| #[trigger] is_last_violation(*store, *entry, j + 1, m);
                                if m < j {
                                    assert(store.0@[j as int].spec_id() != entry.common.target_id);
                                }
                            }
                        }
                    }
                } else {
                    proof {
                        if violated_before(*store, *entry, j as int) {
                            let m = choose|m: int| #[trigger] is_last_violation(*store, *entry, j as int, m);
                            assert(is_last_violation(*store, *entry, j + 1, m));
                        }
                        if violated_before(*store, *entry, j + 1) {
                            let m = choose|m: int| #[trigger] is_last_violation(*store, *entry, j + 1, m);
                            assert(is_last_violation(*store, *entry, j as int, m));
                        }
                    }
                }
                j += 1;
            }
            if target_mode_violated {
                proof {
                    assert(target_table.entries@[e as int].monitor_state && store_violates(*store, target_table.entries@[e as int]));
                }
                return Err(ModeTreeHelperError::TargetKeepingViolation { fallback_mode: target_table.fallback_mode });
            }
            e += 1;
        }
        Ok(())
    }
}


/// The mode reported by a reply, if any.
pub open spec fn reported_mode(reply: ModeReply) -> Option<ModeAndSubmode> {
    match reply {
        ModeReply::ModeInfo(m) => Some(m),
        ModeReply::ModeReply(m) => Some(m),
        ModeReply::CantReachMode(_) => None,
        ModeReply::WrongMode { reached, .. } => Some(reached),
    }
}

/// Whether a reply reports success: every reply but [ModeReply::CantReachMode] does.
pub open spec fn reply_success(reply: ModeReply) -> bool {
    !(reply is CantReachMode)
}

/// Whether no child but the sender has a reply awaited.
pub open spec fn only_awaits(store: ModeStoreVec, sender_id: ComponentId) -> bool {
    forall|j: int| 0 <= j < store.0@.len() && #[trigger] store.0@[j].spec_awaiting_reply() ==> store.0@[j].spec_id() == sender_id
}

/// The store after a reply of the sender, with the given reported mode, was handled.
pub open spec fn store_after_reply(before: ModeStoreVec, after: ModeStoreVec, sender_id: ComponentId, reported: Option<ModeAndSubmode>, handle_awaition: bool) -> bool {
    &&& after.0@.len() == before.0@.len()
    &&& forall|j: int| 0 <= j < before.0@.len() ==> #[trigger] after.0@[j].spec_id() == before.0@[j].spec_id()
    &&& forall|j: int| 0 <= j < before.0@.len() ==> #[trigger] after.0@[j].spec_mode_and_submode() == if before.0@[j].spec_id() == sender_id && reported is Some {
        reported->Some_0
    } else {
        before.0@[j].spec_mode_and_submode()
    }
    &&& forall|j: int| 0 <= j < before.0@.len() ==> #[trigger] after.0@[j].spec_awaiting_reply() == (before.0@[j].spec_awaiting_reply() && !(handle_awaition && before.0@[j].spec_id() == sender_id))
}

impl SubsystemCommandingHelper {
    /// Whether a reply with the request ID belongs to the active step of sequence commanding.
    pub open spec fn handles_awaition(self, reply_request_id: RequestId) -> bool {
        self.spec_state() == ModeTreeHelperState::ModeCommanding && self.spec_active_request_id() == Some(reply_request_id)
    }

    /// Whether a reply of the sender with the request ID completes the active step.
    pub open spec fn completes_step(self, reply_request_id: RequestId, sender_id: ComponentId) -> bool {
        self.handles_awaition(reply_request_id) && only_awaits(self.spec_store(), sender_id)
    }

    /// Whether the sequence helper can be confirmed and its step index read, as done when a
    /// step completes.
    pub open spec fn step_confirmable(self) -> bool {
        let seq = self.spec_seq_exec();
        &&& seq.spec_current_sequence_index() is Some
        &&& seq.spec_state() == SequenceExecutionHelperState::AwaitingSuccessCheck ==> seq.spec_current_sequence_index()->Some_0 < usize::MAX
    }

    /// The internal request ID for the current step: the request ID of the active sequence in
    /// the upper 24 bits and the step index in the lower 8 bits.
    fn update_internal_req_id(&mut self)
        requires
            old(self).spec_active_request_id() is Some,
            old(self).spec_seq_exec().spec_current_sequence_index() is Some,
        ensures
            ({
                let new_id = internal_request_id_of(old(self).spec_active_request_id()->Some_0 >> 8u32, old(self).spec_seq_exec().spec_current_sequence_index()->Some_0);
                &&& final(self).spec_active_request_id() == Some(new_id)
                &&& final(self).spec_seq_exec().spec_request_id() == Some(new_id)
            }),
            final(self).spec_seq_exec().spec_state() == old(self).spec_seq_exec().spec_state(),
            final(self).spec_seq_exec().spec_target_mode() == old(self).spec_seq_exec().spec_target_mode(),
            final(self).spec_seq_exec().spec_current_sequence_index() == old(self).spec_seq_exec().spec_current_sequence_index(),
            final(self).spec_seq_exec().spec_last_sequence_index() == old(self).spec_seq_exec().spec_last_sequence_index(),
            final(self).spec_state() == old(self).spec_state(),
            final(self).spec_current_mode() == old(self).spec_current_mode(),
            final(self).spec_store() == old(self).spec_store(),
            final(self).spec_target_tables() == old(self).spec_target_tables(),
            final(self).spec_sequence_tables() == old(self).spec_sequence_tables(),
    {
        let active: RequestId = match self.active_internal_request_id {
            Some(v) => v,
            None => 0,
        };
        let step: usize = match self.seq_exec_helper.current_sequence_index() {
            Some(c) => c,
            None => 0,
        };
        let new_internal_req_id: RequestId = ((active >> 8u32) << 8u32) | (step as u32);
        self.seq_exec_helper.set_request_id(new_internal_req_id);
        self.active_internal_request_id = Some(new_internal_req_id);
    }

    fn transition_to_target_keeping(&mut self)
        requires
            old(self).spec_seq_exec().spec_target_mode() is Some,
        ensures
            final(self).spec_state() == ModeTreeHelperState::TargetKeeping,
            final(self).spec_current_mode() == old(self).spec_seq_exec().spec_target_mode()->Some_0,
            final(self).spec_active_request_id() == old(self).spec_active_request_id(),
            final(self).spec_seq_exec() == old(self).spec_seq_exec(),
            final(self).spec_store() == old(self).spec_store(),
            final(self).spec_target_tables() == old(self).spec_target_tables(),
            final(self).spec_sequence_tables() == old(self).spec_sequence_tables(),
    {
        self.state = ModeTreeHelperState::TargetKeeping;
        self.current_mode = match self.seq_exec_helper.target_mode() {
            Some(m) => m,
            None => 0,
        };
    }

    /// Handles a reply of a child and returns whether it completes a step of sequence
    /// commanding.
    fn handle_reply_of_child(&mut self, reply_request_id: RequestId, sender_id: ComponentId, mode_and_submode: Option<ModeAndSubmode>, success: bool) -> (r: Result<bool, ModeTreeHelperError>)
        requires
            old(self).completes_step(reply_request_id, sender_id) ==> old(self).step_confirmable(),
        ensures
            store_after_reply(old(self).spec_store(), final(self).spec_store(), sender_id, mode_and_submode, old(self).handles_awaition(reply_request_id)),
            final(self).spec_current_mode() == old(self).spec_current_mode(),
            final(self).spec_target_tables() == old(self).spec_target_tables(),
            final(self).spec_sequence_tables() == old(self).spec_sequence_tables(),
            final(self).spec_seq_exec().spec_target_mode() == old(self).spec_seq_exec().spec_target_mode(),
            old(self).completes_step(reply_request_id, sender_id) ==> ({
                let seq = old(self).spec_seq_exec();
                let cur = seq.spec_current_sequence_index()->Some_0;
                let new_cur = if seq.spec_state() == SequenceExecutionHelperState::AwaitingSuccessCheck { (cur + 1) as usize } else { cur };
                let new_id = internal_request_id_of(old(self).spec_active_request_id()->Some_0 >> 8u32, new_cur);
                &&& final(self).spec_seq_exec().spec_current_sequence_index() == Some(new_cur)
                &&& final(self).spec_seq_exec().spec_state() == if seq.spec_state() == SequenceExecutionHelperState::AwaitingSuccessCheck {
                    if seq.spec_last_sequence_index() == Some(cur) { SequenceExecutionHelperState::Idle } else { SequenceExecutionHelperState::Busy }
                } else {
                    seq.spec_state()
                }
                &&& final(self).spec_active_request_id() == Some(new_id)
                &&& final(self).spec_seq_exec().spec_request_id() == Some(new_id)
            }),
            !old(self).completes_step(reply_request_id, sender_id) ==> final(self).spec_seq_exec() == old(self).spec_seq_exec() && final(self).spec_active_request_id() == old(self).spec_active_request_id(),
            !success && old(self).spec_state() == ModeTreeHelperState::ModeCommanding ==> final(self).spec_state() == ModeTreeHelperState::Idle && r == Err::<bool, ModeTreeHelperError>(ModeTreeHelperError::ModeCommmandFailure { seq_table_index: final(self).spec_seq_exec().spec_current_sequence_index() }),
            !(!success && old(self).spec_state() == ModeTreeHelperState::ModeCommanding) ==> final(self).spec_state() == old(self).spec_state() && r == Ok::<bool, ModeTreeHelperError>(old(self).completes_step(reply_request_id, sender_id)),
    {
        let mut partial_step_done = false;
        let mut handle_awaition = false;
        if self.state == ModeTreeHelperState::ModeCommanding && self.active_internal_request_id.is_some() && Some(reply_request_id) == self.active_internal_request_id {
            handle_awaition = true;
        }
        let ghost store_before = self.children_mode_store;
        let still_awaiting_replies = self.children_mode_store.mode_reply_handler(sender_id, mode_and_submode, handle_awaition);
        let still: bool = match still_awaiting_replies {
            Some(b) => b,
            None => false,
        };
        proof {
            if handle_awaition {
                if only_awaits(store_before, sender_id) {
                    if exists|j: int| 0 <= j < self.children_mode_store.0@.len() && #[trigger] self.children_mode_store.0@[j].spec_awaiting_reply() {
                        let j = choose|j: int| 0 <= j < self.children_mode_store.0@.len() && #[trigger] self.children_mode_store.0@[j].spec_awaiting_reply();
                        assert(store_before.0@[j].spec_awaiting_reply());
                    }
                } else {
                    let j = choose|j: int| 0 <= j < store_before.0@.len() && #[trigger] store_before.0@[j].spec_awaiting_reply() && store_before.0@[j].spec_id() != sender_id;
                    assert(self.children_mode_store.0@[j].spec_awaiting_reply());
                }
            }
        }
        if self.state == ModeTreeHelperState::ModeCommanding && handle_awaition && !still {
            self.seq_exec_helper.confirm_sequence_done();
            self.update_internal_req_id();
            partial_step_done = true;
        }
        if !success && self.state == ModeTreeHelperState::ModeCommanding {
            // The user has to decide how to proceed.
            self.state = ModeTreeHelperState::Idle;
            return Err(ModeTreeHelperError::ModeCommmandFailure {
                seq_table_index: self.seq_exec_helper.current_sequence_index(),
            });
        }
        Ok(partial_step_done)
    }

    /// Handles a mode reply message and returns whether the reply completes a step of sequence
    /// commanding. Replies of components which are not children are ignored.
    fn handle_mode_reply(&mut self, reply: &GenericMessage<ModeReply>) -> (r: Result<bool, ModeTreeHelperError>)
        requires
            old(self).spec_store().spec_contains(reply.requestor_info.spec_sender_id()) && old(self).completes_step(reply.requestor_info.spec_request_id(), reply.requestor_info.spec_sender_id()) ==> old(self).step_confirmable(),
        ensures
            !old(self).spec_store().spec_contains(reply.requestor_info.spec_sender_id()) ==> r == Ok::<bool, ModeTreeHelperError>(false) && *final(self) == *old(self),
            old(self).spec_store().spec_contains(reply.requestor_info.spec_sender_id()) ==> ({
                let rid = reply.requestor_info.spec_request_id();
                let sender = reply.requestor_info.spec_sender_id();
                let success = reply_success(reply.message);
                &&& store_after_reply(old(self).spec_store(), final(self).spec_store(), sender, reported_mode(reply.message), old(self).handles_awaition(rid))
                &&& final(self).spec_current_mode() == old(self).spec_current_mode()
                &&& final(self).spec_target_tables() == old(self).spec_target_tables()
                &&& final(self).spec_sequence_tables() == old(self).spec_sequence_tables()
                &&& final(self).spec_seq_exec().spec_target_mode() == old(self).spec_seq_exec().spec_target_mode()
                &&& old(self).completes_step(rid, sender) ==> ({
                    let seq = old(self).spec_seq_exec();
                    let cur = seq.spec_current_sequence_index()->Some_0;
                    let new_cur = if seq.spec_state() == SequenceExecutionHelperState::AwaitingSuccessCheck { (cur + 1) as usize } else { cur };
                    let new_id = internal_request_id_of(old(self).spec_active_request_id()->Some_0 >> 8u32, new_cur);
                    &&& final(self).spec_seq_exec().spec_current_sequence_index() == Some(new_cur)
                    &&& final(self).spec_seq_exec().spec_state() == if seq.spec_state() == SequenceExecutionHelperState::AwaitingSuccessCheck {
                        if seq.spec_last_sequence_index() == Some(cur) { SequenceExecutionHelperState::Idle } else { SequenceExecutionHelperState::Busy }
                    } else {
                        seq.spec_state()
                    }
                    &&& final(self).spec_active_request_id() == Some(new_id)
                    &&& final(self).spec_seq_exec().spec_request_id() == Some(new_id)
                })
                &&& !old(self).completes_step(rid, sender) ==> final(self).spec_seq_exec() == old(self).spec_seq_exec() && final(self).spec_active_request_id() == old(self).spec_active_request_id()
                &&& !success && old(self).spec_state() == ModeTreeHelperState::ModeCommanding ==> final(self).spec_state() == ModeTreeHelperState::Idle && r == Err::<bool, ModeTreeHelperError>(ModeTreeHelperError::ModeCommmandFailure { seq_table_index: final(self).spec_seq_exec().spec_current_sequence_index() })
                &&& !(!success && old(self).spec_state() == ModeTreeHelperState::ModeCommanding) ==> final(self).spec_state() == old(self).spec_state() && r == Ok::<bool, ModeTreeHelperError>(old(self).completes_step(rid, sender))
            }),
    {
        let sender_id = reply.sender_id();
        if !self.children_mode_store.has_component(sender_id) {
            return Ok(false);
        }
        let rid = reply.request_id();
        match reply.message {
            ModeReply::ModeInfo(mode_and_submode) => self.handle_reply_of_child(rid, sender_id, Some(mode_and_submode), true),
            ModeReply::ModeReply(mode_and_submode) => self.handle_reply_of_child(rid, sender_id, Some(mode_and_submode), true),
            ModeReply::CantReachMode(_) => self.handle_reply_of_child(rid, sender_id, None, false),
            ModeReply::WrongMode { reached, .. } => self.handle_reply_of_child(rid, sender_id, Some(reached), true),
        }
    }
}


impl SubsystemCommandingHelper {
    /// Whether a reply is one of a child of the helper.
    pub open spec fn reply_of_child(self, opt_reply: Option<GenericMessage<ModeReply>>) -> bool {
        opt_reply is Some && self.spec_store().spec_contains(opt_reply->Some_0.requestor_info.spec_sender_id())
    }

    /// The helper can step through the state machine without a panic on the given reply: the
    /// helper is consistent, a reply which completes a step finds a step to confirm, and a
    /// sequence to be run is in the sequence tables.
    pub open spec fn can_step(self, opt_reply: Option<GenericMessage<ModeReply>>) -> bool {
        &&& self.wf()
        &&& self.reply_of_child(opt_reply) && self.completes_step(opt_reply->Some_0.requestor_info.spec_request_id(), opt_reply->Some_0.requestor_info.spec_sender_id()) ==> self.step_confirmable()
        &&& self.spec_state() == ModeTreeHelperState::ModeCommanding && self.spec_seq_exec().spec_runs_step() ==> self.spec_seq_exec().spec_can_run_on(self.spec_sequence_tables())
    }

    /// Runs the state machine of the helper, with the mode reply which was received, if any.
    ///
    /// A reply of a child is handled first: its mode is recorded and, where it completes a step
    /// of sequence commanding, the step is confirmed and the result is
    /// [ModeCommandingResult::StepDone], or [ModeCommandingResult::Done] (and the helper keeps
    /// the target mode from then on) where it was the last step. A reply which reports that the
    /// mode could not be reached during mode commanding fails the commanding and makes the
    /// helper idle.
    ///
    /// Otherwise, an idle helper does nothing; a helper which keeps the target mode checks the
    /// modes of the children against the target table of its mode; a helper which commands a
    /// mode runs the sequence execution helper.
    pub fn state_machine<S: ModeRequestSender, C: IsChildCommandable>(
        &mut self,
        opt_reply: Option<GenericMessage<ModeReply>>,
        req_sender: &mut S,
        is_commandable: &C,
    ) -> (r: Result<SubsystemHelperResult, ModeTreeHelperError>)
        requires
            old(self).can_step(opt_reply),
        ensures
            final(self).spec_target_tables() == old(self).spec_target_tables(),
            final(self).spec_sequence_tables() == old(self).spec_sequence_tables(),
            old(self).spec_state() != ModeTreeHelperState::ModeCommanding ==> final(req_sender).spec_sent() == old(req_sender).spec_sent(),
            old(self).reply_of_child(opt_reply) && (old(self).completes_step(opt_reply->Some_0.requestor_info.spec_request_id(), opt_reply->Some_0.requestor_info.spec_sender_id()) || !reply_success(opt_reply->Some_0.message)) ==> final(req_sender).spec_sent() == old(req_sender).spec_sent(),
            old(self).spec_state() == ModeTreeHelperState::ModeCommanding && !(old(self).reply_of_child(opt_reply) && (old(self).completes_step(opt_reply->Some_0.requestor_info.spec_request_id(), opt_reply->Some_0.requestor_info.spec_sender_id()) || !reply_success(opt_reply->Some_0.message))) && r is Ok ==> final(req_sender).spec_sent()@ == old(req_sender).spec_sent()@ + old(self).spec_seq_exec().step_requests(old(self).spec_sequence_tables(), is_commandable),
            old(self).reply_of_child(opt_reply) ==> ({
                let reply = opt_reply->Some_0;
                let rid = reply.requestor_info.spec_request_id();
                let sender = reply.requestor_info.spec_sender_id();
                &&& !reply_success(reply.message) && old(self).spec_state() == ModeTreeHelperState::ModeCommanding ==> final(self).spec_state() == ModeTreeHelperState::Idle && r == Err::<SubsystemHelperResult, ModeTreeHelperError>(ModeTreeHelperError::ModeCommmandFailure { seq_table_index: final(self).spec_seq_exec().spec_current_sequence_index() })
                &&& old(self).completes_step(rid, sender) && reply_success(reply.message) ==> (if final(self).spec_seq_exec().spec_state() == SequenceExecutionHelperState::Idle {
                    &&& r == Ok::<SubsystemHelperResult, ModeTreeHelperError>(SubsystemHelperResult::ModeCommanding(ModeCommandingResult::Done))
                    &&& final(self).spec_state() == ModeTreeHelperState::TargetKeeping
                    &&& final(self).spec_current_mode() == old(self).spec_seq_exec().spec_target_mode()->Some_0
                } else {
                    &&& r == Ok::<SubsystemHelperResult, ModeTreeHelperError>(SubsystemHelperResult::ModeCommanding(ModeCommandingResult::StepDone))
                    &&& final(self).spec_state() == ModeTreeHelperState::ModeCommanding
                })
            }),
            old(self).spec_state() == ModeTreeHelperState::Idle ==> r == Ok::<SubsystemHelperResult, ModeTreeHelperError>(SubsystemHelperResult::Idle) && final(self).spec_state() == ModeTreeHelperState::Idle,
            old(self).spec_state() == ModeTreeHelperState::TargetKeeping ==> ({
                let tables = target_tables_contents(old(self).spec_target_tables());
                let mode = old(self).spec_current_mode();
                &&& final(self).spec_state() == ModeTreeHelperState::TargetKeeping
                &&& final(self).spec_current_mode() == mode
                &&& (tables.contains_key(mode) && table_violated(final(self).spec_store(), tables[mode])) ==> r == Err::<SubsystemHelperResult, ModeTreeHelperError>(ModeTreeHelperError::TargetKeepingViolation { fallback_mode: tables[mode].fallback_mode })
                &&& !(tables.contains_key(mode) && table_violated(final(self).spec_store(), tables[mode])) ==> r == Ok::<SubsystemHelperResult, ModeTreeHelperError>(SubsystemHelperResult::TargetKeeping)
            }),
            old(self).spec_state() == ModeTreeHelperState::ModeCommanding && !(old(self).reply_of_child(opt_reply) && (old(self).completes_step(opt_reply->Some_0.requestor_info.spec_request_id(), opt_reply->Some_0.requestor_info.spec_sender_id()) || !reply_success(opt_reply->Some_0.message))) ==> ({
                match r {
                    Ok(SubsystemHelperResult::ModeCommanding(ModeCommandingResult::Done)) => final(self).spec_state() == ModeTreeHelperState::TargetKeeping && final(self).spec_current_mode() == old(self).spec_seq_exec().spec_target_mode()->Some_0,
                    Ok(SubsystemHelperResult::ModeCommanding(ModeCommandingResult::StepDone)) => final(self).spec_state() == ModeTreeHelperState::ModeCommanding && final(self).spec_active_request_id() == Some(internal_request_id_of(old(self).spec_active_request_id()->Some_0 >> 8u32, final(self).spec_seq_exec().spec_current_sequence_index()->Some_0)),
                    Ok(SubsystemHelperResult::ModeCommanding(ModeCommandingResult::AwaitingSuccessCheck)) => final(self).spec_state() == ModeTreeHelperState::ModeCommanding && final(self).spec_seq_exec().spec_state() == SequenceExecutionHelperState::AwaitingSuccessCheck,
                    Err(e) => e is Message && final(self).spec_state() == ModeTreeHelperState::ModeCommanding,
                    _ => false,
                }
            }),
    {
        if let Some(reply) = opt_reply {
            let handled = self.handle_mode_reply(&reply);
            match handled {
                Err(e) => {
                    return Err(e);
                },
                Ok(true) => {
                    if self.seq_exec_helper.state() == SequenceExecutionHelperState::Idle {
                        self.transition_to_target_keeping();
                        return Ok(SubsystemHelperResult::ModeCommanding(ModeCommandingResult::Done));
                    }
                    return Ok(SubsystemHelperResult::ModeCommanding(ModeCommandingResult::StepDone));
                },
                Ok(false) => {},
            }
        }
        match self.state {
            ModeTreeHelperState::Idle => Ok(SubsystemHelperResult::Idle),
            ModeTreeHelperState::TargetKeeping => {
                // We check whether the current mode is modelled by a target table first.
                if let Some(target_table) = self.target_tables.get_table(self.current_mode) {
                    let kept = self.perform_target_keeping(target_table);
                    if let Err(e) = kept {
                        return Err(e);
                    }
                }
                Ok(SubsystemHelperResult::TargetKeeping)
            },
            ModeTreeHelperState::ModeCommanding => {
                let run_result = self.seq_exec_helper.run(
                    &self.sequence_tables,
                    req_sender,
                    &mut self.children_mode_store,
                    is_commandable,
                );
                let result = match run_result {
                    Ok(res) => res,
                    Err(e) => {
                        return Err(ModeTreeHelperError::Message(e));
                    },
                };
                match result {
                    ModeCommandingResult::Done => {
                        // By default, the helper will automatically transition into the target
                        // keeping mode after an executed sequence.
                        self.transition_to_target_keeping();
                    },
                    ModeCommandingResult::StepDone => {
                        // Normally, this step is done after all replies were received, but if no
                        // reply checking is required for a command sequence, the step would never
                        // be performed, so this function needs to be called here as well.
                        self.update_internal_req_id();
                    },
                    ModeCommandingResult::AwaitingSuccessCheck => {},
                }
                Ok(SubsystemHelperResult::ModeCommanding(result))
            },
        }
    }
}

} // verus!
