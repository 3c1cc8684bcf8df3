//! Helpers for manager components, such as assemblies, which forward mode commands to all of
//! their children.
use vstd::prelude::*;
use crate::legacy::subsystem::{ModeTreeHelperState, reported_mode, store_after_reply, same_children_and_modes};
use crate::mode::{ModeAndSubmode, ModeReply, ModeRequest, ModeRequestSender};
use crate::mode_tree::{
    announce_request, lemma_requests_to_children_step, requests_to_children, ModeStoreProvider, ModeStoreVec,
    ModeStoreVecValue,
};
use crate::queue::GenericTargetedMessagingError;
use crate::request::{GenericMessage, RequestId};
use crate::ComponentId;

verus! {

#[derive(Debug, Default, Copy, Clone, PartialEq, Eq, Structural)]
pub enum AssemblyHelperResult {
    #[default]
    Idle,
    TargetKeepingViolation(ComponentId),
    ModeCommandingDone,
}

/// A generic helper for manager components which manage child components in a mode tree.
///
/// Mode commands are usually forwarded to all children components transparently.
/// For example, this could be used in an Assembly component which manages multiple redundant
/// child components. It can also be used inside a manager component which only manages one device.
#[derive(Debug, Default)]
pub struct AssemblyCommandingHelper {
    /// The IDs, modes and reply awaition status of all children are tracked in this data
    /// structure.
    pub children_mode_store: ModeStoreVec,
    /// Target mode used for mode commanding.
    pub target_mode: Option<ModeAndSubmode>,
    /// Request ID of active mode commanding request.
    pub active_request_id: Option<RequestId>,
    pub state: ModeTreeHelperState,
}

pub type DevManagerCommandingHelper = AssemblyCommandingHelper;

/// The number of children in the given mode.
pub open spec fn count_in_mode(children: Seq<ModeStoreVecValue>, mode: ModeAndSubmode) -> nat
    decreases children.len(),
{
    if children.len() == 0 {
        0
    } else {
        count_in_mode(children.drop_last(), mode) + if children.last().spec_mode_and_submode() == mode {
            1nat
        } else {
            0nat
        }
    }
}

/// The replies of the children before index `k`, which is an index of a child, are awaited in
/// `after`; the other children are as in `before`.
pub open spec fn marked_before(before: ModeStoreVec, after: ModeStoreVec, k: int) -> bool {
    &&& 0 <= k < before.0@.len()
    &&& forall|j: int| 0 <= j < before.0@.len() ==> #[trigger] after.0@[j].spec_awaiting_reply() == if j < k { true } else { before.0@[j].spec_awaiting_reply() }
}

impl AssemblyCommandingHelper {
    /// Sends a set-mode request for the mode to every child, in order, and marks the reply of
    /// each child to which the request was sent as awaited. Where all requests were sent, the
    /// helper is commanding the mode with the request ID.
    pub fn send_mode_cmd_to_all_children_with_reply_awaition<S: ModeRequestSender>(
        &mut self,
        request_id: RequestId,
        mode_and_submode: ModeAndSubmode,
        forced: bool,
        mode_req_sender: &mut S,
    ) -> (r: Result<(), GenericTargetedMessagingError>)
        ensures
            r is Ok ==> final(mode_req_sender).spec_sent()@ == old(mode_req_sender).spec_sent()@ + requests_to_children(
                old(self).children_mode_store.0@,
                request_id,
                ModeRequest::SetMode { mode_and_submode, forced },
            ),
            final(self).target_mode == Some(mode_and_submode),
            same_children_and_modes(final(self).children_mode_store, old(self).children_mode_store),
            r is Ok ==> final(self).active_request_id == Some(request_id) && final(self).state == ModeTreeHelperState::ModeCommanding && forall|j: int| 0 <= j < final(self).children_mode_store.0@.len() ==> #[trigger] final(self).children_mode_store.0@[j].spec_awaiting_reply(),
            r matches Err(e) ==> e is Send && final(self).active_request_id == old(self).active_request_id && final(self).state == old(self).state && exists|k: int| #[trigger] marked_before(old(self).children_mode_store, final(self).children_mode_store, k),
            old(mode_req_sender).spec_accepts_all() ==> r is Ok,
            r is Err ==> exists|k: int| 0 <= k < old(self).children_mode_store.0@.len() && final(mode_req_sender).spec_sent()@ == old(mode_req_sender).spec_sent()@ + requests_to_children(
                #[trigger] old(self).children_mode_store.0@.take(k),
                request_id,
                ModeRequest::SetMode { mode_and_submode, forced },
            ),
    {
        self.target_mode = Some(mode_and_submode);
        let ghost old_entries = self.children_mode_store.0@;
        let mut i: usize = 0;
        while i < self.children_mode_store.0.len()
            invariant
                i <= self.children_mode_store.0@.len(),
                self.children_mode_store.0@.len() == old_entries.len(),
                old_entries == old(self).children_mode_store.0@,
                self.target_mode == Some(mode_and_submode),
                self.active_request_id == old(self).active_request_id,
                self.state == old(self).state,
                forall|j: int| 0 <= j < old_entries.len() ==> #[trigger] self.children_mode_store.0@[j].spec_id() == old_entries[j].spec_id(),
                forall|j: int| 0 <= j < old_entries.len() ==> #[trigger] self.children_mode_store.0@[j].spec_mode_and_submode() == old_entries[j].spec_mode_and_submode(),
                forall|j: int| 0 <= j < old_entries.len() ==> #[trigger] self.children_mode_store.0@[j].spec_awaiting_reply() == if j < i { true } else { old_entries[j].spec_awaiting_reply() },
                mode_req_sender.spec_sent()@ == old(mode_req_sender).spec_sent()@ + requests_to_children(
                    old_entries.take(i as int),
                    request_id,
                    ModeRequest::SetMode { mode_and_submode, forced },
                ),
                old(mode_req_sender).spec_accepts_all() ==> mode_req_sender.spec_accepts_all(),
            decreases self.children_mode_store.0@.len() - i,
        {
            proof {
                lemma_requests_to_children_step(old_entries, request_id, ModeRequest::SetMode { mode_and_submode, forced }, i as int);
            }
            let child_id = self.children_mode_store.0[i].id();
            let sent = mode_req_sender.send_mode_request(
                request_id,
                child_id,
                ModeRequest::SetMode { mode_and_submode, forced },
            );
            if let Err(e) = sent {
                proof {
                    assert(marked_before(old(self).children_mode_store, self.children_mode_store, i as int));
                }
                return Err(GenericTargetedMessagingError::Send(e));
            }
            let ghost before = self.children_mode_store.0@;
            assert(before[i as int].spec_id() == old_entries[i as int].spec_id());
            assert(before[i as int].spec_mode_and_submode() == old_entries[i as int].spec_mode_and_submode());
            let v = ModeStoreVecValue::new(child_id, self.children_mode_store.0[i].mode_and_submode()).with_awaiting_reply(true);
            self.children_mode_store.0.set(i, v);
            assert(self.children_mode_store.0@[i as int].spec_id() == old_entries[i as int].spec_id());
            assert(self.children_mode_store.0@[i as int].spec_mode_and_submode() == old_entries[i as int].spec_mode_and_submode());
            assert(self.children_mode_store.0@[i as int].spec_awaiting_reply());
            assert(mode_req_sender.spec_sent()@ =~= old(mode_req_sender).spec_sent()@ + requests_to_children(
                old_entries.take(i + 1),
                request_id,
                ModeRequest::SetMode { mode_and_submode, forced },
            ));
            i += 1;
        }
        assert(old_entries.take(i as int) =~= old_entries);
        self.active_request_id = Some(request_id);
        self.state = ModeTreeHelperState::ModeCommanding;
        Ok(())
    }

    /// Sends an announce mode request, recursive or not, to all children.
    pub fn send_announce_mode_cmd_to_children<S: ModeRequestSender>(&self, request_id: RequestId, mode_req_sender: &mut S, recursive: bool) -> (r: Result<(), GenericTargetedMessagingError>)
        ensures
            r matches Err(e) ==> e is Send,
            self.children_mode_store.0@.len() == 0 ==> r is Ok && final(mode_req_sender).spec_sent() == old(mode_req_sender).spec_sent(),
            r is Ok ==> final(mode_req_sender).spec_sent()@ == old(mode_req_sender).spec_sent()@ + requests_to_children(
                self.children_mode_store.0@,
                request_id,
                announce_request(recursive),
            ),
            old(mode_req_sender).spec_accepts_all() ==> r is Ok,
            r is Err ==> exists|k: int| 0 <= k < self.children_mode_store.0@.len() && final(mode_req_sender).spec_sent()@ == old(mode_req_sender).spec_sent()@ + requests_to_children(
                #[trigger] self.children_mode_store.0@.take(k),
                request_id,
                announce_request(recursive),
            ),
    {
        let mut request = ModeRequest::AnnounceMode;
        if recursive {
            request = ModeRequest::AnnounceModeRecursive;
        }
        let ghost children = self.children_mode_store.0@;
        let mut i: usize = 0;
        while i < self.children_mode_store.0.len()
            invariant
                i <= self.children_mode_store.0@.len(),
                children == self.children_mode_store.0@,
                request == announce_request(recursive),
                mode_req_sender.spec_sent()@ == old(mode_req_sender).spec_sent()@ + requests_to_children(children.take(i as int), request_id, request),
                children.len() == 0 ==> mode_req_sender.spec_sent() == old(mode_req_sender).spec_sent(),
                old(mode_req_sender).spec_accepts_all() ==> mode_req_sender.spec_accepts_all(),
            decreases self.children_mode_store.0@.len() - i,
        {
            proof {
                lemma_requests_to_children_step(children, request_id, request, i as int);
            }
            let child_id = self.children_mode_store.0[i].id();
            let sent = mode_req_sender.send_mode_request(request_id, child_id, request);
            if let Err(e) = sent {
                return Err(GenericTargetedMessagingError::Send(e));
            }
            assert(mode_req_sender.spec_sent()@ =~= old(mode_req_sender).spec_sent()@ + requests_to_children(children.take(i + 1), request_id, request));
            i += 1;
        }
        assert(children.take(i as int) =~= children);
        Ok(())
    }

    pub fn add_mode_child(&mut self, target_id: ComponentId, mode: ModeAndSubmode)
        ensures
            final(self).children_mode_store.spec_contains(target_id),
            !old(self).children_mode_store.spec_contains(target_id) ==> final(self).children_mode_store.spec_mode_of(target_id) == Some(mode),
            final(self).target_mode == old(self).target_mode,
            final(self).active_request_id == old(self).active_request_id,
            final(self).state == old(self).state,
            final(self).children_mode_store.0@.len() == old(self).children_mode_store.0@.len() + 1,
            final(self).children_mode_store.0@.take(old(self).children_mode_store.0@.len() as int) == old(self).children_mode_store.0@,
            final(self).children_mode_store.0@.last().spec_id() == target_id,
            final(self).children_mode_store.0@.last().spec_mode_and_submode() == mode,
            !final(self).children_mode_store.0@.last().spec_awaiting_reply(),
    {
        self.children_mode_store.add_component(target_id, mode);
    }

    /// The number of children in the target mode, or [None] where there is no target mode.
    pub fn count_number_of_children_with_target_mode(&self) -> (r: Option<usize>)
        ensures
            self.target_mode is None ==> r is None,
            self.target_mode matches Some(m) ==> r == Some(count_in_mode(self.children_mode_store.0@, m) as usize),
    {
        let target_mode = match self.target_mode {
            Some(m) => m,
            None => {
                return None;
            },
        };
        let mut children_in_target_mode: usize = 0;
        let mut i: usize = 0;
        while i < self.children_mode_store.0.len()
            invariant
                i <= self.children_mode_store.0@.len(),
                children_in_target_mode == count_in_mode(self.children_mode_store.0@.take(i as int), target_mode),
                children_in_target_mode <= i,
            decreases self.children_mode_store.0@.len() - i,
        {
            proof {
                let s = self.children_mode_store.0@;
                assert(s.take(i + 1).drop_last() =~= s.take(i as int));
            }
            if self.children_mode_store.0[i].mode_and_submode() == target_mode {
                children_in_target_mode += 1;
            }
            i += 1;
        }
        proof {
            assert(self.children_mode_store.0@.take(i as int) =~= self.children_mode_store.0@);
        }
        Some(children_in_target_mode)
    }

    /// Handles a mode reply of a child: records the reported mode and, where the reply belongs
    /// to the active mode command, the received reply. When the last awaited reply arrives, mode
    /// commanding is done and the helper keeps the target mode. While the helper keeps the
    /// target mode, a reported mode other than the target mode is a target keeping violation.
    /// Replies of components which are not children are ignored.
    pub fn handle_mode_reply(&mut self, mode_reply: &GenericMessage<ModeReply>) -> (r: AssemblyHelperResult)
        ensures
            ({
                let sender = mode_reply.requestor_info.spec_sender_id();
                let reported = reported_mode(mode_reply.message);
                let handle = old(self).state == ModeTreeHelperState::ModeCommanding && old(self).active_request_id == Some(mode_reply.requestor_info.spec_request_id());
                &&& !old(self).children_mode_store.spec_contains(sender) ==> r == AssemblyHelperResult::Idle && *final(self) == *old(self)
                &&& old(self).children_mode_store.spec_contains(sender) ==> {
                    &&& store_after_reply(old(self).children_mode_store, final(self).children_mode_store, sender, reported, handle)
                    &&& final(self).target_mode == old(self).target_mode
                    &&& if old(self).state == ModeTreeHelperState::TargetKeeping && reported is Some && old(self).target_mode is Some && reported->Some_0 != old(self).target_mode->Some_0 {
                        &&& r == AssemblyHelperResult::TargetKeepingViolation(sender)
                        &&& final(self).state == old(self).state
                        &&& final(self).active_request_id == old(self).active_request_id
                    } else if handle && !(exists|j: int| 0 <= j < final(self).children_mode_store.0@.len() && #[trigger] final(self).children_mode_store.0@[j].spec_awaiting_reply()) {
                        &&& r == AssemblyHelperResult::ModeCommandingDone
                        &&& final(self).state == ModeTreeHelperState::TargetKeeping
                        &&& final(self).active_request_id is None
                    } else {
                        &&& r == AssemblyHelperResult::Idle
                        &&& final(self).state == old(self).state
                        &&& final(self).active_request_id == old(self).active_request_id
                    }
                }
            }),
    {
        let sender_id = mode_reply.sender_id();
        if !self.children_mode_store.has_component(sender_id) {
            return AssemblyHelperResult::Idle;
        }
        let mode_and_submode: Option<ModeAndSubmode> = match mode_reply.message {
            ModeReply::ModeInfo(m) => Some(m),
            ModeReply::ModeReply(m) => Some(m),
            ModeReply::CantReachMode(_) => None,
            ModeReply::WrongMode { reached, .. } => Some(reached),
        };
        // Tying the reply awaition to the request ID ensures that something like replies
        // belonging to older requests do not interfere with the completion handling of
        // the mode commanding. This is important for forced mode commands.
        let mut handle_awaition = false;
        if self.state == ModeTreeHelperState::ModeCommanding && self.active_request_id.is_some() && Some(mode_reply.request_id()) == self.active_request_id {
            handle_awaition = true;
        }
        let still_awaiting_replies = self.children_mode_store.mode_reply_handler(sender_id, mode_and_submode, handle_awaition);
        if self.state == ModeTreeHelperState::TargetKeeping && mode_and_submode.is_some() && self.target_mode.is_some() {
            let reported = match mode_and_submode {
                Some(m) => m,
                None => ModeAndSubmode::new(0, 0),
            };
            let target = match self.target_mode {
                Some(m) => m,
                None => ModeAndSubmode::new(0, 0),
            };
            if reported != target {
                return AssemblyHelperResult::TargetKeepingViolation(sender_id);
            }
        }
        let still: bool = match still_awaiting_replies {
            Some(b) => b,
            None => true,
        };
        if self.state == ModeTreeHelperState::ModeCommanding && handle_awaition && !still {
            self.state = ModeTreeHelperState::TargetKeeping;
            self.active_request_id = None;
            return AssemblyHelperResult::ModeCommandingDone;
        }
        AssemblyHelperResult::Idle
    }
}

} // verus!
