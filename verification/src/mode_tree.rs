//! Mode trees: parents which command the modes of their children, the tables which describe
//! the modes of the children for each mode of a parent, and stores which track the modes of
//! children.
use vstd::prelude::*;
use crate::mode::{Mode, ModeAndSubmode, ModeRequest, Submode};
use crate::request::RequestId;
use crate::ComponentId;

verus! {

/// Common trait for node modes which can have mode parents or mode children.
pub trait ModeNode {
    /// The unique component ID of the node.
    spec fn spec_id(&self) -> ComponentId;

    fn id(&self) -> (r: ComponentId)
        ensures
            r == self.spec_id(),
    ;
}

/// Trait which denotes that an object is a parent in a mode tree.
///
/// A mode parent is capable of sending mode requests to child objects and has a unique component
/// ID.
pub trait ModeParent: ModeNode {
    type Sender;

    /// The sender of mode requests which the parent holds for the child, if it holds one.
    spec fn spec_child_sender(&self, id: ComponentId) -> Option<Self::Sender>;

    /// Adds the child with the sender of its mode requests; the senders of the other children and
    /// the parent's own ID stay.
    fn add_mode_child(&mut self, id: ComponentId, request_sender: Self::Sender)
        ensures
            final(self).spec_child_sender(id) == Some(request_sender),
            forall|other: ComponentId| other != id ==> #[trigger] final(self).spec_child_sender(other) == old(self).spec_child_sender(other),
            final(self).spec_id() == old(self).spec_id(),
    ;
}

/// Trait which denotes that an object is a child in a mode tree.
///
/// A child is capable of sending mode replies to parent objects and has a unique component ID.
pub trait ModeChild: ModeNode {
    type Sender;

    /// The sender of mode replies which the child holds for the parent, if it holds one.
    spec fn spec_parent_sender(&self, id: ComponentId) -> Option<Self::Sender>;

    /// Adds the parent with the sender of its mode replies; the senders of the other parents and
    /// the child's own ID stay.
    fn add_mode_parent(&mut self, id: ComponentId, reply_sender: Self::Sender)
        ensures
            final(self).spec_parent_sender(id) == Some(reply_sender),
            forall|other: ComponentId| other != id ==> #[trigger] final(self).spec_parent_sender(other) == old(self).spec_parent_sender(other),
            final(self).spec_id() == old(self).spec_id(),
    ;
}

/// The announce request, recursive or not.
pub open spec fn announce_request(recursive: bool) -> ModeRequest {
    if recursive {
        ModeRequest::AnnounceModeRecursive
    } else {
        ModeRequest::AnnounceMode
    }
}

/// The same request with the request ID to each of the children, in their order.
pub open spec fn requests_to_children(children: Seq<ModeStoreVecValue>, request_id: RequestId, request: ModeRequest) -> Seq<(RequestId, ComponentId, ModeRequest)> {
    children.map_values(|c: ModeStoreVecValue| (request_id, c.spec_id(), request))
}

/// Taking one more child into account appends the request to that child.
pub proof fn lemma_requests_to_children_step(children: Seq<ModeStoreVecValue>, request_id: RequestId, request: ModeRequest, i: int)
    requires
        0 <= i < children.len(),
    ensures
        requests_to_children(children.take(i + 1), request_id, request) == requests_to_children(children.take(i), request_id, request).push((request_id, children[i].spec_id(), request)),
{
    assert(requests_to_children(children.take(i + 1), request_id, request) =~= requests_to_children(children.take(i), request_id, request).push((request_id, children[i].spec_id(), request)));
}

/// Utility method which connects a mode tree parent object to a child object by calling
/// [ModeParent::add_mode_child] on the [parent][ModeParent] and calling
/// [ModeChild::add_mode_parent] on the [child][ModeChild].
pub fn connect_mode_nodes<ReqSender, ReplySender, P: ModeParent<Sender = ReqSender>, C: ModeChild<Sender = ReplySender>>(
    parent: &mut P,
    request_sender: ReqSender,
    child: &mut C,
    reply_sender: ReplySender,
)
    ensures
        final(parent).spec_child_sender(old(child).spec_id()) == Some(request_sender),
        final(child).spec_parent_sender(old(parent).spec_id()) == Some(reply_sender),
        forall|other: ComponentId| other != old(child).spec_id() ==> #[trigger] final(parent).spec_child_sender(other) == old(parent).spec_child_sender(other),
        forall|other: ComponentId| other != old(parent).spec_id() ==> #[trigger] final(child).spec_parent_sender(other) == old(child).spec_parent_sender(other),
        final(parent).spec_id() == old(parent).spec_id(),
        final(child).spec_id() == old(child).spec_id(),
{
    let child_id = child.id();
    parent.add_mode_child(child_id, request_sender);
    let parent_id = parent.id();
    child.add_mode_parent(parent_id, reply_sender);
}

#[derive(Debug, Copy, Clone, PartialEq, Eq, Structural)]
pub enum TableEntryType {
    /// Target table containing information of the expected children modes for  given mode.
    Target,
    /// Sequence table which contains information about how to reach a target table, including
    /// the order of the sequences.
    Sequence,
}

/// Common fields required for both target and sequence table entries.
///
/// The most important parameters here are the target ID which this entry belongs to, and the mode
/// and submode the entry either will be commanded to for sequence table entries or which will be
/// monitored for target table entries.
#[derive(Debug, Copy, Clone)]
pub struct ModeTableEntryCommon {
    /// Name of respective table entry.
    pub name: &'static str,
    /// Target component ID.
    pub target_id: ComponentId,
    /// Has a different meaning depending on whether this is a sequence table or a target table.
    ///
    ///  - For sequence tables, this denotes the mode which will be commanded
    ///  - For target tables, this is the mode which the target children should have and which
    ///    might be monitored depending on configuration.
    pub mode_submode: ModeAndSubmode,
    /// This mask allows to specify multiple allowed submodes for a given mode.
    pub allowed_submode_mask: Option<Submode>,
}

impl ModeTableEntryCommon {
    pub fn set_allowed_submode_mask(&mut self, mask: Submode)
        ensures
            *final(self) == (ModeTableEntryCommon { allowed_submode_mask: Some(mask), ..*old(self) }),
    {
        self.allowed_submode_mask = Some(mask);
    }

    pub fn allowed_submode_mask(&self) -> (r: Option<Submode>)
        ensures
            r == self.allowed_submode_mask,
    {
        self.allowed_submode_mask
    }
}

/// An entry for the target tables.
#[derive(Debug)]
pub struct TargetTableEntry {
    pub common: ModeTableEntryCommon,
    pub monitor_state: bool,
}

impl TargetTableEntry {
    pub fn new(
        name: &'static str,
        target_id: ComponentId,
        mode_submode: ModeAndSubmode,
        allowed_submode_mask: Option<Submode>,
    ) -> (r: Self)
        ensures
            r.common.name == name,
            r.common.target_id == target_id,
            r.common.mode_submode == mode_submode,
            r.common.allowed_submode_mask == allowed_submode_mask,
            r.monitor_state,
    {
        Self {
            common: ModeTableEntryCommon { name, target_id, mode_submode, allowed_submode_mask },
            monitor_state: true,
        }
    }

    pub fn new_with_precise_submode(
        name: &'static str,
        target_id: ComponentId,
        mode_submode: ModeAndSubmode,
    ) -> (r: Self)
        ensures
            r.common.name == name,
            r.common.target_id == target_id,
            r.common.mode_submode == mode_submode,
            r.common.allowed_submode_mask is None,
            r.monitor_state,
    {
        Self {
            common: ModeTableEntryCommon {
                name,
                target_id,
                mode_submode,
                allowed_submode_mask: None,
            },
            monitor_state: true,
        }
    }

    pub fn set_allowed_submode_mask(&mut self, mask: Submode)
        ensures
            final(self).common == (ModeTableEntryCommon { allowed_submode_mask: Some(mask), ..old(self).common }),
            final(self).monitor_state == old(self).monitor_state,
    {
        self.common.set_allowed_submode_mask(mask);
    }

    pub fn allowed_submode_mask(&self) -> (r: Option<Submode>)
        ensures
            r == self.common.allowed_submode_mask,
    {
        self.common.allowed_submode_mask()
    }
}

/// An entry for the sequence tables.
///
/// The `check_success` field instructs the mode sequence executor to verify that the
/// target mode was actually reached before executing the next sequence.
#[derive(Debug)]
pub struct SequenceTableEntry {
    pub common: ModeTableEntryCommon,
    pub check_success: bool,
}

impl SequenceTableEntry {
    pub fn new(
        name: &'static str,
        target_id: ComponentId,
        mode_submode: ModeAndSubmode,
        check_success: bool,
    ) -> (r: Self)
        ensures
            r.common.name == name,
            r.common.target_id == target_id,
            r.common.mode_submode == mode_submode,
            r.common.allowed_submode_mask is None,
            r.check_success == check_success,
    {
        Self {
            common: ModeTableEntryCommon {
                name,
                target_id,
                mode_submode,
                allowed_submode_mask: None,
            },
            check_success,
        }
    }

    pub fn set_allowed_submode_mask(&mut self, mask: Submode)
        ensures
            final(self).common == (ModeTableEntryCommon { allowed_submode_mask: Some(mask), ..old(self).common }),
            final(self).check_success == old(self).check_success,
    {
        self.common.set_allowed_submode_mask(mask);
    }

    pub fn allowed_submode_mask(&self) -> (r: Option<Submode>)
        ensures
            r == self.common.allowed_submode_mask,
    {
        self.common.allowed_submode_mask()
    }
}

/// The target is not contained in the mode store.
#[derive(Debug, Copy, Clone, PartialEq, Eq, Structural)]
pub struct TargetNotInModeStoreError(pub ComponentId);

/// A store of the modes of components.
///
/// The store is described by which components it contains and, for each of them, its mode.
pub trait ModeStoreProvider {
    /// Whether the store contains the component.
    spec fn spec_contains(&self, target_id: ComponentId) -> bool;

    /// The mode stored for the component, if it is contained.
    spec fn spec_mode_of(&self, target_id: ComponentId) -> Option<ModeAndSubmode>;

    fn add_component(&mut self, target_id: ComponentId, mode: ModeAndSubmode)
        ensures
            final(self).spec_contains(target_id),
            !old(self).spec_contains(target_id) ==> final(self).spec_mode_of(target_id) == Some(mode),
            old(self).spec_contains(target_id) ==> final(self).spec_mode_of(target_id) == old(self).spec_mode_of(target_id) || final(self).spec_mode_of(target_id) == Some(mode),
            forall|other: ComponentId| other != target_id ==> #[trigger] final(self).spec_contains(other) == old(self).spec_contains(other),
            forall|other: ComponentId| other != target_id ==> #[trigger] final(self).spec_mode_of(other) == old(self).spec_mode_of(other),
    ;

    fn has_component(&self, target_id: ComponentId) -> (r: bool)
        ensures
            r == self.spec_contains(target_id),
    ;

    fn get_mode(&self, target_id: ComponentId) -> (r: Option<ModeAndSubmode>)
        ensures
            r == self.spec_mode_of(target_id),
            r is Some <==> self.spec_contains(target_id),
    ;

    fn set_mode_for_contained_component(&mut self, target_id: ComponentId, mode: ModeAndSubmode)
        ensures
            forall|id: ComponentId| #[trigger] final(self).spec_contains(id) == old(self).spec_contains(id),
            old(self).spec_contains(target_id) ==> final(self).spec_mode_of(target_id) == Some(mode),
            !old(self).spec_contains(target_id) ==> final(self).spec_mode_of(target_id) == old(self).spec_mode_of(target_id),
            forall|other: ComponentId| other != target_id ==> #[trigger] final(self).spec_mode_of(other) == old(self).spec_mode_of(other),
    ;

    /// Sets the mode of a component which is contained in the store, or fails with
    /// [TargetNotInModeStoreError] where it is not.
    fn set_mode(&mut self, target_id: ComponentId, mode: ModeAndSubmode) -> (r: Result<(), TargetNotInModeStoreError>)
        ensures
            old(self).spec_contains(target_id) ==> r is Ok && final(self).spec_mode_of(target_id) == Some(mode),
            !old(self).spec_contains(target_id) ==> r == Err::<(), TargetNotInModeStoreError>(TargetNotInModeStoreError(target_id)) && final(self).spec_mode_of(target_id) == old(self).spec_mode_of(target_id),
            forall|id: ComponentId| #[trigger] final(self).spec_contains(id) == old(self).spec_contains(id),
            forall|other: ComponentId| other != target_id ==> #[trigger] final(self).spec_mode_of(other) == old(self).spec_mode_of(other),
    {
        if !self.has_component(target_id) {
            return Err(TargetNotInModeStoreError(target_id));
        }
        self.set_mode_for_contained_component(target_id, mode);
        Ok(())
    }
}

/// One row of a target table.
#[derive(Debug)]
pub struct TargetTablesMapValue {
    /// Name for a given mode table entry.
    pub name: &'static str,
    /// Optional fallback mode if the target mode can not be kept.
    pub fallback_mode: Option<Mode>,
    /// These are the rows of the a target table.
    pub entries: Vec<TargetTableEntry>,
}

impl TargetTablesMapValue {
    pub fn new(name: &'static str, fallback_mode: Option<Mode>) -> (r: Self)
        ensures
            r.name == name,
            r.fallback_mode == fallback_mode,
            r.entries@.len() == 0,
    {
        Self { name, fallback_mode, entries: Vec::new() }
    }

    pub fn add_entry(&mut self, entry: TargetTableEntry)
        ensures
            final(self).entries@ == old(self).entries@.push(entry),
            final(self).name == old(self).name,
            final(self).fallback_mode == old(self).fallback_mode,
    {
        self.entries.push(entry);
    }
}

/// One sequence of a sequence table: the commands which are sent in one step.
#[derive(Debug)]
pub struct SequenceTableMapTable {
    /// Name for a given mode sequence.
    pub name: &'static str,
    /// These are the rows of the a sequence table.
    pub entries: Vec<SequenceTableEntry>,
}

impl SequenceTableMapTable {
    pub fn new(name: &'static str) -> (r: Self)
        ensures
            r.name == name,
            r.entries@.len() == 0,
    {
        Self { name, entries: Vec::new() }
    }

    pub fn add_entry(&mut self, entry: SequenceTableEntry)
        ensures
            final(self).entries@ == old(self).entries@.push(entry),
            final(self).name == old(self).name,
    {
        self.entries.push(entry);
    }
}

/// The sequences which are executed consecutively to reach a mode.
#[derive(Debug)]
pub struct SequenceTablesMapValue {
    /// Name for a given mode sequence.
    pub name: &'static str,
    /// Each sequence can consists of multiple sequences that are executed consecutively.
    pub entries: Vec<SequenceTableMapTable>,
}

impl SequenceTablesMapValue {
    pub fn new(name: &'static str) -> (r: Self)
        ensures
            r.name == name,
            r.entries@.len() == 0,
    {
        Self { name, entries: Vec::new() }
    }

    pub fn add_sequence_table(&mut self, entry: SequenceTableMapTable)
        ensures
            final(self).entries@ == old(self).entries@.push(entry),
            final(self).name == old(self).name,
    {
        self.entries.push(entry);
    }
}

/// The mode of one child in a [ModeStoreVec], and whether a reply of the child is awaited.
#[derive(Debug)]
pub struct ModeStoreVecValue {
    id: ComponentId,
    mode_and_submode: ModeAndSubmode,
    pub awaiting_reply: bool,
}

impl ModeStoreVecValue {
    pub closed spec fn spec_id(self) -> ComponentId {
        self.id
    }

    pub closed spec fn spec_mode_and_submode(self) -> ModeAndSubmode {
        self.mode_and_submode
    }

    pub closed spec fn spec_awaiting_reply(self) -> bool {
        self.awaiting_reply
    }

    pub fn new(id: ComponentId, mode_and_submode: ModeAndSubmode) -> (r: Self)
        ensures
            r.spec_id() == id,
            r.spec_mode_and_submode() == mode_and_submode,
            !r.spec_awaiting_reply(),
    {
        Self { id, mode_and_submode, awaiting_reply: false }
    }

    pub fn id(&self) -> (r: ComponentId)
        ensures
            r == self.spec_id(),
    {
        self.id
    }

    pub fn mode_and_submode(&self) -> (r: ModeAndSubmode)
        ensures
            r == self.spec_mode_and_submode(),
    {
        self.mode_and_submode
    }

    /// The same value with the given awaition flag.
    pub(crate) fn with_awaiting_reply(self, awaiting_reply: bool) -> (r: Self)
        ensures
            r.spec_id() == self.spec_id(),
            r.spec_mode_and_submode() == self.spec_mode_and_submode(),
            r.spec_awaiting_reply() == awaiting_reply,
    {
        Self { id: self.id, mode_and_submode: self.mode_and_submode, awaiting_reply }
    }

    /// Sets the stored mode of the child.
    pub(crate) fn set_mode_and_submode(&mut self, mode_and_submode: ModeAndSubmode)
        ensures
            final(self).spec_id() == old(self).spec_id(),
            final(self).spec_mode_and_submode() == mode_and_submode,
            final(self).spec_awaiting_reply() == old(self).spec_awaiting_reply(),
    {
        self.mode_and_submode = mode_and_submode;
    }
}

/// Whether the entries hold the component.
pub open spec fn entries_contain(entries: Seq<ModeStoreVecValue>, id: ComponentId) -> bool {
    exists|i: int| 0 <= i < entries.len() && #[trigger] entries[i].spec_id() == id
}

/// The index of the first entry of the component.
pub open spec fn first_index_of(entries: Seq<ModeStoreVecValue>, id: ComponentId) -> int {
    choose|i: int|
        0 <= i < entries.len() && #[trigger] entries[i].spec_id() == id && forall|j: int|
            0 <= j < i ==> #[trigger] entries[j].spec_id() != id
}

/// The mode of the first entry of the component, if there is one.
pub open spec fn entries_mode_of(entries: Seq<ModeStoreVecValue>, id: ComponentId) -> Option<ModeAndSubmode> {
    if entries_contain(entries, id) {
        Some(entries[first_index_of(entries, id)].spec_mode_and_submode())
    } else {
        None
    }
}

proof fn lemma_min_index_exists(entries: Seq<ModeStoreVecValue>, id: ComponentId, i: int)
    requires
        0 <= i < entries.len(),
        entries[i].spec_id() == id,
    ensures
        exists|k: int|
            0 <= k <= i && #[trigger] entries[k].spec_id() == id && forall|j: int|
                0 <= j < k ==> #[trigger] entries[j].spec_id() != id,
    decreases i,
{
    if exists|j: int| 0 <= j < i && #[trigger] entries[j].spec_id() == id {
        let j = choose|j: int| 0 <= j < i && #[trigger] entries[j].spec_id() == id;
        lemma_min_index_exists(entries, id, j);
    } else {
        assert(forall|j: int| 0 <= j < i ==> #[trigger] entries[j].spec_id() != id);
    }
}

/// Where the entries hold the component, [first_index_of] is the index of its first entry.
pub proof fn lemma_first_index_props(entries: Seq<ModeStoreVecValue>, id: ComponentId)
    requires
        entries_contain(entries, id),
    ensures
        ({
            let k = first_index_of(entries, id);
            &&& 0 <= k < entries.len()
            &&& entries[k].spec_id() == id
            &&& forall|j: int| 0 <= j < k ==> #[trigger] entries[j].spec_id() != id
        }),
{
    let i = choose|i: int| 0 <= i < entries.len() && #[trigger] entries[i].spec_id() == id;
    lemma_min_index_exists(entries, id, i);
}

/// Where the entries hold the component, the first index of it has no earlier entry of it.
pub proof fn lemma_first_index_of(entries: Seq<ModeStoreVecValue>, id: ComponentId, i: int)
    requires
        0 <= i < entries.len(),
        entries[i].spec_id() == id,
        forall|j: int| 0 <= j < i ==> #[trigger] entries[j].spec_id() != id,
    ensures
        first_index_of(entries, id) == i,
        entries_contain(entries, id),
        entries_mode_of(entries, id) == Some(entries[i].spec_mode_and_submode()),
{
    let k = first_index_of(entries, id);
    assert(entries_contain(entries, id));
    if k < i {
        assert(entries[k].spec_id() != id);
    } else if k > i {
        assert(entries[i].spec_id() != id);
    }
}

/// A mode store which keeps the modes of its children in a vector, together with the flag of
/// whether a reply of each child is awaited.
#[derive(Debug, Default)]
pub struct ModeStoreVec(pub Vec<ModeStoreVecValue>);

impl ModeStoreProvider for ModeStoreVec {
    open spec fn spec_contains(&self, target_id: ComponentId) -> bool {
        entries_contain(self.0@, target_id)
    }

    open spec fn spec_mode_of(&self, target_id: ComponentId) -> Option<ModeAndSubmode> {
        entries_mode_of(self.0@, target_id)
    }

    /// The component is appended at the end, with no reply awaited.
    fn add_component(&mut self, target_id: ComponentId, mode: ModeAndSubmode)
        ensures
            final(self).0@.len() == old(self).0@.len() + 1,
            final(self).0@.take(old(self).0@.len() as int) == old(self).0@,
            final(self).0@.last().spec_id() == target_id,
            final(self).0@.last().spec_mode_and_submode() == mode,
            !final(self).0@.last().spec_awaiting_reply(),
    {
        let ghost old_entries = self.0@;
        let v = ModeStoreVecValue::new(target_id, mode);
        self.0.push(v);
        proof {
            let n = old_entries.len() as int;
            assert(self.0@[n].spec_id() == target_id);
            assert(entries_contain(self.0@, target_id));
            if !entries_contain(old_entries, target_id) {
                assert forall|j: int| 0 <= j < n implies #[trigger] self.0@[j].spec_id() != target_id by {
                    assert(self.0@[j] == old_entries[j]);
                }
                lemma_first_index_of(self.0@, target_id, n);
            } else {
                lemma_first_index_props(old_entries, target_id);
                let k = first_index_of(old_entries, target_id);
                assert forall|j: int| 0 <= j < k implies #[trigger] self.0@[j].spec_id() != target_id by {
                    assert(self.0@[j] == old_entries[j]);
                }
                assert(self.0@[k] == old_entries[k]);
                lemma_first_index_of(self.0@, target_id, k);
            }
            assert forall|other: ComponentId| other != target_id implies self.spec_contains(other)
                == entries_contain(old_entries, other) && #[trigger] self.spec_mode_of(other)
                == entries_mode_of(old_entries, other) by {
                if entries_contain(old_entries, other) {
                    lemma_first_index_props(old_entries, other);
                    let k = first_index_of(old_entries, other);
                    assert forall|j: int| 0 <= j < k implies #[trigger] self.0@[j].spec_id() != other by {
                        assert(self.0@[j] == old_entries[j]);
                    }
                    assert(self.0@[k] == old_entries[k]);
                    lemma_first_index_of(self.0@, other, k);
                    lemma_first_index_of(old_entries, other, k);
                } else {
                    assert forall|j: int| 0 <= j < self.0@.len() implies #[trigger] self.0@[j].spec_id() != other by {
                        if j < n {
                            assert(self.0@[j] == old_entries[j]);
                            assert(old_entries[j].spec_id() != other);
                        }
                    }
                }
            }
            assert(old_entries == old(self).0@);
            assert forall|other: ComponentId| other != target_id implies self.spec_contains(other)
                == old(self).spec_contains(other) && #[trigger] self.spec_mode_of(other)
                == old(self).spec_mode_of(other) by {
                assert(self.spec_mode_of(other) == entries_mode_of(old_entries, other));
            }
            assert forall|other: ComponentId| other != target_id implies #[trigger] self.spec_contains(other)
                == old(self).spec_contains(other) by {
                assert(self.spec_mode_of(other) == entries_mode_of(old_entries, other));
            }
        }
    }

    fn has_component(&self, target_id: ComponentId) -> (r: bool) {
        let mut i: usize = 0;
        while i < self.0.len()
            invariant
                i <= self.0@.len(),
                forall|j: int| 0 <= j < i ==> #[trigger] self.0@[j].spec_id() != target_id,
            decreases self.0@.len() - i,
        {
            if self.0[i].id() == target_id {
                return true;
            }
            i += 1;
        }
        false
    }

    fn get_mode(&self, target_id: ComponentId) -> (r: Option<ModeAndSubmode>) {
        let mut i: usize = 0;
        while i < self.0.len()
            invariant
                i <= self.0@.len(),
                forall|j: int| 0 <= j < i ==> #[trigger] self.0@[j].spec_id() != target_id,
            decreases self.0@.len() - i,
        {
            if self.0[i].id() == target_id {
                proof {
                    lemma_first_index_of(self.0@, target_id, i as int);
                }
                return Some(self.0[i].mode_and_submode());
            }
            i += 1;
        }
        None
    }

    fn set_mode_for_contained_component(&mut self, target_id: ComponentId, mode_to_set: ModeAndSubmode) {
        let ghost old_entries = self.0@;
        let mut i: usize = 0;
        while i < self.0.len()
            invariant
                i <= self.0@.len(),
                self.0@.len() == old_entries.len(),
                forall|j: int| 0 <= j < self.0@.len() ==> #[trigger] self.0@[j].spec_id() == old_entries[j].spec_id(),
                forall|j: int| 0 <= j < self.0@.len() ==> #[trigger] self.0@[j].spec_awaiting_reply() == old_entries[j].spec_awaiting_reply(),
                forall|j: int| 0 <= j < i && old_entries[j].spec_id() == target_id ==> #[trigger] self.0@[j].spec_mode_and_submode() == mode_to_set,
                forall|j: int| 0 <= j < self.0@.len() && !(j < i && old_entries[j].spec_id() == target_id) ==> #[trigger] self.0@[j].spec_mode_and_submode() == old_entries[j].spec_mode_and_submode(),
            decreases self.0@.len() - i,
        {
            let ghost before = self.0@;
            assert(before[i as int].spec_id() == old_entries[i as int].spec_id());
            assert(before[i as int].spec_awaiting_reply() == old_entries[i as int].spec_awaiting_reply());
            if self.0[i].id == target_id {
                let v = ModeStoreVecValue {
                    id: self.0[i].id,
                    mode_and_submode: mode_to_set,
                    awaiting_reply: self.0[i].awaiting_reply,
                };
                assert(v.spec_id() == before[i as int].spec_id());
                self.0.set(i, v);
                assert(self.0@ == before.update(i as int, v));
                assert(self.0@[i as int].spec_id() == old_entries[i as int].spec_id());
                assert(self.0@[i as int].spec_awaiting_reply() == old_entries[i as int].spec_awaiting_reply());
                assert(self.0@[i as int].spec_mode_and_submode() == mode_to_set);
            }
            i += 1;
        }
        proof {
            assert forall|id: ComponentId| #[trigger] entries_contain(self.0@, id) == entries_contain(old_entries, id) by {
                if entries_contain(old_entries, id) {
                    let k = choose|k: int| 0 <= k < old_entries.len() && #[trigger] old_entries[k].spec_id() == id;
                    assert(self.0@[k].spec_id() == id);
                }
                if entries_contain(self.0@, id) {
                    let k = choose|k: int| 0 <= k < self.0@.len() && #[trigger] self.0@[k].spec_id() == id;
                    assert(old_entries[k].spec_id() == id);
                }
            }
            assert forall|id: ComponentId| entries_contain(old_entries, id) implies #[trigger] entries_mode_of(self.0@, id) == if id == target_id {
                Some(mode_to_set)
            } else {
                entries_mode_of(old_entries, id)
            } by {
                lemma_first_index_props(old_entries, id);
                let k = first_index_of(old_entries, id);
                assert forall|j: int| 0 <= j < k implies #[trigger] self.0@[j].spec_id() != id by {
                    assert(old_entries[j].spec_id() != id);
                }
                lemma_first_index_of(self.0@, id, k);
            }
        }
    }
}

impl ModeStoreVec {
    /// Handles a mode reply of a child: stores the reported mode, if any, and, where the
    /// awaition of replies is handled, marks the reply of the child as received.
    ///
    /// Returns [None] where the awaition is not handled, and otherwise whether replies of other
    /// children are still awaited.
    pub fn mode_reply_handler(
        &mut self,
        sender_id: ComponentId,
        reported_mode_and_submode: Option<ModeAndSubmode>,
        handle_reply_awaition: bool,
    ) -> (r: Option<bool>)
        ensures
            final(self).0@.len() == old(self).0@.len(),
            forall|j: int| 0 <= j < old(self).0@.len() ==> #[trigger] final(self).0@[j].spec_id() == old(self).0@[j].spec_id(),
            forall|j: int| 0 <= j < old(self).0@.len() ==> #[trigger] final(self).0@[j].spec_mode_and_submode() == if old(self).0@[j].spec_id() == sender_id && reported_mode_and_submode is Some {
                reported_mode_and_submode->Some_0
            } else {
                old(self).0@[j].spec_mode_and_submode()
            },
            forall|j: int| 0 <= j < old(self).0@.len() ==> #[trigger] final(self).0@[j].spec_awaiting_reply() == (old(self).0@[j].spec_awaiting_reply() && !(handle_reply_awaition && old(self).0@[j].spec_id() == sender_id)),
            !handle_reply_awaition ==> r is None,
            handle_reply_awaition ==> r == Some(exists|j: int| 0 <= j < final(self).0@.len() && #[trigger] final(self).0@[j].spec_awaiting_reply()),
    {
        let ghost old_entries = self.0@;
        let mut still_awaiting_replies: Option<bool> = None;
        if handle_reply_awaition {
            still_awaiting_replies = Some(false);
        }
        let mut i: usize = 0;
        while i < self.0.len()
            invariant
                i <= self.0@.len(),
                self.0@.len() == old_entries.len(),
                forall|j: int| 0 <= j < self.0@.len() ==> #[trigger] self.0@[j].spec_id() == old_entries[j].spec_id(),
                forall|j: int| 0 <= j < self.0@.len() ==> #[trigger] self.0@[j].spec_mode_and_submode() == if j < i && old_entries[j].spec_id() == sender_id && reported_mode_and_submode is Some {
                    reported_mode_and_submode->Some_0
                } else {
                    old_entries[j].spec_mode_and_submode()
                },
                forall|j: int| 0 <= j < self.0@.len() ==> #[trigger] self.0@[j].spec_awaiting_reply() == (old_entries[j].spec_awaiting_reply() && !(j < i && handle_reply_awaition && old_entries[j].spec_id() == sender_id)),
                !handle_reply_awaition ==> still_awaiting_replies is None,
                handle_reply_awaition ==> still_awaiting_replies == Some(exists|j: int| 0 <= j < i && #[trigger] self.0@[j].spec_awaiting_reply()),
            decreases self.0@.len() - i,
        {
            let ghost before = self.0@;
            assert(before[i as int].spec_id() == old_entries[i as int].spec_id());
            assert(before[i as int].spec_awaiting_reply() == old_entries[i as int].spec_awaiting_reply());
            assert(before[i as int].spec_mode_and_submode() == old_entries[i as int].spec_mode_and_submode());
            let cur_id: ComponentId = self.0[i].id;
            let mut new_mode: ModeAndSubmode = self.0[i].mode_and_submode;
            let mut awaiting: bool = self.0[i].awaiting_reply;
            if cur_id == sender_id {
                if let Some(mode_and_submode) = reported_mode_and_submode {
                    new_mode = mode_and_submode;
                }
                if handle_reply_awaition {
                    awaiting = false;
                }
            }
            let v = ModeStoreVecValue { id: cur_id, mode_and_submode: new_mode, awaiting_reply: awaiting };
            self.0.set(i, v);
            assert(self.0@[i as int].spec_id() == old_entries[i as int].spec_id());
            assert(self.0@[i as int].spec_mode_and_submode() == if old_entries[i as int].spec_id() == sender_id && reported_mode_and_submode is Some {
                reported_mode_and_submode->Some_0
            } else {
                old_entries[i as int].spec_mode_and_submode()
            });
            assert(self.0@[i as int].spec_awaiting_reply() == (old_entries[i as int].spec_awaiting_reply() && !(handle_reply_awaition && old_entries[i as int].spec_id() == sender_id)));
            if handle_reply_awaition && awaiting {
                still_awaiting_replies = Some(true);
            }
            proof {
                if handle_reply_awaition {
                    if awaiting {
                        assert(self.0@[i as int].spec_awaiting_reply());
                    } else {
                        if exists|j: int| 0 <= j < i + 1 && #[trigger] self.0@[j].spec_awaiting_reply() {
                            let j = choose|j: int| 0 <= j < i + 1 && #[trigger] self.0@[j].spec_awaiting_reply();
                            assert(before[j].spec_awaiting_reply());
                        }
                        if exists|j: int| 0 <= j < i && #[trigger] before[j].spec_awaiting_reply() {
                            let j = choose|j: int| 0 <= j < i && #[trigger] before[j].spec_awaiting_reply();
                            assert(self.0@[j].spec_awaiting_reply());
                        }
                    }
                }
            }
            i += 1;
        }
        still_awaiting_replies
    }

    /// Marks the reply of every entry of the child as awaited.
    pub(crate) fn mark_awaiting_reply(&mut self, target_id: ComponentId)
        ensures
            final(self).0@.len() == old(self).0@.len(),
            forall|j: int| 0 <= j < old(self).0@.len() ==> #[trigger] final(self).0@[j].spec_id() == old(self).0@[j].spec_id(),
            forall|j: int| 0 <= j < old(self).0@.len() ==> #[trigger] final(self).0@[j].spec_mode_and_submode() == old(self).0@[j].spec_mode_and_submode(),
            forall|j: int| 0 <= j < old(self).0@.len() ==> #[trigger] final(self).0@[j].spec_awaiting_reply() == (old(self).0@[j].spec_awaiting_reply() || old(self).0@[j].spec_id() == target_id),
    {
        let ghost old_entries = self.0@;
        let mut i: usize = 0;
        while i < self.0.len()
            invariant
                i <= self.0@.len(),
                self.0@.len() == old_entries.len(),
                forall|j: int| 0 <= j < self.0@.len() ==> #[trigger] self.0@[j].spec_id() == old_entries[j].spec_id(),
                forall|j: int| 0 <= j < self.0@.len() ==> #[trigger] self.0@[j].spec_mode_and_submode() == old_entries[j].spec_mode_and_submode(),
                forall|j: int| 0 <= j < self.0@.len() ==> #[trigger] self.0@[j].spec_awaiting_reply() == (old_entries[j].spec_awaiting_reply() || (j < i && old_entries[j].spec_id() == target_id)),
            decreases self.0@.len() - i,
        {
            let ghost before = self.0@;
            assert(before[i as int].spec_id() == old_entries[i as int].spec_id());
            assert(before[i as int].spec_mode_and_submode() == old_entries[i as int].spec_mode_and_submode());
            assert(before[i as int].spec_awaiting_reply() == old_entries[i as int].spec_awaiting_reply());
            if self.0[i].id == target_id {
                let v = ModeStoreVecValue {
                    id: self.0[i].id,
                    mode_and_submode: self.0[i].mode_and_submode,
                    awaiting_reply: true,
                };
                self.0.set(i, v);
                assert(self.0@[i as int].spec_id() == old_entries[i as int].spec_id());
                assert(self.0@[i as int].spec_mode_and_submode() == old_entries[i as int].spec_mode_and_submode());
                assert(self.0@[i as int].spec_awaiting_reply());
            }
            i += 1;
        }
    }

    /// Marks the reply of every child as awaited.
    pub(crate) fn mark_all_awaiting_reply(&mut self)
        ensures
            final(self).0@.len() == old(self).0@.len(),
            forall|j: int| 0 <= j < old(self).0@.len() ==> #[trigger] final(self).0@[j].spec_id() == old(self).0@[j].spec_id(),
            forall|j: int| 0 <= j < old(self).0@.len() ==> #[trigger] final(self).0@[j].spec_mode_and_submode() == old(self).0@[j].spec_mode_and_submode(),
            forall|j: int| 0 <= j < old(self).0@.len() ==> #[trigger] final(self).0@[j].spec_awaiting_reply(),
    {
        let ghost old_entries = self.0@;
        let mut i: usize = 0;
        while i < self.0.len()
            invariant
                i <= self.0@.len(),
                self.0@.len() == old_entries.len(),
                forall|j: int| 0 <= j < self.0@.len() ==> #[trigger] self.0@[j].spec_id() == old_entries[j].spec_id(),
                forall|j: int| 0 <= j < self.0@.len() ==> #[trigger] self.0@[j].spec_mode_and_submode() == old_entries[j].spec_mode_and_submode(),
                forall|j: int| 0 <= j < i ==> #[trigger] self.0@[j].spec_awaiting_reply(),
            decreases self.0@.len() - i,
        {
            let ghost before = self.0@;
            assert(before[i as int].spec_id() == old_entries[i as int].spec_id());
            assert(before[i as int].spec_mode_and_submode() == old_entries[i as int].spec_mode_and_submode());
            let v = ModeStoreVecValue {
                id: self.0[i].id,
                mode_and_submode: self.0[i].mode_and_submode,
                awaiting_reply: true,
            };
            self.0.set(i, v);
            assert(self.0@[i as int].spec_id() == old_entries[i as int].spec_id());
            assert(self.0@[i as int].spec_mode_and_submode() == old_entries[i as int].spec_mode_and_submode());
            assert(self.0@[i as int].spec_awaiting_reply());
            i += 1;
        }
    }

    /// Sets the mode of the first entry of the child.
    pub fn update_first_mode_of(&mut self, target_id: ComponentId, mode: ModeAndSubmode) -> (r: bool)
        ensures
            r == entries_contain(old(self).0@, target_id),
            final(self).0@.len() == old(self).0@.len(),
            forall|j: int| 0 <= j < old(self).0@.len() && !(r && j == first_index_of(old(self).0@, target_id)) ==> #[trigger] final(self).0@[j] == old(self).0@[j],
            !r ==> *final(self) == *old(self),
            r ==> ({
                let k = first_index_of(old(self).0@, target_id);
                &&& final(self).0@[k].spec_id() == target_id
                &&& final(self).0@[k].spec_mode_and_submode() == mode
                &&& final(self).0@[k].spec_awaiting_reply() == old(self).0@[k].spec_awaiting_reply()
            }),
    {
        let mut i: usize = 0;
        while i < self.0.len()
            invariant
                i <= self.0@.len(),
                *self == *old(self),
                forall|j: int| 0 <= j < i ==> #[trigger] self.0@[j].spec_id() != target_id,
            decreases self.0@.len() - i,
        {
            if self.0[i].id() == target_id {
                proof {
                    lemma_first_index_of(self.0@, target_id, i as int);
                }
                let v = ModeStoreVecValue {
                    id: self.0[i].id,
                    mode_and_submode: mode,
                    awaiting_reply: self.0[i].awaiting_reply,
                };
                self.0.set(i, v);
                return true;
            }
            i += 1;
        }
        false
    }
}

/// The target tables of a parent, keyed by the mode of the parent.
#[verifier::external_body]
#[derive(Debug, Default)]
pub struct TargetModeTables(hashbrown::HashMap<Mode, TargetTablesMapValue>);

/// The sequence tables of a parent, keyed by the mode of the parent.
#[verifier::external_body]
#[derive(Debug, Default)]
pub struct SequenceModeTables(hashbrown::HashMap<Mode, SequenceTablesMapValue>);

/// The target tables held by the map, by mode.
pub uninterp spec fn target_tables_contents(tables: TargetModeTables) -> Map<Mode, TargetTablesMapValue>;

/// The sequence tables held by the map, by mode.
pub uninterp spec fn sequence_tables_contents(tables: SequenceModeTables) -> Map<Mode, SequenceTablesMapValue>;

impl TargetModeTables {
    /// Stores the table for the mode, and gives back the one stored for it before, if any.
    pub fn insert(&mut self, mode: Mode, table: TargetTablesMapValue) -> (r: Option<TargetTablesMapValue>)
        ensures
            target_tables_contents(*final(self)) == target_tables_contents(*old(self)).insert(mode, table),
            r == target_tables_contents(*old(self)).get(mode),
    {
        self.insert_table(mode, table)
    }

    /// The table stored for the mode, if any.
    pub fn get(&self, mode: Mode) -> (r: Option<&TargetTablesMapValue>)
        ensures
            match r {
                Some(v) => target_tables_contents(*self).contains_key(mode) && *v == target_tables_contents(*self)[mode],
                None => !target_tables_contents(*self).contains_key(mode),
            },
    {
        self.get_table(mode)
    }

    /// Calls `hashbrown::HashMap::new`, which creates an empty map.
    #[verifier::external_body]
    pub(crate) fn new_empty() -> (r: Self)
        ensures
            forall|m: Mode| !#[trigger] target_tables_contents(r).contains_key(m),
    {
        TargetModeTables(hashbrown::HashMap::new())
    }

    /// Calls `hashbrown::HashMap::get`, which returns the value stored for the key, if any.
    #[verifier::external_body]
    pub(crate) fn get_table(&self, mode: Mode) -> (r: Option<&TargetTablesMapValue>)
        ensures
            match r {
                Some(v) => target_tables_contents(*self).contains_key(mode) && *v == target_tables_contents(*self)[mode],
                None => !target_tables_contents(*self).contains_key(mode),
            },
    {
        self.0.get(&mode)
    }

    /// Calls `hashbrown::HashMap::insert`, which stores the value for the key, replacing and
    /// returning an earlier value for the same key.
    #[verifier::external_body]
    pub(crate) fn insert_table(&mut self, mode: Mode, table: TargetTablesMapValue) -> (r: Option<TargetTablesMapValue>)
        ensures
            target_tables_contents(*final(self)) == target_tables_contents(*old(self)).insert(mode, table),
            r == target_tables_contents(*old(self)).get(mode),
    {
        self.0.insert(mode, table)
    }
}

impl SequenceModeTables {
    /// Stores the table for the mode, and gives back the one stored for it before, if any.
    pub fn insert(&mut self, mode: Mode, table: SequenceTablesMapValue) -> (r: Option<SequenceTablesMapValue>)
        ensures
            sequence_tables_contents(*final(self)) == sequence_tables_contents(*old(self)).insert(mode, table),
            r == sequence_tables_contents(*old(self)).get(mode),
    {
        self.insert_table(mode, table)
    }

    /// The table stored for the mode, if any.
    pub fn get(&self, mode: Mode) -> (r: Option<&SequenceTablesMapValue>)
        ensures
            match r {
                Some(v) => sequence_tables_contents(*self).contains_key(mode) && *v == sequence_tables_contents(*self)[mode],
                None => !sequence_tables_contents(*self).contains_key(mode),
            },
    {
        self.get_table(mode)
    }

    /// Calls `hashbrown::HashMap::new`, which creates an empty map.
    #[verifier::external_body]
    pub(crate) fn new_empty() -> (r: Self)
        ensures
            forall|m: Mode| !#[trigger] sequence_tables_contents(r).contains_key(m),
    {
        SequenceModeTables(hashbrown::HashMap::new())
    }

    /// Calls `hashbrown::HashMap::get`, which returns the value stored for the key, if any.
    #[verifier::external_body]
    pub(crate) fn get_table(&self, mode: Mode) -> (r: Option<&SequenceTablesMapValue>)
        ensures
            match r {
                Some(v) => sequence_tables_contents(*self).contains_key(mode) && *v == sequence_tables_contents(*self)[mode],
                None => !sequence_tables_contents(*self).contains_key(mode),
            },
    {
        self.0.get(&mode)
    }

    /// Calls `hashbrown::HashMap::contains_key`, which tells whether a value is stored for the key.
    #[verifier::external_body]
    pub(crate) fn contains_table(&self, mode: Mode) -> (r: bool)
        ensures
            r == sequence_tables_contents(*self).contains_key(mode),
    {
        self.0.contains_key(&mode)
    }

    /// Calls `hashbrown::HashMap::insert`, which stores the value for the key, replacing and
    /// returning an earlier value for the same key.
    #[verifier::external_body]
    pub(crate) fn insert_table(&mut self, mode: Mode, table: SequenceTablesMapValue) -> (r: Option<SequenceTablesMapValue>)
        ensures
            sequence_tables_contents(*final(self)) == sequence_tables_contents(*old(self)).insert(mode, table),
            r == sequence_tables_contents(*old(self)).get(mode),
    {
        self.0.insert(mode, table)
    }
}

} // verus!
