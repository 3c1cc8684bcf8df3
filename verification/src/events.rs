//! # Event support module
//!
//! The user can define events as custom structs or enumerations. The event structures defined
//! here are type erased and rely on some properties which should be provided by the user
//! through the [Event] trait.
//!
//! The abstraction allows to group related events using a group ID, and the severity of an
//! event is encoded inside the raw value itself with four possible [Severity] levels:
//! INFO, LOW, MEDIUM and HIGH.
use vstd::prelude::*;

verus! {

/// Using a type definition allows to change this to u64 in the future more easily
pub type LargestEventRaw = u32;

/// Using a type definition allows to change this to u32 in the future more easily
pub type LargestGroupIdRaw = u16;

/// Group IDs are 14-bit values.
pub type GroupId = u16;

/// The largest group ID of an event with a 32-bit raw value.
pub const MAX_GROUP_ID_U32_EVENT: u16 = 0x3FFF;

/// Severity of an event.
#[derive(Copy, Clone, PartialEq, Eq, Debug, Hash, Structural)]
pub enum Severity {
    Info,
    Low,
    Medium,
    High,
}

/// The number of a severity: 0 for INFO up to 3 for HIGH.
pub open spec fn severity_num(s: Severity) -> int {
    match s {
        Severity::Info => 0,
        Severity::Low => 1,
        Severity::Medium => 2,
        Severity::High => 3,
    }
}

/// The severity with the given number, for the numbers 0 to 3.
pub open spec fn severity_of_num(n: int) -> Severity {
    if n == 0 {
        Severity::Info
    } else if n == 1 {
        Severity::Low
    } else if n == 2 {
        Severity::Medium
    } else {
        Severity::High
    }
}

impl Severity {
    /// The number of the severity.
    pub fn raw(self) -> (r: u8)
        ensures
            r == severity_num(self),
    {
        match self {
            Severity::Info => 0,
            Severity::Low => 1,
            Severity::Medium => 2,
            Severity::High => 3,
        }
    }

    /// The severity with the given number, `None` for numbers above 3.
    pub fn try_from_raw(raw: u8) -> (r: Option<Severity>)
        ensures
            raw <= 3 ==> r == Some(severity_of_num(raw as int)),
            raw > 3 ==> r is None,
    {
        match raw {
            0 => Some(Severity::Info),
            1 => Some(Severity::Low),
            2 => Some(Severity::Medium),
            3 => Some(Severity::High),
            _ => None,
        }
    }
}

/// Types whose values all have one severity.
pub trait HasSeverity: Copy + Clone + PartialEq + Eq {
    const SEVERITY: Severity;
}

/// Events: each one has a unique event ID.
pub trait Event: Clone {
    fn id(&self) -> EventId;
}

/// Unique event identifier.
///
/// Consists of a 14-bit group ID, a unique ID and the severity.
#[derive(Copy, Clone, PartialEq, Eq, Debug, Hash, Structural)]
pub struct EventId {
    group_id: GroupId,
    unique_id: u16,
    severity: Severity,
}

/// The raw value of an event ID: the severity in the two highest bits, the group ID in the 14
/// bits below, the unique ID in the low 16 bits.
pub open spec fn event_raw_of(severity: Severity, group_id: int, unique_id: int) -> int {
    severity_num(severity) * 0x4000_0000 + group_id * 0x1_0000 + unique_id
}

impl EventId {
    #[verifier::type_invariant]
    closed spec fn group_fits(self) -> bool {
        self.group_id <= MAX_GROUP_ID_U32_EVENT
    }

    pub closed spec fn group_id_spec(self) -> u16 {
        self.group_id
    }

    pub closed spec fn unique_id_spec(self) -> u16 {
        self.unique_id
    }

    pub closed spec fn severity_spec(self) -> Severity {
        self.severity
    }

    /// The raw value of the event ID.
    pub open spec fn raw_spec(self) -> int {
        event_raw_of(self.severity_spec(), self.group_id_spec() as int, self.unique_id_spec() as int)
    }

    /// The event ID that a raw value encodes.
    pub closed spec fn from_raw_spec(raw: u32) -> EventId {
        EventId {
            severity: severity_of_num((raw / 0x4000_0000) as int),
            group_id: ((raw / 0x1_0000) % 0x4000) as u16,
            unique_id: (raw % 0x1_0000) as u16,
        }
    }

    /// Event ID of the given severity, 14-bit group ID and unique ID.
    pub fn new(severity: Severity, group_id: GroupId, unique_id: u16) -> (r: Self)
        requires
            group_id <= MAX_GROUP_ID_U32_EVENT,
        ensures
            r.severity_spec() == severity,
            r.group_id_spec() == group_id,
            r.unique_id_spec() == unique_id,
    {
        Self { severity, group_id, unique_id }
    }

    pub fn unique_id(&self) -> (r: u16)
        ensures
            r == self.unique_id_spec(),
    {
        self.unique_id
    }

    pub fn severity(&self) -> (r: Severity)
        ensures
            r == self.severity_spec(),
    {
        self.severity
    }

    pub fn group_id(&self) -> (r: GroupId)
        ensures
            r == self.group_id_spec(),
            r <= MAX_GROUP_ID_U32_EVENT,
    {
        proof {
            use_type_invariant(self);
        }
        self.group_id
    }

    /// The raw value: severity, group ID and unique ID packed into 32 bits.
    pub fn raw(&self) -> (r: u32)
        ensures
            r == self.raw_spec(),
    {
        proof {
            use_type_invariant(self);
        }
        let s: u32 = self.severity.raw() as u32;
        let g: u32 = self.group_id as u32;
        let u: u32 = self.unique_id as u32;
        assert(s <= 3 && g <= 0x3FFF && u <= 0xFFFF ==> ((s << 30u32) | (g << 16u32) | u) == s
            * 0x4000_0000 + g * 0x1_0000 + u) by (bit_vector);
        (s << 30) | (g << 16) | u
    }

    /// The event ID that a raw value encodes: the severity from the two highest bits, the group
    /// ID from the 14 bits below, the unique ID from the low 16 bits.
    pub fn from_raw(raw: u32) -> (r: Self)
        ensures
            r == EventId::from_raw_spec(raw),
    {
        let sev_raw: u8 = ((raw >> 30) & 0b11) as u8;
        let group_id: u16 = ((raw >> 16) & 0x3FFF) as u16;
        let unique_id: u16 = (raw & 0xFFFF) as u16;
        assert(((raw >> 30u32) & 3u32) as u8 == raw / 0x4000_0000) by (bit_vector);
        assert(((raw >> 16u32) & 0x3FFFu32) as u16 == (raw / 0x1_0000) % 0x4000) by (bit_vector);
        assert((raw & 0xFFFFu32) as u16 == raw % 0x1_0000) by (bit_vector);
        let severity = match Severity::try_from_raw(sev_raw) {
            Some(s) => s,
            None => Severity::High,
        };
        Self::new(severity, group_id, unique_id)
    }
}

impl From<u32> for EventId {
    fn from(raw: u32) -> (r: EventId) {
        EventId::from_raw(raw)
    }
}

impl vstd::std_specs::convert::FromSpecImpl<u32> for EventId {
    open spec fn obeys_from_spec() -> bool {
        true
    }

    open spec fn from_spec(v: u32) -> EventId {
        EventId::from_raw_spec(v)
    }
}

/// Reading an event ID back from its raw value gives the same event ID.
pub proof fn law_event_id_raw_roundtrip(id: EventId)
    requires
        id.group_id_spec() <= MAX_GROUP_ID_U32_EVENT,
    ensures
        0 <= id.raw_spec() <= u32::MAX,
        EventId::from_raw_spec(id.raw_spec() as u32) == id,
{
    let s = severity_num(id.severity_spec());
    let g = id.group_id_spec() as int;
    let u = id.unique_id_spec() as int;
    let raw = id.raw_spec();
    assert(raw / 0x4000_0000 == s);
    assert(raw / 0x1_0000 == s * 0x4000 + g);
    assert((s * 0x4000 + g) % 0x4000 == g);
    assert(raw % 0x1_0000 == u);
}

/// Every 32-bit value is the raw value of the event ID it encodes.
pub proof fn law_event_raw_value_roundtrip(raw: u32)
    ensures
        EventId::from_raw_spec(raw).raw_spec() == raw,
{
    let s = raw / 0x4000_0000;
    let g = (raw / 0x1_0000) % 0x4000;
    let u = raw % 0x1_0000;
    assert(raw / 0x1_0000 == s * 0x4000 + g);
    assert(raw == (raw / 0x1_0000) * 0x1_0000 + u);
}

/// Event which was type erased and serialized into a vector of bytes.
#[derive(Debug, PartialEq, Eq)]
pub struct EventErasedAlloc {
    id: EventId,
    event_raw: Vec<u8>,
}

impl EventErasedAlloc {
    pub closed spec fn id_spec(&self) -> EventId {
        self.id
    }

    pub closed spec fn raw_spec(&self) -> Seq<u8> {
        self.event_raw@
    }

    /// An event of the given ID with the given serialized bytes.
    pub fn new_with_raw_event(id: EventId, event_raw: &[u8]) -> (r: Self)
        ensures
            r.id_spec() == id,
            r.raw_spec() == event_raw@,
    {
        Self { id, event_raw: vstd::slice::slice_to_vec(event_raw) }
    }

    /// The serialized bytes of the event.
    pub fn raw(&self) -> (r: &[u8])
        ensures
            r@ == self.raw_spec(),
    {
        self.event_raw.as_slice()
    }
}

impl Clone for EventErasedAlloc {
    fn clone(&self) -> (r: Self)
        ensures
            r.id_spec() == self.id_spec(),
            r.raw_spec() == self.raw_spec(),
    {
        let event_raw = self.event_raw.clone();
        assert(event_raw@ =~= self.event_raw@);
        Self { id: self.id, event_raw }
    }
}

impl Event for EventErasedAlloc {
    fn id(&self) -> (r: EventId)
        ensures
            r == self.id_spec(),
    {
        self.id
    }
}

} // verus!
