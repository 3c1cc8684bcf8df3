//! # CCSDS Telecommand Scheduler.
//!
//! Time-tagged telecommands are kept grouped by their release time, in ascending order of
//! that time, and released once the current time has reached their release time.
use core::time::Duration;
use vstd::prelude::*;
use crate::time::{duration_as_secs, duration_nanos, duration_secs, duration_subsec_nanos};
use crate::mode::be_u16;

verus! {

/// Nanoseconds in one second.
pub const NANOS_PER_SECOND: u32 = 1_000_000_000;

/// UNIX time: elapsed non-leap seconds since 1970-01-01T00:00:00+00:00 UTC, with a
/// sub-second part in nanoseconds.
#[derive(Debug, Copy, Clone, PartialEq, Eq, Structural)]
pub struct UnixTime {
    secs: i64,
    subsec_nanos: u32,
}

impl UnixTime {
    #[verifier::type_invariant]
    closed spec fn subsec_valid(self) -> bool {
        self.subsec_nanos < NANOS_PER_SECOND
    }

    /// Seconds of the time stamp.
    pub closed spec fn secs_spec(self) -> int {
        self.secs as int
    }

    /// Sub-second nanoseconds of the time stamp.
    pub closed spec fn nanos_spec(self) -> int {
        self.subsec_nanos as int
    }

    /// Sub-second milliseconds of the time stamp.
    pub open spec fn millis_spec(self) -> int {
        self.nanos_spec() / 1_000_000
    }

    /// New time stamp. The sub-second nanoseconds must be the fraction of a second.
    pub fn new(unix_seconds: i64, subsecond_nanos: u32) -> (r: Self)
        requires
            subsecond_nanos < NANOS_PER_SECOND,
        ensures
            r.secs_spec() == unix_seconds,
            r.nanos_spec() == subsecond_nanos,
    {
        Self { secs: unix_seconds, subsec_nanos: subsecond_nanos }
    }

    /// Like [Self::new], but gives `None` where the sub-second value is not a fraction of a
    /// second.
    pub fn new_checked(unix_seconds: i64, subsec_nanos: u32) -> (r: Option<Self>)
        ensures
            r is Some <==> subsec_nanos < NANOS_PER_SECOND,
            r matches Some(t) ==> t.secs_spec() == unix_seconds && t.nanos_spec() == subsec_nanos,
    {
        if subsec_nanos >= NANOS_PER_SECOND {
            return None;
        }
        Some(Self::new(unix_seconds, subsec_nanos))
    }

    /// New time stamp with only seconds, the sub-second part set to zero.
    pub fn new_only_secs(unix_seconds: i64) -> (r: Self)
        ensures
            r.secs_spec() == unix_seconds,
            r.nanos_spec() == 0,
    {
        Self { secs: unix_seconds, subsec_nanos: 0 }
    }

    /// Seconds of the time stamp, without the sub-second part.
    pub fn as_secs(&self) -> (r: i64)
        ensures
            r == self.secs_spec(),
    {
        self.secs
    }

    /// Sub-second nanoseconds.
    pub fn subsec_nanos(&self) -> (r: u32)
        ensures
            r == self.nanos_spec(),
            r < NANOS_PER_SECOND,
    {
        proof {
            use_type_invariant(self);
        }
        self.subsec_nanos
    }
}

/// Whether `a` comes strictly before the stamp of `secs` seconds and `nanos` sub-second
/// nanoseconds: seconds first, then the sub-second milliseconds, which count backwards for
/// stamps before the epoch. Stamps that differ only below a millisecond are neither before nor
/// after each other.
pub open spec fn time_before_at(a: UnixTime, secs: int, nanos: int) -> bool {
    ||| a.secs_spec() < secs
    ||| (a.secs_spec() == secs && (if secs < 0 {
        nanos / 1_000_000 < a.millis_spec()
    } else {
        a.millis_spec() < nanos / 1_000_000
    }))
}

/// Whether `a` comes strictly before `b` in the order of time stamps.
pub open spec fn time_before(a: UnixTime, b: UnixTime) -> bool {
    time_before_at(a, b.secs_spec(), b.nanos_spec())
}

/// Neither stamp comes before the other: they are the same key of the schedule.
pub open spec fn time_equivalent(a: UnixTime, b: UnixTime) -> bool {
    !time_before(a, b) && !time_before(b, a)
}

/// Calls `PartialOrd::lt` of the `UnixTime` of `spacepackets` on the two stamps.
///
/// Claimed of the call, as the crate's `Ord` implementation reads: seconds are compared first,
/// then the sub-second milliseconds, in reverse for stamps before the epoch.
#[verifier::external_body]
fn stamp_before(a: &UnixTime, b: &UnixTime) -> (r: bool)
    requires
        a.nanos_spec() < NANOS_PER_SECOND,
        b.nanos_spec() < NANOS_PER_SECOND,
    ensures
        r == time_before(*a, *b),
{
    spacepackets::time::UnixTime::new(a.secs, a.subsec_nanos)
        < spacepackets::time::UnixTime::new(b.secs, b.subsec_nanos)
}

/// The seconds `secs` moved by `step` seconds away from the epoch: seconds before the epoch
/// move further back, the others further forward.
pub open spec fn step_away(secs: int, step: int) -> int {
    if secs < 0 {
        secs - step
    } else {
        secs + step
    }
}

/// Seconds of `t` plus a duration of `dsecs` seconds and `dnanos` nanoseconds, as the
/// addition of `spacepackets` computes them.
pub open spec fn added_secs(t: UnixTime, dsecs: u64, dnanos: u32) -> int {
    let carried = if t.nanos_spec() + dnanos >= NANOS_PER_SECOND {
        step_away(t.secs_spec(), 1)
    } else {
        t.secs_spec()
    };
    step_away(carried, dsecs as int)
}

/// Sub-second nanoseconds of `t` plus a duration of `dnanos` nanoseconds.
pub open spec fn added_nanos(t: UnixTime, dnanos: u32) -> int {
    if t.nanos_spec() + dnanos >= NANOS_PER_SECOND {
        t.nanos_spec() + dnanos - NANOS_PER_SECOND
    } else {
        t.nanos_spec() + dnanos
    }
}

/// The addition of a duration to `t` stays within the range of the seconds and adds no more
/// than `u32::MAX` whole seconds, so that it does not panic.
pub open spec fn addition_defined(t: UnixTime, dsecs: u64, dnanos: u32) -> bool {
    let carried = if t.nanos_spec() + dnanos >= NANOS_PER_SECOND {
        step_away(t.secs_spec(), 1)
    } else {
        t.secs_spec()
    };
    &&& dnanos < NANOS_PER_SECOND
    &&& dsecs <= u32::MAX
    &&& i64::MIN <= carried <= i64::MAX
    &&& i64::MIN <= added_secs(t, dsecs, dnanos) <= i64::MAX
}

/// Calls `Add<Duration>` of the `UnixTime` of `spacepackets`.
///
/// Claimed of the call, as the crate's source reads: the nanoseconds are added with a carry
/// into the seconds, then the whole seconds are added; both steps move stamps before the epoch
/// further back. The call panics where the seconds leave their range or the duration holds
/// more than `u32::MAX` seconds, which `requires` excludes.
#[verifier::external_body]
fn stamp_plus(t: &UnixTime, dsecs: u64, dnanos: u32) -> (r: UnixTime)
    requires
        t.nanos_spec() < NANOS_PER_SECOND,
        addition_defined(*t, dsecs, dnanos),
    ensures
        r.secs_spec() == added_secs(*t, dsecs, dnanos),
        r.nanos_spec() == added_nanos(*t, dnanos),
{
    let sum = spacepackets::time::UnixTime::new(t.secs, t.subsec_nanos) + Duration::new(
        dsecs,
        dnanos,
    );
    UnixTime { secs: sum.as_secs(), subsec_nanos: sum.subsec_nanos() }
}

/// The scheduler can be configured to have bounds for both the number of packets
/// and the total number of bytes used by scheduled packets.
///
/// This can be used to avoid memory exhaustion in systems with limited resources or under
/// heavy workloads.
#[derive(Default, Debug, Copy, Clone, PartialEq, Eq, Structural)]
pub struct Limits {
    /// Maximum number of scheduled packets.
    pub packets: Option<usize>,
    /// Maximum total number of bytes used by scheduled packets.
    pub bytes: Option<usize>,
}

impl Limits {
    /// Create new limits for the CCSDS scheduler.
    pub fn new(packets: Option<usize>, bytes: Option<usize>) -> (r: Self)
        ensures
            r.packets == packets,
            r.bytes == bytes,
    {
        Self { packets, bytes }
    }

    /// Check if no limits are set.
    pub fn has_no_limits(&self) -> (r: bool)
        ensures
            r == (self.packets is None && self.bytes is None),
    {
        self.packets.is_none() && self.bytes.is_none()
    }
}

/// Fill count of the scheduler.
#[derive(Default, Debug, Copy, Clone, PartialEq, Eq, Structural)]
pub struct FillCount {
    /// Number of scheduled packets.
    pub packets: usize,
    /// Total number of bytes used by scheduled packets.
    pub bytes: usize,
}


/// Combination of the packet ID field and the packet sequence control field of a CCSDS space
/// packet, by their raw values.
#[derive(Debug, Copy, Clone, PartialEq, Eq, Hash, Structural)]
pub struct CcsdsPacketIdAndPsc {
    /// Raw CCSDS packet ID.
    pub packet_id: u16,
    /// Raw CCSDS packet sequence control field.
    pub psc: u16,
}

impl CcsdsPacketIdAndPsc {
    /// Combination of the two raw fields.
    pub fn new(packet_id: u16, psc: u16) -> (r: Self)
        ensures
            r.packet_id == packet_id,
            r.psc == psc,
    {
        Self { packet_id, psc }
    }
}

/// Packet ID used for identifying scheduled packets.
///
/// Right now, this ID can be determined from the packet without requiring external input
/// or custom data fields in the CCSDS space packet.
#[derive(Debug, Copy, Clone, PartialEq, Eq, Hash, Structural)]
pub struct CcsdsSchedulePacketId {
    /// Base ID.
    pub base: CcsdsPacketIdAndPsc,
    /// Optional checksum of the packet.
    pub crc16: Option<u16>,
}

impl CcsdsSchedulePacketId {
    /// Create a new CCSDS scheduling packet ID.
    pub fn new(base: CcsdsPacketIdAndPsc, checksum: Option<u16>) -> (r: Self)
        ensures
            r.base == base,
            r.crc16 == checksum,
    {
        Self { base, crc16: checksum }
    }
}

#[verifier::external_type_specification]
#[verifier::external_body]
pub struct ExTimestampError(spacepackets::time::TimestampError);

/// Generic CCSDS scheduling errors.
#[derive(Debug, Copy, Clone, PartialEq, Eq)]
pub enum ScheduleError {
    /// The release time is within the time-margin added on top of the current time.
    ReleaseTimeInTimeMargin {
        /// Current time.
        current_time: UnixTime,
        /// Configured time margin.
        time_margin: Duration,
        /// Release time.
        release_time: UnixTime,
    },
    /// Nested time-tagged commands are not allowed.
    NestedScheduledTc,
    /// TC data is empty.
    TcDataEmpty,
    /// Scheduler is full, packet number limit reached.
    PacketLimitReached,
    /// Scheduler is full, number of bytes limit reached.
    ByteLimitReached,
    /// Timestamp error.
    TimestampError(spacepackets::time::TimestampError),
}

/// One scheduled telecommand: its identifier and its raw bytes.
pub type ScheduledTc = (CcsdsSchedulePacketId, Seq<u8>);

/// The telecommands scheduled for one release time, in the order in which they were inserted.
pub type ScheduledGroup = (UnixTime, Seq<ScheduledTc>);

/// A group as the scheduler stores it.
pub type StoredGroup = (UnixTime, Vec<(CcsdsSchedulePacketId, Vec<u8>)>);

/// A stored telecommand as a value.
pub open spec fn tc_view(e: (CcsdsSchedulePacketId, Vec<u8>)) -> ScheduledTc {
    (e.0, e.1@)
}

/// A stored group as a value.
pub open spec fn group_view(g: StoredGroup) -> ScheduledGroup {
    (g.0, g.1@.map_values(|e: (CcsdsSchedulePacketId, Vec<u8>)| tc_view(e)))
}

/// Stored groups as values.
pub open spec fn groups_view(v: Seq<StoredGroup>) -> Seq<ScheduledGroup> {
    v.map_values(|g: StoredGroup| group_view(g))
}

/// The release times of the groups ascend strictly.
pub open spec fn keys_ascending(m: Seq<ScheduledGroup>) -> bool {
    forall|i: int, j: int| 0 <= i < j < m.len() ==> time_before(m[i].0, m[j].0)
}

/// Every group holds a telecommand and a valid release time.
pub open spec fn groups_filled(m: Seq<ScheduledGroup>) -> bool {
    forall|i: int| 0 <= i < m.len() ==> m[i].1.len() > 0 && m[i].0.nanos_spec() < NANOS_PER_SECOND
}

/// Number of bytes of the telecommands of a group.
pub open spec fn group_bytes(g: Seq<ScheduledTc>) -> nat
    decreases g.len(),
{
    if g.len() == 0 {
        0
    } else {
        group_bytes(g.drop_last()) + g.last().1.len()
    }
}

/// Number of scheduled telecommands.
pub open spec fn packets_in(m: Seq<ScheduledGroup>) -> nat
    decreases m.len(),
{
    if m.len() == 0 {
        0
    } else {
        packets_in(m.drop_last()) + m.last().1.len()
    }
}

/// Number of bytes of the scheduled telecommands.
pub open spec fn bytes_in(m: Seq<ScheduledGroup>) -> nat
    decreases m.len(),
{
    if m.len() == 0 {
        0
    } else {
        bytes_in(m.drop_last()) + group_bytes(m.last().1)
    }
}

/// The schedule after a telecommand was added for release time `t`: to the end of the group
/// whose release time is equivalent to `t`, or as a new group in its place in time.
pub open spec fn insert_scheduled(m: Seq<ScheduledGroup>, t: UnixTime, e: ScheduledTc) -> Seq<
    ScheduledGroup,
>
    decreases m.len(),
{
    if m.len() == 0 {
        seq![(t, seq![e])]
    } else if time_before(m.last().0, t) {
        m.push((t, seq![e]))
    } else if time_before(t, m.last().0) {
        insert_scheduled(m.drop_last(), t, e).push(m.last())
    } else {
        m.drop_last().push((m.last().0, m.last().1.push(e)))
    }
}

/// The groups whose release time is not after `now`: those due for release.
pub open spec fn due_groups(m: Seq<ScheduledGroup>, now: UnixTime) -> Seq<ScheduledGroup> {
    m.filter(|g: ScheduledGroup| !time_before(now, g.0))
}

/// Whether the releaser was handed the telecommand: called with its ID and its bytes.
pub open spec fn handed_to<R: FnMut(&CcsdsSchedulePacketId, &[u8])>(releaser: R, tc: ScheduledTc) -> bool {
    exists|id: &CcsdsSchedulePacketId, raw: &[u8]| *id == tc.0 && raw@ == tc.1 && #[trigger] call_ensures(releaser, (id, raw), ())
}

/// The groups whose release time is after `now`.
pub open spec fn pending_groups(m: Seq<ScheduledGroup>, now: UnixTime) -> Seq<ScheduledGroup> {
    m.filter(|g: ScheduledGroup| time_before(now, g.0))
}

/// A release loses no telecommand: every group of the schedule is either due, and so handed
/// to the releaser by [CcsdsScheduler::release_telecommands], or pending, and so kept.
pub proof fn law_release_loses_no_telecommand(m: Seq<ScheduledGroup>, now: UnixTime, g: int)
    requires
        0 <= g < m.len(),
    ensures
        due_groups(m, now).contains(m[g]) || pending_groups(m, now).contains(m[g]),
{
    if time_before(now, m[g].0) {
        m.lemma_filter_contains(|x: ScheduledGroup| time_before(now, x.0), g);
    } else {
        m.lemma_filter_contains(|x: ScheduledGroup| !time_before(now, x.0), g);
    }
}

/// The groups outside the window from `start` (included) to `end` (excluded).
pub open spec fn outside_window(m: Seq<ScheduledGroup>, start: UnixTime, end: UnixTime) -> Seq<
    ScheduledGroup,
> {
    m.filter(|g: ScheduledGroup| time_before(g.0, start) || !time_before(g.0, end))
}

/// The groups released before `start`.
pub open spec fn groups_before(m: Seq<ScheduledGroup>, start: UnixTime) -> Seq<ScheduledGroup> {
    m.filter(|g: ScheduledGroup| time_before(g.0, start))
}

/// The groups released at or after `end`.
pub open spec fn groups_from(m: Seq<ScheduledGroup>, end: UnixTime) -> Seq<ScheduledGroup> {
    m.filter(|g: ScheduledGroup| !time_before(g.0, end))
}

/// Telecommands whose identifier is not `id`.
pub open spec fn other_id(id: CcsdsSchedulePacketId) -> spec_fn(ScheduledTc) -> bool {
    |e: ScheduledTc| e.0 != id
}

/// The schedule without the telecommands whose identifier is `id`; groups left empty go.
pub open spec fn without_id(m: Seq<ScheduledGroup>, id: CcsdsSchedulePacketId) -> Seq<
    ScheduledGroup,
>
    decreases m.len(),
{
    if m.len() == 0 {
        m
    } else {
        let rest = without_id(m.drop_last(), id);
        let kept = m.last().1.filter(other_id(id));
        if kept.len() == 0 {
            rest
        } else {
            rest.push((m.last().0, kept))
        }
    }
}

/// Whether a telecommand with identifier `id` is scheduled.
pub open spec fn holds_id(m: Seq<ScheduledGroup>, id: CcsdsSchedulePacketId) -> bool {
    exists|i: int, j: int| 0 <= i < m.len() && 0 <= j < m[i].1.len() && m[i].1[j].0 == id
}

/// The order of time stamps is a strict order whose incomparable stamps are equivalent.
proof fn lemma_time_order(a: UnixTime, b: UnixTime, c: UnixTime)
    ensures
        !time_before(a, a),
        time_before(a, b) ==> !time_before(b, a),
        time_before(a, b) && time_before(b, c) ==> time_before(a, c),
        time_before(a, b) && time_equivalent(b, c) ==> time_before(a, c),
        time_equivalent(a, b) && time_before(b, c) ==> time_before(a, c),
{
}

/// Filtering a sequence extended by one element.
proof fn lemma_filter_push<A>(s: Seq<A>, x: A, p: spec_fn(A) -> bool)
    ensures
        s.push(x).filter(p) == (if p(x) {
            s.filter(p).push(x)
        } else {
            s.filter(p)
        }),
{
    reveal(Seq::filter);
    assert(s.push(x).drop_last() =~= s);
}

/// A filter drops an element exactly when some element fails the predicate.
proof fn lemma_filter_shrinks<A>(s: Seq<A>, p: spec_fn(A) -> bool)
    ensures
        s.filter(p).len() <= s.len(),
        (s.filter(p).len() < s.len()) <==> (exists|i: int| 0 <= i < s.len() && !p(s[i])),
    decreases s.len(),
{
    reveal(Seq::filter);
    if s.len() > 0 {
        let d = s.drop_last();
        lemma_filter_shrinks(d, p);
        if s.filter(p).len() < s.len() {
            if p(s.last()) {
                let i = choose|i: int| 0 <= i < d.len() && !p(d[i]);
                assert(!p(s[i]));
            } else {
                assert(!p(s[s.len() - 1]));
            }
        } else {
            assert forall|i: int| 0 <= i < s.len() implies p(s[i]) by {
                if i < s.len() - 1 {
                    assert(s[i] == d[i]);
                }
            }
        }
    }
}

/// Every element kept by a filter is an element of the sequence.
proof fn lemma_filter_from<A>(s: Seq<A>, p: spec_fn(A) -> bool)
    ensures
        forall|j: int|
            0 <= j < s.filter(p).len() ==> exists|i: int|
                0 <= i < s.len() && #[trigger] s.filter(p)[j] == #[trigger] s[i] && p(s[i]),
    decreases s.len(),
{
    reveal(Seq::filter);
    if s.len() > 0 {
        let d = s.drop_last();
        lemma_filter_from(d, p);
        assert forall|j: int| 0 <= j < s.filter(p).len() implies exists|i: int|
            0 <= i < s.len() && #[trigger] s.filter(p)[j] == #[trigger] s[i] && p(s[i]) by {
            if j < d.filter(p).len() {
                let i = choose|i: int| 0 <= i < d.len() && d.filter(p)[j] == d[i] && p(d[i]);
                assert(s[i] == d[i]);
            } else {
                assert(s[s.len() - 1] == s.last());
            }
        }
    }
}

/// The bytes of a filtered group.
proof fn lemma_group_bytes_filter(g: Seq<ScheduledTc>, p: spec_fn(ScheduledTc) -> bool)
    ensures
        group_bytes(g.filter(p)) <= group_bytes(g),
    decreases g.len(),
{
    reveal(Seq::filter);
    if g.len() > 0 {
        lemma_group_bytes_filter(g.drop_last(), p);
        if p(g.last()) {
            assert(g.filter(p).drop_last() =~= g.drop_last().filter(p));
        }
    }
}

/// The totals of a prefix of the schedule are at most those of the schedule.
proof fn lemma_prefix_totals(m: Seq<ScheduledGroup>, i: int)
    requires
        0 <= i <= m.len(),
    ensures
        packets_in(m.take(i)) <= packets_in(m),
        bytes_in(m.take(i)) <= bytes_in(m),
    decreases m.len(),
{
    if i < m.len() {
        lemma_prefix_totals(m.drop_last(), i);
        assert(m.drop_last().take(i) =~= m.take(i));
    } else {
        assert(m.take(i) =~= m);
    }
}

/// The bytes of a prefix of a group are at most those of the group.
proof fn lemma_group_prefix_bytes(g: Seq<ScheduledTc>, j: int)
    requires
        0 <= j <= g.len(),
    ensures
        group_bytes(g.take(j)) <= group_bytes(g),
    decreases g.len(),
{
    if j < g.len() {
        lemma_group_prefix_bytes(g.drop_last(), j);
        assert(g.drop_last().take(j) =~= g.take(j));
    } else {
        assert(g.take(j) =~= g);
    }
}

/// A filter of the groups keeps them ordered and filled, and holds no more than they do.
proof fn lemma_filter_groups(m: Seq<ScheduledGroup>, p: spec_fn(ScheduledGroup) -> bool)
    requires
        keys_ascending(m),
        groups_filled(m),
    ensures
        keys_ascending(m.filter(p)),
        groups_filled(m.filter(p)),
        packets_in(m.filter(p)) <= packets_in(m),
        bytes_in(m.filter(p)) <= bytes_in(m),
    decreases m.len(),
{
    reveal(Seq::filter);
    if m.len() > 0 {
        let d = m.drop_last();
        lemma_filter_groups(d, p);
        lemma_filter_from(d, p);
        let f = m.filter(p);
        if p(m.last()) {
            assert(f.drop_last() =~= d.filter(p));
            assert forall|i: int, j: int| 0 <= i < j < f.len() implies time_before(
                f[i].0,
                f[j].0,
            ) by {
                if j == f.len() - 1 {
                    let k = choose|k: int| 0 <= k < d.len() && d.filter(p)[i] == d[k] && p(d[k]);
                    assert(m[k] == d[k]);
                    assert(m[m.len() - 1] == m.last());
                } else {
                    assert(f[i] == d.filter(p)[i]);
                    assert(f[j] == d.filter(p)[j]);
                }
            }
            assert forall|i: int| 0 <= i < f.len() implies f[i].1.len() > 0
                && f[i].0.nanos_spec() < NANOS_PER_SECOND by {
                if i < f.len() - 1 {
                    assert(f[i] == d.filter(p)[i]);
                } else {
                    assert(m[m.len() - 1] == m.last());
                }
            }
        }
    }
}

/// Adding a telecommand adds one packet and its bytes.
proof fn lemma_insert_totals(m: Seq<ScheduledGroup>, t: UnixTime, e: ScheduledTc)
    ensures
        packets_in(insert_scheduled(m, t, e)) == packets_in(m) + 1,
        bytes_in(insert_scheduled(m, t, e)) == bytes_in(m) + e.1.len(),
    decreases m.len(),
{
    let one = seq![e];
    assert(one.drop_last() =~= Seq::<ScheduledTc>::empty());
    assert(group_bytes(Seq::<ScheduledTc>::empty()) == 0);
    assert(group_bytes(one) == e.1.len());
    let r = insert_scheduled(m, t, e);
    if m.len() == 0 {
        assert(r.drop_last() =~= Seq::<ScheduledGroup>::empty());
        assert(packets_in(Seq::<ScheduledGroup>::empty()) == 0);
        assert(bytes_in(Seq::<ScheduledGroup>::empty()) == 0);
    } else if time_before(m.last().0, t) {
        assert(r.drop_last() =~= m);
    } else if time_before(t, m.last().0) {
        lemma_insert_totals(m.drop_last(), t, e);
        let s = insert_scheduled(m.drop_last(), t, e);
        assert(r.drop_last() =~= s);
    } else {
        let g = m.last().1;
        assert(r.drop_last() =~= m.drop_last());
        assert(g.push(e).drop_last() =~= g);
        assert(group_bytes(g.push(e)) == group_bytes(g) + e.1.len());
    }
}

/// Removing the telecommands of one identifier keeps the groups ordered and filled, leaves
/// none of that identifier, holds no more than before, and keeps only release times that were
/// there.
proof fn lemma_without_id(m: Seq<ScheduledGroup>, id: CcsdsSchedulePacketId)
    requires
        keys_ascending(m),
        groups_filled(m),
    ensures
        keys_ascending(without_id(m, id)),
        groups_filled(without_id(m, id)),
        !holds_id(without_id(m, id), id),
        packets_in(without_id(m, id)) <= packets_in(m),
        bytes_in(without_id(m, id)) <= bytes_in(m),
        forall|j: int|
            0 <= j < without_id(m, id).len() ==> exists|i: int|
                0 <= i < m.len() && #[trigger] without_id(m, id)[j].0 == #[trigger] m[i].0,
    decreases m.len(),
{
    if m.len() > 0 {
        let d = m.drop_last();
        lemma_without_id(d, id);
        let rest = without_id(d, id);
        let g = m.last().1;
        let kept = g.filter(other_id(id));
        lemma_filter_shrinks(g, other_id(id));
        lemma_group_bytes_filter(g, other_id(id));
        lemma_filter_from(g, other_id(id));
        let r = without_id(m, id);
        if kept.len() > 0 {
            assert(r.drop_last() =~= rest);
            assert(m[m.len() - 1] == m.last());
            assert forall|i: int, j: int| 0 <= i < j < r.len() implies time_before(
                r[i].0,
                r[j].0,
            ) by {
                if j == r.len() - 1 {
                    let k = choose|k: int| 0 <= k < d.len() && rest[i].0 == d[k].0;
                    assert(m[k] == d[k]);
                } else {
                    assert(r[i] == rest[i]);
                    assert(r[j] == rest[j]);
                }
            }
            assert forall|i: int| 0 <= i < r.len() implies r[i].1.len() > 0
                && r[i].0.nanos_spec() < NANOS_PER_SECOND by {
                if i < r.len() - 1 {
                    assert(r[i] == rest[i]);
                }
            }
            assert forall|i: int, j: int|
                0 <= i < r.len() && 0 <= j < r[i].1.len() implies r[i].1[j].0 != id by {
                if i < r.len() - 1 {
                    assert(r[i] == rest[i]);
                } else {
                    let k = choose|k: int|
                        0 <= k < g.len() && kept[j] == g[k] && other_id(id)(g[k]);
                }
            }
            assert forall|j: int| 0 <= j < r.len() implies exists|i: int|
                0 <= i < m.len() && #[trigger] r[j].0 == #[trigger] m[i].0 by {
                if j < r.len() - 1 {
                    assert(r[j] == rest[j]);
                    let k = choose|k: int| 0 <= k < d.len() && rest[j].0 == d[k].0;
                    assert(m[k] == d[k]);
                } else {
                    assert(r[j].0 == m[m.len() - 1].0);
                }
            }
        } else {
            assert forall|j: int| 0 <= j < r.len() implies exists|i: int|
                0 <= i < m.len() && #[trigger] r[j].0 == #[trigger] m[i].0 by {
                let k = choose|k: int| 0 <= k < d.len() && rest[j].0 == d[k].0;
                assert(m[k] == d[k]);
            }
        }
    }
}

/// A telecommand is scheduled in a group exactly when the filtered schedule of its
/// identifier shrank.
proof fn lemma_group_holds_id(g: Seq<ScheduledTc>, id: CcsdsSchedulePacketId)
    ensures
        (g.filter(other_id(id)).len() < g.len()) <==> (exists|j: int|
            0 <= j < g.len() && g[j].0 == id),
{
    lemma_filter_shrinks(g, other_id(id));
}

/// Two filters by complementary predicates split the telecommands between them.
proof fn lemma_filter_split(
    m: Seq<ScheduledGroup>,
    p: spec_fn(ScheduledGroup) -> bool,
    q: spec_fn(ScheduledGroup) -> bool,
)
    requires
        forall|g: ScheduledGroup| #[trigger] q(g) == !p(g),
    ensures
        packets_in(m.filter(p)) + packets_in(m.filter(q)) == packets_in(m),
        bytes_in(m.filter(p)) + bytes_in(m.filter(q)) == bytes_in(m),
    decreases m.len(),
{
    reveal(Seq::filter);
    if m.len() > 0 {
        let d = m.drop_last();
        lemma_filter_split(d, p, q);
        if p(m.last()) {
            assert(m.filter(p).drop_last() =~= d.filter(p));
        } else {
            assert(q(m.last()));
            assert(m.filter(q).drop_last() =~= d.filter(q));
        }
    }
}

/// A filter whose predicate no element meets keeps nothing.
proof fn lemma_filter_none<A>(s: Seq<A>, p: spec_fn(A) -> bool)
    requires
        forall|i: int| 0 <= i < s.len() ==> !p(#[trigger] s[i]),
    ensures
        s.filter(p).len() == 0,
    decreases s.len(),
{
    reveal(Seq::filter);
    if s.len() > 0 {
        let d = s.drop_last();
        assert forall|i: int| 0 <= i < d.len() implies !p(#[trigger] d[i]) by {
            assert(s[i] == d[i]);
        }
        lemma_filter_none(d, p);
        assert(!p(s[s.len() - 1]));
    }
}

/// The added telecommand sits at the end of a group whose release time is `t` or equivalent
/// to it.
proof fn lemma_insert_places(m: Seq<ScheduledGroup>, t: UnixTime, e: ScheduledTc)
    ensures
        exists|i: int|
            0 <= i < insert_scheduled(m, t, e).len() && time_equivalent(
                #[trigger] insert_scheduled(m, t, e)[i].0,
                t,
            ) && insert_scheduled(m, t, e)[i].1.len() > 0 && insert_scheduled(m, t, e)[i].1.last()
                == e,
    decreases m.len(),
{
    lemma_time_order(t, t, t);
    let r = insert_scheduled(m, t, e);
    if m.len() == 0 {
        assert(time_equivalent(r[0].0, t));
    } else if time_before(m.last().0, t) {
        assert(time_equivalent(r[r.len() - 1].0, t));
    } else if time_before(t, m.last().0) {
        lemma_insert_places(m.drop_last(), t, e);
        let s = insert_scheduled(m.drop_last(), t, e);
        let i = choose|i: int|
            0 <= i < s.len() && time_equivalent(#[trigger] s[i].0, t) && s[i].1.len() > 0
                && s[i].1.last() == e;
        assert(r[i] == s[i]);
    } else {
        assert(time_equivalent(r[r.len() - 1].0, t));
    }
}

#[verifier::external_type_specification]
#[verifier::external_body]
pub struct ExCcsdsPacketReader<'a>(spacepackets::CcsdsPacketReader<'a>);

/// The packet ID of a CCSDS packet: the low 13 bits of its first two bytes, big-endian (the
/// version bits above them left out).
pub open spec fn header_packet_id(raw: Seq<u8>) -> u16 {
    ((raw[0] % 0x20) as int * 0x100 + raw[1] as int) as u16
}

/// The packet sequence control field of a CCSDS packet: its third and fourth bytes,
/// big-endian.
pub open spec fn header_psc(raw: Seq<u8>) -> u16 {
    be_u16(raw[2], raw[3])
}

/// Reads a `CcsdsPacketReader` through its accessors `raw_data`, `ccsds_packet_id_and_psc`
/// and `checksum`: the bytes of the packet, the raw values of its packet ID and sequence
/// control field, and the checksum the reader found, if it was asked for one.
///
/// Claimed of the calls, as the crate's source shows: the bytes span the packet's length, its
/// 16-bit data length field plus seven, so between 7 and 65542 bytes; the packet ID and the
/// sequence control field are those of the header at the start of the bytes; a checksum is
/// the last two bytes, big-endian. Whether there is a checksum depends on how the reader was
/// built, which is left unsaid.
#[verifier::external_body]
fn reader_fields<'a>(reader: &spacepackets::CcsdsPacketReader<'a>) -> (r: (&'a [u8], CcsdsPacketIdAndPsc, Option<u16>))
    ensures
        7 <= r.0@.len() <= 65542,
        r.1.packet_id == header_packet_id(r.0@),
        r.1.psc == header_psc(r.0@),
        r.2 matches Some(c) ==> c == be_u16(r.0@[r.0@.len() - 2], r.0@[r.0@.len() - 1]),
{
    let id = reader.ccsds_packet_id_and_psc();
    (reader.raw_data(), CcsdsPacketIdAndPsc { packet_id: id.packet_id.raw(), psc: id.psc.raw() }, reader.checksum())
}

/// A CCSDS packet as a packet reader gives it: its bytes, the raw values of its packet ID and
/// sequence control field, and the checksum the reader found, if it was asked for one.
#[derive(Debug, Clone)]
pub struct CcsdsPacketFields {
    pub raw: Vec<u8>,
    pub id_and_psc: CcsdsPacketIdAndPsc,
    pub checksum: Option<u16>,
}

impl CcsdsPacketFields {
    /// The fields which the reader gives of its packet.
    pub fn from_reader(reader: &spacepackets::CcsdsPacketReader) -> (r: Self)
        ensures
            7 <= r.raw@.len() <= 65542,
            r.id_and_psc.packet_id == header_packet_id(r.raw@),
            r.id_and_psc.psc == header_psc(r.raw@),
            r.checksum matches Some(c) ==> c == be_u16(r.raw@[r.raw@.len() - 2], r.raw@[r.raw@.len() - 1]),
    {
        let (raw, id_and_psc, checksum) = reader_fields(reader);
        Self { raw: vstd::slice::slice_to_vec(raw), id_and_psc, checksum }
    }
}

#[verifier::external_type_specification]
#[verifier::external_body]
pub struct ExSystemTimeError(std::time::SystemTimeError);

/// Calls `UnixTime::now` of `spacepackets`, the system time as a UNIX time stamp, or the error
/// of a system clock set before the epoch. The result depends on the clock: nothing is claimed
/// of it.
#[verifier::external_body]
fn unix_time_now() -> Result<UnixTime, std::time::SystemTimeError> {
    let now = spacepackets::time::UnixTime::now()?;
    Ok(UnixTime { secs: now.as_secs(), subsec_nanos: now.subsec_nanos() })
}

/// Which release times a pass over the groups keeps.
enum TimeFilter {
    /// Not after the stamp: due for release.
    NotAfter(UnixTime),
    /// After the stamp.
    After(UnixTime),
    /// Outside the window from the first stamp (included) to the second (excluded).
    Outside(UnixTime, UnixTime),
    /// Before the stamp.
    Before(UnixTime),
    /// At or after the stamp.
    NotBefore(UnixTime),
}

spec fn keeps(f: TimeFilter, k: UnixTime) -> bool {
    match f {
        TimeFilter::NotAfter(t) => !time_before(t, k),
        TimeFilter::After(t) => time_before(t, k),
        TimeFilter::Outside(start, end) => time_before(k, start) || !time_before(k, end),
        TimeFilter::Before(t) => time_before(k, t),
        TimeFilter::NotBefore(t) => !time_before(k, t),
    }
}

spec fn keeps_pred(f: TimeFilter) -> spec_fn(ScheduledGroup) -> bool {
    |g: ScheduledGroup| keeps(f, g.0)
}

fn filter_keeps(f: &TimeFilter, k: &UnixTime) -> (r: bool)
    ensures
        r == keeps(*f, *k),
{
    proof {
        use_type_invariant(k);
    }
    match f {
        TimeFilter::NotAfter(t) => {
            proof {
                use_type_invariant(t);
            }
            !stamp_before(t, k)
        },
        TimeFilter::After(t) => {
            proof {
                use_type_invariant(t);
            }
            stamp_before(t, k)
        },
        TimeFilter::Outside(start, end) => {
            proof {
                use_type_invariant(start);
                use_type_invariant(end);
            }
            stamp_before(k, start) || !stamp_before(k, end)
        },
        TimeFilter::Before(t) => {
            proof {
                use_type_invariant(t);
            }
            stamp_before(k, t)
        },
        TimeFilter::NotBefore(t) => {
            proof {
                use_type_invariant(t);
            }
            !stamp_before(k, t)
        },
    }
}

/// A copy of the telecommands of a group.
fn copy_tcs(g: &Vec<(CcsdsSchedulePacketId, Vec<u8>)>) -> (r: Vec<(CcsdsSchedulePacketId, Vec<u8>)>)
    ensures
        r@.map_values(|e: (CcsdsSchedulePacketId, Vec<u8>)| tc_view(e)) == g@.map_values(
            |e: (CcsdsSchedulePacketId, Vec<u8>)| tc_view(e),
        ),
{
    let mut r: Vec<(CcsdsSchedulePacketId, Vec<u8>)> = Vec::new();
    let mut j: usize = 0;
    while j < g.len()
        invariant
            j <= g.len(),
            r@.len() == j,
            forall|k: int| 0 <= k < j ==> tc_view(#[trigger] r@[k]) == tc_view(g@[k]),
        decreases g.len() - j,
    {
        let raw = g[j].1.clone();
        assert(raw@ =~= g@[j as int].1@);
        r.push((g[j].0, raw));
        j += 1;
    }
    assert(r@.map_values(|e: (CcsdsSchedulePacketId, Vec<u8>)| tc_view(e)) =~= g@.map_values(
        |e: (CcsdsSchedulePacketId, Vec<u8>)| tc_view(e),
    ));
    r
}

/// The values of stored groups after one more was added.
proof fn lemma_groups_view_push(v: Seq<StoredGroup>, g: StoredGroup)
    ensures
        groups_view(v.push(g)) == groups_view(v).push(group_view(g)),
{
    assert(groups_view(v.push(g)) =~= groups_view(v).push(group_view(g)));
}

/// Simple CCSDS scheduler implementation.
///
/// The telecommands are grouped by their release time, and the groups are kept in ascending
/// order of that time. Relies on heap allocation; the number of scheduled packets and their
/// bytes can be bounded by [Limits].
#[derive(Debug)]
pub struct CcsdsScheduler {
    tc_map: Vec<StoredGroup>,
    limits: Limits,
    current_time: UnixTime,
    time_margin: Duration,
    margin_secs: u64,
    margin_nanos: u32,
}

impl CcsdsScheduler {
    /// The scheduled groups, in ascending order of their release time.
    pub closed spec fn groups(&self) -> Seq<ScheduledGroup> {
        groups_view(self.tc_map@)
    }

    /// The current time of the scheduler.
    pub closed spec fn now(&self) -> UnixTime {
        self.current_time
    }

    /// The limits of the scheduler.
    pub closed spec fn limits_spec(&self) -> Limits {
        self.limits
    }

    /// The time margin, as it was handed to the scheduler.
    pub closed spec fn time_margin_spec(&self) -> Duration {
        self.time_margin
    }

    /// Whole seconds of the time margin.
    pub closed spec fn margin_secs(&self) -> u64 {
        self.margin_secs
    }

    /// Sub-second nanoseconds of the time margin.
    pub closed spec fn margin_nanos(&self) -> u32 {
        self.margin_nanos
    }

    /// The scheduler's invariant: groups in ascending order of their release time, none empty,
    /// and totals that fit the machine's counters.
    pub closed spec fn wf(&self) -> bool {
        &&& keys_ascending(self.groups())
        &&& groups_filled(self.groups())
        &&& self.current_time.nanos_spec() < NANOS_PER_SECOND
        &&& self.margin_nanos < NANOS_PER_SECOND
        &&& packets_in(self.groups()) <= usize::MAX
        &&& bytes_in(self.groups()) <= usize::MAX
    }

    /// Adding the time margin to the current time does not panic.
    pub open spec fn margin_addable(&self) -> bool {
        addition_defined(self.now(), self.margin_secs(), self.margin_nanos())
    }

    /// Whether `release_time` lies before the current time plus the time margin.
    pub open spec fn within_margin(&self, release_time: UnixTime) -> bool {
        time_before_at(
            release_time,
            added_secs(self.now(), self.margin_secs(), self.margin_nanos()),
            added_nanos(self.now(), self.margin_nanos()),
        )
    }

    /// What the checks before an insertion of `size` bytes for `release_time` give: the byte
    /// limit first, then the packet limit, then the time margin.
    pub open spec fn admission(&self, release_time: UnixTime, size: int) -> Result<
        (),
        ScheduleError,
    > {
        let m = self.groups();
        let l = self.limits_spec();
        if l.bytes is Some && bytes_in(m) + size > l.bytes.unwrap() {
            Err(ScheduleError::ByteLimitReached)
        } else if l.packets is Some && packets_in(m) + 1 > l.packets.unwrap() {
            Err(ScheduleError::PacketLimitReached)
        } else if self.within_margin(release_time) {
            Err(
                ScheduleError::ReleaseTimeInTimeMargin {
                    current_time: self.now(),
                    time_margin: self.time_margin_spec(),
                    release_time,
                },
            )
        } else {
            Ok(())
        }
    }

    /// What an insertion of `e` for `release_time` gives and leaves of the groups: the checks'
    /// outcome, and the groups with `e` added where they pass, unchanged where they fail.
    pub open spec fn insert_outcome(
        &self,
        after: Seq<ScheduledGroup>,
        r: Result<(), ScheduleError>,
        release_time: UnixTime,
        e: ScheduledTc,
    ) -> bool {
        &&& r == self.admission(release_time, e.1.len() as int)
        &&& r is Ok ==> after == insert_scheduled(self.groups(), release_time, e)
        &&& r is Err ==> after == self.groups()
    }

    /// Whether `other` has the same settings and time as this scheduler.
    pub open spec fn same_settings(&self, other: &Self) -> bool {
        &&& other.now() == self.now()
        &&& other.limits_spec() == self.limits_spec()
        &&& other.time_margin_spec() == self.time_margin_spec()
        &&& other.margin_secs() == self.margin_secs()
        &&& other.margin_nanos() == self.margin_nanos()
    }

    /// Create a new CCSDS scheduler.
    pub fn new(current_time: UnixTime, limits: Limits, time_margin: Duration) -> (r: Self)
        ensures
            r.wf(),
            r.groups() == Seq::<ScheduledGroup>::empty(),
            r.now() == current_time,
            r.limits_spec() == limits,
            r.time_margin_spec() == time_margin,
            r.margin_secs() == duration_secs(time_margin),
            r.margin_nanos() == duration_nanos(time_margin),
    {
        proof {
            use_type_invariant(&current_time);
        }
        let margin_secs = duration_as_secs(&time_margin);
        let margin_nanos = duration_subsec_nanos(&time_margin);
        let r = Self {
            tc_map: Vec::new(),
            limits,
            current_time,
            time_margin,
            margin_secs,
            margin_nanos,
        };
        assert(r.groups() =~= Seq::<ScheduledGroup>::empty());
        r
    }

    /// Like [Self::new], but sets the current time to the system time. Fails where the system
    /// clock cannot give a UNIX time.
    pub fn new_with_current_init_time(limits: Limits, time_margin: Duration) -> (r: Result<
        Self,
        std::time::SystemTimeError,
    >)
        ensures
            r matches Ok(s) ==> {
                &&& s.wf()
                &&& s.groups() == Seq::<ScheduledGroup>::empty()
                &&& s.limits_spec() == limits
                &&& s.time_margin_spec() == time_margin
            },
    {
        match unix_time_now() {
            Ok(now) => Ok(Self::new(now, limits, time_margin)),
            Err(e) => Err(e),
        }
    }

    /// Current fill count: number of scheduled packets and total number of bytes.
    pub fn current_fill_count(&self) -> (r: FillCount)
        requires
            self.wf(),
        ensures
            r.packets == packets_in(self.groups()),
            r.bytes == bytes_in(self.groups()),
    {
        let ghost m = self.groups();
        let mut fill_count = FillCount { packets: 0, bytes: 0 };
        let mut i: usize = 0;
        assert(m.take(0) =~= Seq::<ScheduledGroup>::empty());
        while i < self.tc_map.len()
            invariant
                self.wf(),
                m == self.groups(),
                i <= self.tc_map.len(),
                m.len() == self.tc_map.len(),
                fill_count.packets == packets_in(m.take(i as int)),
                fill_count.bytes == bytes_in(m.take(i as int)),
            decreases self.tc_map.len() - i,
        {
            let group = &self.tc_map[i].1;
            let ghost g = m[i as int].1;
            assert(g == group@.map_values(|e: (CcsdsSchedulePacketId, Vec<u8>)| tc_view(e)));
            assert(m.take(i + 1).drop_last() =~= m.take(i as int));
            proof {
                lemma_prefix_totals(m, i + 1);
            }
            let mut j: usize = 0;
            assert(g.take(0) =~= Seq::<ScheduledTc>::empty());
            while j < group.len()
                invariant
                    j <= group.len(),
                    g.len() == group.len(),
                    g == group@.map_values(|e: (CcsdsSchedulePacketId, Vec<u8>)| tc_view(e)),
                    fill_count.packets == packets_in(m.take(i as int)),
                    fill_count.bytes == bytes_in(m.take(i as int)) + group_bytes(g.take(j as int)),
                    bytes_in(m.take(i as int)) + group_bytes(g) <= usize::MAX,
                decreases group.len() - j,
            {
                assert(g.take(j + 1).drop_last() =~= g.take(j as int));
                proof {
                    lemma_group_prefix_bytes(g, j + 1);
                }
                fill_count.bytes = fill_count.bytes + group[j].1.len();
                j += 1;
            }
            assert(g.take(j as int) =~= g);
            fill_count.packets = fill_count.packets + group.len();
            i += 1;
        }
        assert(m.take(i as int) =~= m);
        fill_count
    }

    /// Current number of scheduled entries.
    pub fn num_of_entries(&self) -> (r: usize)
        requires
            self.wf(),
        ensures
            r == packets_in(self.groups()),
    {
        self.current_fill_count().packets
    }

    /// Update the current time.
    pub fn update_time(&mut self, current_time: UnixTime)
        requires
            old(self).wf(),
        ensures
            final(self).wf(),
            final(self).groups() == old(self).groups(),
            final(self).now() == current_time,
            final(self).limits_spec() == old(self).limits_spec(),
            final(self).time_margin_spec() == old(self).time_margin_spec(),
            final(self).margin_secs() == old(self).margin_secs(),
            final(self).margin_nanos() == old(self).margin_nanos(),
    {
        proof {
            use_type_invariant(&current_time);
        }
        self.current_time = current_time;
    }

    /// Current time.
    pub fn current_time(&self) -> (r: &UnixTime)
        ensures
            *r == self.now(),
    {
        &self.current_time
    }

    fn common_check(&self, release_time: &UnixTime, packet_size: usize) -> (r: Result<
        (),
        ScheduleError,
    >)
        requires
            self.wf(),
            self.margin_addable(),
            bytes_in(self.groups()) + packet_size <= usize::MAX,
            packets_in(self.groups()) + 1 <= usize::MAX,
        ensures
            r == self.admission(*release_time, packet_size as int),
    {
        proof {
            use_type_invariant(release_time);
        }
        if !self.limits.has_no_limits() {
            let fill_count = self.current_fill_count();
            if let Some(max_bytes) = self.limits.bytes {
                if fill_count.bytes + packet_size > max_bytes {
                    return Err(ScheduleError::ByteLimitReached);
                }
            }
            if let Some(max_packets) = self.limits.packets {
                if fill_count.packets + 1 > max_packets {
                    return Err(ScheduleError::PacketLimitReached);
                }
            }
        }
        let margin_end = stamp_plus(&self.current_time, self.margin_secs, self.margin_nanos);
        if stamp_before(release_time, &margin_end) {
            return Err(
                ScheduleError::ReleaseTimeInTimeMargin {
                    current_time: self.current_time,
                    time_margin: self.time_margin,
                    release_time: *release_time,
                },
            );
        }
        Ok(())
    }

    /// Insert a telecommand read by a packet reader: its identifier is the packet ID, the
    /// sequence control field and the checksum the reader holds, and its bytes are those of the
    /// packet.
    pub fn insert_telecommand_with_reader(
        &mut self,
        packet: &CcsdsPacketFields,
        release_time: UnixTime,
    ) -> (r: Result<(), ScheduleError>)
        requires
            old(self).wf(),
            old(self).margin_addable(),
            bytes_in(old(self).groups()) + packet.raw@.len() <= usize::MAX,
            packets_in(old(self).groups()) + 1 <= usize::MAX,
        ensures
            final(self).wf(),
            final(self).same_settings(old(self)),
            old(self).insert_outcome(
                final(self).groups(),
                r,
                release_time,
                (CcsdsSchedulePacketId { base: packet.id_and_psc, crc16: packet.checksum }, packet.raw@),
            ),
    {
        let packet_id_scheduling = CcsdsSchedulePacketId { base: packet.id_and_psc, crc16: packet.checksum };
        self.insert_telecommand(packet_id_scheduling, packet.raw.as_slice(), release_time)
    }

    /// Insert a raw telecommand, assuming the user has already extracted the
    /// [CcsdsSchedulePacketId].
    pub fn insert_telecommand(
        &mut self,
        packet_id_scheduling: CcsdsSchedulePacketId,
        raw_packet: &[u8],
        release_time: UnixTime,
    ) -> (r: Result<(), ScheduleError>)
        requires
            old(self).wf(),
            old(self).margin_addable(),
            bytes_in(old(self).groups()) + raw_packet@.len() <= usize::MAX,
            packets_in(old(self).groups()) + 1 <= usize::MAX,
        ensures
            final(self).wf(),
            final(self).same_settings(old(self)),
            old(self).insert_outcome(
                final(self).groups(),
                r,
                release_time,
                (packet_id_scheduling, raw_packet@),
            ),
            r is Ok ==> packets_in(final(self).groups()) == packets_in(old(self).groups()) + 1,
            r is Ok ==> bytes_in(final(self).groups()) == bytes_in(old(self).groups())
                + raw_packet@.len(),
    {
        let check = self.common_check(&release_time, raw_packet.len());
        if check.is_err() {
            return check;
        }
        proof {
            use_type_invariant(&release_time);
        }
        let ghost m = self.groups();
        let ghost e: ScheduledTc = (packet_id_scheduling, raw_packet@);
        let entry = (packet_id_scheduling, vstd::slice::slice_to_vec(raw_packet));
        assert(tc_view(entry) == e);
        let mut i: usize = self.tc_map.len();
        assert(m.take(m.len() as int) =~= m);
        assert(m.skip(m.len() as int) =~= Seq::<ScheduledGroup>::empty());
        loop
            invariant
                self.wf(),
                m == self.groups(),
                m.len() == self.tc_map.len(),
                release_time.nanos_spec() < NANOS_PER_SECOND,
                i <= self.tc_map.len(),
                forall|j: int| i <= j < m.len() ==> time_before(release_time, #[trigger] m[j].0),
                insert_scheduled(m, release_time, e) == insert_scheduled(
                    m.take(i as int),
                    release_time,
                    e,
                ) + m.skip(i as int),
            ensures
                self.wf(),
                m == self.groups(),
                m.len() == self.tc_map.len(),
                i <= self.tc_map.len(),
                forall|j: int| i <= j < m.len() ==> time_before(release_time, #[trigger] m[j].0),
                insert_scheduled(m, release_time, e) == insert_scheduled(
                    m.take(i as int),
                    release_time,
                    e,
                ) + m.skip(i as int),
                i == 0 || !time_before(release_time, m[i - 1].0),
            decreases i,
        {
            if i == 0 {
                break;
            }
            let key = &self.tc_map[i - 1].0;
            proof {
                use_type_invariant(key);
            }
            if !stamp_before(&release_time, key) {
                break;
            }
            proof {
                let p = m.take(i as int);
                assert(p.drop_last() =~= m.take(i - 1));
                assert(p.last() == m[i - 1]);
                lemma_time_order(release_time, m[i - 1].0, release_time);
                let s = insert_scheduled(m.take(i - 1), release_time, e);
                assert(s.push(m[i - 1]) + m.skip(i as int) =~= s + m.skip(i - 1));
            }
            i -= 1;
        }
        proof {
            lemma_insert_totals(m, release_time, e);
        }
        let mut merged = false;
        if i > 0 {
            let key = &self.tc_map[i - 1].0;
            proof {
                use_type_invariant(key);
            }
            if !stamp_before(key, &release_time) {
                merged = true;
            }
        }
        if merged {
            let mut group = self.tc_map.remove(i - 1);
            let ghost old_group = group;
            group.1.push(entry);
            proof {
                let p = m.take(i as int);
                assert(p.drop_last() =~= m.take(i - 1));
                assert(p.last() == m[i - 1]);
                assert(group_view(group) == (m[i - 1].0, m[i - 1].1.push(e))) by {
                    assert(group_view(group).1 =~= m[i - 1].1.push(e));
                }
                assert(m.take(i - 1).push((m[i - 1].0, m[i - 1].1.push(e))) + m.skip(i as int)
                    =~= m.update(i - 1, group_view(group)));
            }
            self.tc_map.insert(i - 1, group);
            proof {
                assert(self.groups() =~= m.update(i - 1, group_view(group)));
            }
        } else {
            let mut tcs: Vec<(CcsdsSchedulePacketId, Vec<u8>)> = Vec::new();
            tcs.push(entry);
            let group = (release_time, tcs);
            proof {
                assert(group_view(group) == (release_time, seq![e])) by {
                    assert(group_view(group).1 =~= seq![e]);
                }
                if i > 0 {
                    let p = m.take(i as int);
                    assert(p.last() == m[i - 1]);
                    assert(p.push((release_time, seq![e])) + m.skip(i as int) =~= m.insert(
                        i as int,
                        group_view(group),
                    ));
                } else {
                    assert(seq![(release_time, seq![e])] + m.skip(0) =~= m.insert(
                        0,
                        group_view(group),
                    ));
                }
            }
            self.tc_map.insert(i, group);
            proof {
                assert(self.groups() =~= m.insert(i as int, group_view(group)));
                let n = self.groups();
                assert forall|a: int, b: int| 0 <= a < b < n.len() implies time_before(
                    n[a].0,
                    n[b].0,
                ) by {
                    if b < i {
                    } else if b == i {
                        lemma_time_order(m[a].0, m[i - 1].0, release_time);
                    } else if a == i {
                    } else if a < i {
                        lemma_time_order(m[a].0, release_time, m[b - 1].0);
                        if a < i - 1 {
                            lemma_time_order(m[a].0, m[i - 1].0, release_time);
                        }
                    }
                }
            }
        }
        Ok(())
    }

    /// Copies of the groups whose release time the filter keeps.
    fn kept_groups(&self, f: &TimeFilter) -> (r: Vec<StoredGroup>)
        ensures
            groups_view(r@) == self.groups().filter(keeps_pred(*f)),
    {
        let ghost m = self.groups();
        let ghost p = keeps_pred(*f);
        let mut out: Vec<StoredGroup> = Vec::new();
        let mut i: usize = 0;
        assert(m.take(0) =~= Seq::<ScheduledGroup>::empty());
        assert(groups_view(out@) =~= Seq::<ScheduledGroup>::empty());
        proof {
            reveal(Seq::filter);
        }
        while i < self.tc_map.len()
            invariant
                m == self.groups(),
                p == keeps_pred(*f),
                m.len() == self.tc_map.len(),
                i <= self.tc_map.len(),
                groups_view(out@) == m.take(i as int).filter(p),
            decreases self.tc_map.len() - i,
        {
            proof {
                assert(m.take(i + 1) =~= m.take(i as int).push(m[i as int]));
                lemma_filter_push(m.take(i as int), m[i as int], p);
            }
            let key = &self.tc_map[i].0;
            if filter_keeps(f, key) {
                let tcs = copy_tcs(&self.tc_map[i].1);
                let group = (*key, tcs);
                proof {
                    assert(group_view(group) == m[i as int]);
                    lemma_groups_view_push(out@, group);
                }
                out.push(group);
            }
            i += 1;
        }
        assert(m.take(i as int) =~= m);
        out
    }

    /// Retrieve all telecommands which should be released based on the current time: copies
    /// of the groups whose release time is not after it.
    pub fn telecommands_to_release(&self) -> (r: Vec<StoredGroup>)
        requires
            self.wf(),
        ensures
            groups_view(r@) == due_groups(self.groups(), self.now()),
    {
        let f = TimeFilter::NotAfter(self.current_time);
        let r = self.kept_groups(&f);
        assert(keeps_pred(f) =~= |g: ScheduledGroup| !time_before(self.now(), g.0));
        r
    }

    /// Release all telecommands which should be released based on the current time.
    ///
    /// The releaser is called with each due telecommand, group by group in ascending order of
    /// the release time, in the order of insertion within a group; the released telecommands
    /// leave the schedule.
    pub fn release_telecommands<R: FnMut(&CcsdsSchedulePacketId, &[u8])>(&mut self, mut releaser: R)
        requires
            old(self).wf(),
            forall|id: &CcsdsSchedulePacketId, raw: &[u8]| call_requires(releaser, (id, raw)),
        ensures
            final(self).wf(),
            final(self).same_settings(old(self)),
            final(self).groups() == pending_groups(old(self).groups(), old(self).now()),
            forall|g: int, k: int|
                0 <= g < due_groups(old(self).groups(), old(self).now()).len()
                    && 0 <= k < due_groups(old(self).groups(), old(self).now())[g].1.len()
                    ==> handed_to(releaser, #[trigger] due_groups(old(self).groups(), old(self).now())[g].1[k]),
    {
        broadcast use vstd::function::group_function_axioms;
        let ghost due = due_groups(self.groups(), self.now());
        let ghost first = releaser;
        let tcs_to_release = self.telecommands_to_release();
        let mut i: usize = 0;
        while i < tcs_to_release.len()
            invariant
                i <= tcs_to_release.len(),
                forall|id: &CcsdsSchedulePacketId, raw: &[u8]| call_requires(releaser, (id, raw)),
                groups_view(tcs_to_release@) == due,
                releaser == first,
                forall|g: int, k: int| 0 <= g < i && 0 <= k < due[g].1.len() ==> handed_to(releaser, #[trigger] due[g].1[k]),
            decreases tcs_to_release.len() - i,
        {
            let group = &tcs_to_release[i].1;
            let mut j: usize = 0;
            while j < group.len()
                invariant
                    j <= group.len(),
                    i < tcs_to_release.len(),
                    *group == tcs_to_release@[i as int].1,
                    groups_view(tcs_to_release@) == due,
                    releaser == first,
                    forall|id: &CcsdsSchedulePacketId, raw: &[u8]|
                        call_requires(releaser, (id, raw)),
                    forall|g: int, k: int| 0 <= g < i && 0 <= k < due[g].1.len() ==> handed_to(releaser, #[trigger] due[g].1[k]),
                    forall|k: int| 0 <= k < j ==> handed_to(releaser, #[trigger] due[i as int].1[k]),
                decreases group.len() - j,
            {
                let raw = group[j].1.as_slice();
                releaser(&group[j].0, raw);
                assert(due[i as int].1[j as int] == tc_view(group@[j as int]));
                assert(handed_to(releaser, due[i as int].1[j as int]));
                j += 1;
            }
            i += 1;
        }
        assert(due.len() == tcs_to_release@.len());
        let f = TimeFilter::After(self.current_time);
        let kept = self.kept_groups(&f);
        proof {
            lemma_filter_groups(self.groups(), keeps_pred(f));
            assert(keeps_pred(f) =~= |g: ScheduledGroup| time_before(self.now(), g.0));
        }
        self.tc_map = kept;
    }

    /// Delete scheduled telecommands by their packet ID.
    ///
    /// Returns whether any telecommand was deleted. Every telecommand with that ID leaves the
    /// schedule, and groups left empty go.
    pub fn delete_by_id(&mut self, packet_id: &CcsdsSchedulePacketId) -> (r: bool)
        requires
            old(self).wf(),
        ensures
            final(self).wf(),
            final(self).same_settings(old(self)),
            final(self).groups() == without_id(old(self).groups(), *packet_id),
            r == holds_id(old(self).groups(), *packet_id),
    {
        let ghost m = self.groups();
        let ghost id = *packet_id;
        let mut was_removed = false;
        let mut out: Vec<StoredGroup> = Vec::new();
        let mut i: usize = 0;
        assert(m.take(0) =~= Seq::<ScheduledGroup>::empty());
        assert(groups_view(out@) =~= Seq::<ScheduledGroup>::empty());
        while i < self.tc_map.len()
            invariant
                m == self.groups(),
                id == *packet_id,
                m.len() == self.tc_map.len(),
                i <= self.tc_map.len(),
                groups_view(out@) == without_id(m.take(i as int), id),
                was_removed == holds_id(m.take(i as int), id),
            decreases self.tc_map.len() - i,
        {
            let group = &self.tc_map[i].1;
            let ghost g = m[i as int].1;
            assert(g == group@.map_values(|e: (CcsdsSchedulePacketId, Vec<u8>)| tc_view(e)));
            let mut kept: Vec<(CcsdsSchedulePacketId, Vec<u8>)> = Vec::new();
            let mut j: usize = 0;
            assert(g.take(0) =~= Seq::<ScheduledTc>::empty());
            proof {
                reveal(Seq::filter);
            }
            assert(kept@.map_values(|e: (CcsdsSchedulePacketId, Vec<u8>)| tc_view(e))
                =~= Seq::<ScheduledTc>::empty());
            while j < group.len()
                invariant
                    j <= group.len(),
                    g.len() == group.len(),
                    id == *packet_id,
                    g == group@.map_values(|e: (CcsdsSchedulePacketId, Vec<u8>)| tc_view(e)),
                    kept@.map_values(|e: (CcsdsSchedulePacketId, Vec<u8>)| tc_view(e)) == g.take(
                        j as int,
                    ).filter(other_id(id)),
                decreases group.len() - j,
            {
                proof {
                    assert(g.take(j + 1) =~= g.take(j as int).push(g[j as int]));
                    lemma_filter_push(g.take(j as int), g[j as int], other_id(id));
                }
                if group[j].0 != *packet_id {
                    let raw = group[j].1.clone();
                    assert(raw@ =~= group@[j as int].1@);
                    let ghost before = kept@;
                    kept.push((group[j].0, raw));
                    assert(kept@.map_values(|e: (CcsdsSchedulePacketId, Vec<u8>)| tc_view(e))
                        =~= before.map_values(|e: (CcsdsSchedulePacketId, Vec<u8>)| tc_view(e)).push(
                        g[j as int],
                    ));
                }
                j += 1;
            }
            assert(g.take(j as int) =~= g);
            proof {
                lemma_group_holds_id(g, id);
                let p = m.take(i + 1);
                assert(p.drop_last() =~= m.take(i as int));
                assert(p.last() == m[i as int]);
                if holds_id(p, id) {
                    if !holds_id(m.take(i as int), id) {
                        let (a, b) = choose|a: int, b: int|
                            0 <= a < p.len() && 0 <= b < p[a].1.len() && p[a].1[b].0 == id;
                        if a < i {
                            assert(p[a] == m.take(i as int)[a]);
                            assert(m.take(i as int)[a].1[b].0 == id);
                        }
                        assert(a == i);
                    }
                } else {
                    assert forall|b: int| 0 <= b < g.len() implies g[b].0 != id by {
                        assert(p[i as int].1[b] == g[b]);
                    }
                    assert forall|a: int, b: int|
                        0 <= a < m.take(i as int).len() && 0 <= b < m.take(i as int)[a].1.len()
                        implies m.take(i as int)[a].1[b].0 != id by {
                        assert(p[a] == m.take(i as int)[a]);
                    }
                }
            }
            if kept.len() < group.len() {
                was_removed = true;
            }
            if kept.len() > 0 {
                let new_group = (self.tc_map[i].0, kept);
                proof {
                    lemma_groups_view_push(out@, new_group);
                }
                out.push(new_group);
            }
            i += 1;
        }
        assert(m.take(i as int) =~= m);
        proof {
            lemma_without_id(m, id);
        }
        self.tc_map = out;
        was_removed
    }

    /// Keeps the groups whose release time the filter keeps; returns whether a group went.
    fn retain_groups(&mut self, f: &TimeFilter) -> (r: bool)
        requires
            old(self).wf(),
        ensures
            final(self).wf(),
            final(self).same_settings(old(self)),
            final(self).groups() == old(self).groups().filter(keeps_pred(*f)),
            r <==> exists|i: int|
                0 <= i < old(self).groups().len() && !keeps(*f, #[trigger] old(self).groups()[i].0),
    {
        let len_before = self.tc_map.len();
        let kept = self.kept_groups(f);
        proof {
            let m = self.groups();
            lemma_filter_groups(m, keeps_pred(*f));
            lemma_filter_shrinks(m, keeps_pred(*f));
            if exists|i: int| 0 <= i < m.len() && !keeps(*f, #[trigger] m[i].0) {
                let i = choose|i: int| 0 <= i < m.len() && !keeps(*f, #[trigger] m[i].0);
                assert(!keeps_pred(*f)(m[i]));
            }
        }
        self.tc_map = kept;
        self.tc_map.len() < len_before
    }

    /// Delete all telecommands scheduled in a time window.
    ///
    /// The range includes the start time but excludes the end time. Returns whether any
    /// telecommands were deleted.
    pub fn delete_time_window(&mut self, start_time: UnixTime, end_time: UnixTime) -> (r: bool)
        requires
            old(self).wf(),
        ensures
            final(self).wf(),
            final(self).same_settings(old(self)),
            final(self).groups() == outside_window(old(self).groups(), start_time, end_time),
            r <==> exists|i: int|
                0 <= i < old(self).groups().len() && !time_before(
                    #[trigger] old(self).groups()[i].0,
                    start_time,
                ) && time_before(old(self).groups()[i].0, end_time),
    {
        let f = TimeFilter::Outside(start_time, end_time);
        assert(keeps_pred(f) =~= |g: ScheduledGroup|
            time_before(g.0, start_time) || !time_before(g.0, end_time));
        self.retain_groups(&f)
    }

    /// Delete all scheduled telecommands scheduled after or at a given time.
    ///
    /// Returns whether any telecommands were deleted.
    pub fn delete_starting_at(&mut self, start_time: UnixTime) -> (r: bool)
        requires
            old(self).wf(),
        ensures
            final(self).wf(),
            final(self).same_settings(old(self)),
            final(self).groups() == groups_before(old(self).groups(), start_time),
            r <==> exists|i: int|
                0 <= i < old(self).groups().len() && !time_before(
                    #[trigger] old(self).groups()[i].0,
                    start_time,
                ),
    {
        let f = TimeFilter::Before(start_time);
        assert(keeps_pred(f) =~= |g: ScheduledGroup| time_before(g.0, start_time));
        self.retain_groups(&f)
    }

    /// Delete all scheduled telecommands scheduled before but not equal to a given time.
    ///
    /// Returns whether any telecommands were deleted.
    pub fn delete_before(&mut self, end_time: UnixTime) -> (r: bool)
        requires
            old(self).wf(),
        ensures
            final(self).wf(),
            final(self).same_settings(old(self)),
            final(self).groups() == groups_from(old(self).groups(), end_time),
            r <==> exists|i: int|
                0 <= i < old(self).groups().len() && time_before(
                    #[trigger] old(self).groups()[i].0,
                    end_time,
                ),
    {
        let f = TimeFilter::NotBefore(end_time);
        assert(keeps_pred(f) =~= |g: ScheduledGroup| !time_before(g.0, end_time));
        self.retain_groups(&f)
    }

    /// Completely clear the scheduler.
    pub fn clear(&mut self)
        requires
            old(self).wf(),
        ensures
            final(self).wf(),
            final(self).same_settings(old(self)),
            final(self).groups() == Seq::<ScheduledGroup>::empty(),
    {
        self.tc_map.clear();
        assert(self.groups() =~= Seq::<ScheduledGroup>::empty());
    }
}

/// Releasing splits the schedule: every scheduled telecommand is either among the due groups
/// handed to the releaser or among the pending groups that stay, never both, so none is lost
/// or released twice.
pub proof fn law_release_splits_schedule(m: Seq<ScheduledGroup>, now: UnixTime)
    ensures
        packets_in(due_groups(m, now)) + packets_in(pending_groups(m, now)) == packets_in(m),
        bytes_in(due_groups(m, now)) + bytes_in(pending_groups(m, now)) == bytes_in(m),
{
    lemma_filter_split(
        m,
        |g: ScheduledGroup| !time_before(now, g.0),
        |g: ScheduledGroup| time_before(now, g.0),
    );
}

/// After a release at a given time, nothing is due any more at that time.
pub proof fn law_nothing_due_after_release(m: Seq<ScheduledGroup>, now: UnixTime)
    ensures
        due_groups(pending_groups(m, now), now).len() == 0,
{
    let kept = pending_groups(m, now);
    assert forall|i: int| 0 <= i < kept.len() implies !(|g: ScheduledGroup|
        !time_before(now, g.0))(#[trigger] kept[i]) by {
        m.lemma_filter_pred(|g: ScheduledGroup| time_before(now, g.0), i);
    }
    lemma_filter_none(kept, |g: ScheduledGroup| !time_before(now, g.0));
}

/// A telecommand inserted for release time `t` is among those due at any time `now` that is
/// not before `t`.
pub proof fn law_inserted_tc_due_once_time_reached(
    m: Seq<ScheduledGroup>,
    t: UnixTime,
    e: ScheduledTc,
    now: UnixTime,
)
    requires
        !time_before(now, t),
    ensures
        exists|i: int, j: int|
            0 <= i < due_groups(insert_scheduled(m, t, e), now).len() && 0 <= j < due_groups(
                insert_scheduled(m, t, e),
                now,
            )[i].1.len() && #[trigger] due_groups(insert_scheduled(m, t, e), now)[i].1[j] == e,
{
    let r = insert_scheduled(m, t, e);
    lemma_insert_places(m, t, e);
    let k = choose|k: int|
        0 <= k < r.len() && time_equivalent(#[trigger] r[k].0, t) && r[k].1.len() > 0
            && r[k].1.last() == e;
    lemma_time_order(now, r[k].0, t);
    let p = |g: ScheduledGroup| !time_before(now, g.0);
    r.lemma_filter_contains(p, k);
    let due = due_groups(r, now);
    let i = choose|i: int| 0 <= i < due.len() && due[i] == r[k];
    assert(due[i].1[due[i].1.len() - 1] == e);
}

/// Deleting by identifier leaves no telecommand of that identifier scheduled.
pub proof fn law_delete_by_id_leaves_none(m: Seq<ScheduledGroup>, id: CcsdsSchedulePacketId)
    requires
        keys_ascending(m),
        groups_filled(m),
    ensures
        !holds_id(without_id(m, id), id),
{
    lemma_without_id(m, id);
}

/// Deleting a time window leaves no group whose release time lies in it.
pub proof fn law_window_cleared(m: Seq<ScheduledGroup>, start: UnixTime, end: UnixTime)
    ensures
        forall|i: int|
            0 <= i < outside_window(m, start, end).len() ==> {
                let k = (#[trigger] outside_window(m, start, end)[i]).0;
                time_before(k, start) || !time_before(k, end)
            },
{
    let p = |g: ScheduledGroup| time_before(g.0, start) || !time_before(g.0, end);
    assert forall|i: int| 0 <= i < m.filter(p).len() implies p(#[trigger] m.filter(p)[i]) by {
        m.lemma_filter_pred(p, i);
    }
}

} // verus!
