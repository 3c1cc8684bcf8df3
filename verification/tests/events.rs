use satrs::events::{Event, EventErasedAlloc, EventId, HasSeverity, Severity};

#[derive(Debug, Copy, Clone, PartialEq, Eq)]
pub enum TestEvent {
    Info,
    ErrorOtherGroup,
}

impl Event for TestEvent {
    fn id(&self) -> EventId {
        match self {
            TestEvent::Info => EventId::new(Severity::Info, 0, 0),
            TestEvent::ErrorOtherGroup => EventId::new(Severity::High, 1, 1),
        }
    }
}

#[test]
fn test_normal_event_getters() {
    assert_eq!(TestEvent::Info.id().severity(), Severity::Info);
    assert_eq!(TestEvent::Info.id().unique_id(), 0);
    assert_eq!(TestEvent::Info.id().group_id(), 0);
    assert_eq!(TestEvent::ErrorOtherGroup.id().group_id(), 1);
    assert_eq!(TestEvent::ErrorOtherGroup.id().unique_id(), 1);
    let raw_event = TestEvent::Info.id().raw();
    assert_eq!(raw_event, 0x00000000);
}

#[test]
fn event_id_raw_layout() {
    let id = EventId::new(Severity::High, 0x3FFF, 0xBEEF);
    assert_eq!(id.raw(), 0xFFFF_BEEF);
    let id = EventId::new(Severity::Low, 0x12, 0x34);
    assert_eq!(id.raw(), 0x4012_0034);
    assert_eq!(EventId::from(0x4012_0034), id);
    assert_eq!(EventId::from(0x8001_0002).severity(), Severity::Medium);
    assert_eq!(EventId::from(0x8001_0002).group_id(), 1);
    assert_eq!(EventId::from(0x8001_0002).unique_id(), 2);
    for raw in [0u32, 1, 0x3FFF_FFFF, 0xC000_0000, 0xFFFF_FFFF, 0x1234_5678] {
        assert_eq!(EventId::from(raw).raw(), raw);
    }
}

#[test]
fn severity_numbers() {
    assert_eq!(Severity::Info.raw(), 0);
    assert_eq!(Severity::High.raw(), 3);
    assert_eq!(Severity::try_from_raw(2), Some(Severity::Medium));
    assert_eq!(Severity::try_from_raw(4), None);
}

#[derive(Debug, Copy, Clone, PartialEq, Eq)]
struct HighEvent;

impl HasSeverity for HighEvent {
    const SEVERITY: Severity = Severity::High;
}

#[test]
fn erased_event_keeps_id_and_bytes() {
    assert_eq!(HighEvent::SEVERITY, Severity::High);
    let id = TestEvent::ErrorOtherGroup.id();
    let event = EventErasedAlloc::new_with_raw_event(id, &[1, 2, 3]);
    assert_eq!(event.raw(), &[1, 2, 3]);
    assert_eq!(event.id(), id);
    assert_eq!(event.clone(), event);
}
