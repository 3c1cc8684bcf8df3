use satrs::minisim::eps::{PcduSwitch, SwitchMapBinary, SwitchMapWrapper};
use satrs::action::{ActionRequest, ActionRequestStringId, ActionRequestVariant};
use satrs::ccsds::scheduler::{FillCount, Limits};
use satrs::executable::{after_successful_op, retain_unflagged, ExecutionType, flag_on_termination, thread_outcome, TerminationSignal, OpResult};
use satrs::power::{SwitchRequest, SwitchState, SwitchStateBinary};

#[test]
fn switch_states_convert() {
    assert_eq!(SwitchState::from(SwitchStateBinary::On), SwitchState::On);
    assert_eq!(SwitchState::from(SwitchStateBinary::Off), SwitchState::Off);
    assert_eq!(SwitchStateBinary::try_from_state(SwitchState::On), Some(SwitchStateBinary::On));
    assert_eq!(SwitchStateBinary::try_from_state(SwitchState::Faulty), None);
    assert_eq!(SwitchStateBinary::from(0_u8), SwitchStateBinary::Off);
    assert_eq!(SwitchStateBinary::from(7_u32), SwitchStateBinary::On);
    assert_eq!(SwitchStateBinary::from_raw(0), SwitchStateBinary::Off);
}

#[test]
fn switch_request_accessors() {
    let req = SwitchRequest::new(3, SwitchStateBinary::On);
    assert_eq!(req.switch_id(), 3);
    assert_eq!(req.target_state(), SwitchStateBinary::On);
}

#[test]
fn action_requests() {
    let req = ActionRequest::new(4, ActionRequestVariant::VecData(vec![1, 2]));
    assert_eq!(req.action_id, 4);
    assert_eq!(req.variant, ActionRequestVariant::VecData(vec![1, 2]));
    let req = ActionRequestStringId::new(String::from("id"), ActionRequestVariant::NoData);
    assert_eq!(req.action_id, "id");
}

#[test]
fn scheduler_limits() {
    assert!(Limits::new(None, None).has_no_limits());
    assert!(!Limits::new(Some(3), None).has_no_limits());
    assert!(!Limits::new(None, Some(100)).has_no_limits());
    let fill = FillCount::default();
    assert_eq!(fill.packets, 0);
}

#[test]
fn execution_bookkeeping() {
    assert_eq!(after_successful_op(ExecutionType::OneShot, 0), (0, true));
    assert_eq!(after_successful_op(ExecutionType::Infinite, 4), (4, false));
    assert_eq!(after_successful_op(ExecutionType::Cycles(3), 1), (2, false));
    assert_eq!(after_successful_op(ExecutionType::Cycles(3), 2), (3, true));
}

#[test]
fn retain_keeps_unflagged_in_order() {
    let items = vec!["a", "b", "c", "d"];
    let flags = vec![false, true, false, true];
    assert_eq!(retain_unflagged(items, &flags), vec!["a", "c"]);
    let empty: Vec<u8> = Vec::new();
    assert!(retain_unflagged(empty, &Vec::new()).is_empty());
}

#[test]
fn pcdu_switch_maps() {
    let off = SwitchMapWrapper::new_with_init_switches_off();
    assert_eq!(off.0.len(), 2);
    assert_eq!(off.0.get(&PcduSwitch::Mgm), Some(&SwitchState::Off));
    assert_eq!(off.0.get(&PcduSwitch::Mgt), Some(&SwitchState::Off));
    let mut binary = SwitchMapBinary::new();
    binary.insert(PcduSwitch::Mgt, SwitchStateBinary::On);
    let converted = SwitchMapWrapper::from_binary_switch_map_ref(&binary);
    assert_eq!(converted.0.len(), 1);
    assert_eq!(converted.0.get(&PcduSwitch::Mgt), Some(&SwitchState::On));
    assert_eq!(PcduSwitch::Mgt.raw(), 1);
}

#[test]
fn termination_flags_every_task_and_empty_thread_ends() {
    let mut flags = vec![false, true, false];
    flag_on_termination(TerminationSignal::Continue, &mut flags);
    assert_eq!(flags, vec![false, true, false]);
    flag_on_termination(TerminationSignal::Terminate, &mut flags);
    assert_eq!(flags, vec![true, true, true]);
    assert_eq!(thread_outcome(0), Some(OpResult::Success));
    assert_eq!(thread_outcome(2), None);
}
