//! Power switches: their states, switch requests, and the interfaces of devices which switch
//! them.
use vstd::prelude::*;
use core::time::Duration;
use crate::request::MessageMetadata;

verus! {

#[derive(Debug, Eq, PartialEq, Copy, Clone, Structural)]
pub enum SwitchState {
    Off,
    On,
    Unknown,
    Faulty,
}

#[derive(Debug, Eq, PartialEq, Copy, Clone, Structural)]
pub enum SwitchStateBinary {
    Off,
    On,
}

impl SwitchStateBinary {
    /// The binary state of a raw value: [SwitchStateBinary::Off] for 0, [SwitchStateBinary::On]
    /// for any other value.
    pub fn from_raw(value: u64) -> (r: Self)
        ensures
            r == (if value == 0 { SwitchStateBinary::Off } else { SwitchStateBinary::On }),
    {
        if value == 0 {
            return SwitchStateBinary::Off;
        }
        SwitchStateBinary::On
    }

    /// The binary state of a switch state: [None] for states other than on and off.
    pub fn try_from_state(value: SwitchState) -> (r: Option<Self>)
        ensures
            r == binary_of_state(value),
    {
        match value {
            SwitchState::Off => Some(SwitchStateBinary::Off),
            SwitchState::On => Some(SwitchStateBinary::On),
            _ => None,
        }
    }
}

impl From<SwitchStateBinary> for SwitchState {
    fn from(value: SwitchStateBinary) -> (r: Self) {
        match value {
            SwitchStateBinary::Off => SwitchState::Off,
            SwitchStateBinary::On => SwitchState::On,
        }
    }
}

impl vstd::std_specs::convert::FromSpecImpl<SwitchStateBinary> for SwitchState {
    open spec fn obeys_from_spec() -> bool {
        true
    }

    open spec fn from_spec(v: SwitchStateBinary) -> Self {
        state_of_binary(v)
    }
}

impl From<u8> for SwitchStateBinary {
    fn from(value: u8) -> (r: Self) {
        SwitchStateBinary::from_raw(value as u64)
    }
}

impl vstd::std_specs::convert::FromSpecImpl<u8> for SwitchStateBinary {
    open spec fn obeys_from_spec() -> bool {
        true
    }

    open spec fn from_spec(v: u8) -> Self {
        if v == 0 { SwitchStateBinary::Off } else { SwitchStateBinary::On }
    }
}

impl From<u16> for SwitchStateBinary {
    fn from(value: u16) -> (r: Self) {
        SwitchStateBinary::from_raw(value as u64)
    }
}

impl vstd::std_specs::convert::FromSpecImpl<u16> for SwitchStateBinary {
    open spec fn obeys_from_spec() -> bool {
        true
    }

    open spec fn from_spec(v: u16) -> Self {
        if v == 0 { SwitchStateBinary::Off } else { SwitchStateBinary::On }
    }
}

impl From<u32> for SwitchStateBinary {
    fn from(value: u32) -> (r: Self) {
        SwitchStateBinary::from_raw(value as u64)
    }
}

impl vstd::std_specs::convert::FromSpecImpl<u32> for SwitchStateBinary {
    open spec fn obeys_from_spec() -> bool {
        true
    }

    open spec fn from_spec(v: u32) -> Self {
        if v == 0 { SwitchStateBinary::Off } else { SwitchStateBinary::On }
    }
}

impl From<u64> for SwitchStateBinary {
    fn from(value: u64) -> (r: Self) {
        SwitchStateBinary::from_raw(value)
    }
}

impl vstd::std_specs::convert::FromSpecImpl<u64> for SwitchStateBinary {
    open spec fn obeys_from_spec() -> bool {
        true
    }

    open spec fn from_spec(v: u64) -> Self {
        if v == 0 { SwitchStateBinary::Off } else { SwitchStateBinary::On }
    }
}

/// The switch state of a binary switch state.
pub open spec fn state_of_binary(b: SwitchStateBinary) -> SwitchState {
    match b {
        SwitchStateBinary::Off => SwitchState::Off,
        SwitchStateBinary::On => SwitchState::On,
    }
}

/// The binary switch state of a switch state, where it has one.
pub open spec fn binary_of_state(s: SwitchState) -> Option<SwitchStateBinary> {
    match s {
        SwitchState::Off => Some(SwitchStateBinary::Off),
        SwitchState::On => Some(SwitchStateBinary::On),
        _ => None,
    }
}

/// Converting a binary switch state to a switch state and back gives the same binary state.
pub proof fn law_binary_state_roundtrip(b: SwitchStateBinary)
    ensures
        binary_of_state(state_of_binary(b)) == Some(b),
{
}

pub type SwitchId = u16;

/// Generic trait for a device capable of turning on and off switches.
pub trait PowerSwitcherCommandSender<SwitchType: Into<u16>> {
    type Error;

    fn send_switch_on_cmd(&self, requestor_info: MessageMetadata, switch_id: SwitchType) -> Result<(), Self::Error>;

    fn send_switch_off_cmd(&self, requestor_info: MessageMetadata, switch_id: SwitchType) -> Result<(), Self::Error>;
}

/// Generic trait for a device which knows the states of switches.
pub trait PowerSwitchInfo<SwitchType> {
    type Error;

    /// Retrieve the switch state
    fn switch_state(&self, switch_id: SwitchType) -> Result<SwitchState, Self::Error>;

    /// Whether the switch is on: an error where its state can not be retrieved.
    fn is_switch_on(&self, switch_id: SwitchType) -> (r: Result<bool, Self::Error>) {
        match self.switch_state(switch_id) {
            Ok(state) => Ok(state == SwitchState::On),
            Err(e) => Err(e),
        }
    }

    /// The maximum delay it will take to change a switch.
    ///
    /// This may take into account the time to send a command, wait for it to be executed, and
    /// see the switch changed.
    fn switch_delay_ms(&self) -> Duration;
}

/// A request to set a switch to the target state.
#[derive(Debug, Copy, Clone, PartialEq, Eq, Structural)]
pub struct SwitchRequest {
    switch_id: SwitchId,
    target_state: SwitchStateBinary,
}

impl SwitchRequest {
    pub closed spec fn spec_switch_id(self) -> SwitchId {
        self.switch_id
    }

    pub closed spec fn spec_target_state(self) -> SwitchStateBinary {
        self.target_state
    }

    pub fn new(switch_id: SwitchId, target_state: SwitchStateBinary) -> (r: Self)
        ensures
            r.spec_switch_id() == switch_id,
            r.spec_target_state() == target_state,
    {
        Self { switch_id, target_state }
    }

    pub fn switch_id(&self) -> (r: SwitchId)
        ensures
            r == self.spec_switch_id(),
    {
        self.switch_id
    }

    pub fn target_state(&self) -> (r: SwitchStateBinary)
        ensures
            r == self.spec_target_state(),
    {
        self.target_state
    }
}

} // verus!
