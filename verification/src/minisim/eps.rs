//! The power distribution unit of the simulator: its switches and their states.
use vstd::prelude::*;
use std::collections::HashMap;
use crate::power::{state_of_binary, SwitchState, SwitchStateBinary};

verus! {

#[derive(Debug, Copy, Clone, PartialEq, Eq, Hash, Structural)]
pub enum PcduSwitch {
    Mgm,
    Mgt,
}

impl PcduSwitch {
    /// The raw value of the switch.
    pub fn raw(&self) -> (r: u16)
        ensures
            r == match *self {
                PcduSwitch::Mgm => 0u16,
                PcduSwitch::Mgt => 1u16,
            },
    {
        match self {
            PcduSwitch::Mgm => 0,
            PcduSwitch::Mgt => 1,
        }
    }
}

pub type SwitchMap = HashMap<PcduSwitch, SwitchState>;

pub type SwitchMapBinary = HashMap<PcduSwitch, SwitchStateBinary>;

/// The states of the switches.
pub struct SwitchMapWrapper(pub SwitchMap);

/// The binary states of the switches.
pub struct SwitchMapBinaryWrapper(pub SwitchMapBinary);

/// Whether maps keyed by switches follow the model of their keys, as vstd requires of the keys
/// of a `HashMap` for its specification to apply.
pub open spec fn switch_maps_follow_key_model() -> bool {
    vstd::std_specs::hash::obeys_key_model::<PcduSwitch>() && vstd::std_specs::hash::builds_valid_hashers::<std::collections::hash_map::RandomState>()
}

impl SwitchMapWrapper {
    /// A map with every switch off.
    pub fn new_with_init_switches_off() -> (r: Self)
        ensures
            switch_maps_follow_key_model() ==> r.0@ == map![PcduSwitch::Mgm => SwitchState::Off, PcduSwitch::Mgt => SwitchState::Off],
    {
        let mut switch_map: SwitchMap = HashMap::new();
        switch_map.insert(PcduSwitch::Mgm, SwitchState::Off);
        switch_map.insert(PcduSwitch::Mgt, SwitchState::Off);
        Self(switch_map)
    }

    /// The switch states of the binary switch states of a map.
    pub fn from_binary_switch_map_ref(switch_map: &SwitchMapBinary) -> (r: Self)
        ensures
            switch_maps_follow_key_model() ==> r.0@.dom() == switch_map@.dom() && forall|k: PcduSwitch| #[trigger] switch_map@.contains_key(k) ==> r.0@[k] == state_of_binary(switch_map@[k]),
    {
        let mut converted: SwitchMap = HashMap::new();
        if let Some(state) = switch_map.get(&PcduSwitch::Mgm) {
            converted.insert(PcduSwitch::Mgm, SwitchState::from(*state));
        }
        if let Some(state) = switch_map.get(&PcduSwitch::Mgt) {
            converted.insert(PcduSwitch::Mgt, SwitchState::from(*state));
        }
        proof {
            if switch_maps_follow_key_model() {
                assert forall|k: PcduSwitch| #[trigger] converted@.contains_key(k) <==> switch_map@.contains_key(k) by {
                    match k {
                        PcduSwitch::Mgm => {},
                        PcduSwitch::Mgt => {},
                    }
                }
                assert(converted@.dom() =~= switch_map@.dom());
            }
        }
        Self(converted)
    }
}

#[derive(Debug, Copy, Clone, PartialEq, Eq, Structural)]
pub enum PcduRequestId {
    SwitchDevice,
    RequestSwitchInfo,
}

#[derive(Debug, Copy, Clone, PartialEq, Eq, Structural)]
pub enum PcduRequest {
    SwitchDevice { switch: PcduSwitch, state: SwitchStateBinary },
    RequestSwitchInfo,
}

#[derive(Debug, Clone, PartialEq, Eq)]
pub enum PcduReply {
    SwitchInfo(SwitchMapBinary),
}

} // verus!
