//! Action requests: commands which trigger an action of a component, with optional data.
use vstd::prelude::*;
use crate::pool::PoolAddr;

verus! {

pub type ActionId = u32;

pub type StoreAddr = PoolAddr;

#[derive(Debug, Eq, PartialEq, Clone)]
pub struct ActionRequest {
    pub action_id: ActionId,
    pub variant: ActionRequestVariant,
}

impl ActionRequest {
    pub fn new(action_id: ActionId, variant: ActionRequestVariant) -> (r: Self)
        ensures
            r.action_id == action_id,
            r.variant == variant,
    {
        Self { action_id, variant }
    }
}

#[non_exhaustive]
#[derive(Clone, Eq, PartialEq, Debug)]
pub enum ActionRequestVariant {
    NoData,
    StoreData(StoreAddr),
    VecData(Vec<u8>),
}

#[derive(Debug, Eq, PartialEq, Clone)]
pub struct ActionRequestStringId {
    pub action_id: String,
    pub variant: ActionRequestVariant,
}

impl ActionRequestStringId {
    pub fn new(action_id: String, variant: ActionRequestVariant) -> (r: Self)
        ensures
            r.action_id == action_id,
            r.variant == variant,
    {
        Self { action_id, variant }
    }
}

} // verus!
