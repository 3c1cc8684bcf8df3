//! # sat-rs: helpers to build on-board software for remote systems
//!
//! The verified core of the framework: result codes, events, byte conversions, COBS framing,
//! the telecommand scheduler, fault counters, housekeeping helpers, mode handling, mode trees,
//! sequence execution, CFDP fault handling and the static memory pool.
use vstd::prelude::*;

pub mod action;
pub mod bytes;
pub mod ccsds;
pub mod cfdp;
pub mod dev_mgmt;
pub mod encoding;
pub mod events;
pub mod executable;
pub mod fdir;
pub mod hal;
pub mod health;
pub mod hk;
pub mod legacy;
pub mod minisim;
pub mod mode;
pub mod mode_tree;
pub mod params;
pub mod pool;
pub mod power;
pub mod queue;
pub mod request;
pub mod res_code;
pub mod time;
pub mod tmtc;

verus! {

/// Generic component ID type.
pub type ComponentId = u32;

/// Generic handling status for an object which is able to continuosly handle a queue to handle
/// request or replies until the queue is empty.
#[derive(Debug, PartialEq, Eq, Copy, Clone, Structural)]
pub enum HandlingStatus {
    HandledOne,
    Empty,
}

/// An object which tells whether a [u16] ID is valid.
pub trait ValidatorU16Id {
    fn validate(&self, id: u16) -> bool;
}

/// Whether the IDs are sorted in ascending order.
pub open spec fn ids_sorted(ids: Seq<u16>) -> bool {
    forall|i: int, j: int| 0 <= i <= j < ids.len() ==> ids[i] <= ids[j]
}

/// Calls `<[u16]>::binary_search` and tells whether the ID was found.
///
/// Claimed of the call, as its documentation states: on a sorted slice the ID is found exactly
/// when the slice holds it; on an unsorted slice the result is unspecified.
#[verifier::external_body]
fn binary_search_finds(ids: &[u16], id: u16) -> (r: bool)
    ensures
        ids_sorted(ids@) ==> r == ids@.contains(id),
{
    ids.binary_search(&id).is_ok()
}

/// Whether the IDs hold the ID.
fn contains_id(ids: &[u16], id: u16) -> (r: bool)
    ensures
        r == ids@.contains(id),
{
    let mut i: usize = 0;
    while i < ids.len()
        invariant
            i <= ids@.len(),
            forall|j: int| 0 <= j < i ==> ids@[j] != id,
        decreases ids@.len() - i,
    {
        if ids[i] == id {
            assert(ids@[i as int] == id);
            return true;
        }
        i += 1;
    }
    false
}

impl ValidatorU16Id for Vec<u16> {
    /// An ID is valid when the vector holds it.
    fn validate(&self, id: u16) -> (r: bool)
        ensures
            r == self@.contains(id),
    {
        contains_id(self.as_slice(), id)
    }
}

impl ValidatorU16Id for u16 {
    /// The only valid ID is the value itself.
    fn validate(&self, id: u16) -> (r: bool)
        ensures
            r == (id == *self),
    {
        id == *self
    }
}

impl ValidatorU16Id for [u16] {
    /// An ID is valid when the slice, which is expected to be sorted, holds it.
    fn validate(&self, id: u16) -> (r: bool)
        ensures
            ids_sorted(self@) ==> r == self@.contains(id),
    {
        binary_search_finds(self, id)
    }
}

} // verus!
