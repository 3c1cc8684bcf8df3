//! Health states of components.
use vstd::prelude::*;
use crate::ComponentId;

verus! {

#[derive(Debug, Copy, Clone, PartialEq, Eq, Structural)]
pub enum HealthState {
    Healthy,
    Faulty,
    PermanentFaulty,
    ExternalControl,
    NeedsRecovery,
}

/// A table of the health states of components.
///
/// A table answers from its contents: asked twice about the same component, with no change of
/// the table in between, it gives the same health state.
pub trait HealthTableProvider {
    /// The health state that the table holds for the component, if it holds one.
    spec fn spec_health(&self, id: ComponentId) -> Option<HealthState>;

    fn health(&self, id: ComponentId) -> (r: Option<HealthState>)
        ensures
            r == self.spec_health(id),
    ;

    fn set_health(&mut self, id: ComponentId, health: HealthState);
}

} // verus!
