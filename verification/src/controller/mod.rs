//! Controller decisions for VirtualMachineNetworkConfig and LoadBalancer
//! resources: what to do for an object, and when to look at it again.

pub mod events;
pub mod finalizer;
pub mod gc;
pub mod helpers;
pub mod lb;
pub mod reconciler;

use vstd::prelude::*;

verus! {

/// When the controller should look at an object again.
#[derive(Debug, Clone, Copy, PartialEq, Eq, Structural)]
pub enum ControllerAction {
    /// Only when the object changes.
    AwaitChange,
    /// After the given number of seconds.
    RequeueAfter(u64),
}

/// After a failed reconcile, retry in 30 seconds.
pub fn error_policy_action() -> (r: ControllerAction)
    ensures
        r == ControllerAction::RequeueAfter(30),
{
    ControllerAction::RequeueAfter(30)
}

} // verus!
