//! What the plugin asks of the host once, when it is loaded.
use vstd::prelude::*;

verus! {

/// A capability the plugin asks the host to grant.
#[derive(Clone, Copy, Debug, PartialEq, Eq, Structural)]
pub enum Permission {
    ReadApplicationState,
    ChangeApplicationState,
}

/// A category of host events the plugin listens to.
#[derive(Clone, Copy, Debug, PartialEq, Eq, Structural)]
pub enum EventKind {
    PaneUpdate,
}

/// The capabilities requested at load: reading and changing application state.
pub fn required_permissions() -> (r: Vec<Permission>)
    ensures
        r@ == seq![Permission::ReadApplicationState, Permission::ChangeApplicationState],
{
    vec![Permission::ReadApplicationState, Permission::ChangeApplicationState]
}

/// The event categories subscribed to at load: pane updates only.
pub fn subscriptions() -> (r: Vec<EventKind>)
    ensures
        r@ == seq![EventKind::PaneUpdate],
{
    vec![EventKind::PaneUpdate]
}

} // verus!
