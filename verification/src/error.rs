use vstd::prelude::*;

verus! {

/// Failure kinds of a balancing run. All of them are fatal: the run stops at
/// the first one. Resize infeasibility ("cannot resize further") is not an
/// error and never appears here; it is retried and, if retries exhaust, the
/// container is left in its best-effort state.
#[derive(Clone, Copy, PartialEq, Eq, Structural, Debug)]
pub enum AppError {
    /// Could not open a connection to the window manager.
    Conn,
    /// Could not get the layout tree.
    GetTree,
    /// Could not get the workspaces.
    GetWorkspaces,
    /// A resize or swap command failed for a reason other than infeasibility.
    Resize,
    /// A node disappeared between two queries.
    NodeGone,
    /// The current focus could not be determined.
    NoFocus,
    /// The greedy reorder pass ran out of swap attempts without reaching a
    /// geometrically feasible child order.
    ReorderFailed,
}

impl AppError {
    /// A short description of the failure, for the caller to print.
    pub fn message(&self) -> (r: &'static str)
        ensures
            *self == AppError::Conn ==> r@ == "could not open a connection to the window manager"@,
            *self == AppError::GetTree ==> r@ == "could not get the node layout tree"@,
            *self == AppError::GetWorkspaces ==> r@ == "could not get the workspaces"@,
            *self == AppError::Resize ==> r@ == "error issuing a resize or swap command"@,
            *self == AppError::NodeGone ==> r@ == "node disappeared while running"@,
            *self == AppError::NoFocus ==> r@ == "current focus could not be determined"@,
            *self == AppError::ReorderFailed ==> r@ == "could not reconcile the child order"@,
    {
        match self {
            AppError::Conn => "could not open a connection to the window manager",
            AppError::GetTree => "could not get the node layout tree",
            AppError::GetWorkspaces => "could not get the workspaces",
            AppError::Resize => "error issuing a resize or swap command",
            AppError::NodeGone => "node disappeared while running",
            AppError::NoFocus => "current focus could not be determined",
            AppError::ReorderFailed => "could not reconcile the child order",
        }
    }
}

} // verus!
