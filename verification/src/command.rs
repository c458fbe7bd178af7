use vstd::prelude::*;

use crate::axis::Axis;
use crate::error::AppError;
use crate::tree::Node;

verus! {

/// Whether a child must gain or lose space to reach the desired extent.
#[derive(Clone, Copy, PartialEq, Eq, Structural, Debug)]
pub enum Change {
    Grow,
    Shrink,
}

/// One resize command: bring the container `con_id` to grow or shrink by
/// `px` pixels along `axis`.
#[derive(Clone, Copy, PartialEq, Eq, Structural, Debug)]
pub struct ResizeCmd {
    pub con_id: i64,
    pub change: Change,
    pub axis: Axis,
    pub px: u32,
}

/// One swap command: exchange the positions of the containers `con_id` and
/// `other`.
#[derive(Clone, Copy, PartialEq, Eq, Structural, Debug)]
pub struct SwapCmd {
    pub con_id: i64,
    pub other: i64,
}

/// A command addressed to the window manager. The caller serializes it into
/// the transport's textual syntax and reports the outcome back.
#[derive(Clone, Copy, PartialEq, Eq, Structural, Debug)]
pub enum Command {
    Resize(ResizeCmd),
    Swap(SwapCmd),
}

/// What the balancer asks its caller to do next. `Fetch` asks for a fresh
/// snapshot of the node with the given identifier; `Run` asks to execute one
/// command; `Done` and `Fail` end the run.
#[derive(Clone, Copy, PartialEq, Eq, Structural, Debug)]
pub enum Action {
    Fetch(i64),
    Run(Command),
    Done,
    Fail(AppError),
}

/// What the caller reports back to the balancer: the reply to the action it
/// was last asked to perform. `Start` opens the run; `Fetched` and
/// `NotFound` answer a `Fetch`; the remaining three answer a `Run`, where
/// `Rejected` carries the command executor's own per-command failure and
/// `TransportFailed` is a transport-level fault.
pub enum Event {
    Start,
    Fetched(Node),
    NotFound,
    Succeeded,
    Rejected { parse_failure: bool, message: String },
    TransportFailed,
}

/// The label of a change direction, as the window manager's resize command
/// expects it.
pub fn change_label(c: Change) -> (r: &'static str)
    ensures
        c == Change::Grow ==> r@ == "grow"@,
        c == Change::Shrink ==> r@ == "shrink"@,
{
    match c {
        Change::Grow => "grow",
        Change::Shrink => "shrink",
    }
}

/// The message with which the window manager rejects a resize that has no
/// room left to grow or shrink into.
pub open spec fn infeasibility_text() -> Seq<char> {
    "Cannot resize any further"@
}

/// Decide whether a rejected command reports resize infeasibility, the one
/// recoverable failure: a parse/semantic rejection carrying exactly the
/// known message. Everything else is fatal.
pub fn is_infeasibility(parse_failure: bool, message: &String) -> (r: bool)
    ensures
        r == (parse_failure && message@ == infeasibility_text()),
{
    if !parse_failure {
        return false;
    }
    let known: String = "Cannot resize any further".to_owned();
    *message == known
}

} // verus!
