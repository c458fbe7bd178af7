use vstd::prelude::*;

use crate::axis::{axis_of, size_along, spec_axis_of, spec_size_along, Axis};
use crate::command::{
    infeasibility_text, is_infeasibility, Action, Change, Command, Event, ResizeCmd, SwapCmd,
};
use crate::error::AppError;
use crate::math::{lemma_div_bound, lemma_mul_bound};
use crate::reorder::{
    first_faulty, infer_gap, largest_from, spec_first_faulty, spec_gap, spec_largest_from,
};
use crate::tree::Node;

verus! {

/// The identifiers of the children of `n`, in visual order.
pub open spec fn child_ids(n: Node) -> Seq<i64> {
    n.children@.map_values(|c: Node| c.id)
}

/// The sum of the extents of the nodes of `s` along `a`.
pub open spec fn spec_sum_sizes(s: Seq<Node>, a: Axis) -> int
    decreases s,
{
    if s.len() == 0 {
        0
    } else {
        spec_sum_sizes(s.drop_last(), a) + spec_size_along(a, s.last().rect)
    }
}

/// Every node of `s` reports a nonnegative extent along `a`.
pub open spec fn all_sizes_nonneg(s: Seq<Node>, a: Axis) -> bool {
    forall|i: int| 0 <= i < s.len() ==> spec_size_along(a, (#[trigger] s[i]).rect) >= 0
}

/// The desired uniform child extent of the container `n` along `a`: the
/// truncated mean of the children's extents; the remainder is absorbed by
/// the last child, matching the window manager's own truncation.
pub open spec fn spec_desired(n: Node, a: Axis) -> int {
    spec_sum_sizes(n.children@, a) / n.children@.len() as int
}

/// Compute the desired uniform child extent of `n` along `a`. `None` when
/// the container has no children, or when some child reports a negative
/// extent — such a container is skipped rather than balanced.
pub fn desired_size(n: &Node, a: Axis) -> (r: Option<i32>)
    ensures
        match r {
            Some(d) => n.children@.len() > 0 && all_sizes_nonneg(n.children@, a) && d as int
                == spec_desired(*n, a) && d >= 0,
            None => n.children@.len() == 0 || !all_sizes_nonneg(n.children@, a),
        },
{
    let k = n.children.len();
    if k == 0 {
        return None;
    }
    let mut sum: u128 = 0;
    let mut i: usize = 0;
    while i < k
        invariant
            k == n.children@.len(),
            0 <= i <= k,
            forall|j: int|
                0 <= j < i ==> spec_size_along(a, (#[trigger] n.children@[j]).rect) >= 0,
            sum as int == spec_sum_sizes(n.children@.take(i as int), a),
            sum as int <= i as int * 0x7FFF_FFFF,
        decreases k - i,
    {
        let sz = size_along(a, &n.children[i].rect);
        if sz < 0 {
            proof {
                assert(spec_size_along(a, n.children@[i as int].rect) < 0);
                assert(!all_sizes_nonneg(n.children@, a));
            }
            return None;
        }
        proof {
            assert(n.children@.take(i as int + 1).drop_last() =~= n.children@.take(i as int));
            assert(n.children@.take(i as int + 1).last() == n.children@[i as int]);
        }
        sum = sum + sz as u128;
        i = i + 1;
    }
    proof {
        assert(n.children@.take(k as int) =~= n.children@);
        assert(all_sizes_nonneg(n.children@, a));
        lemma_div_bound(sum as int, k as int, 0x7FFF_FFFF);
    }
    let d: u128 = sum / (k as u128);
    Some(d as i32)
}

/// The direction of the correction that brings `size` to `desired`.
pub open spec fn spec_change_of(desired: int, size: int) -> Change {
    if size > desired {
        Change::Shrink
    } else {
        Change::Grow
    }
}

/// The magnitude of the correction that brings `size` to `desired`.
pub open spec fn spec_px_of(desired: int, size: int) -> int {
    if size > desired {
        size - desired
    } else {
        desired - size
    }
}

/// The extent a child has after a correction is applied exactly.
pub open spec fn apply_change(size: int, c: Change, px: int) -> int {
    match c {
        Change::Grow => size + px,
        Change::Shrink => size - px,
    }
}

/// A child whose resize command is executed exactly ends at the desired
/// extent: the issued corrections, when they all take effect, leave every
/// child except the last at the truncated mean.
pub proof fn lemma_correction_reaches(desired: int, size: int)
    ensures
        apply_change(size, spec_change_of(desired, size), spec_px_of(desired, size)) == desired,
{
}

/// The sum of uniformly sized children is the size times the count.
proof fn lemma_sum_uniform(s: Seq<Node>, a: Axis, v: int)
    requires
        forall|i: int| 0 <= i < s.len() ==> spec_size_along(a, (#[trigger] s[i]).rect) == v,
    ensures
        spec_sum_sizes(s, a) == s.len() * v,
    decreases s,
{
    if s.len() == 0 {
    } else {
        lemma_sum_uniform(s.drop_last(), a, v);
        assert(spec_size_along(a, s.last().rect) == v);
        assert((s.len() - 1) * v + v == s.len() * v) by (nonlinear_arith);
    }
}

/// Balancing a container whose children already share one extent is
/// effect-free: the desired extent is that shared extent, and every resize
/// command the engine issues for the container carries a zero magnitude. A
/// second run over an already balanced tree therefore issues no effective
/// resize.
pub proof fn lemma_balanced_container_zero_corrections(n: Node, a: Axis, v: int)
    requires
        n.children@.len() > 0,
        forall|i: int|
            0 <= i < n.children@.len() ==> spec_size_along(a, (#[trigger] n.children@[i]).rect)
                == v,
    ensures
        spec_desired(n, a) == v,
        forall|i: int|
            0 <= i < n.children@.len() ==> spec_px_of(
                spec_desired(n, a),
                spec_size_along(a, (#[trigger] n.children@[i]).rect),
            ) == 0,
{
    let k = n.children@.len() as int;
    lemma_sum_uniform(n.children@, a, v);
    assert(k * v == spec_sum_sizes(n.children@, a));
    vstd::arithmetic::div_mod::lemma_div_multiples_vanish(v, k);
}

/// Split the desired correction into a direction and a magnitude.
pub fn resize_delta(desired: i32, size: i32) -> (r: (Change, u32))
    ensures
        r.0 == spec_change_of(desired as int, size as int),
        r.1 as int == spec_px_of(desired as int, size as int),
{
    let diff: i64 = desired as i64 - size as i64;
    if diff < 0 {
        (Change::Shrink, (-diff) as u32)
    } else {
        (Change::Grow, diff as u32)
    }
}

/// How many resize passes a container with `k` children is granted: the
/// triangular number of `k`, so that space freed by one child's adjustment
/// can cascade to every other, capped by a generous constant for absurdly
/// wide containers.
pub open spec fn spec_pass_budget(k: nat) -> nat {
    if k <= 0xFFFF {
        (k * (k + 1)) / 2
    } else {
        0x8000_0000
    }
}

/// Compute the pass budget of a container with `k` children.
pub fn pass_budget(k: usize) -> (r: u64)
    ensures
        r as nat == spec_pass_budget(k as nat),
{
    if k <= 0xFFFF {
        let kk = k as u64;
        proof {
            lemma_mul_bound(kk as int, kk as int + 1, 0xFFFF, 0x10000);
        }
        (kk * (kk + 1)) / 2
    } else {
        0x8000_0000
    }
}

/// One container's resize work: the children to bring to the desired
/// extent (all but the last, which absorbs the remainder), how far the
/// current pass has come, and how many passes are left.
pub struct Job {
    /// Identifier of the container being resized.
    pub container: i64,
    /// The container's split axis.
    pub axis: Axis,
    /// The desired uniform child extent.
    pub desired: i32,
    /// Identifiers of the children to resize, in visual order: every child
    /// except the last.
    pub targets: Vec<i64>,
    /// Index into `targets` of the child currently being worked.
    pub next: usize,
    /// Full passes that may still be started after the current one fails to
    /// come out clean.
    pub passes_left: u64,
    /// No infeasible resize outcome has been reported in the current pass.
    pub clean: bool,
}

/// Where the balancer stands between two of its caller's round-trips: what
/// it has asked for and what it will do with the reply.
pub enum Phase {
    /// Nothing asked yet; the run starts with the next event.
    Begin,
    /// A fresh snapshot of the container `id` was asked for, to be examined
    /// for the first time.
    AwaitContainer { id: i64 },
    /// A fresh snapshot of the container `id` was asked for after a swap,
    /// with `attempts` swap attempts left.
    AwaitReorder { id: i64, attempts: u64 },
    /// The outcome of a swap command for the container `id` is pending.
    AwaitSwapAck { id: i64, attempts: u64 },
    /// A fresh snapshot of the child `job.targets[job.next]` was asked for.
    AwaitChild { job: Job },
    /// The outcome of a resize command of the current pass is pending.
    AwaitResizeAck { job: Job },
    /// The whole work queue has been drained.
    Finished,
    /// A fatal failure was reported; the run is over.
    Failed { err: AppError },
}

/// The balancing engine, driven from outside: feed it every reply as an
/// [`Event`] and perform the [`Action`] it returns, until it returns
/// [`Action::Done`] or [`Action::Fail`]. It never performs I/O itself; it
/// only decides.
pub struct Balancer {
    /// Identifiers of the containers still to visit, in breadth-first
    /// order.
    pub queue: Vec<i64>,
    /// What the engine waits for.
    pub phase: Phase,
    /// Some container exhausted its resize pass budget and was left in its
    /// best-effort state. Surfaced to the caller as a partial-success
    /// condition; never an error.
    pub best_effort: bool,
}

/// The work queue after a container snapshot was taken in: on the first
/// visit its children are appended for later processing.
pub open spec fn enq_queue(pre: Seq<i64>, n: Node, fresh: bool) -> Seq<i64> {
    if fresh {
        pre + child_ids(n)
    } else {
        pre
    }
}

/// The balancer moved on to the next queued container: it asked for the
/// queue's head, or reported completion on an empty queue.
pub open spec fn advanced_from(pre: Seq<i64>, best: bool, post: Balancer, act: Action) -> bool {
    &&& post.best_effort == best
    &&& if pre.len() == 0 {
        act == Action::Done && post.phase == Phase::Finished && post.queue@ == pre
    } else {
        act == Action::Fetch(pre[0]) && post.phase == (Phase::AwaitContainer { id: pre[0] })
            && post.queue@ == pre.drop_first()
    }
}

/// The balancer failed with `err`, leaving the queue as it stood.
pub open spec fn failed_with(pre: Balancer, post: Balancer, act: Action, err: AppError) -> bool {
    act == Action::Fail(err) && post.phase == (Phase::Failed { err }) && post.queue@ == pre.queue@
        && post.best_effort == pre.best_effort
}

/// A freshly set up resize job for the container `n` along `a`.
pub open spec fn fresh_job(job: Job, n: Node, a: Axis) -> bool {
    &&& job.container == n.id
    &&& job.axis == a
    &&& job.desired as int == spec_desired(n, a)
    &&& job.targets@ == child_ids(n).drop_last()
    &&& job.next == 0
    &&& job.passes_left as nat == spec_pass_budget(n.children@.len())
    &&& job.clean == true
}

/// `j2` is `j` with only the cursor, the pass count and the cleanliness
/// flag changed.
pub open spec fn same_job_but(j2: Job, j: Job, next: int, passes_left: int, clean: bool) -> bool {
    &&& j2.container == j.container
    &&& j2.axis == j.axis
    &&& j2.desired == j.desired
    &&& j2.targets == j.targets
    &&& j2.next as int == next
    &&& j2.passes_left as int == passes_left
    &&& j2.clean == clean
}

/// What taking in a container snapshot `n` does. `fresh` marks the first
/// visit (children get enqueued, the swap budget is set up); a re-fetch
/// after a swap keeps the remaining `attempts0`.
///
/// A container with no children, with an unsupported orientation or with a
/// negative child extent is skipped — no command is ever issued for it.
/// Otherwise the first geometrically faulty child, if any, is swapped with
/// the largest remaining sibling; when no corrective swap exists or the
/// budget is spent, the run fails with the dedicated reorder error. With a
/// feasible order, the resize pass over all children but the last begins.
pub open spec fn processed_container(
    pre: Balancer,
    n: Node,
    fresh: bool,
    attempts0: u64,
    post: Balancer,
    act: Action,
) -> bool {
    let q = enq_queue(pre.queue@, n, fresh);
    let k = n.children@.len();
    let att = if fresh {
        spec_pass_budget(k)
    } else {
        attempts0 as nat
    };
    match spec_axis_of(n.layout) {
        None => advanced_from(q, pre.best_effort, post, act),
        Some(a) => {
            if k == 0 || !all_sizes_nonneg(n.children@, a) {
                advanced_from(q, pre.best_effort, post, act)
            } else {
                let desired = spec_desired(n, a);
                let gap = spec_gap(n, a);
                match spec_first_faulty(n, a, desired, gap) {
                    Some(i) => {
                        let j = spec_largest_from(n, a, i);
                        if att == 0 || j == i {
                            act == Action::Fail(AppError::ReorderFailed) && post.phase == (
                            Phase::Failed { err: AppError::ReorderFailed }) && post.queue@ == q
                                && post.best_effort == pre.best_effort
                        } else {
                            &&& act == Action::Run(
                                Command::Swap(
                                    SwapCmd { con_id: child_ids(n)[i], other: child_ids(n)[j] },
                                ),
                            )
                            &&& match post.phase {
                                Phase::AwaitSwapAck { id, attempts } => id == n.id && attempts
                                    as nat == att - 1,
                                _ => false,
                            }
                            &&& post.queue@ == q
                            &&& post.best_effort == pre.best_effort
                        }
                    },
                    None => {
                        if k == 1 {
                            advanced_from(q, pre.best_effort, post, act)
                        } else {
                            &&& act == Action::Fetch(child_ids(n)[0])
                            &&& match post.phase {
                                Phase::AwaitChild { job } => fresh_job(job, n, a),
                                _ => false,
                            }
                            &&& post.queue@ == q
                            &&& post.best_effort == pre.best_effort
                        }
                    },
                }
            }
        },
    }
}

/// What acknowledging one resize outcome does: move to the next child of
/// the pass, or close the pass — starting it over when it was not clean and
/// passes are left, and moving to the next container otherwise (a pass that
/// stays unclean to the end of its budget leaves the container in its
/// best-effort state; that is not an error).
pub open spec fn resize_acked(
    pre: Balancer,
    job: Job,
    clean: bool,
    post: Balancer,
    act: Action,
) -> bool {
    let len = job.targets@.len();
    if len > 0 && job.next < len - 1 {
        &&& act == Action::Fetch(job.targets@[job.next + 1])
        &&& post.queue@ == pre.queue@
        &&& post.best_effort == pre.best_effort
        &&& match post.phase {
            Phase::AwaitChild { job: j2 } => same_job_but(
                j2,
                job,
                job.next + 1,
                job.passes_left as int,
                clean,
            ),
            _ => false,
        }
    } else if clean || job.passes_left <= 1 || len == 0 {
        advanced_from(pre.queue@, pre.best_effort || !clean, post, act)
    } else {
        &&& act == Action::Fetch(job.targets@[0])
        &&& post.queue@ == pre.queue@
        &&& post.best_effort == pre.best_effort
        &&& match post.phase {
            Phase::AwaitChild { job: j2 } => same_job_but(
                j2,
                job,
                0,
                job.passes_left - 1,
                true,
            ),
            _ => false,
        }
    }
}

/// The whole step relation of the balancer: given the phase the engine was
/// in and the event its caller reports, exactly what it does and what it
/// asks for next.
pub open spec fn stepped(pre: Balancer, ev: Event, post: Balancer, act: Action) -> bool {
    match pre.phase {
        Phase::Begin => advanced_from(pre.queue@, pre.best_effort, post, act),
        Phase::Finished => act == Action::Done && post == pre,
        Phase::Failed { err } => act == Action::Fail(err) && post == pre,
        Phase::AwaitContainer { id: _ } => match ev {
            Event::Fetched(n) => processed_container(pre, n, true, 0, post, act),
            Event::NotFound => failed_with(pre, post, act, AppError::NodeGone),
            _ => failed_with(pre, post, act, AppError::GetTree),
        },
        Phase::AwaitReorder { id: _, attempts } => match ev {
            Event::Fetched(n) => processed_container(pre, n, false, attempts, post, act),
            Event::NotFound => failed_with(pre, post, act, AppError::NodeGone),
            _ => failed_with(pre, post, act, AppError::GetTree),
        },
        Phase::AwaitSwapAck { id, attempts } => match ev {
            Event::Succeeded => act == Action::Fetch(id) && post.phase == (Phase::AwaitReorder {
                id,
                attempts,
            }) && post.queue@ == pre.queue@ && post.best_effort == pre.best_effort,
            _ => failed_with(pre, post, act, AppError::Resize),
        },
        Phase::AwaitChild { job } => match ev {
            Event::Fetched(c) => {
                let sz = spec_size_along(job.axis, c.rect);
                &&& match act {
                    Action::Run(Command::Resize(r)) => r.con_id == c.id && r.axis == job.axis
                        && r.change == spec_change_of(job.desired as int, sz) && r.px as int
                        == spec_px_of(job.desired as int, sz),
                    _ => false,
                }
                &&& post.phase == (Phase::AwaitResizeAck { job })
                &&& post.queue@ == pre.queue@
                &&& post.best_effort == pre.best_effort
            },
            Event::NotFound => failed_with(pre, post, act, AppError::NodeGone),
            _ => failed_with(pre, post, act, AppError::GetTree),
        },
        Phase::AwaitResizeAck { job } => match ev {
            Event::Succeeded => resize_acked(pre, job, job.clean, post, act),
            Event::Rejected { parse_failure, message } => {
                if parse_failure && message@ == infeasibility_text() {
                    resize_acked(pre, job, false, post, act)
                } else {
                    failed_with(pre, post, act, AppError::Resize)
                }
            },
            _ => failed_with(pre, post, act, AppError::Resize),
        },
    }
}

/// A container with an unsupported orientation is skipped entirely: taking
/// its snapshot in issues no command and no failure — the engine just asks
/// for the next queued node (or finishes) — while on a first visit the
/// container's children are still enqueued, so grandchildren are visited.
pub proof fn lemma_unsupported_container_issues_nothing(
    pre: Balancer,
    n: Node,
    post: Balancer,
    act: Action,
)
    requires
        stepped(pre, Event::Fetched(n), post, act),
        pre.phase matches Phase::AwaitContainer { .. } || pre.phase matches Phase::AwaitReorder {
            ..
        },
        spec_axis_of(n.layout) is None,
    ensures
        !(act matches Action::Run(_)),
        !(act matches Action::Fail(_)),
        pre.phase matches Phase::AwaitContainer { .. } ==> advanced_from(
            pre.queue@ + child_ids(n),
            pre.best_effort,
            post,
            act,
        ),
{
}

/// The resize command issued for a fetched child, if executed exactly,
/// brings that child to the desired uniform extent of its job.
pub proof fn lemma_resize_command_reaches_desired(
    pre: Balancer,
    job: Job,
    c: Node,
    post: Balancer,
    act: Action,
)
    requires
        pre.phase == (Phase::AwaitChild { job }),
        stepped(pre, Event::Fetched(c), post, act),
    ensures
        match act {
            Action::Run(Command::Resize(r)) => apply_change(
                spec_size_along(job.axis, c.rect),
                r.change,
                r.px as int,
            ) == job.desired as int,
            _ => false,
        },
{
    lemma_correction_reaches(job.desired as int, spec_size_along(job.axis, c.rect));
}

/// A command rejection other than the known infeasibility message is
/// fatal: the engine fails at once, and from the failed state it never
/// issues another command or query, whatever is fed to it.
pub proof fn lemma_fatal_rejection_stops_the_run(
    pre: Balancer,
    parse_failure: bool,
    message: String,
    post: Balancer,
    act: Action,
)
    requires
        pre.phase matches Phase::AwaitResizeAck { .. },
        stepped(pre, Event::Rejected { parse_failure, message }, post, act),
        !(parse_failure && message@ == infeasibility_text()),
    ensures
        act == Action::Fail(AppError::Resize),
        post.phase == (Phase::Failed { err: AppError::Resize }),
        forall|ev2: Event, post2: Balancer, act2: Action|
            #[trigger] stepped(post, ev2, post2, act2) ==> act2 == Action::Fail(AppError::Resize)
                && post2 == post,
{
}

impl Balancer {
    /// A balancer for the subtree rooted at the container `root`.
    pub fn new(root: i64) -> (b: Balancer)
        ensures
            b.queue@ == seq![root],
            b.phase == Phase::Begin,
            b.best_effort == false,
    {
        let mut queue: Vec<i64> = Vec::new();
        queue.push(root);
        Balancer { queue, phase: Phase::Begin, best_effort: false }
    }

    /// Move on to the next queued container, or report completion.
    fn advance(&mut self) -> (act: Action)
        ensures
            advanced_from(old(self).queue@, old(self).best_effort, *final(self), act),
    {
        if self.queue.len() == 0 {
            self.phase = Phase::Finished;
            Action::Done
        } else {
            let id = self.queue.remove(0);
            self.phase = Phase::AwaitContainer { id };
            Action::Fetch(id)
        }
    }

    /// Enter the failed state with `err`.
    fn fail(&mut self, err: AppError) -> (act: Action)
        ensures
            failed_with(*old(self), *final(self), act, err),
    {
        self.phase = Phase::Failed { err };
        Action::Fail(err)
    }

    /// Append the identifiers of the children of `n` to the work queue.
    fn enqueue_children(&mut self, n: &Node)
        ensures
            final(self).queue@ == old(self).queue@ + child_ids(*n),
            final(self).phase == old(self).phase,
            final(self).best_effort == old(self).best_effort,
    {
        let k = n.children.len();
        let mut i: usize = 0;
        proof {
            assert(self.queue@ + child_ids(*n).take(0) =~= self.queue@);
        }
        while i < k
            invariant
                k == n.children@.len(),
                0 <= i <= k,
                self.queue@ == old(self).queue@ + child_ids(*n).take(i as int),
                self.phase == old(self).phase,
                self.best_effort == old(self).best_effort,
            decreases k - i,
        {
            self.queue.push(n.children[i].id);
            proof {
                assert(child_ids(*n).take(i as int + 1) =~= child_ids(*n).take(i as int).push(
                    n.children@[i as int].id,
                ));
                assert(old(self).queue@ + child_ids(*n).take(i as int + 1) =~= (old(self).queue@
                    + child_ids(*n).take(i as int)).push(n.children@[i as int].id));
            }
            i = i + 1;
        }
        proof {
            assert(child_ids(*n).take(k as int) =~= child_ids(*n));
        }
    }

    /// Take in a container snapshot: enqueue its children on the first
    /// visit, skip it when it cannot be balanced, issue a corrective swap
    /// when its order is geometrically infeasible, and otherwise start the
    /// resize pass.
    fn process_container(&mut self, n: Node, fresh: bool, attempts0: u64) -> (act: Action)
        ensures
            processed_container(*old(self), n, fresh, attempts0, *final(self), act),
    {
        if fresh {
            self.enqueue_children(&n);
        }
        let ghost q = self.queue@;
        let k = n.children.len();
        if k == 0 {
            return self.advance();
        }
        let axis = match axis_of(n.layout) {
            Some(a) => a,
            None => {
                return self.advance();
            },
        };
        let desired = match desired_size(&n, axis) {
            Some(d) => d,
            None => {
                return self.advance();
            },
        };
        let att: u64 = if fresh {
            pass_budget(k)
        } else {
            attempts0
        };
        let gap = infer_gap(&n, axis);
        match first_faulty(&n, axis, desired, gap) {
            Some(i) => {
                let j = largest_from(&n, axis, i);
                if att == 0 || j == i {
                    self.fail(AppError::ReorderFailed)
                } else {
                    let cmd = Command::Swap(
                        SwapCmd { con_id: n.children[i].id, other: n.children[j].id },
                    );
                    self.phase = Phase::AwaitSwapAck { id: n.id, attempts: att - 1 };
                    Action::Run(cmd)
                }
            },
            None => {
                if k == 1 {
                    return self.advance();
                }
                let mut targets: Vec<i64> = Vec::new();
                let mut i: usize = 0;
                while i < k - 1
                    invariant
                        k == n.children@.len(),
                        1 <= k,
                        0 <= i <= k - 1,
                        targets@ == child_ids(n).take(i as int),
                    decreases k - 1 - i,
                {
                    targets.push(n.children[i].id);
                    proof {
                        assert(child_ids(n).take(i as int + 1) =~= child_ids(n).take(
                            i as int,
                        ).push(n.children@[i as int].id));
                    }
                    i = i + 1;
                }
                proof {
                    assert(child_ids(n).take(k as int - 1) =~= child_ids(n).drop_last());
                }
                let budget = pass_budget(k);
                let first = targets[0];
                self.phase = Phase::AwaitChild {
                    job: Job {
                        container: n.id,
                        axis,
                        desired,
                        targets,
                        next: 0,
                        passes_left: budget,
                        clean: true,
                    },
                };
                Action::Fetch(first)
            },
        }
    }

    /// Acknowledge one resize outcome of the current pass.
    fn job_advance(&mut self, job: Job, clean: bool) -> (act: Action)
        ensures
            resize_acked(*old(self), job, clean, *final(self), act),
    {
        let len = job.targets.len();
        if len > 0 && job.next < len - 1 {
            let nx = job.next + 1;
            let target = job.targets[nx];
            self.phase = Phase::AwaitChild {
                job: Job {
                    container: job.container,
                    axis: job.axis,
                    desired: job.desired,
                    targets: job.targets,
                    next: nx,
                    passes_left: job.passes_left,
                    clean,
                },
            };
            Action::Fetch(target)
        } else if clean || job.passes_left <= 1 || len == 0 {
            if !clean {
                self.best_effort = true;
            }
            self.advance()
        } else {
            let target = job.targets[0];
            let passes = job.passes_left - 1;
            self.phase = Phase::AwaitChild {
                job: Job {
                    container: job.container,
                    axis: job.axis,
                    desired: job.desired,
                    targets: job.targets,
                    next: 0,
                    passes_left: passes,
                    clean: true,
                },
            };
            Action::Fetch(target)
        }
    }

    /// Drive the engine one step: report the reply to the last action and
    /// receive the next action. Replies of the wrong shape are transport
    /// faults and fatal; once finished or failed, the engine only repeats
    /// its verdict.
    pub fn step(&mut self, ev: Event) -> (act: Action)
        ensures
            stepped(*old(self), ev, *final(self), act),
    {
        let mut ph = Phase::Begin;
        core::mem::swap(&mut ph, &mut self.phase);
        match ph {
            Phase::Begin => self.advance(),
            Phase::Finished => {
                self.phase = Phase::Finished;
                Action::Done
            },
            Phase::Failed { err } => {
                self.phase = Phase::Failed { err };
                Action::Fail(err)
            },
            Phase::AwaitContainer { id: _ } => match ev {
                Event::Fetched(n) => self.process_container(n, true, 0),
                Event::NotFound => self.fail(AppError::NodeGone),
                _ => self.fail(AppError::GetTree),
            },
            Phase::AwaitReorder { id: _, attempts } => match ev {
                Event::Fetched(n) => self.process_container(n, false, attempts),
                Event::NotFound => self.fail(AppError::NodeGone),
                _ => self.fail(AppError::GetTree),
            },
            Phase::AwaitSwapAck { id, attempts } => match ev {
                Event::Succeeded => {
                    self.phase = Phase::AwaitReorder { id, attempts };
                    Action::Fetch(id)
                },
                _ => self.fail(AppError::Resize),
            },
            Phase::AwaitChild { job } => match ev {
                Event::Fetched(c) => {
                    let sz = size_along(job.axis, &c.rect);
                    let delta = resize_delta(job.desired, sz);
                    let cmd = Command::Resize(
                        ResizeCmd { con_id: c.id, change: delta.0, axis: job.axis, px: delta.1 },
                    );
                    self.phase = Phase::AwaitResizeAck { job };
                    Action::Run(cmd)
                },
                Event::NotFound => self.fail(AppError::NodeGone),
                _ => self.fail(AppError::GetTree),
            },
            Phase::AwaitResizeAck { job } => match ev {
                Event::Succeeded => {
                    let clean = job.clean;
                    self.job_advance(job, clean)
                },
                Event::Rejected { parse_failure, message } => {
                    if is_infeasibility(parse_failure, &message) {
                        self.job_advance(job, false)
                    } else {
                        self.fail(AppError::Resize)
                    }
                },
                _ => self.fail(AppError::Resize),
            },
        }
    }
}

} // verus!
