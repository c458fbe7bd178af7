use sway_balance::axis::Axis;
use sway_balance::balance::{desired_size, pass_budget, resize_delta, Balancer};
use sway_balance::command::{is_infeasibility, Action, Change, Command, Event};
use sway_balance::error::AppError;
use sway_balance::tree::{Layout, Node, Rect};

fn rect(x: i32, w: i32) -> Rect {
    Rect { x, y: 0, width: w, height: 0 }
}

fn leaf(id: i64, x: i32, w: i32) -> Node {
    Node { id, layout: Layout::Other, rect: rect(x, w), focused: false, children: vec![] }
}

fn split_h(id: i64, x: i32, w: i32, children: Vec<Node>) -> Node {
    Node { id, layout: Layout::SplitH, rect: rect(x, w), focused: false, children }
}

fn tabbed(id: i64, x: i32, w: i32, children: Vec<Node>) -> Node {
    Node { id, layout: Layout::Other, rect: rect(x, w), focused: false, children }
}

#[test]
fn desired_size_is_truncated_mean() {
    let parent = split_h(1, 0, 300, vec![leaf(2, 0, 100), leaf(3, 100, 140), leaf(4, 240, 60)]);
    assert_eq!(desired_size(&parent, Axis::Horizontal), Some(100));
    let uneven = split_h(1, 0, 301, vec![leaf(2, 0, 100), leaf(3, 100, 141), leaf(4, 241, 60)]);
    assert_eq!(desired_size(&uneven, Axis::Horizontal), Some(100));
}

#[test]
fn resize_delta_reaches_desired() {
    assert_eq!(resize_delta(100, 140), (Change::Shrink, 40));
    assert_eq!(resize_delta(100, 60), (Change::Grow, 40));
    assert_eq!(resize_delta(100, 100), (Change::Grow, 0));
}

#[test]
fn pass_budget_is_triangular() {
    assert_eq!(pass_budget(1), 1);
    assert_eq!(pass_budget(3), 6);
    assert_eq!(pass_budget(10), 55);
}

#[test]
fn three_children_balance_one_shrink() {
    // Widths {100, 140, 60} over a total of 300: the engine issues a
    // zero-pixel grow for the first child and one 40 pixel shrink for the
    // second; the last child absorbs the remainder and gets no command.
    let root = || {
        split_h(1, 0, 300, vec![leaf(2, 0, 100), leaf(3, 100, 140), leaf(4, 240, 60)])
    };
    let mut b = Balancer::new(1);
    assert_eq!(b.step(Event::Start), Action::Fetch(1));
    assert_eq!(b.step(Event::Fetched(root())), Action::Fetch(2));
    let act = b.step(Event::Fetched(leaf(2, 0, 100)));
    match act {
        Action::Run(Command::Resize(r)) => {
            assert_eq!(r.con_id, 2);
            assert_eq!(r.change, Change::Grow);
            assert_eq!(r.px, 0);
            assert_eq!(r.axis, Axis::Horizontal);
        },
        other => panic!("expected a resize command, got {:?}", other),
    }
    assert_eq!(b.step(Event::Succeeded), Action::Fetch(3));
    let act = b.step(Event::Fetched(leaf(3, 100, 140)));
    match act {
        Action::Run(Command::Resize(r)) => {
            assert_eq!(r.con_id, 3);
            assert_eq!(r.change, Change::Shrink);
            assert_eq!(r.px, 40);
        },
        other => panic!("expected a resize command, got {:?}", other),
    }
    // The pass was clean: the engine moves on to the queued children, all
    // leaves, and finishes without another command.
    assert_eq!(b.step(Event::Succeeded), Action::Fetch(2));
    assert_eq!(b.step(Event::Fetched(leaf(2, 0, 100))), Action::Fetch(3));
    assert_eq!(b.step(Event::Fetched(leaf(3, 100, 100))), Action::Fetch(4));
    assert_eq!(b.step(Event::Fetched(leaf(4, 200, 100))), Action::Done);
}

fn run_over_balanced_tree() -> Vec<(Change, u32)> {
    let root = || {
        split_h(1, 0, 300, vec![leaf(2, 0, 100), leaf(3, 100, 100), leaf(4, 200, 100)])
    };
    let mut b = Balancer::new(1);
    let mut act = b.step(Event::Start);
    let mut commands: Vec<(Change, u32)> = Vec::new();
    let mut steps = 0;
    loop {
        steps += 1;
        assert!(steps < 100, "the run must terminate");
        act = match act {
            Action::Done => break,
            Action::Fail(err) => panic!("unexpected failure {:?}", err),
            Action::Fetch(id) => {
                let snapshot = match id {
                    1 => root(),
                    2 => leaf(2, 0, 100),
                    3 => leaf(3, 100, 100),
                    4 => leaf(4, 200, 100),
                    _ => panic!("unknown node {}", id),
                };
                b.step(Event::Fetched(snapshot))
            },
            Action::Run(Command::Resize(r)) => {
                commands.push((r.change, r.px));
                b.step(Event::Succeeded)
            },
            Action::Run(Command::Swap(s)) => panic!("unexpected swap {:?}", s),
        };
    }
    commands
}

#[test]
fn balanced_tree_issues_only_zero_resizes_twice() {
    // Running over an already balanced tree has no effect, so a second run
    // in succession sees the same tree: both runs issue only zero-magnitude
    // resizes.
    for _ in 0..2 {
        let commands = run_over_balanced_tree();
        assert_eq!(commands.len(), 2);
        for (_, px) in commands {
            assert_eq!(px, 0);
        }
    }
}

#[test]
fn unsupported_orientation_is_skipped_but_descended() {
    // A tabbed container gets no command of its own, but its split
    // grandchildren are still balanced.
    let inner = || split_h(2, 0, 200, vec![leaf(4, 0, 120), leaf(5, 120, 80)]);
    let root = || tabbed(1, 0, 200, vec![inner(), leaf(3, 0, 200)]);
    let mut b = Balancer::new(1);
    assert_eq!(b.step(Event::Start), Action::Fetch(1));
    // The tabbed root is skipped: the next action goes straight to the
    // first child, with no command in between.
    assert_eq!(b.step(Event::Fetched(root())), Action::Fetch(2));
    // The split child starts its own resize pass.
    assert_eq!(b.step(Event::Fetched(inner())), Action::Fetch(4));
    let act = b.step(Event::Fetched(leaf(4, 0, 120)));
    match act {
        Action::Run(Command::Resize(r)) => {
            assert_eq!(r.con_id, 4);
            assert_eq!(r.change, Change::Shrink);
            assert_eq!(r.px, 20);
        },
        other => panic!("expected a resize command, got {:?}", other),
    }
}

#[test]
fn fatal_rejection_aborts_the_run() {
    // A rejection that is not the known infeasibility message is fatal: the
    // run fails at once and issues nothing further.
    let root = || split_h(1, 0, 300, vec![leaf(2, 0, 200), leaf(3, 200, 100)]);
    let mut b = Balancer::new(1);
    assert_eq!(b.step(Event::Start), Action::Fetch(1));
    assert_eq!(b.step(Event::Fetched(root())), Action::Fetch(2));
    match b.step(Event::Fetched(leaf(2, 0, 200))) {
        Action::Run(Command::Resize(_)) => {},
        other => panic!("expected a resize command, got {:?}", other),
    }
    let act = b.step(Event::Rejected {
        parse_failure: true,
        message: String::from("No matching node"),
    });
    assert_eq!(act, Action::Fail(AppError::Resize));
    // Once failed, the engine only repeats its verdict.
    assert_eq!(b.step(Event::Succeeded), Action::Fail(AppError::Resize));
    assert_eq!(b.step(Event::Start), Action::Fail(AppError::Resize));
}

#[test]
fn infeasible_rejection_is_retried() {
    // The known infeasibility message is not fatal: the pass goes on, and
    // because it was not clean, a second pass starts over.
    let root = || split_h(1, 0, 300, vec![leaf(2, 0, 200), leaf(3, 200, 100)]);
    let mut b = Balancer::new(1);
    assert_eq!(b.step(Event::Start), Action::Fetch(1));
    assert_eq!(b.step(Event::Fetched(root())), Action::Fetch(2));
    match b.step(Event::Fetched(leaf(2, 0, 200))) {
        Action::Run(Command::Resize(r)) => assert_eq!((r.change, r.px), (Change::Shrink, 50)),
        other => panic!("expected a resize command, got {:?}", other),
    }
    let act = b.step(Event::Rejected {
        parse_failure: true,
        message: String::from("Cannot resize any further"),
    });
    // The only target was the first child; the unclean pass restarts.
    assert_eq!(act, Action::Fetch(2));
    match b.step(Event::Fetched(leaf(2, 0, 180))) {
        Action::Run(Command::Resize(r)) => assert_eq!((r.change, r.px), (Change::Shrink, 30)),
        other => panic!("expected a resize command, got {:?}", other),
    }
}

#[test]
fn exhausted_pass_budget_is_best_effort_not_an_error() {
    // Every resize of every pass is infeasible: the budget of three passes
    // for two children runs out, the container is left as it stands, and
    // the run goes on and finishes — flagged as best-effort, not failed.
    let root = || split_h(1, 0, 300, vec![leaf(2, 0, 200), leaf(3, 200, 100)]);
    let mut b = Balancer::new(1);
    assert!(!b.best_effort);
    let mut act = b.step(Event::Start);
    let mut rejections = 0;
    let mut steps = 0;
    loop {
        steps += 1;
        assert!(steps < 100, "the run must end");
        act = match act {
            Action::Done => break,
            Action::Fail(err) => panic!("unexpected failure {:?}", err),
            Action::Fetch(1) => b.step(Event::Fetched(root())),
            Action::Fetch(2) => b.step(Event::Fetched(leaf(2, 0, 200))),
            Action::Fetch(3) => b.step(Event::Fetched(leaf(3, 200, 100))),
            Action::Fetch(id) => panic!("unknown node {}", id),
            Action::Run(Command::Resize(_)) => {
                rejections += 1;
                b.step(Event::Rejected {
                    parse_failure: true,
                    message: String::from("Cannot resize any further"),
                })
            },
            Action::Run(Command::Swap(s)) => panic!("unexpected swap {:?}", s),
        };
    }
    // One infeasible resize per pass, three passes of budget.
    assert_eq!(rejections, 3);
    assert!(b.best_effort);
}

#[test]
fn vanished_node_is_fatal() {
    let mut b = Balancer::new(1);
    assert_eq!(b.step(Event::Start), Action::Fetch(1));
    assert_eq!(b.step(Event::NotFound), Action::Fail(AppError::NodeGone));
}

#[test]
fn infeasible_order_is_repaired_by_a_swap() {
    // Desired extent 100, but the first child's trailing edge reaches only
    // 60: the engine swaps it with the largest remaining sibling, re-reads
    // the container, and only then starts resizing.
    let disordered = || {
        split_h(1, 0, 300, vec![leaf(12, 0, 60), leaf(13, 60, 140), leaf(14, 200, 100)])
    };
    let repaired = || {
        split_h(1, 0, 300, vec![leaf(13, 0, 140), leaf(12, 140, 60), leaf(14, 200, 100)])
    };
    let mut b = Balancer::new(1);
    assert_eq!(b.step(Event::Start), Action::Fetch(1));
    let act = b.step(Event::Fetched(disordered()));
    match act {
        Action::Run(Command::Swap(s)) => {
            assert_eq!(s.con_id, 12);
            assert_eq!(s.other, 13);
        },
        other => panic!("expected a swap command, got {:?}", other),
    }
    // The swap went through: the engine re-reads the container and finds
    // the new order feasible.
    assert_eq!(b.step(Event::Succeeded), Action::Fetch(1));
    assert_eq!(b.step(Event::Fetched(repaired())), Action::Fetch(13));
}

#[test]
fn failed_swap_is_fatal() {
    let disordered = || {
        split_h(1, 0, 300, vec![leaf(12, 0, 60), leaf(13, 60, 140), leaf(14, 200, 100)])
    };
    let mut b = Balancer::new(1);
    assert_eq!(b.step(Event::Start), Action::Fetch(1));
    match b.step(Event::Fetched(disordered())) {
        Action::Run(Command::Swap(_)) => {},
        other => panic!("expected a swap command, got {:?}", other),
    }
    let act = b.step(Event::Rejected {
        parse_failure: true,
        message: String::from("Cannot resize any further"),
    });
    assert_eq!(act, Action::Fail(AppError::Resize));
}

#[test]
fn no_corrective_swap_means_reorder_failure() {
    // The faulty child is itself the largest remaining sibling: no swap can
    // help, and the run fails with the dedicated reorder error. Here the
    // first child has drifted to the left of its parent, so its trailing
    // edge falls short of the desired 15 although it is the largest child.
    let drifted = || {
        split_h(1, 0, 45, vec![leaf(2, -10, 20), leaf(3, 10, 15), leaf(4, 25, 10)])
    };
    let mut b = Balancer::new(1);
    assert_eq!(b.step(Event::Start), Action::Fetch(1));
    let act = b.step(Event::Fetched(drifted()));
    assert_eq!(act, Action::Fail(AppError::ReorderFailed));
}

#[test]
fn swap_budget_exhaustion_is_reorder_failure() {
    // The external tree never reflects the issued swaps: after the budget
    // of swap attempts is spent, the run fails with the reorder error.
    // Desired extent 20: the first child ends at 10, short of 20, and the
    // largest remaining sibling is the second.
    let stuck = || {
        split_h(1, 0, 60, vec![leaf(2, 0, 10), leaf(3, 10, 30), leaf(4, 40, 20)])
    };
    let mut b = Balancer::new(1);
    let mut act = b.step(Event::Start);
    let mut swaps = 0;
    let mut steps = 0;
    loop {
        steps += 1;
        assert!(steps < 100, "the run must end");
        act = match act {
            Action::Fetch(1) => b.step(Event::Fetched(stuck())),
            Action::Run(Command::Swap(s)) => {
                assert_eq!((s.con_id, s.other), (2, 3));
                swaps += 1;
                b.step(Event::Succeeded)
            },
            Action::Fail(err) => {
                assert_eq!(err, AppError::ReorderFailed);
                break;
            },
            other => panic!("unexpected action {:?}", other),
        };
    }
    // The budget for three children is the triangular number 6.
    assert_eq!(swaps, 6);
}

#[test]
fn vertical_split_resizes_heights() {
    let root = || Node {
        id: 1,
        layout: Layout::SplitV,
        rect: Rect { x: 0, y: 0, width: 0, height: 300 },
        focused: false,
        children: vec![
            Node {
                id: 2,
                layout: Layout::Other,
                rect: Rect { x: 0, y: 0, width: 0, height: 180 },
                focused: false,
                children: vec![],
            },
            Node {
                id: 3,
                layout: Layout::Other,
                rect: Rect { x: 0, y: 180, width: 0, height: 120 },
                focused: false,
                children: vec![],
            },
        ],
    };
    let mut b = Balancer::new(1);
    assert_eq!(b.step(Event::Start), Action::Fetch(1));
    assert_eq!(b.step(Event::Fetched(root())), Action::Fetch(2));
    let child = Node {
        id: 2,
        layout: Layout::Other,
        rect: Rect { x: 0, y: 0, width: 0, height: 180 },
        focused: false,
        children: vec![],
    };
    match b.step(Event::Fetched(child)) {
        Action::Run(Command::Resize(r)) => {
            assert_eq!(r.axis, Axis::Vertical);
            assert_eq!(r.change, Change::Shrink);
            assert_eq!(r.px, 30);
        },
        other => panic!("expected a resize command, got {:?}", other),
    }
}

#[test]
fn empty_workspace_finishes_at_once() {
    let mut b = Balancer::new(7);
    assert_eq!(b.step(Event::Start), Action::Fetch(7));
    assert_eq!(b.step(Event::Fetched(leaf(7, 0, 800))), Action::Done);
    assert_eq!(b.step(Event::Start), Action::Done);
}

#[test]
fn infeasibility_is_exactly_the_known_message() {
    assert!(is_infeasibility(true, &String::from("Cannot resize any further")));
    assert!(!is_infeasibility(true, &String::from("cannot resize any further")));
    assert!(!is_infeasibility(true, &String::from("No matching node")));
    assert!(!is_infeasibility(false, &String::from("Cannot resize any further")));
}

#[test]
fn error_messages_name_their_cause() {
    assert_eq!(
        AppError::NoFocus.message(),
        "current focus could not be determined"
    );
    assert_eq!(
        AppError::ReorderFailed.message(),
        "could not reconcile the child order"
    );
}
