//! Balance the children of the containers of a tiling window manager's
//! layout tree, so that siblings occupy equal space along each container's
//! split axis.
//!
//! The tree is owned and mutated by the external window-manager process; this
//! library only reasons over immutable snapshots of it and decides which
//! query or command to issue next. The caller performs the actual IPC
//! round-trips and feeds every reply back in, so the whole decision logic —
//! breadth-first traversal, the convergence-based resize passes and the
//! reordering of children — is verified here, while the transport stays
//! outside.

pub mod axis;
pub mod balance;
pub mod command;
pub mod error;
pub mod locate;
pub mod math;
pub mod reorder;
pub mod tree;

pub use error::AppError;
