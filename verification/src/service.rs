//! The desktop host: a web-facing service that runs apps in a sandbox with
//! their own folders, network allowlists and window sessions.
use vstd::prelude::*;

pub mod vfs;
pub mod net;
pub mod gui;
pub mod runtime;
pub mod scheduler;
pub mod shell;
pub mod api;

verus! {

} // verus!
