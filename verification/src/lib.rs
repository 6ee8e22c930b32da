//! Scans local Git repository checkouts for "drift" from a clean, synced
//! state: uncommitted working-tree changes, stashed changes, local branches
//! ahead of or behind their upstream, and mismatches between the active
//! Git hook directory and an in-repo canonical hooks directory.
//!
//! The repository-facing checks call into `git2` through a small set of
//! trusted wrappers; everything decidable from plain values (hook name
//! filtering, set reconciliation, digest comparison, branch-record
//! construction) is verified.

pub mod branches;
pub mod content;
pub mod git;
pub mod hooks;
pub mod status;

pub use branches::AheadBehind;
pub use branches::AheadBehindError;
pub use branches::AheadBehindIterError;
pub use branches::UpstreamProbe;
pub use branches::branch_record;
pub use branches::check_ahead_behind;
pub use branches::distance_probe;
pub use content::content_digest;
pub use hooks::Hook;
pub use hooks::HookError;
pub use hooks::HookPlan;
pub use hooks::HookState;
pub use hooks::classify_hook_pair;
pub use hooks::classify_hooks;
pub use hooks::hook_plan;
pub use hooks::is_sample_file;
pub use status::StashedError;
pub use status::UncommittedError;
pub use status::check_stashed;
pub use status::check_uncommitted;
