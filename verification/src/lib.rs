//! Unsynchronized, single-owner mutable storage cells.
//!
//! Three cells, each trading a different guarantee for a different
//! capability:
//!
//! - [`MoveCell`]: a cell that is never empty and exposes mutation only
//!   through whole-value swaps.
//! - [`OnceCell`]: a cell whose value is installed at most once through a
//!   reentrancy-safe single-assignment protocol, and thereafter immutable.
//! - [`CloningCell`]: a cell read by producing an independent copy of its
//!   contents, restricted to value types certified safe to clone while the
//!   cell is being read.

mod cloning;
mod move_cell;
mod once;
mod slot;

pub use cloning::CloningCell;
pub use cloning::NonSelfReferentialClone;
pub use move_cell::content_after_replaces;
pub use move_cell::lemma_replace_sequence;
pub use move_cell::replace_returns;
pub use move_cell::MoveCell;
pub use once::lemma_error_overridden_by_reentrant_success;
pub use once::lemma_finishes_ok_succeeds;
pub use once::lemma_first_success_wins;
pub use once::lemma_installed_value_persists;
pub use once::lemma_plain_call_is_protocol;
pub use once::lemma_idempotence;
pub use once::lemma_present_is_absorbing;
pub use once::lemma_reentrant_precedence;
pub use once::lemma_run_preserves_present;
pub use once::lemma_single_assignment;
pub use once::protocol_call;
pub use once::protocol_calls;
pub use once::routine_run;
pub use once::OnceCell;
pub use once::Routine;
