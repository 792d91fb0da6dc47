//! An in-process event bus: named events are broadcast to registered
//! listeners, with three scheduling policies layered on plain delivery —
//! bounded per-event backpressure, debounced delivery, and throttled
//! delivery — plus redirection of two source events into one merged
//! destination event.
//!
//! The bus itself is a pure state machine. Listeners and payloads are
//! opaque host values, represented here by identity tokens; invoking a
//! listener and running a timer are the host's work, so every mutating
//! operation returns the deliveries to perform and the timer commands to
//! execute.

use vstd::prelude::*;

mod events;
mod model;
mod bridge;
mod dispatch;
mod laws;

pub use events::CallbackId;
pub use events::Payload;
pub use events::Delivery;
pub use events::TimerCmd;
pub use events::DispatchOutcome;
pub use events::BridgeError;
pub use model::PostponeState;
pub use model::PaceState;
pub use model::MergeEntry;
pub use model::push_evict;
pub use model::queue_after;
pub use model::pairs_for;
pub use model::deliveries_for;
pub use model::remove_all;
pub use model::filter_kept;
pub use model::probe_from;
pub use model::probe;
pub use model::resolve;
pub use model::resolve_merge;
pub use bridge::SystemBridge;
pub use bridge::pending_below;
pub use bridge::broadcast_effects;
pub use bridge::cancel_cmds;
pub use bridge::flushed_deliveries;
pub use bridge::flushed_queue;
pub use dispatch::AsyncBroadcast;
pub use laws::lemma_flush_delivery_order;
pub use laws::lemma_bounded_queue;
pub use laws::lemma_merge_redirects;
pub use laws::lemma_remove_all_absent;
pub use laws::lemma_add_then_remove;
pub use bridge::same_listeners;
pub use bridge::same_queues;
pub use bridge::same_policies;
pub use bridge::same_config;

verus! {

} // verus!
