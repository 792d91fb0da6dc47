//! Value types shared by the bus: identity tokens for host callbacks and
//! payloads, the outward effects of a dispatch (deliveries and timer
//! commands), and the bus error type.

use vstd::prelude::*;

verus! {

/// Identity of one host callback. The host supplies opaque, invocable,
/// identity-comparable callables; the bus only ever compares and orders
/// them, so each is represented by the identity token the host assigned it.
#[derive(Clone, Copy, PartialEq, Eq, Structural, Debug)]
pub struct CallbackId {
    pub id: u64,
}

/// Identity of one queued payload. Payloads are opaque to the bus: they are
/// queued, possibly dropped on overflow, and handed back for delivery, never
/// interpreted.
#[derive(Clone, Copy, PartialEq, Eq, Structural, Debug)]
pub struct Payload {
    pub token: u64,
}

/// One delivery the host must perform: invoke `listener` with `payload`.
#[derive(Clone, Copy, PartialEq, Eq, Structural, Debug)]
pub struct Delivery {
    pub listener: CallbackId,
    pub payload: Payload,
}

/// A command to the host's timer capability. Tokens are chosen by the bus;
/// the host maps each scheduled token to its own timer handle and reports a
/// firing back under the same token.
#[derive(Clone, Copy, PartialEq, Eq, Structural, Debug)]
pub enum TimerCmd {
    Schedule { token: u64, delay_ms: u32 },
    Cancel { token: u64 },
}

/// The outward effects of one broadcast: the deliveries the host must
/// perform, in order, and the timer commands it must execute, in order.
#[derive(PartialEq, Eq, Debug)]
pub struct DispatchOutcome {
    pub deliveries: Vec<Delivery>,
    pub timer_cmds: Vec<TimerCmd>,
}

/// Errors surfaced by the bus.
#[derive(Clone, Copy, PartialEq, Eq, Structural, Debug)]
pub enum BridgeError {
    /// A configuration call received an invalid value (zero queue capacity
    /// or a zero policy interval).
    Configuration,
    /// Merge resolution ran into a cycle of merge entries, so the broadcast
    /// was refused instead of redirecting forever.
    CyclicMerge,
}

} // verus!
