//! Event keys: the opaque identifiers a race is fought over.
//!
//! A key combines a slot number with the milestone being raced. Distinct
//! sources must derive keys the same way for a comparison to be meaningful;
//! the tracker itself treats keys as opaque values.

use vstd::prelude::*;

verus! {

/// The milestone a race is fought over. A streaming-RPC source races on the
/// bare slot-progress notification; a websocket source races on the
/// bank-created lifecycle notification.
#[derive(Clone, Copy, Debug, PartialEq, Eq, Structural)]
pub enum Milestone {
    SlotReported,
    BankCreated,
}

/// An event key: one slot number at one milestone.
#[derive(Clone, Copy, Debug, PartialEq, Eq, Structural)]
pub struct EventKey {
    pub slot: u64,
    pub milestone: Milestone,
}

/// Key for a bare slot-progress notification.
pub fn slot_key(slot: u64) -> (k: EventKey)
    ensures
        k == (EventKey { slot, milestone: Milestone::SlotReported }),
{
    EventKey { slot, milestone: Milestone::SlotReported }
}

/// Key for a bank-created lifecycle notification.
pub fn created_bank_key(slot: u64) -> (k: EventKey)
    ensures
        k == (EventKey { slot, milestone: Milestone::BankCreated }),
{
    EventKey { slot, milestone: Milestone::BankCreated }
}

/// The slot-lifecycle notifications a websocket source can push, reduced to
/// the slot number each one carries. Notifications the probe does not race on
/// are still distinguished so the filter below can state exactly what it keeps.
#[derive(Clone, Copy, Debug, PartialEq, Eq, Structural)]
pub enum SlotUpdateKind {
    FirstShredReceived { slot: u64 },
    CreatedBank { slot: u64 },
    Completed { slot: u64 },
    OptimisticConfirmation { slot: u64 },
    Other,
}

/// Which websocket notifications enter the race: only bank-created ones,
/// keyed by slot at the `BankCreated` milestone. Everything else is ignored.
pub fn websocket_race_key(update: &SlotUpdateKind) -> (r: Option<EventKey>)
    ensures
        match update {
            SlotUpdateKind::CreatedBank { slot } => r == Some(
                EventKey { slot: *slot, milestone: Milestone::BankCreated },
            ),
            _ => r is None,
        },
{
    match update {
        SlotUpdateKind::CreatedBank { slot } => Some(created_bank_key(*slot)),
        _ => None,
    }
}

} // verus!
