//! The pool maintenance decision: on each tick, fill one free admission slot
//! with a fresh connection, or do nothing when the pool is at capacity.

use vstd::prelude::*;
use crate::admission::AdmissionCounter;
use crate::connection::{ConnectionPhase, TunnelConnection};

verus! {

/// Milliseconds between two ticks of the pool maintenance loop.
pub const TICK_INTERVAL_MS: u64 = 600;

/// One tick of the level-triggered replenishment loop: try to acquire a
/// slot; on success hand back a fresh connection bound to that slot. A slot
/// freed between ticks is only refilled on the next tick, so at most one
/// connection starts per tick and the count never exceeds the cap.
pub fn pool_tick(counter: &mut AdmissionCounter) -> (spawned: Option<TunnelConnection>)
    requires
        old(counter).inv(),
    ensures
        final(counter).inv(),
        final(counter).cap() == old(counter).cap(),
        spawned is Some <==> old(counter).count() < old(counter).cap(),
        (spawned matches Some(c) ==> final(counter).count() == old(counter).count() + 1
            && c.phase() == ConnectionPhase::ConnectingRelay && c.holds_slot()),
        spawned is None ==> final(counter).count() == old(counter).count(),
{
    if counter.try_acquire() {
        Some(TunnelConnection::new())
    } else {
        None
    }
}

} // verus!
