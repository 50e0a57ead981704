//! Admission control: a shared counter of in-flight relay connections,
//! bounded by the concurrency cap the relay assigned.

use vstd::prelude::*;

verus! {

/// Counts the relay connections currently in flight against the cap.
///
/// Mutated only through [`AdmissionCounter::try_acquire`] and
/// [`AdmissionCounter::release`]; the caller is expected to hold the counter
/// under mutual exclusion across each call, and never across any network
/// operation.
pub struct AdmissionCounter {
    in_flight: u8,
    limit: u8,
}

impl AdmissionCounter {
    /// Number of admission slots currently held.
    pub closed spec fn count(self) -> nat {
        self.in_flight as nat
    }

    /// Maximum number of slots that may be held at once.
    pub closed spec fn cap(self) -> nat {
        self.limit as nat
    }

    /// Invariant: the number of held slots never exceeds the cap.
    pub closed spec fn inv(self) -> bool {
        self.in_flight <= self.limit
    }

    pub fn new(cap: u8) -> (c: AdmissionCounter)
        ensures
            c.inv(),
            c.count() == 0,
            c.cap() == cap as nat,
    {
        AdmissionCounter { in_flight: 0, limit: cap }
    }

    /// If a slot is free, take it; succeeds exactly when the count is below
    /// the cap. Never blocks.
    pub fn try_acquire(&mut self) -> (acquired: bool)
        requires
            old(self).inv(),
        ensures
            final(self).inv(),
            final(self).cap() == old(self).cap(),
            acquired <==> old(self).count() < old(self).cap(),
            acquired ==> final(self).count() == old(self).count() + 1,
            !acquired ==> final(self).count() == old(self).count(),
    {
        if self.in_flight < self.limit {
            self.in_flight = self.in_flight + 1;
            true
        } else {
            false
        }
    }

    /// Give one held slot back. Calling this without holding a slot is a
    /// programming error, so a positive count is required, not checked.
    pub fn release(&mut self)
        requires
            old(self).inv(),
            old(self).count() >= 1,
        ensures
            final(self).inv(),
            final(self).cap() == old(self).cap(),
            final(self).count() == old(self).count() - 1,
    {
        self.in_flight = self.in_flight - 1;
    }

    /// Current count, for observation only.
    pub fn active(&self) -> (n: u8)
        ensures
            n as nat == self.count(),
    {
        self.in_flight
    }

    /// The cap this counter was created with.
    pub fn capacity(&self) -> (n: u8)
        ensures
            n as nat == self.cap(),
    {
        self.limit
    }

    /// Whether the invariant holds, decidable at run time so that unverified
    /// callers can check it before relying on the contracts here.
    pub fn invariant_holds(&self) -> (ok: bool)
        ensures
            ok == self.inv(),
    {
        self.in_flight <= self.limit
    }
}

/// Law: at every observable instant, `0 <= count <= cap`.
pub proof fn lemma_admission_bounded(c: AdmissionCounter)
    requires
        c.inv(),
    ensures
        0 <= c.count() <= c.cap(),
{
}

/// Law: a successful acquire followed by its matching release restores the
/// count, whatever happened to the connection in between. `held` is the
/// counter right after the acquire, `after` right after the release.
pub proof fn lemma_acquire_release_balance(
    before: AdmissionCounter,
    held: AdmissionCounter,
    after: AdmissionCounter,
)
    requires
        before.inv(),
        before.count() < before.cap(),
        held.cap() == before.cap(),
        held.count() == before.count() + 1,
        after.cap() == held.cap(),
        after.count() == held.count() - 1,
    ensures
        after.count() == before.count(),
        after.cap() == before.cap(),
{
}

} // verus!
