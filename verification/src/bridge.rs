//! The bidirectional bridge, modelled one direction at a time: every chunk
//! read from one side is handed on to the other side unchanged, and the
//! bridge as a whole completes as soon as either direction finishes.

use vstd::prelude::*;

verus! {

/// One direction of the bridge: a protocol-agnostic byte pump.
///
/// The unverified pump loop reads a chunk from the source socket, passes it
/// through [`StreamCopy::forward`], and writes what comes back to the sink
/// socket. The ghost log `carried` records every byte moved, in order, so the
/// contract can say that nothing is transformed, dropped or reordered.
pub struct StreamCopy {
    carried: Ghost<Seq<u8>>,
    finished: bool,
}

impl StreamCopy {
    /// Every byte this direction has carried so far, in order.
    pub closed spec fn carried(self) -> Seq<u8> {
        self.carried@
    }

    /// Whether this direction has seen end-of-stream or an error.
    pub closed spec fn is_finished(self) -> bool {
        self.finished
    }

    pub fn new() -> (d: StreamCopy)
        ensures
            d.carried() == Seq::<u8>::empty(),
            !d.is_finished(),
    {
        StreamCopy { carried: Ghost(Seq::empty()), finished: false }
    }

    /// Pass one chunk through. Byte fidelity: what goes out to the sink is
    /// exactly the chunk that came in from the source, and the cumulative log
    /// grows by that chunk alone.
    pub fn forward(&mut self, chunk: Vec<u8>) -> (out: Vec<u8>)
        requires
            !old(self).is_finished(),
        ensures
            out@ == chunk@,
            final(self).carried() == old(self).carried() + chunk@,
            !final(self).is_finished(),
    {
        let ghost log = self.carried@;
        self.carried = Ghost(log + chunk@);
        chunk
    }

    /// Record that this direction ended (graceful end-of-stream or error).
    /// No more bytes move through it afterwards.
    pub fn finish(&mut self)
        ensures
            final(self).is_finished(),
            final(self).carried() == old(self).carried(),
    {
        self.finished = true;
    }

    /// Whether this direction has finished, for observation.
    pub fn has_finished(&self) -> (b: bool)
        ensures
            b == self.is_finished(),
    {
        self.finished
    }
}

/// The bridge's termination policy: a race, not a join. It is complete as
/// soon as either direction has finished; the still-active direction is left
/// to resource cleanup, so bytes in flight on it may be truncated.
pub fn bridge_complete(local_to_relay_done: bool, relay_to_local_done: bool) -> (done: bool)
    ensures
        done <==> (local_to_relay_done || relay_to_local_done),
{
    local_to_relay_done || relay_to_local_done
}

} // verus!
