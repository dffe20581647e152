//! The per-session message channel: the rendezvous point between the
//! upload bridge (the producer) and the session's outbound forwarder (the
//! single consumer).
//!
//! Messages are delivered strictly in arrival order. Once the channel is
//! closed — the forwarder is gone — every further push is refused, so a
//! producer never blocks on a consumer that will never arrive.

use vstd::prelude::*;

verus! {

use crate::codec::{BieProtocol, FrameModel};

/// The outbound channel of one relay session: a FIFO queue of wire
/// messages and a closed flag.
pub struct SessionChannel {
    queue: Vec<BieProtocol>,
    closed: bool,
}

impl SessionChannel {
    /// The messages waiting in the channel, oldest first.
    pub closed spec fn messages(self) -> Seq<FrameModel> {
        self.queue@.map(|i: int, m: BieProtocol| m@)
    }

    /// Whether the channel refuses further pushes.
    pub closed spec fn is_closed(self) -> bool {
        self.closed
    }

    /// A fresh, open, empty channel.
    pub fn new() -> (r: Self)
        ensures
            r.messages() == Seq::<FrameModel>::empty(),
            !r.is_closed(),
    {
        let r = SessionChannel { queue: Vec::new(), closed: false };
        proof {
            assert(r.messages() =~= Seq::<FrameModel>::empty());
        }
        r
    }

    /// Push one message. Refused exactly when the channel is closed; an
    /// accepted message is appended behind everything already queued.
    pub fn push(&mut self, m: BieProtocol) -> (accepted: bool)
        ensures
            accepted == !old(self).is_closed(),
            old(self).is_closed() ==> *final(self) == *old(self),
            !old(self).is_closed() ==> final(self).messages() == old(self).messages().push(m@)
                && !final(self).is_closed(),
    {
        if self.closed {
            false
        } else {
            self.queue.push(m);
            proof {
                assert(self.messages() =~= old(self).messages().push(m@));
            }
            true
        }
    }

    /// Take the oldest message out, if any. The closed flag is untouched.
    pub fn pop(&mut self) -> (r: Option<BieProtocol>)
        ensures
            final(self).is_closed() == old(self).is_closed(),
            old(self).messages().len() == 0 ==> r is None && *final(self) == *old(self),
            old(self).messages().len() > 0 ==> (r matches Some(m) && m@ == old(self).messages()[0]) && final(self).messages() == old(self).messages().skip(1),
    {
        if self.queue.len() == 0 {
            None
        } else {
            let m = self.queue.remove(0);
            proof {
                assert(self.messages() =~= old(self).messages().skip(1));
            }
            Some(m)
        }
    }

    /// Close the channel to further sends. Queued messages stay readable.
    pub fn close(&mut self)
        ensures
            final(self).is_closed(),
            final(self).messages() == old(self).messages(),
    {
        self.closed = true;
    }

    /// Whether the channel is closed to further sends.
    pub fn closed_now(&self) -> (r: bool)
        ensures
            r == self.is_closed(),
    {
        self.closed
    }

    /// How many messages are waiting.
    pub fn len(&self) -> (r: usize)
        ensures
            r == self.messages().len(),
    {
        self.queue.len()
    }
}

} // verus!
