//! The readiness that a descriptor reports to event polling.

use vstd::prelude::*;

verus! {

/// The readiness bits of one descriptor.
#[derive(Clone, Copy, Debug, PartialEq, Eq, Structural)]
pub struct EpollReadyEvents {
    /// The descriptor can be read from: data is queued, or the peer is gone.
    pub epollin: bool,
    /// The descriptor can be written to: the peer's queue is there and has
    /// room.
    pub epollout: bool,
    /// The peer has been destroyed.
    pub epollrdhup: bool,
}

impl EpollReadyEvents {
    /// No readiness at all.
    pub open spec fn none() -> EpollReadyEvents {
        EpollReadyEvents { epollin: false, epollout: false, epollrdhup: false }
    }

    /// No readiness at all.
    pub fn new() -> (res: EpollReadyEvents)
        ensures
            res == EpollReadyEvents::none(),
    {
        EpollReadyEvents { epollin: false, epollout: false, epollrdhup: false }
    }
}

} // verus!
