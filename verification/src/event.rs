//! The events that a poll of a file reports.
use vstd::prelude::*;

verus! {

pub const EPOLLIN: usize = 0x1;

pub const EPOLLOUT: usize = 0x4;

pub const EPOLLERR: usize = 0x8;

pub const EPOLLHUP: usize = 0x10;

pub const EPOLLRDNORM: usize = 0x40;

pub const EPOLLWRNORM: usize = 0x100;

pub const EPOLLRDHUP: usize = 0x2000;

/// A set of events.
#[derive(Clone, Copy, Debug, PartialEq, Eq, Structural)]
pub struct EPollEvent {
    pub epollin: bool,
    pub epollrdnorm: bool,
    pub epollout: bool,
    pub epollwrnorm: bool,
    pub epollerr: bool,
    pub epollhup: bool,
    pub epollrdhup: bool,
}

/// What a flag adds to the bits of a set.
pub open spec fn weight(on: bool, bit: usize) -> int {
    if on {
        bit as int
    } else {
        0
    }
}

/// The set without events.
pub open spec fn no_events() -> EPollEvent {
    EPollEvent {
        epollin: false,
        epollrdnorm: false,
        epollout: false,
        epollwrnorm: false,
        epollerr: false,
        epollhup: false,
        epollrdhup: false,
    }
}

fn flag(on: bool, bit: usize) -> (r: usize)
    ensures
        r == weight(on, bit),
{
    if on {
        bit
    } else {
        0
    }
}

impl EPollEvent {
    pub fn empty() -> (r: EPollEvent)
        ensures
            r == no_events(),
    {
        EPollEvent {
            epollin: false,
            epollrdnorm: false,
            epollout: false,
            epollwrnorm: false,
            epollerr: false,
            epollhup: false,
            epollrdhup: false,
        }
    }

    pub open spec fn spec_bits(self) -> int {
        weight(self.epollin, EPOLLIN) + weight(self.epollout, EPOLLOUT) + weight(
            self.epollerr,
            EPOLLERR,
        ) + weight(self.epollhup, EPOLLHUP) + weight(self.epollrdnorm, EPOLLRDNORM) + weight(
            self.epollwrnorm,
            EPOLLWRNORM,
        ) + weight(self.epollrdhup, EPOLLRDHUP)
    }

    /// The set as the system calls write it.
    pub fn bits(&self) -> (r: usize)
        ensures
            r == self.spec_bits(),
    {
        flag(self.epollin, EPOLLIN) + flag(self.epollout, EPOLLOUT) + flag(self.epollerr, EPOLLERR)
            + flag(self.epollhup, EPOLLHUP) + flag(self.epollrdnorm, EPOLLRDNORM) + flag(
            self.epollwrnorm,
            EPOLLWRNORM,
        ) + flag(self.epollrdhup, EPOLLRDHUP)
    }

    pub fn is_empty(&self) -> (r: bool)
        ensures
            r == (*self == no_events()),
    {
        !(self.epollin || self.epollrdnorm || self.epollout || self.epollwrnorm || self.epollerr
            || self.epollhup || self.epollrdhup)
    }

    /// The events of both sets.
    pub open spec fn spec_and(self, other: EPollEvent) -> EPollEvent {
        EPollEvent {
            epollin: self.epollin && other.epollin,
            epollrdnorm: self.epollrdnorm && other.epollrdnorm,
            epollout: self.epollout && other.epollout,
            epollwrnorm: self.epollwrnorm && other.epollwrnorm,
            epollerr: self.epollerr && other.epollerr,
            epollhup: self.epollhup && other.epollhup,
            epollrdhup: self.epollrdhup && other.epollrdhup,
        }
    }

    pub fn and(self, other: EPollEvent) -> (r: EPollEvent)
        ensures
            r == self.spec_and(other),
    {
        EPollEvent {
            epollin: self.epollin && other.epollin,
            epollrdnorm: self.epollrdnorm && other.epollrdnorm,
            epollout: self.epollout && other.epollout,
            epollwrnorm: self.epollwrnorm && other.epollwrnorm,
            epollerr: self.epollerr && other.epollerr,
            epollhup: self.epollhup && other.epollhup,
            epollrdhup: self.epollrdhup && other.epollrdhup,
        }
    }

    /// The events of this set that the other lacks.
    pub open spec fn spec_without(self, other: EPollEvent) -> EPollEvent {
        EPollEvent {
            epollin: self.epollin && !other.epollin,
            epollrdnorm: self.epollrdnorm && !other.epollrdnorm,
            epollout: self.epollout && !other.epollout,
            epollwrnorm: self.epollwrnorm && !other.epollwrnorm,
            epollerr: self.epollerr && !other.epollerr,
            epollhup: self.epollhup && !other.epollhup,
            epollrdhup: self.epollrdhup && !other.epollrdhup,
        }
    }

    pub fn without(self, other: EPollEvent) -> (r: EPollEvent)
        ensures
            r == self.spec_without(other),
    {
        EPollEvent {
            epollin: self.epollin && !other.epollin,
            epollrdnorm: self.epollrdnorm && !other.epollrdnorm,
            epollout: self.epollout && !other.epollout,
            epollwrnorm: self.epollwrnorm && !other.epollwrnorm,
            epollerr: self.epollerr && !other.epollerr,
            epollhup: self.epollhup && !other.epollhup,
            epollrdhup: self.epollrdhup && !other.epollrdhup,
        }
    }
}

/// Two sets with the same bits are the same set.
pub proof fn law_bits_tell_events_apart(a: EPollEvent, b: EPollEvent)
    requires
        a.spec_bits() == b.spec_bits(),
    ensures
        a == b,
{
}

} // verus!
