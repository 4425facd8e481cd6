//! What a poll of a TCP socket reports.
use vstd::prelude::*;
use crate::event::EPollEvent;
use crate::socket::inet::stream::inner;
use crate::socket::inet::stream::inner::{Inner, InnerModel, TcpStatus};

verus! {

/// The stack's word on the only handle of a socket.
pub open spec fn first_of(status: Seq<Option<TcpStatus>>) -> Option<TcpStatus> {
    if status.len() > 0 {
        status[0]
    } else {
        None
    }
}

pub fn first_status(status: &Vec<Option<TcpStatus>>) -> (r: Option<TcpStatus>)
    ensures
        r == first_of(status@),
{
    if status.len() > 0 {
        status[0]
    } else {
        None
    }
}

/// The socket and its events after the stack's word on each of its handles.
pub open spec fn polled(m: InnerModel, p: EPollEvent, status: Seq<Option<TcpStatus>>) -> (
    InnerModel,
    EPollEvent,
) {
    match m {
        InnerModel::Connecting(c) => match first_of(status) {
            Some(s) => {
                let next = inner::refreshed(c, s.state);
                (InnerModel::Connecting(next), inner::connect_events(next.result))
            },
            None => (m, p),
        },
        InnerModel::Listening(l) => {
            let (next, events) = inner::listener_events(l, p, status);
            (InnerModel::Listening(next), events)
        },
        InnerModel::Established(_) => match first_of(status) {
            Some(s) => (m, inner::connection_events(p, s)),
            None => (m, p),
        },
        InnerModel::SelfConnected(s) => (m, inner::self_events(p, s)),
        InnerModel::Init(_) | InnerModel::Closed(_) => (m, p),
    }
}

impl Inner {
    /// Brings the events up to date. `status` is what the stack reports of
    /// each handle of the socket.
    pub fn update_io_events(&mut self, pollee: &mut EPollEvent, status: &Vec<Option<TcpStatus>>)
        requires
            old(self)@ is Listening ==> status@.len() == old(self)@.handles().len(),
        ensures
            (final(self)@, *final(pollee)) == polled(old(self)@, *old(pollee), status@),
    {
        match self {
            Inner::Init(_) | Inner::Closed(_) => {},
            Inner::Connecting(c) => {
                let _ = c.update_io_events(pollee, first_status(status));
            },
            Inner::Listening(l) => {
                l.update_io_events(pollee, status);
            },
            Inner::Established(e) => {
                e.update_io_events(pollee, first_status(status));
            },
            Inner::SelfConnected(sc) => {
                sc.update_io_events(pollee);
            },
        }
    }
}

} // verus!
