//! The connection's two channels, as far as they decide anything: the bounded
//! queue of frames that wait to be transmitted, and the hand-over of inbound
//! frames to the bus. The transport itself is driven from outside: it reports
//! how the handshake ended, takes the frames to transmit from the queue, and
//! hands in each frame that arrived.

use crate::bus::{EventBus, PublishError};
use crate::text::texts_view;
use std::collections::VecDeque;
use vstd::prelude::*;

verus! {

/// How many frames may wait in a send channel unless the caller says
/// otherwise.
pub const DEFAULT_CAPACITY: usize = 1000;

/// The transport did not establish the connection.
#[derive(Debug, Clone, Copy, PartialEq, Eq)]
pub enum ConnectionError {
    /// The transport rejected the handshake.
    HandshakeRejected,
}

/// A frame was not accepted for sending. The frame is lost: nothing retries.
#[derive(Debug, Clone, Copy, PartialEq, Eq)]
pub enum SendError {
    /// The handle is closed.
    Closed,
    /// As many frames wait as the channel holds.
    Full,
}

/// An inbound frame was not handed to every subscriber.
#[derive(Debug, Clone, Copy, PartialEq, Eq)]
pub enum ReceiveError {
    /// The handle is closed; the frame was dropped.
    Closed,
    /// A subscriber's queue was full and missed the frame; the others have it.
    Overflow,
}

/// One connection: the frames that wait to be transmitted, oldest first.
pub struct ConnectionHandle {
    outbound: VecDeque<String>,
    capacity: usize,
    closed: bool,
}

/// The mathematical value of a [`ConnectionHandle`].
pub struct ConnectionView {
    /// The frames that wait to be transmitted, oldest first.
    pub outbound: Seq<Seq<char>>,
    /// How many frames may wait.
    pub capacity: nat,
    /// Whether the handle was closed.
    pub closed: bool,
}

/// What becomes of a connection when `text` is sent on it: the text stands
/// last in the queue, unless the handle is closed or the queue is full.
pub open spec fn sent(connection: ConnectionView, text: Seq<char>) -> Result<
    ConnectionView,
    SendError,
> {
    if connection.closed {
        Err(SendError::Closed)
    } else if connection.outbound.len() >= connection.capacity {
        Err(SendError::Full)
    } else {
        Ok(ConnectionView { outbound: connection.outbound.push(text), ..connection })
    }
}

impl View for ConnectionHandle {
    type V = ConnectionView;

    closed spec fn view(&self) -> ConnectionView {
        ConnectionView {
            outbound: texts_view(self.outbound@),
            capacity: self.capacity as nat,
            closed: self.closed,
        }
    }
}

impl ConnectionHandle {
    /// No more frames wait than the channel holds, and none waits in a
    /// closed handle.
    pub closed spec fn wf(&self) -> bool {
        &&& self.outbound@.len() <= self.capacity
        &&& self.closed ==> self.outbound@.len() == 0
    }

    /// The handle for a connection whose handshake ended as `accepted` says.
    /// A rejected handshake gives no handle: nothing reconnects.
    pub fn open(accepted: bool, capacity: usize) -> (r: Result<ConnectionHandle, ConnectionError>)
        ensures
            match r {
                Ok(handle) => accepted && handle.wf() && handle@ == (ConnectionView {
                    outbound: Seq::empty(),
                    capacity: capacity as nat,
                    closed: false,
                }),
                Err(e) => !accepted && e == ConnectionError::HandshakeRejected,
            },
    {
        if accepted {
            let handle = ConnectionHandle { outbound: VecDeque::new(), capacity, closed: false };
            assert(handle@.outbound =~= Seq::<Seq<char>>::empty());
            Ok(handle)
        } else {
            Err(ConnectionError::HandshakeRejected)
        }
    }

    pub fn is_closed(&self) -> (r: bool)
        ensures
            r == self@.closed,
    {
        self.closed
    }

    /// How many frames wait to be transmitted: never more than the channel
    /// holds, and none in a closed handle.
    pub fn pending(&self) -> (r: usize)
        requires
            self.wf(),
        ensures
            r == self@.outbound.len(),
            r <= self@.capacity,
            self@.closed ==> r == 0,
    {
        self.outbound.len()
    }

    pub fn capacity(&self) -> (r: usize)
        ensures
            r == self@.capacity,
    {
        self.capacity
    }

    /// Puts one frame at the end of the queue. Where the handle is closed or
    /// the queue is full the frame is dropped and the handle stays as it
    /// was; the call never waits.
    pub fn send(&mut self, text: String) -> (r: Result<(), SendError>)
        requires
            old(self).wf(),
        ensures
            final(self).wf(),
            match r {
                Ok(_) => sent(old(self)@, text@) == Ok::<_, SendError>(final(self)@),
                Err(e) => sent(old(self)@, text@) == Err::<ConnectionView, _>(e) && final(self)@
                    == old(self)@,
            },
    {
        if self.closed {
            return Err(SendError::Closed);
        }
        if self.outbound.len() >= self.capacity {
            return Err(SendError::Full);
        }
        self.outbound.push_back(text);
        assert(final(self)@.outbound =~= old(self)@.outbound.push(text@));
        Ok(())
    }

    /// Takes the oldest waiting frame out of the queue, for the transport to
    /// transmit.
    pub fn next_outbound(&mut self) -> (r: Option<String>)
        requires
            old(self).wf(),
        ensures
            final(self).wf(),
            match r {
                Some(text) => old(self)@.outbound.len() > 0 && text@ == old(self)@.outbound[0]
                    && final(self)@ == (ConnectionView {
                    outbound: old(self)@.outbound.skip(1),
                    ..old(self)@
                }),
                None => old(self)@.outbound.len() == 0 && final(self)@ == old(self)@,
            },
    {
        let r = self.outbound.pop_front();
        assert(r is Some ==> final(self)@.outbound =~= old(self)@.outbound.skip(1));
        r
    }

    /// Closes the handle: what still waited is dropped, and every later
    /// `send` is refused.
    pub fn close(&mut self)
        ensures
            final(self).wf(),
            final(self)@ == (ConnectionView {
                outbound: Seq::empty(),
                closed: true,
                ..old(self)@
            }),
    {
        self.outbound.clear();
        self.closed = true;
        assert(final(self)@.outbound =~= Seq::<Seq<char>>::empty());
    }

    /// Hands one inbound frame to the bus, as it came. Frames handed in one
    /// after the other reach every subscriber in that order.
    pub fn receive(&self, text: String, bus: &mut EventBus<String>) -> (r: Result<
        (),
        ReceiveError,
    >)
        requires
            old(bus).wf(),
        ensures
            final(bus).wf(),
            match r {
                Ok(_) => !self@.closed && final(bus)@ == old(bus).after_publish(text)
                    && !old(bus).has_full_queue(),
                Err(ReceiveError::Closed) => self@.closed && final(bus)@ == old(bus)@,
                Err(ReceiveError::Overflow) => !self@.closed && final(bus)@ == old(
                    bus,
                ).after_publish(text) && old(bus).has_full_queue(),
            },
            final(bus).limit() == old(bus).limit(),
    {
        if self.closed {
            return Err(ReceiveError::Closed);
        }
        match bus.publish(text) {
            Ok(_) => Ok(()),
            Err(PublishError::Overflow) => Err(ReceiveError::Overflow),
        }
    }
}

} // verus!
