//! The opening of a client connection, as a state machine.
//!
//! A client first sends its id, which the server echoes; the client then
//! sends a sentinel, after which requests and responses flow. Whoever owns
//! the socket feeds what it read into `Handshake::step` and does what
//! comes back.

use vstd::prelude::*;

verus! {

/// The largest number of bytes that a client id has.
pub const CLIENT_ID_LEN: usize = 16;

/// How far the opening of a connection has come.
#[derive(Clone, Copy, Debug, PartialEq, Eq, Structural)]
pub enum Handshake {
    /// Nothing was received yet; the client id is awaited.
    AwaitId,
    /// The id was echoed; the sentinel is awaited.
    AwaitSentinel,
    /// The handshake is through; requests are served.
    Established,
    /// The connection was given up.
    Closed,
}

/// What the socket did.
pub enum SocketEvent {
    /// These bytes were read.
    Received(Vec<u8>),
    /// Reading or writing failed.
    Failed,
}

/// What is to be done with the connection.
pub enum Action {
    /// Open a session under this client id, and send the id back.
    Echo(Vec<u8>),
    /// Start serving the session's requests.
    Serve,
    /// Nothing more than to go on reading.
    Continue,
    /// Give the connection up.
    Close,
}

/// Whether `bytes` can be a client id: at least one byte, at most
/// `CLIENT_ID_LEN`.
pub open spec fn is_client_id(bytes: Seq<u8>) -> bool {
    0 < bytes.len() <= CLIENT_ID_LEN
}

impl Handshake {
    /// The state after `event`.
    pub open spec fn next(self, event: SocketEvent) -> Handshake {
        match (self, event) {
            (Handshake::Closed, _) => Handshake::Closed,
            (_, SocketEvent::Failed) => Handshake::Closed,
            (Handshake::AwaitId, SocketEvent::Received(bytes)) => if is_client_id(bytes@) {
                Handshake::AwaitSentinel
            } else {
                Handshake::Closed
            },
            (Handshake::AwaitSentinel, SocketEvent::Received(bytes)) => if bytes@.len() > 0 {
                Handshake::Established
            } else {
                Handshake::Closed
            },
            (Handshake::Established, SocketEvent::Received(_)) => Handshake::Established,
        }
    }

    /// Takes one event of the socket: says what to do, and becomes the
    /// state after the event.
    ///
    /// A client id is echoed as it came. Anything after it counts as the
    /// sentinel, as long as it is not empty. A failure, an empty read
    /// during the handshake, or an id of the wrong length closes the
    /// connection, and a closed connection stays closed.
    pub fn step(&mut self, event: SocketEvent) -> (action: Action)
        ensures
            *final(self) == old(self).next(event),
            match action {
                Action::Echo(id) => *old(self) == Handshake::AwaitId && *final(self)
                    == Handshake::AwaitSentinel && event == SocketEvent::Received(id),
                Action::Serve => *old(self) == Handshake::AwaitSentinel && *final(self)
                    == Handshake::Established,
                Action::Continue => *old(self) == Handshake::Established && *final(self)
                    == Handshake::Established,
                Action::Close => *final(self) == Handshake::Closed,
            },
    {
        let state = *self;
        match state {
            Handshake::Closed => Action::Close,
            Handshake::AwaitId => match event {
                SocketEvent::Received(bytes) => {
                    if bytes.len() > 0 && bytes.len() <= CLIENT_ID_LEN {
                        *self = Handshake::AwaitSentinel;
                        Action::Echo(bytes)
                    } else {
                        *self = Handshake::Closed;
                        Action::Close
                    }
                },
                SocketEvent::Failed => {
                    *self = Handshake::Closed;
                    Action::Close
                },
            },
            Handshake::AwaitSentinel => match event {
                SocketEvent::Received(bytes) => {
                    if bytes.len() > 0 {
                        *self = Handshake::Established;
                        Action::Serve
                    } else {
                        *self = Handshake::Closed;
                        Action::Close
                    }
                },
                SocketEvent::Failed => {
                    *self = Handshake::Closed;
                    Action::Close
                },
            },
            Handshake::Established => match event {
                SocketEvent::Received(_) => Action::Continue,
                SocketEvent::Failed => {
                    *self = Handshake::Closed;
                    Action::Close
                },
            },
        }
    }

    /// The state after a sequence of events, first to last.
    pub open spec fn after(self, events: Seq<SocketEvent>) -> Handshake
        decreases events.len(),
    {
        if events.len() == 0 {
            self
        } else {
            self.after(events.drop_last()).next(events.last())
        }
    }

    /// A connection that is served has sent an id and then a sentinel: no
    /// sequence of fewer than two events establishes a new connection, and
    /// the first two events of one that does are a client id and a read
    /// that is not empty.
    pub proof fn lemma_established_after_id_and_sentinel(events: Seq<SocketEvent>)
        requires
            Handshake::AwaitId.after(events) == Handshake::Established,
        ensures
            events.len() >= 2,
            events[0] matches SocketEvent::Received(id) && is_client_id(id@),
            events[1] matches SocketEvent::Received(sentinel) && sentinel@.len() > 0,
        decreases events.len(),
    {
        if events.len() > 0 {
            let before = events.drop_last();
            let state = Handshake::AwaitId.after(before);
            if state == Handshake::Established {
                Self::lemma_established_after_id_and_sentinel(before);
                assert(before[0] == events[0]);
                assert(before[1] == events[1]);
            } else {
                assert(state == Handshake::AwaitSentinel);
                Self::lemma_sentinel_awaited_after_id(before);
            }
        }
    }

    /// The sentinel is awaited only right after a client id.
    proof fn lemma_sentinel_awaited_after_id(events: Seq<SocketEvent>)
        requires
            Handshake::AwaitId.after(events) == Handshake::AwaitSentinel,
        ensures
            events.len() == 1,
            events[0] matches SocketEvent::Received(id) && is_client_id(id@),
        decreases events.len(),
    {
        if events.len() > 0 {
            let before = events.drop_last();
            let state = Handshake::AwaitId.after(before);
            assert(state == Handshake::AwaitId);
            Self::lemma_still_waiting_is_fresh(before);
        }
    }

    /// A connection that still awaits its id has seen no event.
    proof fn lemma_still_waiting_is_fresh(events: Seq<SocketEvent>)
        requires
            Handshake::AwaitId.after(events) == Handshake::AwaitId,
        ensures
            events.len() == 0,
        decreases events.len(),
    {
        if events.len() > 0 {
            let before = events.drop_last();
            let state = Handshake::AwaitId.after(before);
            assert(state.next(events.last()) == Handshake::AwaitId);
        }
    }

    /// A closed connection stays closed.
    pub proof fn lemma_closed_stays_closed(events: Seq<SocketEvent>)
        ensures
            Handshake::Closed.after(events) == Handshake::Closed,
        decreases events.len(),
    {
        if events.len() > 0 {
            Self::lemma_closed_stays_closed(events.drop_last());
        }
    }
}

} // verus!
