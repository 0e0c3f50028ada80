//! The two-state connection driver.  One `next` call performs one small
//! step: a handshake action, collecting one pending field, decoding a
//! complete message, reporting a transport failure, or — from the
//! Disconnected state — resetting the session for a reconnect.  The
//! blocking socket work happens outside the library: the caller performs
//! the action `next` returns and hands each read's outcome back through
//! `supply_read`.
use vstd::prelude::*;

use crate::constants::{FIELD_TERMINATOR, SUPPORTED_SERVER_VERSION};
use crate::decoder::{
    complete_message, decode, required_fields, spec_decode, spec_required, DecodedMessage,
};
use crate::errors::FatalError;
use crate::field_reader::valid_i32;
use crate::framing::{encode_fields, split_fields};
use crate::parse::int_text_value;
use crate::twssocket::{
    hello_fields, start_api_fields, HandshakePhase, HandshakeStep, ReceiveFailure, TwsError,
    TwsSocket,
};

verus! {

/// Exactly one of Connected or Disconnected; transitions happen only
/// inside `next`.
#[derive(Debug, Clone, Copy, PartialEq, Eq, Structural)]
pub enum ClientConnectionState {
    Connected,
    Disconnected,
}

/// What one driving step produced for the caller.
#[derive(Debug, Clone, PartialEq, Eq)]
pub enum Outcome {
    /// A complete inbound message was decoded.
    Decoded(DecodedMessage),
    /// A transport-tier failure; the state machine has moved to
    /// Disconnected and will reconnect on the next step.
    TransportFailure(TwsError),
    /// The fixed notice that a reconnect was attempted; the caller must
    /// reopen the connection, after which the handshake is re-driven.
    Reconnected,
}

/// What the caller must do after one driving step.
#[derive(Debug, Clone, PartialEq, Eq)]
pub enum Action {
    /// Perform one bounded read and hand its outcome to `supply_read`.
    NeedRead,
    /// Write these bytes to the connection.
    Send(Vec<u8>),
    /// Internal progress was made; call `next` again.
    Continue,
    /// A step completed; report or act on the outcome.
    Output(Outcome),
    /// A fatal protocol anomaly: stop driving, with a diagnostic.
    Fatal(FatalError),
}

/// While a message's total field count is not yet fixed, no more fields
/// than that count have been collected.
pub open spec fn collected_ok(fs: Seq<Seq<u8>>) -> bool {
    match spec_required(fs) {
        Ok(Some(n)) => fs.len() <= n,
        _ => true,
    }
}

/// The protocol client: connection state, the session over the socket,
/// the fields collected for the message being decoded, and the failure
/// of the latest read, if any, not yet acted on.
pub struct ClientConnection {
    pub state: ClientConnectionState,
    pub socket: TwsSocket,
    pub collected: Vec<Vec<u8>>,
    pub pending_failure: Option<ReceiveFailure>,
}

impl ClientConnection {
    /// The session held over the socket.
    pub open spec fn session(self) -> TwsSocket {
        self.socket
    }

    /// The fields collected so far for the message being decoded.
    pub open spec fn collected_fields(self) -> Seq<Seq<u8>> {
        self.collected.deep_view()
    }

    /// The failure of the latest read, if it has not been acted on yet.
    pub open spec fn pending(self) -> Option<ReceiveFailure> {
        self.pending_failure
    }

    /// Client invariant: the session invariant holds and the collected
    /// fields never outrun the message's fixed field count.
    pub open spec fn wf(self) -> bool {
        self.session().wf() && collected_ok(self.collected_fields())
    }

    /// A fresh client: Connected, an empty session with the handshake at
    /// its start, nothing collected, no failure pending.  The connection
    /// itself is opened by the caller before driving.
    pub fn new() -> (c: ClientConnection)
        ensures
            c.wf(),
            c.state == ClientConnectionState::Connected,
            c.session().hs_phase() == HandshakePhase::Hello,
            c.session().buffered() == Seq::<Seq<u8>>::empty(),
            c.collected_fields() == Seq::<Seq<u8>>::empty(),
            c.pending() is None,
    {
        let c = ClientConnection {
            state: ClientConnectionState::Connected,
            socket: TwsSocket::new(),
            collected: Vec::new(),
            pending_failure: None,
        };
        proof {
            assert(c.collected_fields() =~~= Seq::<Seq<u8>>::empty());
        }
        c
    }

    /// Hands in the outcome of the one read that a `NeedRead` action
    /// asked for: the bytes read, or `None` for a lower-level I/O error.
    /// A zero-length read is recorded as `Disconnected`, never as
    /// another failure; a batch whose final byte is not the terminator
    /// is recorded as the fatal framing violation and never yields
    /// fields; otherwise the batch's non-empty fields replace the
    /// pending queue whole, or `EmptyBuffer` is recorded when it has
    /// none.
    pub fn supply_read(&mut self, read: Option<Vec<u8>>)
        requires
            old(self).wf(),
        ensures
            final(self).wf(),
            final(self).state == old(self).state,
            final(self).collected_fields() == old(self).collected_fields(),
            final(self).session().hs_phase() == old(self).session().hs_phase(),
            final(self).session().negotiated_version() == old(self).session().negotiated_version(),
            final(self).session().server_time_text() == old(self).session().server_time_text(),
            old(self).session().buffered().len() > 0 ==> final(self).pending() is None && final(self).session().buffered() == old(self).session().buffered(),
            old(self).session().buffered().len() == 0 ==> match read {
                Option::None => final(self).pending() == Some(
                    ReceiveFailure::Transport(TwsError::SocketFault),
                ) && final(self).session().buffered() == old(self).session().buffered(),
                Option::Some(data) => {
                    if data@.len() == 0 {
                        final(self).pending() == Some(
                            ReceiveFailure::Transport(TwsError::Disconnected),
                        ) && final(self).session().buffered() == old(self).session().buffered()
                    } else if data@.last() != FIELD_TERMINATOR {
                        final(self).pending() == Some(ReceiveFailure::Framing) && final(self).session().buffered() == old(self).session().buffered()
                    } else if split_fields(data@).len() == 0 {
                        final(self).pending() == Some(
                            ReceiveFailure::Transport(TwsError::EmptyBuffer),
                        ) && final(self).session().buffered() == old(self).session().buffered()
                    } else {
                        final(self).pending() is None && final(self).session().buffered()
                            == split_fields(data@)
                    }
                },
            },
    {
        match self.socket.receive(read) {
            Ok(()) => {
                self.pending_failure = None;
            },
            Err(f) => {
                self.pending_failure = Some(f);
            },
        }
    }

    /// Performs one driving step; see the type-level comment for the
    /// protocol between this and the caller.  From Disconnected, the one
    /// step is the reconnect notice, after which the state is Connected
    /// again with a fresh session.  From Connected: a recorded framing
    /// violation is fatal; a recorded transport failure moves the state
    /// to Disconnected (or is fatal while the handshake is still
    /// running); otherwise the handshake is advanced, or one pending
    /// field is collected, or a complete message is decoded.
    pub fn next(&mut self) -> (a: Action)
        requires
            old(self).wf(),
        ensures
            final(self).wf(),
            old(self).state == ClientConnectionState::Disconnected ==> a == Action::Output(
                Outcome::Reconnected,
            ) && final(self).state == ClientConnectionState::Connected && final(self).session().hs_phase() == HandshakePhase::Hello && final(self).session().buffered()
                == Seq::<Seq<u8>>::empty() && final(self).collected_fields()
                == Seq::<Seq<u8>>::empty() && final(self).pending() is None,
            old(self).state == ClientConnectionState::Connected ==> final(self).state == (
            if (old(self).pending() matches Some(ReceiveFailure::Transport(e)) && old(self).session().hs_phase() == HandshakePhase::Ready) {
                ClientConnectionState::Disconnected
            } else {
                ClientConnectionState::Connected
            }),
            old(self).state == ClientConnectionState::Connected ==> match old(self).pending() {
                Some(ReceiveFailure::Framing) => a == Action::Fatal(FatalError::BadFraming)
                    && *final(self) == *old(self),
                Some(ReceiveFailure::Transport(e)) => {
                    if old(self).session().hs_phase() == HandshakePhase::Ready {
                        a == Action::Output(Outcome::TransportFailure(e)) && final(self).pending()
                            is None && final(self).collected_fields() == old(self).collected_fields() && final(self).session().buffered() == old(self).session().buffered()
                    } else {
                        a == Action::Fatal(FatalError::HandshakeReadFailed) && *final(self)
                            == *old(self)
                    }
                },
                Option::None => {
                    if old(self).session().hs_phase() != HandshakePhase::Ready {
                        final(self).next_handshake_spec(*old(self), a)
                    } else {
                        final(self).next_ready_spec(*old(self), a)
                    }
                },
            },
    {
        match self.state {
            ClientConnectionState::Disconnected => {
                self.socket.reconnect();
                self.collected = Vec::new();
                self.pending_failure = None;
                self.state = ClientConnectionState::Connected;
                proof {
                    assert(self.collected_fields() =~~= Seq::<Seq<u8>>::empty());
                }
                Action::Output(Outcome::Reconnected)
            },
            ClientConnectionState::Connected => {
                match self.pending_failure {
                    Some(ReceiveFailure::Framing) => Action::Fatal(FatalError::BadFraming),
                    Some(ReceiveFailure::Transport(e)) => {
                        if self.socket.is_ready() {
                            self.pending_failure = None;
                            self.state = ClientConnectionState::Disconnected;
                            Action::Output(Outcome::TransportFailure(e))
                        } else {
                            Action::Fatal(FatalError::HandshakeReadFailed)
                        }
                    },
                    Option::None => {
                        if !self.socket.is_ready() {
                            match self.socket.connect() {
                                HandshakeStep::Send(b) => Action::Send(b),
                                HandshakeStep::NeedRead => Action::NeedRead,
                                HandshakeStep::Progress => Action::Continue,
                                HandshakeStep::Done => Action::Continue,
                                HandshakeStep::Fatal(e) => Action::Fatal(e),
                            }
                        } else {
                            let complete = match required_fields(&self.collected) {
                                Err(e) => {
                                    return Action::Fatal(e);
                                },
                                Ok(Some(n)) => self.collected.len() == n,
                                Ok(Option::None) => false,
                            };
                            if complete {
                                let r = decode(&self.collected);
                                self.collected = Vec::new();
                                proof {
                                    assert(self.collected_fields() =~~= Seq::<Seq<u8>>::empty());
                                }
                                match r {
                                    Ok(m) => Action::Output(Outcome::Decoded(m)),
                                    Err(e) => Action::Fatal(e),
                                }
                            } else {
                                match self.socket.next_string() {
                                    Some(f) => {
                                        let ghost pre = self.collected.deep_view();
                                        self.collected.push(f);
                                        proof {
                                            assert(self.collected_fields() =~~= pre.push(f@));
                                            lemma_collect_one(pre, f@);
                                        }
                                        Action::Continue
                                    },
                                    Option::None => Action::NeedRead,
                                }
                            }
                        }
                    },
                }
            },
        }
    }

    /// The contract of one handshake-advancing step, as `next` promises
    /// it: the same step the session's `connect` takes, rendered as an
    /// `Action`; nothing else changes.
    pub open spec fn next_handshake_spec(self, pre: ClientConnection, a: Action) -> bool {
        self.pending() is None && self.collected_fields() == pre.collected_fields()
            && match pre.session().hs_phase() {
            HandshakePhase::Hello => (a matches Action::Send(b) && b@ == encode_fields(hello_fields()))
                && self.session().hs_phase() == HandshakePhase::AwaitServerVersion
                && self.session().buffered() == pre.session().buffered(),
            HandshakePhase::AwaitServerVersion => {
                if pre.session().buffered().len() == 0 {
                    a == Action::NeedRead && self.session().buffered() == pre.session().buffered()
                        && self.session().hs_phase() == pre.session().hs_phase()
                } else {
                    let f = pre.session().buffered()[0];
                    self.session().buffered() == pre.session().buffered().skip(1) && (
                    if !valid_i32(f) {
                        a == Action::Fatal(FatalError::MalformedInt)
                    } else if int_text_value(f) != SUPPORTED_SERVER_VERSION {
                        (a matches Action::Fatal(e) && e matches FatalError::ServerVersionMismatch(
                            v,
                        ) && v == int_text_value(f))
                    } else {
                        a == Action::Continue && self.session().hs_phase()
                            == HandshakePhase::AwaitServerTime && self.session().negotiated_version()
                            == SUPPORTED_SERVER_VERSION
                    })
                }
            },
            HandshakePhase::AwaitServerTime => {
                if pre.session().buffered().len() == 0 {
                    a == Action::NeedRead && self.session().buffered() == pre.session().buffered()
                        && self.session().hs_phase() == pre.session().hs_phase()
                } else {
                    a == Action::Continue && self.session().buffered() == pre.session().buffered().skip(
                        1,
                    ) && self.session().server_time_text() == pre.session().buffered()[0]
                        && self.session().hs_phase() == HandshakePhase::StartApi
                }
            },
            HandshakePhase::StartApi => (a matches Action::Send(b) && b@
                == encode_fields(start_api_fields(pre.session().negotiated_version() as int)))
                && self.session().hs_phase() == HandshakePhase::Ready && self.session().buffered()
                == pre.session().buffered(),
            HandshakePhase::Ready => true,
        }
    }

    /// The contract of one message-collecting or decoding step, as
    /// `next` promises it: a doomed header is fatal; a complete message
    /// decodes to exactly `spec_decode` of the collected fields, which
    /// are then cleared; otherwise one pending field is moved into the
    /// collection, or a read is requested when the queue is empty.
    pub open spec fn next_ready_spec(self, pre: ClientConnection, a: Action) -> bool {
        self.state == ClientConnectionState::Connected && self.pending() is None
            && match spec_required(
            pre.collected_fields(),
        ) {
            Result::Err(e) => a == Action::Fatal(e) && self.collected_fields()
                == pre.collected_fields() && self.session().buffered() == pre.session().buffered(),
            Result::Ok(req) => {
                if req matches Some(n) && pre.collected_fields().len() == n {
                    self.collected_fields() == Seq::<Seq<u8>>::empty() && match spec_decode(
                        pre.collected_fields(),
                    ) {
                        Result::Ok(mv) => (a matches Action::Output(o) && o
                            matches Outcome::Decoded(m) && m@ == mv),
                        Result::Err(e) => a == Action::Fatal(e),
                    }
                } else {
                    if pre.session().buffered().len() > 0 {
                        a == Action::Continue && self.collected_fields() == pre.collected_fields().push(
                            pre.session().buffered()[0],
                        ) && self.session().buffered() == pre.session().buffered().skip(1)
                    } else {
                        a == Action::NeedRead && self.collected_fields() == pre.collected_fields()
                            && self.session().buffered() == pre.session().buffered()
                    }
                }
            },
        }
    }
}

/// Collecting one more field while the message is incomplete keeps the
/// collection within the message's fixed field count.
proof fn lemma_collect_one(fs: Seq<Seq<u8>>, f: Seq<u8>)
    requires
        collected_ok(fs),
        !complete_message(fs),
        !(spec_required(fs) matches Err(_)),
    ensures
        collected_ok(fs.push(f)),
{
    let nf = fs.push(f);
    if fs.len() >= 1 {
        assert(nf[0] == fs[0]);
    }
    if fs.len() >= 2 {
        assert(nf[1] == fs[1]);
    }
}

} // verus!
