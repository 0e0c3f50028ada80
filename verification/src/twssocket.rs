//! The session held over the stream connection: the handshake, the queue
//! of pending unread fields, and the splitting of read batches into that
//! queue.  The blocking reads and writes themselves happen outside the
//! library; each read's outcome is handed in, and each payload to write
//! is handed out.
use vstd::prelude::*;

use crate::constants::{
    CLIENT_VERSION, FIELD_TERMINATOR, MIN_SERVER_VER_OPTIONAL_CAPABILITIES,
    SUPPORTED_SERVER_VERSION,
};
use crate::emessage::EMessage;
use crate::errors::FatalError;
use crate::field_reader::valid_i32;
use crate::framing::{
    encode_fields, lemma_split_fields_wellformed, split_fields, split_terminated, wf_field,
};
use crate::parse::int_text_value;
use crate::parse::parse_i32;

verus! {

/// Transport-tier failures, recoverable by a reconnect.
#[derive(Debug, Clone, Copy, PartialEq, Eq, Structural)]
pub enum TwsError {
    /// The peer closed the connection gracefully (a zero-length read).
    Disconnected,
    /// A read batch held nothing but terminators.
    EmptyBuffer,
    /// A lower-level I/O error.
    SocketFault,
}

/// What a single read did to the session.
#[derive(Debug, Clone, Copy, PartialEq, Eq, Structural)]
pub enum ReceiveFailure {
    /// Recoverable: the connection state machine moves to Disconnected.
    Transport(TwsError),
    /// Fatal: the batch's final byte was not the field terminator.
    Framing,
}

/// Where the fixed handshake exchange stands.
#[derive(Debug, Clone, Copy, PartialEq, Eq, Structural)]
pub enum HandshakePhase {
    /// The client version field is yet to be sent.
    Hello,
    /// Waiting for the server's version field.
    AwaitServerVersion,
    /// Waiting for the server's time field.
    AwaitServerTime,
    /// The StartAPI request is yet to be sent.
    StartApi,
    /// Handshake complete; ordinary messages flow.
    Ready,
}

/// One step of the handshake, as the driving loop must act on it.
#[derive(Debug, Clone, PartialEq, Eq)]
pub enum HandshakeStep {
    /// Write these bytes to the connection.
    Send(Vec<u8>),
    /// The pending queue is empty: perform one read and hand it in.
    NeedRead,
    /// A field was consumed; call again.
    Progress,
    /// The handshake is already complete.
    Done,
    /// A fatal handshake anomaly.
    Fatal(FatalError),
}

/// The single field of the client's opening message: the text `76`.
pub open spec fn hello_fields() -> Seq<Seq<u8>> {
    seq![seq![55u8, 54u8]]
}

/// The fields of the StartAPI request: type code `71`, sub-version `2`,
/// client id `1337`, and — only on servers newer than version 72 — an
/// empty optional-capabilities field.
pub open spec fn start_api_fields(server_version: int) -> Seq<Seq<u8>> {
    let base = seq![seq![55u8, 49u8], seq![50u8], seq![49u8, 51u8, 51u8, 55u8]];
    if server_version > MIN_SERVER_VER_OPTIONAL_CAPABILITIES {
        base + seq![Seq::<u8>::empty()]
    } else {
        base
    }
}

/// The bytes of the client's opening handshake message.
pub fn hello_message() -> (b: Vec<u8>)
    ensures
        b@ == encode_fields(hello_fields()),
{
    let mut msg = EMessage::new();
    let field: [u8; 2] = [55, 54];
    msg.push(field.as_slice());
    proof {
        reveal_with_fuel(encode_fields, 3);
        let hf = hello_fields();
        assert(hf.skip(1) =~= Seq::<Seq<u8>>::empty());
        assert(field@ =~= hf[0]);
        assert(msg@ =~= encode_fields(hf));
    }
    msg.consume()
}

/// The bytes of the StartAPI request for the given negotiated version.
pub fn start_api_message(server_version: i32) -> (b: Vec<u8>)
    ensures
        b@ == encode_fields(start_api_fields(server_version as int)),
{
    let mut msg = EMessage::new();
    let code: [u8; 2] = [55, 49];
    let sub_version: [u8; 1] = [50];
    let client_id: [u8; 4] = [49, 51, 51, 55];
    msg.push(code.as_slice());
    msg.push(sub_version.as_slice());
    msg.push(client_id.as_slice());
    let with_caps = server_version > MIN_SERVER_VER_OPTIONAL_CAPABILITIES;
    if with_caps {
        let empty: [u8; 0] = [];
        msg.push(empty.as_slice());
    }
    proof {
        reveal_with_fuel(encode_fields, 6);
        let fs = start_api_fields(server_version as int);
        assert(code@ =~= fs[0]);
        assert(sub_version@ =~= fs[1]);
        assert(client_id@ =~= fs[2]);
        if with_caps {
            assert(fs.skip(1).skip(1).skip(1).skip(1) =~= Seq::<Seq<u8>>::empty());
            assert(fs.skip(1).skip(1).skip(1) =~= fs.skip(3));
            assert(fs[3] =~= Seq::<u8>::empty());
        } else {
            assert(fs.skip(1).skip(1).skip(1) =~= Seq::<Seq<u8>>::empty());
        }
        assert(fs.skip(1).skip(1) =~= fs.skip(2));
        assert(fs.skip(1)[0] == fs[1]);
        assert(fs.skip(2)[0] == fs[2]);
        assert(msg@ =~= encode_fields(fs));
    }
    msg.consume()
}

/// The session over the stream connection: the fixed client version, the
/// negotiated server version and reported server time, the handshake
/// phase, and the ordered queue of pending unread fields.
pub struct TwsSocket {
    client_version: u32,
    receive_buffer: Vec<Vec<u8>>,
    server_version: i32,
    server_time: Vec<u8>,
    phase: HandshakePhase,
}

impl TwsSocket {
    /// The pending unread fields, in arrival order.
    pub closed spec fn buffered(self) -> Seq<Seq<u8>> {
        self.receive_buffer.deep_view()
    }

    /// Where the handshake stands.
    pub closed spec fn hs_phase(self) -> HandshakePhase {
        self.phase
    }

    /// The server version the handshake negotiated (zero before that).
    pub closed spec fn negotiated_version(self) -> i32 {
        self.server_version
    }

    /// The server's reported time field (empty before the handshake).
    pub closed spec fn server_time_text(self) -> Seq<u8> {
        self.server_time@
    }

    /// Session invariant: every pending field is non-empty and holds no
    /// terminator byte.
    pub open spec fn wf(self) -> bool {
        forall|k: int| 0 <= k < self.buffered().len() ==> wf_field(#[trigger] self.buffered()[k])
    }

    /// A fresh session: empty queue, nothing negotiated, handshake at
    /// its start.  The connection itself is opened outside the library.
    pub fn new() -> (s: TwsSocket)
        ensures
            s.wf(),
            s.buffered() == Seq::<Seq<u8>>::empty(),
            s.hs_phase() == HandshakePhase::Hello,
            s.negotiated_version() == 0,
            s.server_time_text() == Seq::<u8>::empty(),
    {
        let s = TwsSocket {
            client_version: CLIENT_VERSION,
            receive_buffer: Vec::new(),
            server_version: 0,
            server_time: Vec::new(),
            phase: HandshakePhase::Hello,
        };
        proof {
            assert(s.buffered() =~~= Seq::<Seq<u8>>::empty());
        }
        s
    }

    /// Discards the session state after the connection was torn down and
    /// reopened outside the library: the queue is emptied and the full
    /// handshake is re-run from its start.
    pub fn reconnect(&mut self)
        ensures
            final(self).wf(),
            final(self).buffered() == Seq::<Seq<u8>>::empty(),
            final(self).hs_phase() == HandshakePhase::Hello,
            final(self).negotiated_version() == 0,
            final(self).server_time_text() == Seq::<u8>::empty(),
    {
        self.receive_buffer = Vec::new();
        self.server_version = 0;
        self.server_time = Vec::new();
        self.phase = HandshakePhase::Hello;
        proof {
            assert(self.buffered() =~~= Seq::<Seq<u8>>::empty());
        }
    }

    /// Applies the outcome of one bounded read to the empty queue.
    /// `None` stands for a lower-level I/O error.  A zero-length read
    /// always yields `Disconnected`, never another failure; a batch
    /// whose final byte is not the terminator always fails as a framing
    /// violation and never fills the queue; otherwise the batch's
    /// non-empty fields replace the queue, whole, or `EmptyBuffer` is
    /// reported when there are none.  With a non-empty queue no read
    /// happens and nothing changes.
    pub fn receive(&mut self, read: Option<Vec<u8>>) -> (r: Result<(), ReceiveFailure>)
        requires
            old(self).wf(),
        ensures
            final(self).wf(),
            final(self).hs_phase() == old(self).hs_phase(),
            final(self).negotiated_version() == old(self).negotiated_version(),
            final(self).server_time_text() == old(self).server_time_text(),
            old(self).buffered().len() > 0 ==> r == Ok::<(), ReceiveFailure>(())
                && final(self).buffered() == old(self).buffered(),
            old(self).buffered().len() == 0 ==> match read {
                Option::None => r == Err::<(), ReceiveFailure>(
                    ReceiveFailure::Transport(TwsError::SocketFault),
                ) && final(self).buffered() == old(self).buffered(),
                Option::Some(data) => {
                    if data@.len() == 0 {
                        r == Err::<(), ReceiveFailure>(
                            ReceiveFailure::Transport(TwsError::Disconnected),
                        ) && final(self).buffered() == old(self).buffered()
                    } else if data@.last() != FIELD_TERMINATOR {
                        r == Err::<(), ReceiveFailure>(ReceiveFailure::Framing)
                            && final(self).buffered() == old(self).buffered()
                    } else if split_fields(data@).len() == 0 {
                        r == Err::<(), ReceiveFailure>(
                            ReceiveFailure::Transport(TwsError::EmptyBuffer),
                        ) && final(self).buffered() == old(self).buffered()
                    } else {
                        r == Ok::<(), ReceiveFailure>(()) && final(self).buffered()
                            == split_fields(data@)
                    }
                },
            },
    {
        if self.receive_buffer.len() > 0 {
            return Ok(());
        }
        match read {
            Option::None => Err(ReceiveFailure::Transport(TwsError::SocketFault)),
            Option::Some(data) => {
                if data.len() == 0 {
                    return Err(ReceiveFailure::Transport(TwsError::Disconnected));
                }
                if data[data.len() - 1] != FIELD_TERMINATOR {
                    return Err(ReceiveFailure::Framing);
                }
                let fields = split_terminated(data.as_slice());
                if fields.len() == 0 {
                    return Err(ReceiveFailure::Transport(TwsError::EmptyBuffer));
                }
                proof {
                    lemma_split_fields_wellformed(data@);
                }
                self.receive_buffer = fields;
                Ok(())
            },
        }
    }

    /// Pops the head of the pending queue, or reports that a read is
    /// needed first.
    pub fn next_string(&mut self) -> (r: Option<Vec<u8>>)
        requires
            old(self).wf(),
        ensures
            final(self).wf(),
            final(self).hs_phase() == old(self).hs_phase(),
            final(self).negotiated_version() == old(self).negotiated_version(),
            final(self).server_time_text() == old(self).server_time_text(),
            old(self).buffered().len() == 0 ==> r is None && final(self).buffered() == old(self).buffered(),
            old(self).buffered().len() > 0 ==> (r matches Some(f) && f@ == old(self).buffered()[0]
                && wf_field(f@) && final(self).buffered() == old(self).buffered().skip(1)),
    {
        if self.receive_buffer.len() == 0 {
            None
        } else {
            let f = self.receive_buffer.remove(0);
            proof {
                assert(self.receive_buffer.deep_view() =~~= old(self).buffered().skip(1));
                assert(f@ == old(self).buffered()[0]);
            }
            Some(f)
        }
    }

    /// Whether the handshake has completed and ordinary messages flow.
    pub fn is_ready(&self) -> (b: bool)
        ensures
            b == (self.hs_phase() == HandshakePhase::Ready),
    {
        match self.phase {
            HandshakePhase::Ready => true,
            _ => false,
        }
    }

    /// Performs one step of the fixed handshake: sending the client
    /// version, checking the server's version field (fatal unless it is
    /// the single supported version), recording the server's time field,
    /// and sending the StartAPI request.  Transport-tier concerns stay
    /// outside: this only consumes fields already in the queue.
    pub fn connect(&mut self) -> (step: HandshakeStep)
        requires
            old(self).wf(),
        ensures
            final(self).wf(),
            match old(self).hs_phase() {
                HandshakePhase::Hello => (step matches HandshakeStep::Send(b)
                    && b@ == encode_fields(hello_fields())) && final(self).hs_phase()
                    == HandshakePhase::AwaitServerVersion && final(self).buffered() == old(self).buffered() && final(self).negotiated_version() == old(self).negotiated_version(),
                HandshakePhase::AwaitServerVersion => {
                    if old(self).buffered().len() == 0 {
                        step == HandshakeStep::NeedRead && final(self).buffered() == old(self).buffered()
                            && final(self).hs_phase() == old(self).hs_phase()
                            && final(self).negotiated_version() == old(self).negotiated_version()
                            && final(self).server_time_text() == old(self).server_time_text()
                    } else {
                        let f = old(self).buffered()[0];
                        final(self).buffered() == old(self).buffered().skip(1) && (
                        if !valid_i32(f) {
                            step == HandshakeStep::Fatal(FatalError::MalformedInt) && final(self).hs_phase() == old(self).hs_phase()
                        } else if int_text_value(f) != SUPPORTED_SERVER_VERSION {
                            (step matches HandshakeStep::Fatal(e)
                                && e matches FatalError::ServerVersionMismatch(v) && v
                                == int_text_value(f)) && final(self).hs_phase() == old(self).hs_phase()
                        } else {
                            step == HandshakeStep::Progress && final(self).hs_phase()
                                == HandshakePhase::AwaitServerTime && final(self).negotiated_version() == SUPPORTED_SERVER_VERSION
                        })
                    }
                },
                HandshakePhase::AwaitServerTime => {
                    if old(self).buffered().len() == 0 {
                        step == HandshakeStep::NeedRead && final(self).buffered() == old(self).buffered()
                            && final(self).hs_phase() == old(self).hs_phase()
                            && final(self).negotiated_version() == old(self).negotiated_version()
                            && final(self).server_time_text() == old(self).server_time_text()
                    } else {
                        step == HandshakeStep::Progress && final(self).buffered() == old(self).buffered().skip(1) && final(self).server_time_text() == old(self).buffered()[0] && final(self).hs_phase() == HandshakePhase::StartApi
                            && final(self).negotiated_version() == old(self).negotiated_version()
                    }
                },
                HandshakePhase::StartApi => (step matches HandshakeStep::Send(b)
                    && b@ == encode_fields(start_api_fields(old(self).negotiated_version() as int)))
                    && final(self).hs_phase() == HandshakePhase::Ready && final(self).buffered()
                    == old(self).buffered() && final(self).negotiated_version() == old(self).negotiated_version(),
                HandshakePhase::Ready => step == HandshakeStep::Done
                    && final(self).buffered() == old(self).buffered()
                    && final(self).hs_phase() == old(self).hs_phase()
                    && final(self).negotiated_version() == old(self).negotiated_version()
                    && final(self).server_time_text() == old(self).server_time_text(),
            },
    {
        match self.phase {
            HandshakePhase::Hello => {
                self.phase = HandshakePhase::AwaitServerVersion;
                proof {
                    assert forall|k: int| 0 <= k < self.buffered().len()
                        implies wf_field(#[trigger] self.buffered()[k]) by {
                        assert(wf_field(old(self).buffered()[k]));
                    }
                }
                HandshakeStep::Send(hello_message())
            },
            HandshakePhase::AwaitServerVersion => {
                match self.next_string() {
                    Option::None => HandshakeStep::NeedRead,
                    Option::Some(f) => {
                        match parse_i32(f.as_slice()) {
                            Option::None => HandshakeStep::Fatal(FatalError::MalformedInt),
                            Option::Some(v) => {
                                if v != SUPPORTED_SERVER_VERSION {
                                    HandshakeStep::Fatal(FatalError::ServerVersionMismatch(v))
                                } else {
                                    let ghost mid = *self;
                                    self.server_version = v;
                                    self.phase = HandshakePhase::AwaitServerTime;
                                    proof {
                                        assert forall|k: int| 0 <= k < self.buffered().len()
                                            implies wf_field(#[trigger] self.buffered()[k]) by {
                                            assert(wf_field(mid.buffered()[k]));
                                        }
                                    }
                                    HandshakeStep::Progress
                                }
                            },
                        }
                    },
                }
            },
            HandshakePhase::AwaitServerTime => {
                match self.next_string() {
                    Option::None => HandshakeStep::NeedRead,
                    Option::Some(f) => {
                        let ghost mid = *self;
                        self.server_time = f;
                        self.phase = HandshakePhase::StartApi;
                        proof {
                            assert forall|k: int| 0 <= k < self.buffered().len()
                                implies wf_field(#[trigger] self.buffered()[k]) by {
                                assert(wf_field(mid.buffered()[k]));
                            }
                        }
                        HandshakeStep::Progress
                    },
                }
            },
            HandshakePhase::StartApi => {
                let b = start_api_message(self.server_version);
                self.phase = HandshakePhase::Ready;
                proof {
                    assert forall|k: int| 0 <= k < self.buffered().len()
                        implies wf_field(#[trigger] self.buffered()[k]) by {
                        assert(wf_field(old(self).buffered()[k]));
                    }
                }
                HandshakeStep::Send(b)
            },
            HandshakePhase::Ready => HandshakeStep::Done,
        }
    }
}

} // verus!
