//! The session state machine.
//!
//! A session owns one connection's lifecycle. Its reader loop feeds each
//! inbound line in; its writer loop takes outbound lines out, the
//! handshake first; the consumer enqueues raw text and drains decoded
//! events. The whole behaviour is a state machine over plain values:
//! [`session_init`] is the state a fresh session starts in and
//! [`session_step`] says what each occurrence does to it. The executable
//! [`Session`] follows that machine step for step; the I/O that produces
//! the occurrences (socket reads and writes, the task scheduler) stays
//! with the caller.

use vstd::prelude::*;
use vstd::string::*;

use crate::codec::{encode_handshake, encode_outbound, encode_outbound_spec, handshake_spec};
use crate::commands::{decode_spec, ChatCommands, ChatV, ConnectState};
use crate::connection::{ConnectionData, ConnectionDataV};

verus! {

/// The mathematical state of one session.
///
/// `written` and `enqueued` are histories: every line the writer has
/// produced so far, in order, and every raw string the consumer has
/// enqueued so far, in order. `outbound` holds the enqueued strings the
/// writer has not taken yet; `inbound` the decoded events the consumer
/// has not drained yet.
#[verifier::ext_equal]
pub ghost struct SessionV {
    pub state: ConnectState,
    pub name: Seq<char>,
    pub inbound: Seq<ChatV>,
    pub outbound: Seq<Seq<char>>,
    pub handshake_sent: bool,
    pub written: Seq<Seq<char>>,
    pub enqueued: Seq<Seq<char>>,
}

/// One occurrence a live session reacts to.
pub ghost enum SessionStep {
    /// The reader took one terminator-stripped line off the socket.
    Line { line: Seq<char> },
    /// The socket closed or a read failed; the reader loop ends.
    SocketClosed,
    /// Opening the connection failed; no loop ever ran.
    ConnectFailed,
    /// The consumer enqueued one raw outbound string.
    Enqueue { text: Seq<char> },
    /// The writer asked for the next line to write.
    WriterTake,
    /// The consumer drained the pending events.
    Poll,
}

/// A state no session leaves again.
pub open spec fn is_terminal(st: ConnectState) -> bool {
    st == ConnectState::Disconnect || st == ConnectState::Failed
}

/// The terminal state entered when the reader loop ends: `Disconnect`
/// after the session had been connected, `Failed` when it never was.
pub open spec fn ended_state(st: ConnectState) -> ConnectState {
    if st == ConnectState::Connected {
        ConnectState::Disconnect
    } else {
        ConnectState::Failed
    }
}

/// The state a fresh session starts in: `Loading`, nothing received,
/// nothing enqueued, handshake not yet written.
pub open spec fn session_init(name: Seq<char>) -> SessionV {
    SessionV {
        state: ConnectState::Loading,
        name: name,
        inbound: Seq::empty(),
        outbound: Seq::empty(),
        handshake_sent: false,
        written: Seq::empty(),
        enqueued: Seq::empty(),
    }
}

/// What one occurrence does to a session.
///
/// State changes are driven solely by the reader's observations: a line
/// that decodes marks the session `Connected` and queues its event; a
/// line that does not decode, and the socket closing, end the reader and
/// move to the terminal state for the state so far. A terminal session
/// no longer reacts to reader occurrences. The writer produces the
/// handshake on its first take and after that the encodings of the
/// enqueued strings in order.
pub open spec fn session_step(s: SessionV, e: SessionStep) -> SessionV {
    match e {
        SessionStep::Line { line } => if is_terminal(s.state) {
            s
        } else {
            match decode_spec(line) {
                Some(ev) => SessionV {
                    state: ConnectState::Connected,
                    inbound: s.inbound.push(ev),
                    ..s
                },
                None => SessionV { state: ended_state(s.state), ..s },
            }
        },
        SessionStep::SocketClosed => if is_terminal(s.state) {
            s
        } else {
            SessionV { state: ended_state(s.state), ..s }
        },
        SessionStep::ConnectFailed => if s.state == ConnectState::Loading {
            SessionV { state: ConnectState::Failed, ..s }
        } else {
            s
        },
        SessionStep::Enqueue { text } => SessionV {
            outbound: s.outbound.push(text),
            enqueued: s.enqueued.push(text),
            ..s
        },
        SessionStep::WriterTake => if !s.handshake_sent {
            SessionV {
                handshake_sent: true,
                written: s.written.push(handshake_spec(s.name)),
                ..s
            }
        } else if s.outbound.len() > 0 {
            SessionV {
                outbound: s.outbound.drop_first(),
                written: s.written.push(encode_outbound_spec(s.outbound[0])),
                ..s
            }
        } else {
            s
        },
        SessionStep::Poll => SessionV { inbound: Seq::empty(), ..s },
    }
}

/// The session reached by a sequence of occurrences, first one first.
pub open spec fn session_run(s: SessionV, steps: Seq<SessionStep>) -> SessionV
    decreases steps.len(),
{
    if steps.len() == 0 {
        s
    } else {
        session_run(session_step(s, steps[0]), steps.drop_first())
    }
}

/// The events of a sequence of commands.
pub open spec fn events_of(cmds: Seq<ChatCommands>) -> Seq<ChatV> {
    cmds.map_values(|c: ChatCommands| c@)
}

/// The raw texts of a sequence of strings.
pub open spec fn texts_of(texts: Seq<String>) -> Seq<Seq<char>> {
    texts.map_values(|t: String| t@)
}

/// One live session, following the state machine above step for step.
pub struct Session {
    name: String,
    state: ConnectState,
    inbound: Vec<ChatCommands>,
    outbound: Vec<String>,
    handshake_sent: bool,
    written: Ghost<Seq<Seq<char>>>,
    enqueued: Ghost<Seq<Seq<char>>>,
}

impl View for Session {
    type V = SessionV;

    closed spec fn view(&self) -> SessionV {
        SessionV {
            state: self.state,
            name: self.name@,
            inbound: events_of(self.inbound@),
            outbound: texts_of(self.outbound@),
            handshake_sent: self.handshake_sent,
            written: self.written@,
            enqueued: self.enqueued@,
        }
    }
}

impl Session {
    /// Build a fresh session for the given settings. It starts in
    /// `Loading`; nothing has been received, written or enqueued.
    pub fn new(connection: &ConnectionData) -> (s: Session)
        ensures
            s@ == session_init(connection@.name),
    {
        let s = Session {
            name: connection.name().clone(),
            state: ConnectState::Loading,
            inbound: Vec::new(),
            outbound: Vec::new(),
            handshake_sent: false,
            written: Ghost(Seq::empty()),
            enqueued: Ghost(Seq::empty()),
        };
        proof {
            assert(s@ =~= session_init(connection@.name));
        }
        s
    }

    /// The connection state as the consumer sees it now.
    pub fn current_state(&self) -> (st: ConnectState)
        ensures
            st == self@.state,
    {
        self.state
    }

    /// React to one terminator-stripped line read from the socket.
    /// Returns whether the line was decoded and its event queued; `false`
    /// means the reader loop is over (or the session already was
    /// terminal) and no event was queued.
    pub fn on_line(&mut self, line: &str) -> (ok: bool)
        ensures
            final(self)@ == session_step(old(self)@, SessionStep::Line { line: line@ }),
            ok == (!is_terminal(old(self)@.state) && decode_spec(line@) is Some),
    {
        if self.state == ConnectState::Disconnect || self.state == ConnectState::Failed {
            return false;
        }
        match ChatCommands::from_str(line) {
            Ok(cmd) => {
                self.state = ConnectState::Connected;
                let ghost ev = cmd@;
                self.inbound.push(cmd);
                proof {
                    assert(events_of(self.inbound@) =~= events_of(old(self).inbound@).push(ev));
                    assert(self@ =~= session_step(old(self)@, SessionStep::Line { line: line@ }));
                }
                true
            },
            Err(_) => {
                self.state = if self.state == ConnectState::Connected {
                    ConnectState::Disconnect
                } else {
                    ConnectState::Failed
                };
                proof {
                    assert(self@ =~= session_step(old(self)@, SessionStep::Line { line: line@ }));
                }
                false
            },
        }
    }

    /// React to the socket closing or a read error: the reader loop is
    /// over and the session enters its terminal state.
    pub fn on_socket_closed(&mut self)
        ensures
            final(self)@ == session_step(old(self)@, SessionStep::SocketClosed),
    {
        if !(self.state == ConnectState::Disconnect || self.state == ConnectState::Failed) {
            self.state = if self.state == ConnectState::Connected {
                ConnectState::Disconnect
            } else {
                ConnectState::Failed
            };
        }
        proof {
            assert(self@ =~= session_step(old(self)@, SessionStep::SocketClosed));
        }
    }

    /// React to the connection failing to open at all: straight to
    /// `Failed`, with no retry inside the core.
    pub fn on_connect_failed(&mut self)
        ensures
            final(self)@ == session_step(old(self)@, SessionStep::ConnectFailed),
    {
        if self.state == ConnectState::Loading {
            self.state = ConnectState::Failed;
        }
        proof {
            assert(self@ =~= session_step(old(self)@, SessionStep::ConnectFailed));
        }
    }

    /// Enqueue one raw user-entered string for the writer.
    pub fn send(&mut self, text: String)
        ensures
            final(self)@ == session_step(old(self)@, SessionStep::Enqueue { text: text@ }),
    {
        let ghost t = text@;
        self.outbound.push(text);
        self.enqueued = Ghost(self.enqueued@.push(t));
        proof {
            assert(texts_of(self.outbound@) =~= texts_of(old(self).outbound@).push(t));
            assert(self@ =~= session_step(old(self)@, SessionStep::Enqueue { text: t }));
        }
    }

    /// Hand the writer its next line: the handshake on the very first
    /// take, after that the encoding of the oldest enqueued string, and
    /// `None` when nothing is pending.
    pub fn next_outbound_line(&mut self) -> (r: Option<String>)
        ensures
            final(self)@ == session_step(old(self)@, SessionStep::WriterTake),
            match r {
                Some(line) => line@ == if !old(self)@.handshake_sent {
                    handshake_spec(old(self)@.name)
                } else {
                    encode_outbound_spec(old(self)@.outbound[0])
                },
                None => old(self)@.handshake_sent && old(self)@.outbound.len() == 0,
            },
            r is Some <==> (!old(self)@.handshake_sent || old(self)@.outbound.len() > 0),
    {
        if !self.handshake_sent {
            self.handshake_sent = true;
            let line = encode_handshake(self.name.as_str());
            self.written = Ghost(self.written@.push(line@));
            proof {
                assert(self@ =~= session_step(old(self)@, SessionStep::WriterTake));
            }
            Some(line)
        } else if self.outbound.len() > 0 {
            let text = self.outbound.remove(0);
            let line = encode_outbound(text.as_str());
            self.written = Ghost(self.written@.push(line@));
            proof {
                assert(texts_of(self.outbound@) =~= texts_of(old(self).outbound@).drop_first());
                assert(self@ =~= session_step(old(self)@, SessionStep::WriterTake));
            }
            Some(line)
        } else {
            proof {
                assert(self@ =~= session_step(old(self)@, SessionStep::WriterTake));
            }
            None
        }
    }

    /// Drain the pending events, oldest first, without blocking: empty
    /// when none are pending.
    pub fn poll(&mut self) -> (events: Vec<ChatCommands>)
        ensures
            final(self)@ == session_step(old(self)@, SessionStep::Poll),
            events_of(events@) == old(self)@.inbound,
    {
        let mut events: Vec<ChatCommands> = Vec::new();
        core::mem::swap(&mut events, &mut self.inbound);
        proof {
            assert(events_of(self.inbound@) =~= Seq::<ChatV>::empty());
            assert(self@ =~= session_step(old(self)@, SessionStep::Poll));
        }
        events
    }
}

/// The supervisor's view: the settings of the current session and its
/// state.
pub ghost struct SessionSupervisorV {
    pub connection: ConnectionDataV,
    pub session: SessionV,
}

/// Owns the currently-active session for one logical connection and
/// replaces it wholesale on reconnect; the consumer's calls always reach
/// the current session, never a replaced one.
pub struct SessionSupervisor {
    connection: ConnectionData,
    session: Session,
}

impl View for SessionSupervisor {
    type V = SessionSupervisorV;

    closed spec fn view(&self) -> SessionSupervisorV {
        SessionSupervisorV { connection: self.connection@, session: self.session@ }
    }
}

impl SessionSupervisor {
    /// Start supervising a fresh session built from the given settings.
    pub fn create_session(connection: ConnectionData) -> (sup: SessionSupervisor)
        ensures
            sup@.connection == connection@,
            sup@.session == session_init(connection@.name),
    {
        let session = Session::new(&connection);
        SessionSupervisor { connection, session }
    }

    /// Replace the current session with a fresh one built from the given
    /// (same or edited) settings. The new session starts in `Loading`;
    /// the replaced one is handed back so its loops can run to their own
    /// termination, and nothing it still produces reaches this
    /// supervisor's consumer.
    pub fn reconnect(&mut self, connection: ConnectionData) -> (replaced: Session)
        ensures
            final(self)@.connection == connection@,
            final(self)@.session == session_init(connection@.name),
            replaced@ == old(self)@.session,
    {
        let mut session = Session::new(&connection);
        core::mem::swap(&mut session, &mut self.session);
        self.connection = connection;
        session
    }

    /// The settings the current session was built from.
    pub fn connection(&self) -> (r: &ConnectionData)
        ensures
            r@ == self@.connection,
    {
        &self.connection
    }

    /// The connection state of the current session.
    pub fn current_state(&self) -> (st: ConnectState)
        ensures
            st == self@.session.state,
    {
        self.session.current_state()
    }

    /// Enqueue one raw outbound string on the current session.
    pub fn send(&mut self, text: String)
        ensures
            final(self)@.connection == old(self)@.connection,
            final(self)@.session == session_step(
                old(self)@.session,
                SessionStep::Enqueue { text: text@ },
            ),
    {
        self.session.send(text);
    }

    /// Drain the current session's pending events.
    pub fn poll(&mut self) -> (events: Vec<ChatCommands>)
        ensures
            final(self)@.connection == old(self)@.connection,
            final(self)@.session == session_step(old(self)@.session, SessionStep::Poll),
            events_of(events@) == old(self)@.session.inbound,
    {
        self.session.poll()
    }

    /// React to one line read from the current session's socket.
    pub fn on_line(&mut self, line: &str) -> (ok: bool)
        ensures
            final(self)@.connection == old(self)@.connection,
            final(self)@.session == session_step(
                old(self)@.session,
                SessionStep::Line { line: line@ },
            ),
            ok == (!is_terminal(old(self)@.session.state) && decode_spec(line@) is Some),
    {
        self.session.on_line(line)
    }

    /// React to the current session's socket closing.
    pub fn on_socket_closed(&mut self)
        ensures
            final(self)@.connection == old(self)@.connection,
            final(self)@.session == session_step(old(self)@.session, SessionStep::SocketClosed),
    {
        self.session.on_socket_closed()
    }

    /// React to the current session's connection failing to open.
    pub fn on_connect_failed(&mut self)
        ensures
            final(self)@.connection == old(self)@.connection,
            final(self)@.session == session_step(old(self)@.session, SessionStep::ConnectFailed),
    {
        self.session.on_connect_failed()
    }

    /// Hand the current session's writer its next line.
    pub fn next_outbound_line(&mut self) -> (r: Option<String>)
        ensures
            final(self)@.connection == old(self)@.connection,
            final(self)@.session == session_step(old(self)@.session, SessionStep::WriterTake),
            match r {
                Some(line) => line@ == if !old(self)@.session.handshake_sent {
                    handshake_spec(old(self)@.session.name)
                } else {
                    encode_outbound_spec(old(self)@.session.outbound[0])
                },
                None => old(self)@.session.handshake_sent && old(self)@.session.outbound.len()
                    == 0,
            },
    {
        self.session.next_outbound_line()
    }
}

} // verus!
