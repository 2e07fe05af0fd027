//! WebSocket session state machine: the ordered event queue fed by the
//! connect, read and write activities, the outbound command channel, and
//! the lifecycle invariants (connect outcome first, disconnect terminal).

use std::collections::VecDeque;
use vstd::prelude::*;
use vstd::string::StrSliceExecFns;
use vstd::string::StringExecFns;
use vstd::utf8::encode_utf8;

verus! {

/// One event a session delivers to the host, in strict arrival order.
pub enum WsMessage {
    /// The handshake succeeded; always the first event of a live session.
    ConnectSuccess,
    /// The handshake failed for the given reason; terminal.
    ConnectFailed(String),
    /// The session ended for the given reason; terminal.
    Disconnect(String),
    /// A ping frame arrived.
    RecvPing,
    /// A pong frame arrived.
    RecvPong,
    /// A text frame arrived.
    RecvText(String),
    /// A binary frame arrived.
    RecvBinary(Vec<u8>),
}

/// Mathematical model of a [`WsMessage`].
pub enum MsgView {
    ConnectSuccess,
    ConnectFailed(Seq<char>),
    Disconnect(Seq<char>),
    RecvPing,
    RecvPong,
    RecvText(Seq<char>),
    RecvBinary(Seq<u8>),
}

impl View for WsMessage {
    type V = MsgView;

    open spec fn view(&self) -> MsgView {
        match self {
            WsMessage::ConnectSuccess => MsgView::ConnectSuccess,
            WsMessage::ConnectFailed(s) => MsgView::ConnectFailed(s@),
            WsMessage::Disconnect(s) => MsgView::Disconnect(s@),
            WsMessage::RecvPing => MsgView::RecvPing,
            WsMessage::RecvPong => MsgView::RecvPong,
            WsMessage::RecvText(s) => MsgView::RecvText(s@),
            WsMessage::RecvBinary(b) => MsgView::RecvBinary(b@),
        }
    }
}

/// The integer tag under which the host receives each event kind; 0 is
/// reserved for "no event ready".
pub open spec fn msg_code(m: MsgView) -> int {
    match m {
        MsgView::ConnectSuccess => 1,
        MsgView::ConnectFailed(_) => 2,
        MsgView::Disconnect(_) => 3,
        MsgView::RecvPing => 4,
        MsgView::RecvPong => 5,
        MsgView::RecvText(_) => 6,
        MsgView::RecvBinary(_) => 7,
    }
}

/// The payload bytes under which the host receives one event: message text
/// and failure reasons as UTF-8, binary data as is, nothing otherwise.
pub open spec fn msg_payload(m: MsgView) -> Seq<u8> {
    match m {
        MsgView::ConnectSuccess => Seq::<u8>::empty(),
        MsgView::ConnectFailed(s) => encode_utf8(s),
        MsgView::Disconnect(s) => encode_utf8(s),
        MsgView::RecvPing => Seq::<u8>::empty(),
        MsgView::RecvPong => Seq::<u8>::empty(),
        MsgView::RecvText(s) => encode_utf8(s),
        MsgView::RecvBinary(b) => b,
    }
}

/// The tag-and-buffer shape in which one event crosses to the host.
pub struct WsMessageData {
    pub message_type: i32,
    pub data: Vec<u8>,
}

impl WsMessageData {
    /// The "no event ready" value: tag 0, empty buffer.
    pub fn default() -> (r: WsMessageData)
        ensures
            r.message_type == 0,
            r.data@ == Seq::<u8>::empty(),
    {
        WsMessageData { message_type: 0, data: Vec::new() }
    }

    /// Package one event for the host: its integer tag and its payload
    /// bytes.
    pub fn from(msg: WsMessage) -> (r: WsMessageData)
        ensures
            r.message_type as int == msg_code(msg@),
            r.data@ == msg_payload(msg@),
    {
        match msg {
            WsMessage::ConnectSuccess => WsMessageData { message_type: 1, data: Vec::new() },
            WsMessage::ConnectFailed(s) => WsMessageData {
                message_type: 2,
                data: s.as_str().as_bytes_vec(),
            },
            WsMessage::Disconnect(s) => WsMessageData {
                message_type: 3,
                data: s.as_str().as_bytes_vec(),
            },
            WsMessage::RecvPing => WsMessageData { message_type: 4, data: Vec::new() },
            WsMessage::RecvPong => WsMessageData { message_type: 5, data: Vec::new() },
            WsMessage::RecvText(s) => WsMessageData {
                message_type: 6,
                data: s.as_str().as_bytes_vec(),
            },
            WsMessage::RecvBinary(b) => WsMessageData { message_type: 7, data: b },
        }
    }
}

/// One outbound command for the session's write loop.
pub enum WsWriterMessage {
    /// Send these bytes to the peer.
    Send(Vec<u8>),
    /// Close the session proactively.
    Close,
}

/// Mathematical model of a [`WsWriterMessage`].
pub enum CmdView {
    Send(Seq<u8>),
    Close,
}

impl View for WsWriterMessage {
    type V = CmdView;

    open spec fn view(&self) -> CmdView {
        match self {
            WsWriterMessage::Send(b) => CmdView::Send(b@),
            WsWriterMessage::Close => CmdView::Close,
        }
    }
}

/// One inbound frame, classified into plain data at the transport edge;
/// `Raw` stands for a low-level frame that carries no event.
pub enum WsFrame {
    Text(String),
    Binary(Vec<u8>),
    Ping,
    Pong,
    Close,
    Raw,
}

/// The event one inbound frame appends, if any: a close frame turns into
/// the terminal disconnect, a raw frame into nothing.
pub open spec fn frame_event(frame: WsFrame) -> Option<MsgView> {
    match frame {
        WsFrame::Text(s) => Option::Some(MsgView::RecvText(s@)),
        WsFrame::Binary(b) => Option::Some(MsgView::RecvBinary(b@)),
        WsFrame::Ping => Option::Some(MsgView::RecvPing),
        WsFrame::Pong => Option::Some(MsgView::RecvPong),
        WsFrame::Close => Option::Some(MsgView::Disconnect("close"@)),
        WsFrame::Raw => Option::None,
    }
}

/// The header value under which one supplied cookie pair is injected into
/// the handshake request: the key and value joined by an equals sign.
pub fn cookie_header_value(pair: &crate::http::Pair) -> (r: String)
    ensures
        r@ == pair.key@ + "="@ + pair.value@,
{
    let mut s = pair.key.clone();
    s.append("=");
    s.append(pair.value.as_str());
    s
}

/// Lifecycle phase of a session.
#[derive(Clone, Copy, PartialEq, Eq, Structural)]
pub enum SessionPhase {
    /// The handshake has not resumed yet; no events exist.
    Connecting,
    /// The handshake succeeded and both loops are racing.
    Active,
    /// The session ended: handshake failure or disconnect.
    Terminated,
}

/// Whether an event is a lifecycle marker (a connect outcome).
pub open spec fn is_lifecycle_marker(m: MsgView) -> bool {
    m is ConnectSuccess || m is ConnectFailed
}

/// Whether an event is terminal: nothing may follow it.
pub open spec fn is_terminal(m: MsgView) -> bool {
    m is ConnectFailed || m is Disconnect
}

/// A well-formed event history for a session in `phase`: the connect
/// outcome always comes first and never repeats, and a terminal event is
/// always last.
pub open spec fn wf_history(h: Seq<MsgView>, phase: SessionPhase) -> bool {
    match phase {
        SessionPhase::Connecting => h.len() == 0,
        SessionPhase::Active => h.len() >= 1 && h[0] is ConnectSuccess && (forall|i: int|
            1 <= i < h.len() ==> !is_lifecycle_marker(#[trigger] h[i]) && !is_terminal(h[i])),
        SessionPhase::Terminated => h.len() >= 1 && is_lifecycle_marker(h[0]) && is_terminal(
            h.last(),
        ) && (h[0] is ConnectFailed ==> h.len() == 1) && (h.len() > 1 ==> h[0]
            is ConnectSuccess && h.last() is Disconnect) && (forall|i: int|
            1 <= i < h.len() - 1 ==> !is_lifecycle_marker(#[trigger] h[i]) && !is_terminal(
                h[i],
            )),
    }
}

/// One WebSocket session as the host polls it: the ordered event queue fed
/// by the connect, read and write activities, the outbound command queue,
/// and the lifecycle phase. The transport stream itself lives with the
/// embedding program, which drives the `on_*` transitions from its loops.
pub struct WsContext {
    msg_queue: VecDeque<WsMessage>,
    outbox: VecDeque<WsWriterMessage>,
    channel_open: bool,
    phase: SessionPhase,
    taken: Ghost<Seq<MsgView>>,
}

impl WsContext {
    /// Events already handed to the host, in delivery order.
    pub closed spec fn taken_events(self) -> Seq<MsgView> {
        self.taken@
    }

    /// Events appended but not yet handed to the host, in arrival order.
    pub closed spec fn pending_events(self) -> Seq<MsgView> {
        self.msg_queue@.map_values(|m: WsMessage| m@)
    }

    /// The session's full event history, in order: what was handed out,
    /// then what is still queued.
    pub open spec fn events(self) -> Seq<MsgView> {
        self.taken_events() + self.pending_events()
    }

    /// Outbound commands enqueued and not yet consumed by the write loop.
    pub closed spec fn commands(self) -> Seq<CmdView> {
        self.outbox@.map_values(|c: WsWriterMessage| c@)
    }

    /// The session's lifecycle phase.
    pub closed spec fn phase(self) -> SessionPhase {
        self.phase
    }

    /// Whether the outbound command channel was established; it opens on
    /// connect success and stays open.
    pub closed spec fn channel_open(self) -> bool {
        self.channel_open
    }

    /// Validity: the history is well formed for the phase, and the channel
    /// exists exactly from connect success on.
    pub open spec fn wf(self) -> bool {
        &&& wf_history(self.events(), self.phase())
        &&& self.channel_open() == (self.events().len() >= 1 && self.events()[0]
            is ConnectSuccess)
    }

    /// A session as freshly created by a connect request: connecting, no
    /// events, no commands.
    pub fn new() -> (s: WsContext)
        ensures
            s.wf(),
            s.phase() == SessionPhase::Connecting,
            s.events() == Seq::<MsgView>::empty(),
            s.taken_events() == Seq::<MsgView>::empty(),
            s.commands() == Seq::<CmdView>::empty(),
            !s.channel_open(),
    {
        let s = WsContext {
            msg_queue: VecDeque::new(),
            outbox: VecDeque::new(),
            channel_open: false,
            phase: SessionPhase::Connecting,
            taken: Ghost(Seq::empty()),
        };
        proof {
            assert(s.events() =~= Seq::<MsgView>::empty());
            assert(s.commands() =~= Seq::<CmdView>::empty());
        }
        s
    }

    /// The connect task resumed with a successful handshake: the connect
    /// event enters the queue first, the outbound channel opens, and the
    /// session becomes active. In any other phase (the host tore the
    /// session down first, or the task already resumed) nothing happens.
    pub fn on_connect_ok(&mut self)
        requires
            old(self).wf(),
        ensures
            final(self).wf(),
            old(self).phase() == SessionPhase::Connecting ==> final(self).phase()
                == SessionPhase::Active && final(self).events() == old(self).events().push(
                MsgView::ConnectSuccess,
            ) && final(self).channel_open(),
            old(self).phase() != SessionPhase::Connecting ==> *final(self) == *old(self),
            final(self).taken_events() == old(self).taken_events(),
            final(self).commands() == old(self).commands(),
    {
        if self.phase == SessionPhase::Connecting {
            self.msg_queue.push_back(WsMessage::ConnectSuccess);
            self.channel_open = true;
            self.phase = SessionPhase::Active;
            proof {
                assert(self.events() =~= old(self).events().push(MsgView::ConnectSuccess));
            }
        }
    }

    /// The connect task resumed with a failed handshake: the failure is the
    /// session's only event, and the session is terminated. In any other
    /// phase nothing happens.
    pub fn on_connect_failed(&mut self, reason: String)
        requires
            old(self).wf(),
        ensures
            final(self).wf(),
            old(self).phase() == SessionPhase::Connecting ==> final(self).phase()
                == SessionPhase::Terminated && final(self).events() == old(self).events().push(MsgView::ConnectFailed(reason@)),
            old(self).phase() != SessionPhase::Connecting ==> *final(self) == *old(self),
            final(self).taken_events() == old(self).taken_events(),
            final(self).commands() == old(self).commands(),
            final(self).channel_open() == old(self).channel_open(),
    {
        if self.phase == SessionPhase::Connecting {
            let ghost r = reason@;
            self.msg_queue.push_back(WsMessage::ConnectFailed(reason));
            self.phase = SessionPhase::Terminated;
            proof {
                assert(self.events() =~= old(self).events().push(MsgView::ConnectFailed(r)));
            }
        }
    }

    /// The read loop consumed one inbound frame: a data frame appends its
    /// event in arrival order; a close frame appends the terminal
    /// disconnect and ends the session; a raw frame carries no event.
    /// Outside the active phase nothing happens.
    pub fn on_frame(&mut self, frame: WsFrame)
        requires
            old(self).wf(),
        ensures
            final(self).wf(),
            old(self).phase() == SessionPhase::Active ==> {
                &&& (frame_event(frame) matches Option::Some(m) ==> final(self).events()
                    == old(self).events().push(m))
                &&& (frame_event(frame) is None ==> final(self).events() == old(self).events())
                &&& final(self).phase() == if frame is Close {
                    SessionPhase::Terminated
                } else {
                    SessionPhase::Active
                }
            },
            old(self).phase() != SessionPhase::Active ==> *final(self) == *old(self),
            final(self).taken_events() == old(self).taken_events(),
            final(self).commands() == old(self).commands(),
            final(self).channel_open() == old(self).channel_open(),
    {
        if self.phase == SessionPhase::Active {
            let ghost fe = frame_event(frame);
            match frame {
                WsFrame::Text(s) => {
                    self.msg_queue.push_back(WsMessage::RecvText(s));
                },
                WsFrame::Binary(b) => {
                    self.msg_queue.push_back(WsMessage::RecvBinary(b));
                },
                WsFrame::Ping => {
                    self.msg_queue.push_back(WsMessage::RecvPing);
                },
                WsFrame::Pong => {
                    self.msg_queue.push_back(WsMessage::RecvPong);
                },
                WsFrame::Close => {
                    self.msg_queue.push_back(
                        WsMessage::Disconnect(String::from_str("close")),
                    );
                    self.phase = SessionPhase::Terminated;
                },
                WsFrame::Raw => {},
            }
            proof {
                if fe is Some {
                    assert(self.events() =~= old(self).events().push(fe->Some_0));
                } else {
                    assert(self.events() =~= old(self).events());
                }
            }
        }
    }

    /// The read loop hit a transport error: the terminal disconnect carries
    /// its message and the session ends. Outside the active phase nothing
    /// happens.
    pub fn on_read_error(&mut self, reason: String)
        requires
            old(self).wf(),
        ensures
            final(self).wf(),
            old(self).phase() == SessionPhase::Active ==> final(self).phase()
                == SessionPhase::Terminated && final(self).events() == old(self).events().push(MsgView::Disconnect(reason@)),
            old(self).phase() != SessionPhase::Active ==> *final(self) == *old(self),
            final(self).taken_events() == old(self).taken_events(),
            final(self).commands() == old(self).commands(),
            final(self).channel_open() == old(self).channel_open(),
    {
        if self.phase == SessionPhase::Active {
            let ghost r = reason@;
            self.msg_queue.push_back(WsMessage::Disconnect(reason));
            self.phase = SessionPhase::Terminated;
            proof {
                assert(self.events() =~= old(self).events().push(MsgView::Disconnect(r)));
            }
        }
    }

    /// The write loop failed to send: the terminal disconnect carries the
    /// send error's message and the session ends. Outside the active phase
    /// nothing happens.
    pub fn on_send_failed(&mut self, reason: String)
        requires
            old(self).wf(),
        ensures
            final(self).wf(),
            old(self).phase() == SessionPhase::Active ==> final(self).phase()
                == SessionPhase::Terminated && final(self).events() == old(self).events().push(MsgView::Disconnect(reason@)),
            old(self).phase() != SessionPhase::Active ==> *final(self) == *old(self),
            final(self).taken_events() == old(self).taken_events(),
            final(self).commands() == old(self).commands(),
            final(self).channel_open() == old(self).channel_open(),
    {
        self.on_read_error(reason);
    }

    /// The write loop consumed an explicit close command: the terminal
    /// disconnect says so and the session ends. Outside the active phase
    /// nothing happens.
    pub fn on_close_command(&mut self)
        requires
            old(self).wf(),
        ensures
            final(self).wf(),
            old(self).phase() == SessionPhase::Active ==> final(self).phase()
                == SessionPhase::Terminated && final(self).events() == old(self).events().push(MsgView::Disconnect("proactively disconnected"@)),
            old(self).phase() != SessionPhase::Active ==> *final(self) == *old(self),
            final(self).taken_events() == old(self).taken_events(),
            final(self).commands() == old(self).commands(),
            final(self).channel_open() == old(self).channel_open(),
    {
        self.on_read_error(String::from_str("proactively disconnected"));
    }

    /// The host hands bytes to the session: enqueued for the write loop
    /// when the outbound channel exists, silently dropped before connect
    /// success. Best effort, never blocking: the command may still be
    /// unconsumed when the session ends.
    pub fn send(&mut self, data: Vec<u8>)
        requires
            old(self).wf(),
        ensures
            final(self).wf(),
            old(self).channel_open() ==> final(self).commands() == old(self).commands().push(CmdView::Send(data@)),
            !old(self).channel_open() ==> *final(self) == *old(self),
            final(self).events() == old(self).events(),
            final(self).taken_events() == old(self).taken_events(),
            final(self).phase() == old(self).phase(),
            final(self).channel_open() == old(self).channel_open(),
    {
        if self.channel_open {
            let ghost pre = self.commands();
            let ghost d = data@;
            self.outbox.push_back(WsWriterMessage::Send(data));
            proof {
                assert(self.commands() =~= pre.push(CmdView::Send(d)));
            }
        }
    }

    /// Tearing the session down best-effort-posts a close command for the
    /// write loop; nothing is posted before connect success.
    pub fn post_close(&mut self)
        requires
            old(self).wf(),
        ensures
            final(self).wf(),
            old(self).channel_open() ==> final(self).commands() == old(self).commands().push(CmdView::Close),
            !old(self).channel_open() ==> *final(self) == *old(self),
            final(self).events() == old(self).events(),
            final(self).taken_events() == old(self).taken_events(),
            final(self).phase() == old(self).phase(),
            final(self).channel_open() == old(self).channel_open(),
    {
        if self.channel_open {
            let ghost pre = self.commands();
            self.outbox.push_back(WsWriterMessage::Close);
            proof {
                assert(self.commands() =~= pre.push(CmdView::Close));
            }
        }
    }

    /// The write loop takes its next command, in the order the host posted
    /// them.
    pub fn next_command(&mut self) -> (r: Option<WsWriterMessage>)
        requires
            old(self).wf(),
        ensures
            final(self).wf(),
            old(self).commands().len() == 0 ==> r is None && final(self).commands() == old(self).commands(),
            old(self).commands().len() > 0 ==> (r matches Option::Some(c) && c@ == old(self).commands()[0] && final(self).commands() == old(self).commands().drop_first()),
            final(self).events() == old(self).events(),
            final(self).taken_events() == old(self).taken_events(),
            final(self).phase() == old(self).phase(),
            final(self).channel_open() == old(self).channel_open(),
    {
        let r = self.outbox.pop_front();
        proof {
            if old(self).outbox@.len() > 0 {
                assert(self.commands() =~= old(self).commands().drop_first());
            }
        }
        r
    }

    /// The host polls the next event, strictly in arrival order; nothing
    /// queued means no event. Consuming an event never changes the
    /// session's history, phase or commands.
    pub fn next_event(&mut self) -> (r: Option<WsMessage>)
        requires
            old(self).wf(),
        ensures
            final(self).wf(),
            old(self).pending_events().len() == 0 ==> r is None && final(self).pending_events() == old(self).pending_events(),
            old(self).pending_events().len() > 0 ==> (r matches Option::Some(m) && m@ == old(self).pending_events()[0] && final(self).pending_events() == old(self).pending_events().drop_first() && final(self).taken_events() == old(self).taken_events().push(m@)),
            final(self).events() == old(self).events(),
            final(self).phase() == old(self).phase(),
            final(self).commands() == old(self).commands(),
            final(self).channel_open() == old(self).channel_open(),
    {
        let r = self.msg_queue.pop_front();
        match &r {
            Option::Some(m) => {
                proof {
                    self.taken = Ghost(self.taken@.push(m@));
                    assert(self.pending_events() =~= old(self).pending_events().drop_first());
                    assert(self.events() =~= old(self).events());
                }
            },
            Option::None => {},
        }
        r
    }

    /// The host polls the next event in the boundary shape: the packaged
    /// event, or the "no event ready" value when the queue is empty.
    pub fn get_message(&mut self) -> (r: WsMessageData)
        requires
            old(self).wf(),
        ensures
            final(self).wf(),
            old(self).pending_events().len() == 0 ==> r.message_type == 0 && r.data@
                == Seq::<u8>::empty() && final(self).pending_events() == old(
                self,
            ).pending_events() && final(self).taken_events() == old(self).taken_events(),
            old(self).pending_events().len() > 0 ==> r.message_type as int == msg_code(
                old(self).pending_events()[0],
            ) && r.data@ == msg_payload(old(self).pending_events()[0]) && final(self).pending_events() == old(self).pending_events().drop_first() && final(self).taken_events() == old(self).taken_events().push(
                old(self).pending_events()[0],
            ),
            final(self).events() == old(self).events(),
            final(self).phase() == old(self).phase(),
            final(self).commands() == old(self).commands(),
            final(self).channel_open() == old(self).channel_open(),
    {
        match self.next_event() {
            Option::Some(m) => WsMessageData::from(m),
            Option::None => WsMessageData::default(),
        }
    }
}

/// Law: in a well-formed session history the connect outcome stands first
/// and only first, and a terminal event (handshake failure or disconnect)
/// stands last and only last — no event ever follows it.
pub proof fn lemma_history_shape(h: Seq<MsgView>, phase: SessionPhase, i: int)
    requires
        wf_history(h, phase),
        0 <= i < h.len(),
    ensures
        is_lifecycle_marker(h[i]) ==> i == 0,
        is_terminal(h[i]) ==> i == h.len() - 1,
{
}

} // verus!
