//! One client connection bound to a session: the join-time replay, the
//! forwarding of live output, and the client's own messages.

use vstd::prelude::*;
use vstd::string::StringSliceAdditionalSpecFns;
use vstd::slice::slice_to_vec;
use crate::history::History;
use crate::session::{resize_notice, Session, SetSize};
use crate::viewport::{reconciled, ClientId};
use crate::wire::{outbound_rule, outbound_step, ChannelEvent, FrameView, Outbound, OutboundView, ServerFrame};

verus! {

/// The answer to a client that asks for a session that does not exist.
pub const NOT_FOUND_MESSAGE: &'static str = "Session not found";

/// A message a client sends, decoded from its tagged JSON form.
pub enum ClientMessage {
    /// Keystrokes, forwarded verbatim to the terminal.
    Input(String),
    /// The client's new viewport.
    Resize { rows: u16, cols: u16 },
}

/// What to do for one client message.
pub enum Inbound {
    /// Write these bytes to the terminal.
    Write(Vec<u8>),
    /// The client's viewport was recorded; apply and broadcast the new
    /// size, if there is one.
    Resized(Option<SetSize>),
}

/// The frames a client is sent on joining: the history as one binary frame,
/// or nothing when the history is empty.
pub open spec fn replay_of(history: Seq<u8>) -> Seq<FrameView> {
    if history.len() == 0 {
        Seq::empty()
    } else {
        seq![FrameView::Binary(history)]
    }
}

/// Relies on `uuid::Uuid::new_v4`: a random identifier. Nothing is
/// promised of its value.
#[verifier::external_body]
fn new_client_id() -> (r: ClientId) {
    uuid::Uuid::new_v4().as_u128()
}

/// The outbound side of one attached client.
pub struct Connection {
    client: ClientId,
    finished: bool,
    replay: Ghost<Seq<FrameView>>,
    sent: Ghost<Seq<FrameView>>,
}

impl Connection {
    pub closed spec fn client_id(&self) -> ClientId {
        self.client
    }

    /// Whether the last frame has been sent.
    pub closed spec fn is_finished(&self) -> bool {
        self.finished
    }

    /// The join-time replay of this connection.
    pub closed spec fn replay(&self) -> Seq<FrameView> {
        self.replay@
    }

    /// Every frame sent to the client so far, in order.
    pub closed spec fn sent(&self) -> Seq<FrameView> {
        self.sent@
    }

    /// The replay comes first, before any frame of live output.
    pub open spec fn wf(&self) -> bool {
        &&& self.replay().len() <= self.sent().len()
        &&& self.sent().subrange(0, self.replay().len() as int) == self.replay()
    }

    /// Attaches a new client with a fresh identifier. Returns the connection
    /// and the frame to send first: the history, if it is not empty.
    pub fn attach(history: &History) -> (r: (Connection, Option<ServerFrame>))
        ensures
            r.0.wf(),
            !r.0.is_finished(),
            r.0.replay() == replay_of(history@),
            r.0.sent() == replay_of(history@),
            history@.len() == 0 ==> r.1 is None,
            history@.len() > 0 ==> (r.1 matches Some(f) && f@ == FrameView::Binary(history@)),
    {
        let client = new_client_id();
        let first = if history.is_empty() {
            None
        } else {
            Some(ServerFrame::Binary(history.snapshot()))
        };
        let ghost replay = replay_of(history@);
        let conn = Connection { client, finished: false, replay: Ghost(replay), sent: Ghost(replay) };
        assert(conn.sent().subrange(0, conn.replay().len() as int) =~= conn.replay());
        (conn, first)
    }

    pub fn client(&self) -> (r: ClientId)
        ensures
            r == self.client_id(),
    {
        self.client
    }

    pub fn finished(&self) -> (r: bool)
        ensures
            r == self.is_finished(),
    {
        self.finished
    }

    /// Handles one event of the fan-out channel and returns the frame to
    /// send, if any. After the exit notice the connection is finished.
    pub fn on_output(&mut self, event: ChannelEvent) -> (r: Option<ServerFrame>)
        requires
            old(self).wf(),
            !old(self).is_finished(),
        ensures
            final(self).wf(),
            final(self).client_id() == old(self).client_id(),
            final(self).replay() == old(self).replay(),
            match outbound_rule(event) {
                OutboundView::Send(f) => {
                    &&& r matches Some(g) && g@ == f
                    &&& final(self).sent() == old(self).sent().push(f)
                    &&& !final(self).is_finished()
                },
                OutboundView::Skip => {
                    &&& r is None
                    &&& final(self).sent() == old(self).sent()
                    &&& !final(self).is_finished()
                },
                OutboundView::Finish(f) => {
                    &&& r matches Some(g) && g@ == f
                    &&& final(self).sent() == old(self).sent().push(f)
                    &&& final(self).is_finished()
                },
            },
    {
        let ghost before = self.sent@;
        let ghost n = self.replay@.len() as int;
        let r = match outbound_step(event) {
            Outbound::Send(f) => {
                self.sent = Ghost(self.sent@.push(f@));
                Some(f)
            },
            Outbound::Skip => None,
            Outbound::Finish(f) => {
                self.sent = Ghost(self.sent@.push(f@));
                self.finished = true;
                Some(f)
            },
        };
        assert(self.sent@.subrange(0, n) =~= before.subrange(0, n));
        r
    }
}

/// A client that joins a session with a non-empty history receives that
/// history as its first frame, before any frame of live output.
pub proof fn lemma_replay_before_live(c: Connection, history: Seq<u8>)
    requires
        c.wf(),
        c.replay() == replay_of(history),
        history.len() > 0,
    ensures
        c.sent().len() >= 1,
        c.sent()[0] == FrameView::Binary(history),
{
    assert(c.sent().subrange(0, 1)[0] == c.sent()[0]);
}

/// Applies one client message to `session`: input becomes bytes for the
/// terminal, unchanged; a resize records the client's viewport and yields
/// the new size to broadcast, if the size moved.
pub fn handle_client_message(session: &mut Session, client: ClientId, msg: ClientMessage) -> (r: Inbound)
    requires
        old(session).wf(),
    ensures
        final(session).wf(),
        final(session).session_id() == old(session).session_id(),
        match msg {
            ClientMessage::Input(text) => {
                &&& r matches Inbound::Write(b) && b@ == vstd::utf8::encode_utf8(text@)
                &&& final(session).clients() == old(session).clients()
                &&& final(session).current_size() == old(session).current_size()
            },
            ClientMessage::Resize { rows, cols } => {
                &&& final(session).clients() == old(session).clients().insert(client, (rows, cols))
                &&& reconciled(final(session).clients(), final(session).current_size())
                &&& r == Inbound::Resized(
                    resize_notice(old(session).current_size(), final(session).current_size()),
                )
            },
        },
{
    match msg {
        ClientMessage::Input(text) => Inbound::Write(slice_to_vec(text.as_str().as_bytes())),
        ClientMessage::Resize { rows, cols } => Inbound::Resized(
            session.update_client_size(client, rows, cols),
        ),
    }
}

} // verus!
