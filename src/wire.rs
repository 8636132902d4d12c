//! The bytes of the streaming protocol: control messages that the server
//! broadcasts, and how a chunk of the fan-out channel becomes a frame.

use vstd::prelude::*;
use vstd::utf8::{decode_utf8, encode_utf8, valid_utf8, encode_utf8_valid_utf8, valid_utf8_concat};
use vstd::string::StringSliceAdditionalSpecFns;
use crate::session::SetSize;

verus! {

/// Every control message starts with these bytes.
pub const CONTROL_PREFIX: &'static str = "{\"type\":";

pub const SET_SIZE_ROWS: &'static str = "\"SetSize\",\"data\":{\"rows\":";

pub const SET_SIZE_COLS: &'static str = ",\"cols\":";

pub const SET_SIZE_END: &'static str = "}}";

/// The notice sent to a client when the terminal process has ended.
pub const EXIT_MESSAGE: &'static str = "{\"type\":\"Exit\"}";

/// The decimal digits of `n`, most significant first, as ASCII bytes.
pub open spec fn decimal(n: nat) -> Seq<u8>
    decreases n,
{
    if n < 10 {
        seq![(n + 48) as u8]
    } else {
        decimal(n / 10).push((n % 10 + 48) as u8)
    }
}

/// The bytes of the control message `{"type":"SetSize","data":{"rows":R,"cols":C}}`.
pub open spec fn set_size_message(rows: u16, cols: u16) -> Seq<u8> {
    CONTROL_PREFIX.spec_bytes() + SET_SIZE_ROWS.spec_bytes() + decimal(rows as nat)
        + SET_SIZE_COLS.spec_bytes() + decimal(cols as nat) + SET_SIZE_END.spec_bytes()
}

/// A chunk is a control message when it begins with `CONTROL_PREFIX`.
pub open spec fn is_control(chunk: Seq<u8>) -> bool {
    let p = CONTROL_PREFIX.spec_bytes();
    p.len() <= chunk.len() && chunk.subrange(0, p.len() as int) == p
}

proof fn lemma_ascii_digit_utf8(b: u8)
    requires
        48 <= b <= 57,
    ensures
        valid_utf8(seq![b]),
{
    let s = seq![b];
    assert((b & 0x7f) as u32 <= 0x7f) by (bit_vector);
    assert(s.subrange(1, 1) =~= Seq::<u8>::empty());
    reveal_with_fuel(valid_utf8, 2);
}

proof fn lemma_decimal_utf8(n: nat)
    ensures
        valid_utf8(decimal(n)),
    decreases n,
{
    if n < 10 {
        lemma_ascii_digit_utf8((n + 48) as u8);
    } else {
        lemma_decimal_utf8(n / 10);
        lemma_ascii_digit_utf8((n % 10 + 48) as u8);
        valid_utf8_concat(decimal(n / 10), seq![(n % 10 + 48) as u8]);
        assert(decimal(n / 10) + seq![(n % 10 + 48) as u8] =~= decimal(n));
    }
}

/// A set-size message is a control message and valid UTF-8.
pub proof fn lemma_set_size_message_is_control_text(rows: u16, cols: u16)
    ensures
        is_control(set_size_message(rows, cols)),
        valid_utf8(set_size_message(rows, cols)),
{
    let p = CONTROL_PREFIX.spec_bytes();
    let m = set_size_message(rows, cols);
    let rest = SET_SIZE_ROWS.spec_bytes() + decimal(rows as nat) + SET_SIZE_COLS.spec_bytes()
        + decimal(cols as nat) + SET_SIZE_END.spec_bytes();
    assert(m =~= p + rest);
    assert(m.subrange(0, p.len() as int) =~= p);
    encode_utf8_valid_utf8(CONTROL_PREFIX@);
    encode_utf8_valid_utf8(SET_SIZE_ROWS@);
    encode_utf8_valid_utf8(SET_SIZE_COLS@);
    encode_utf8_valid_utf8(SET_SIZE_END@);
    lemma_decimal_utf8(rows as nat);
    lemma_decimal_utf8(cols as nat);
    let a = p + SET_SIZE_ROWS.spec_bytes();
    valid_utf8_concat(p, SET_SIZE_ROWS.spec_bytes());
    valid_utf8_concat(a, decimal(rows as nat));
    let b = a + decimal(rows as nat);
    valid_utf8_concat(b, SET_SIZE_COLS.spec_bytes());
    let c = b + SET_SIZE_COLS.spec_bytes();
    valid_utf8_concat(c, decimal(cols as nat));
    let d = c + decimal(cols as nat);
    valid_utf8_concat(d, SET_SIZE_END.spec_bytes());
}

fn push_bytes(out: &mut Vec<u8>, bytes: &[u8])
    ensures
        final(out)@ == old(out)@ + bytes@,
{
    let mut i: usize = 0;
    while i < bytes.len()
        invariant
            i <= bytes@.len(),
            out@ == old(out)@ + bytes@.subrange(0, i as int),
        decreases bytes@.len() - i,
    {
        out.push(bytes[i]);
        i = i + 1;
        assert(out@ =~= old(out)@ + bytes@.subrange(0, i as int));
    }
    assert(bytes@.subrange(0, bytes@.len() as int) =~= bytes@);
}

fn push_decimal(out: &mut Vec<u8>, n: u16)
    ensures
        final(out)@ == old(out)@ + decimal(n as nat),
    decreases n,
{
    if n >= 10 {
        push_decimal(out, n / 10);
    }
    out.push((n % 10) as u8 + 48);
    assert(out@ =~= old(out)@ + decimal(n as nat));
}

impl SetSize {
    /// The control message that announces this size to attached clients.
    pub fn to_message(&self) -> (r: Vec<u8>)
        ensures
            r@ == set_size_message(self.rows, self.cols),
    {
        let mut out: Vec<u8> = Vec::new();
        push_bytes(&mut out, CONTROL_PREFIX.as_bytes());
        push_bytes(&mut out, SET_SIZE_ROWS.as_bytes());
        push_decimal(&mut out, self.rows);
        push_bytes(&mut out, SET_SIZE_COLS.as_bytes());
        push_decimal(&mut out, self.cols);
        push_bytes(&mut out, SET_SIZE_END.as_bytes());
        out
    }
}

/// Whether `chunk` is a control message, by its first bytes.
pub fn is_control_message(chunk: &[u8]) -> (r: bool)
    ensures
        r == is_control(chunk@),
{
    let p = CONTROL_PREFIX.as_bytes();
    if p.len() > chunk.len() {
        return false;
    }
    let mut i: usize = 0;
    while i < p.len()
        invariant
            p@ == CONTROL_PREFIX.spec_bytes(),
            p@.len() <= chunk@.len(),
            i <= p@.len(),
            forall|j: int| 0 <= j < i ==> chunk@[j] == p@[j],
        decreases p@.len() - i,
    {
        if chunk[i] != p[i] {
            assert(chunk@.subrange(0, p@.len() as int)[i as int] != p@[i as int]);
            return false;
        }
        i = i + 1;
    }
    assert(chunk@.subrange(0, p@.len() as int) =~= p@);
    true
}

/// Relies on `String::from_utf8`: it accepts exactly the well-formed UTF-8
/// byte sequences and decodes them.
#[verifier::external_body]
fn utf8_text(bytes: &[u8]) -> (r: Option<String>)
    ensures
        r is Some <==> valid_utf8(bytes@),
        r matches Some(s) ==> s@ == decode_utf8(bytes@),
{
    String::from_utf8(bytes.to_vec()).ok()
}

/// What the fan-out channel hands one subscriber.
pub enum ChannelEvent {
    /// A chunk of terminal output or a control message; empty when the
    /// terminal process has ended.
    Output(Vec<u8>),
    /// The subscriber fell behind and this many messages were dropped.
    Lagged(u64),
    /// The channel is closed for good.
    Closed,
}

/// One frame sent to a client.
pub enum ServerFrame {
    Text(String),
    Binary(Vec<u8>),
}

/// The model of a frame.
pub enum FrameView {
    Text(Seq<char>),
    Binary(Seq<u8>),
}

impl View for ServerFrame {
    type V = FrameView;

    open spec fn view(&self) -> FrameView {
        match self {
            ServerFrame::Text(s) => FrameView::Text(s@),
            ServerFrame::Binary(b) => FrameView::Binary(b@),
        }
    }
}

/// What the outbound side of a connection does with one channel event.
pub enum Outbound {
    /// Send this frame and keep going.
    Send(ServerFrame),
    /// Send nothing and keep going.
    Skip,
    /// Send this last frame and stop.
    Finish(ServerFrame),
}

/// The model of `Outbound`.
pub enum OutboundView {
    Send(FrameView),
    Skip,
    Finish(FrameView),
}

impl View for Outbound {
    type V = OutboundView;

    open spec fn view(&self) -> OutboundView {
        match self {
            Outbound::Send(f) => OutboundView::Send(f@),
            Outbound::Skip => OutboundView::Skip,
            Outbound::Finish(f) => OutboundView::Finish(f@),
        }
    }
}

/// The outbound rule: the end of output (an empty chunk, or a closed
/// channel) finishes with the exit notice; a control message that is valid
/// UTF-8 goes as text; any other chunk goes as binary, unmodified; a lag is
/// skipped.
pub open spec fn outbound_rule(event: ChannelEvent) -> OutboundView {
    match event {
        ChannelEvent::Output(d) => {
            if d@.len() == 0 {
                OutboundView::Finish(FrameView::Text(EXIT_MESSAGE@))
            } else if is_control(d@) && valid_utf8(d@) {
                OutboundView::Send(FrameView::Text(decode_utf8(d@)))
            } else {
                OutboundView::Send(FrameView::Binary(d@))
            }
        },
        ChannelEvent::Lagged(_) => OutboundView::Skip,
        ChannelEvent::Closed => OutboundView::Finish(FrameView::Text(EXIT_MESSAGE@)),
    }
}

/// Decides what to send a client for one event of the fan-out channel.
pub fn outbound_step(event: ChannelEvent) -> (r: Outbound)
    ensures
        r@ == outbound_rule(event),
{
    match event {
        ChannelEvent::Output(d) => {
            if d.len() == 0 {
                Outbound::Finish(ServerFrame::Text(EXIT_MESSAGE.to_owned()))
            } else if is_control_message(d.as_slice()) {
                match utf8_text(d.as_slice()) {
                    Some(text) => Outbound::Send(ServerFrame::Text(text)),
                    None => Outbound::Send(ServerFrame::Binary(d)),
                }
            } else {
                Outbound::Send(ServerFrame::Binary(d))
            }
        },
        ChannelEvent::Lagged(_) => Outbound::Skip,
        ChannelEvent::Closed => Outbound::Finish(ServerFrame::Text(EXIT_MESSAGE.to_owned())),
    }
}

/// A set-size message reaches every client as a text frame holding it.
pub proof fn lemma_set_size_goes_as_text(rows: u16, cols: u16, d: Vec<u8>)
    requires
        d@ == set_size_message(rows, cols),
    ensures
        outbound_rule(ChannelEvent::Output(d)) == OutboundView::Send(
            FrameView::Text(decode_utf8(set_size_message(rows, cols))),
        ),
        encode_utf8(decode_utf8(set_size_message(rows, cols))) == set_size_message(rows, cols),
{
    lemma_set_size_message_is_control_text(rows, cols);
    vstd::utf8::decode_utf8_encode_utf8(set_size_message(rows, cols));
}

} // verus!
