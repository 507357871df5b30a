//! Per-connection handler state machine.
//!
//! One handler owns one client's connection. While `Active` it races two
//! activities: reading frames from the client and publishing them, and
//! receiving hub messages and writing them back — except its own, which it
//! suppresses. Either side failing, or the quit sentinel, moves the handler
//! to `Closing`; publishing the leave announcement moves it to `Closed`.
//! The unverified transport loop performs the reads, writes and waits, and
//! reports each outcome here as an event.

use vstd::prelude::*;
use vstd::utf8::*;
use crate::codec;
use crate::codec::MSG_SIZE;
use crate::message::{ChatMessage, ClientId, Endpoint};
use crate::message;

verus! {

/// Why a handler left the `Active` phase.
#[derive(Clone, Copy, PartialEq, Eq, Structural, Debug)]
pub enum CloseReason {
    /// The client sent the quit sentinel.
    QuitRequested,
    /// Reading from the client failed or the client disconnected.
    ReadError,
    /// Writing to the client failed.
    WriteError,
    /// The hub became unusable; not expected while the server is alive.
    HubClosed,
}

/// Lifecycle of one connection.
#[derive(Clone, Copy, PartialEq, Eq, Structural, Debug)]
pub enum HandlerPhase {
    Active,
    Closing(CloseReason),
    Closed,
}

/// What to do with a frame read from the client.
pub enum InboundAction {
    /// Broadcast this message to the hub.
    Publish(ChatMessage),
    /// The client asked to quit; do not broadcast the sentinel.
    Quit,
}

/// What to do with a message received from the hub.
pub enum OutboundAction {
    /// Write this frame to the client.
    Deliver(Vec<u8>),
    /// The message came from this handler's own client; do not echo it.
    Suppress,
    /// The display form does not fit in a frame; drop the message.
    TooLarge,
}

/// The byte sequence of the quit sentinel `:quit`.
pub open spec fn quit_seq() -> Seq<u8> {
    seq![0x3au8, 0x71u8, 0x75u8, 0x69u8, 0x74u8]
}

/// Whether a handler with identifier `own` forwards `m` to its client:
/// everything except its own messages.
pub open spec fn forwards_to(own: ClientId, m: ChatMessage) -> bool {
    m.origin != own
}

/// Whether `payload` is the quit sentinel.
pub fn is_quit_payload(payload: &Vec<u8>) -> (b: bool)
    ensures
        b == (payload@ == quit_seq()),
{
    if payload.len() != 5 {
        proof {
            assert(payload@ != quit_seq());
        }
        return false;
    }
    let b = payload[0] == 0x3a && payload[1] == 0x71 && payload[2] == 0x75 && payload[3] == 0x69
        && payload[4] == 0x74;
    proof {
        if b {
            assert(payload@ =~= quit_seq());
        }
    }
    b
}

/// State of one connection: its identifier, its client's endpoint, and
/// where it stands in its lifecycle.
pub struct ConnHandler {
    pub id: ClientId,
    pub addr: Endpoint,
    pub phase: HandlerPhase,
}

impl ConnHandler {
    /// A handler for a newly accepted connection.
    pub fn new(id: ClientId, addr: Endpoint) -> (h: ConnHandler)
        ensures
            h.id == id,
            h.addr == addr,
            h.phase == HandlerPhase::Active,
    {
        ConnHandler { id, addr, phase: HandlerPhase::Active }
    }

    /// The join announcement to publish when this handler starts.
    pub fn join_announcement(&self) -> (m: ChatMessage)
        ensures
            m.origin == self.id,
            m.addr == self.addr,
            m.text@ == message::join_text(),
    {
        ChatMessage { origin: self.id, text: String::from_str("has joined the chat"), addr: self.addr }
    }

    /// Handles one frame read from the client: the quit sentinel closes the
    /// connection and is not broadcast; anything else is decoded and
    /// published under this handler's identity.
    pub fn on_frame(&mut self, frame: &Vec<u8>) -> (act: InboundAction)
        requires
            old(self).phase == HandlerPhase::Active,
        ensures
            final(self).id == old(self).id,
            final(self).addr == old(self).addr,
            codec::decoded_payload(frame@) == quit_seq() ==> {
                &&& act is Quit
                &&& final(self).phase == HandlerPhase::Closing(CloseReason::QuitRequested)
            },
            codec::decoded_payload(frame@) != quit_seq() ==> {
                &&& final(self).phase == HandlerPhase::Active
                &&& act matches InboundAction::Publish(m) && m.origin == old(self).id
                    && m.addr == old(self).addr && m.text@ == codec::lossy_utf8(
                    codec::decoded_payload(frame@),
                )
            },
    {
        let payload = codec::decode_payload(frame);
        if is_quit_payload(&payload) {
            self.phase = HandlerPhase::Closing(CloseReason::QuitRequested);
            InboundAction::Quit
        } else {
            let text = codec::lossy_text(&payload);
            InboundAction::Publish(ChatMessage { origin: self.id, text, addr: self.addr })
        }
    }

    /// Records that reading from the client failed (including a clean
    /// disconnect): the connection is to be closed.
    pub fn on_read_error(&mut self)
        requires
            old(self).phase == HandlerPhase::Active,
        ensures
            final(self).id == old(self).id,
            final(self).addr == old(self).addr,
            final(self).phase == HandlerPhase::Closing(CloseReason::ReadError),
    {
        self.phase = HandlerPhase::Closing(CloseReason::ReadError);
    }

    /// Handles one message received from the hub: this handler's own
    /// messages are suppressed; any other is rendered as
    /// `[Client {origin}]: {text}` and framed for the client, unless its
    /// display form does not fit in a frame, in which case it is dropped.
    pub fn on_hub_message(&self, m: &ChatMessage) -> (act: OutboundAction)
        ensures
            (act is Suppress) <==> !forwards_to(self.id, *m),
            forwards_to(self.id, *m) && encode_utf8(message::display_of(m.origin, m.text@)).len()
                <= MSG_SIZE ==> (act matches OutboundAction::Deliver(f) && f@ == codec::frame_of(
                message::display_of(m.origin, m.text@),
            )),
            forwards_to(self.id, *m) && encode_utf8(message::display_of(m.origin, m.text@)).len()
                > MSG_SIZE ==> act is TooLarge,
    {
        if m.origin == self.id {
            return OutboundAction::Suppress;
        }
        let display = message::render_display(m.origin, m.text.as_str());
        match codec::encode(display.as_str()) {
            Ok(frame) => OutboundAction::Deliver(frame),
            Err(_) => OutboundAction::TooLarge,
        }
    }

    /// Records that writing to the client failed: the connection is to be
    /// closed.
    pub fn on_write_error(&mut self)
        requires
            old(self).phase == HandlerPhase::Active,
        ensures
            final(self).id == old(self).id,
            final(self).addr == old(self).addr,
            final(self).phase == HandlerPhase::Closing(CloseReason::WriteError),
    {
        self.phase = HandlerPhase::Closing(CloseReason::WriteError);
    }

    /// Records that the hub refused a publish or a receive: the connection
    /// is to be closed. Not expected while the server is alive, since the
    /// hub outlives every connection.
    pub fn on_hub_closed(&mut self)
        requires
            old(self).phase == HandlerPhase::Active,
        ensures
            final(self).id == old(self).id,
            final(self).addr == old(self).addr,
            final(self).phase == HandlerPhase::Closing(CloseReason::HubClosed),
    {
        self.phase = HandlerPhase::Closing(CloseReason::HubClosed);
    }

    /// Tears the connection down and yields the leave announcement to
    /// publish on a best-effort basis.
    pub fn close(&mut self) -> (m: ChatMessage)
        requires
            old(self).phase matches HandlerPhase::Closing(_),
        ensures
            final(self).id == old(self).id,
            final(self).addr == old(self).addr,
            final(self).phase == HandlerPhase::Closed,
            m.origin == old(self).id,
            m.addr == old(self).addr,
            m.text@ == message::leave_text(),
    {
        self.phase = HandlerPhase::Closed;
        ChatMessage {
            origin: self.id,
            text: String::from_str("has left the chat"),
            addr: self.addr,
        }
    }
}

/// A join or leave announcement for a client whose identifier has at most
/// two digits fits in one frame, so every other client's handler delivers
/// it rather than dropping it as too large.
pub proof fn lemma_announcement_fits(c: ClientId)
    requires
        c < 100,
    ensures
        encode_utf8(message::display_of(c, message::join_text())).len() <= MSG_SIZE,
        encode_utf8(message::display_of(c, message::leave_text())).len() <= MSG_SIZE,
{
    broadcast use vstd::string::group_string_axioms;

    reveal_strlit("[Client ");
    reveal_strlit("]: ");
    reveal_strlit("has joined the chat");
    reveal_strlit("has left the chat");
    message::lemma_dec_chars_ascii(c as int);
    if c >= 10 {
        assert(message::dec_chars(c as int) == message::dec_chars(c as int / 10) + seq![
            message::digit_char(c as int % 10),
        ]);
        assert(message::dec_chars(c as int / 10).len() == 1);
    }
    assert(message::dec_chars(c as int).len() <= 2);
    let pre = "[Client "@;
    let sep = "]: "@;
    let jt = message::join_text();
    let lt = message::leave_text();
    assert(pre.len() == 8);
    assert(sep.len() == 3);
    assert(jt.len() == 19);
    assert(lt.len() == 17);
    assert(is_ascii_chars(pre));
    assert(is_ascii_chars(sep));
    assert(is_ascii_chars(jt));
    assert(is_ascii_chars(lt));
    let num = message::dec_chars(c as int);
    message::lemma_ascii_concat(pre, num);
    message::lemma_ascii_concat(pre + num, sep);
    message::lemma_ascii_concat(pre + num + sep, jt);
    message::lemma_ascii_concat(pre + num + sep, lt);
    is_ascii_chars_encode_utf8(pre + num + sep + jt);
    is_ascii_chars_encode_utf8(pre + num + sep + lt);
}

} // verus!
