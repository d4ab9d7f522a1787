//! The WebSocket duplex bridge: what the socket side does with each event,
//! and what the handler side's receive operations return.
use vstd::prelude::*;

verus! {

/// A message between the socket side and the handler side.
#[derive(Clone, Debug)]
pub enum WsMessage {
    Text(Vec<u8>),
    Binary(Vec<u8>),
    Close,
}

/// The opcode of a frame read from the socket.
#[derive(Clone, Copy, Debug, PartialEq, Eq, Structural)]
pub enum OpCode {
    Continuation,
    Text,
    Binary,
    Close,
    Ping,
    Pong,
}

/// What the socket side is woken by.
#[derive(Clone, Debug)]
pub enum PumpEvent {
    /// A frame arrived from the peer.
    Inbound(OpCode, Vec<u8>),
    /// The handler side queued a message for the peer.
    Outbound(WsMessage),
    /// The handler side no longer takes messages.
    HandlerGone,
}

/// What the socket side does in answer.
#[derive(Clone, Debug)]
pub enum PumpAction {
    /// Hand the message to the handler side (suspending while its queue is full).
    ToHandler(WsMessage),
    /// Write a pong frame with this payload.
    Pong(Vec<u8>),
    /// Write a text frame.
    SendText(Vec<u8>),
    /// Write a binary frame.
    SendBinary(Vec<u8>),
    /// Write a close frame.
    SendClose,
    /// Do nothing.
    Ignore,
}

/// An action, and whether the socket side stops after it.
#[derive(Clone, Debug)]
pub struct PumpStep {
    pub action: PumpAction,
    pub stop: bool,
}

/// One step of the socket side: payload frames go to the handler, pings are
/// answered here, a close from either side is passed on and ends the pump,
/// and messages from the handler are written out as they are.
pub fn pump_step(event: PumpEvent) -> (r: PumpStep)
    ensures
        match event {
            PumpEvent::Inbound(OpCode::Text, p) => r.action == PumpAction::ToHandler(
                WsMessage::Text(p),
            ) && !r.stop,
            PumpEvent::Inbound(OpCode::Binary, p) => r.action == PumpAction::ToHandler(
                WsMessage::Binary(p),
            ) && !r.stop,
            PumpEvent::Inbound(OpCode::Close, _) => r.action == PumpAction::ToHandler(
                WsMessage::Close,
            ) && r.stop,
            PumpEvent::Inbound(OpCode::Ping, p) => r.action == PumpAction::Pong(p) && !r.stop,
            PumpEvent::Inbound(_, _) => r.action is Ignore && !r.stop,
            PumpEvent::Outbound(WsMessage::Text(p)) => r.action == PumpAction::SendText(p) && !r.stop,
            PumpEvent::Outbound(WsMessage::Binary(p)) => r.action == PumpAction::SendBinary(p)
                && !r.stop,
            PumpEvent::Outbound(WsMessage::Close) => r.action is SendClose && r.stop,
            PumpEvent::HandlerGone => r.action is Ignore && r.stop,
        },
{
    match event {
        PumpEvent::Inbound(op, payload) => match op {
            OpCode::Text => PumpStep { action: PumpAction::ToHandler(WsMessage::Text(payload)), stop: false },
            OpCode::Binary => PumpStep {
                action: PumpAction::ToHandler(WsMessage::Binary(payload)),
                stop: false,
            },
            OpCode::Close => PumpStep { action: PumpAction::ToHandler(WsMessage::Close), stop: true },
            OpCode::Ping => PumpStep { action: PumpAction::Pong(payload), stop: false },
            _ => PumpStep { action: PumpAction::Ignore, stop: false },
        },
        PumpEvent::Outbound(msg) => match msg {
            WsMessage::Text(p) => PumpStep { action: PumpAction::SendText(p), stop: false },
            WsMessage::Binary(p) => PumpStep { action: PumpAction::SendBinary(p), stop: false },
            WsMessage::Close => PumpStep { action: PumpAction::SendClose, stop: true },
        },
        PumpEvent::HandlerGone => PumpStep { action: PumpAction::Ignore, stop: true },
    }
}

/// The text that a byte sequence decodes to as UTF-8, if it is valid UTF-8.
pub uninterp spec fn utf8_text(b: Seq<u8>) -> Option<Seq<char>>;

/// Relies on String::from_utf8: it succeeds exactly on valid UTF-8 and then
/// holds the decoded text; no bytes decode to the empty text.
#[verifier::external_body]
fn decode_utf8(bytes: Vec<u8>) -> (r: Option<String>)
    ensures
        r.is_some() == utf8_text(bytes@).is_some(),
        r.is_some() ==> r.unwrap()@ == utf8_text(bytes@).unwrap(),
        bytes@.len() == 0 ==> r.is_some() && r.unwrap()@.len() == 0,
{
    String::from_utf8(bytes).ok()
}

/// Why a receive operation on the handler side failed.
#[derive(Clone, Copy, Debug, PartialEq, Eq, Structural)]
pub enum ReceiveError {
    /// The connection closed.
    Closed,
    /// A text message came where bytes were asked for.
    ExpectedBinary,
    /// A binary message came where text was asked for.
    ExpectedText,
    /// A text message was not valid UTF-8.
    InvalidUtf8,
}

/// The result of receiving text, given the next message (none once the
/// socket side has gone).
pub fn receive_text(msg: Option<WsMessage>) -> (r: Result<String, ReceiveError>)
    ensures
        match msg {
            Some(WsMessage::Text(b)) => match utf8_text(b@) {
                Some(t) => r.is_ok() && r.unwrap()@ == t,
                None => r == Err::<String, ReceiveError>(ReceiveError::InvalidUtf8),
            },
            Some(WsMessage::Binary(_)) => r == Err::<String, ReceiveError>(ReceiveError::ExpectedText),
            _ => r == Err::<String, ReceiveError>(ReceiveError::Closed),
        },
{
    match msg {
        Some(WsMessage::Text(b)) => match decode_utf8(b) {
            Some(t) => Ok(t),
            None => Err(ReceiveError::InvalidUtf8),
        },
        Some(WsMessage::Binary(_)) => Err(ReceiveError::ExpectedText),
        _ => Err(ReceiveError::Closed),
    }
}

/// The result of receiving bytes, given the next message.
pub fn receive_bytes(msg: Option<WsMessage>) -> (r: Result<Vec<u8>, ReceiveError>)
    ensures
        match msg {
            Some(WsMessage::Binary(b)) => r == Ok::<Vec<u8>, ReceiveError>(b),
            Some(WsMessage::Text(_)) => r == Err::<Vec<u8>, ReceiveError>(ReceiveError::ExpectedBinary),
            _ => r == Err::<Vec<u8>, ReceiveError>(ReceiveError::Closed),
        },
{
    match msg {
        Some(WsMessage::Binary(b)) => Ok(b),
        Some(WsMessage::Text(_)) => Err(ReceiveError::ExpectedBinary),
        _ => Err(ReceiveError::Closed),
    }
}

/// The state code the handler side reads: 1 while connected, 3 after.
pub fn client_state(connected: bool) -> (r: u8)
    ensures
        r == (if connected {
            1u8
        } else {
            3u8
        }),
{
    if connected {
        1
    } else {
        3
    }
}

/// Capacity of each of the two queues between the socket side and the
/// handler side.
pub const CHANNEL_CAPACITY: usize = 1024;

} // verus!
