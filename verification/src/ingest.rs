//! Ingestion decisions: what a per-connection worker does with each
//! inbound application message.
//!
//! One worker runs per accepted connection, concurrently with all others
//! and with the render loop. The shell reads messages from the transport,
//! maps each onto [`InboundMessage`], and obeys the returned
//! [`WorkerAction`]: a decode failure closes only the offending
//! connection, never the pipeline; only a dead mailbox consumer is fatal
//! to the whole process.

use vstd::prelude::*;

use crate::connection::ConnectionInformation;
use crate::data::{frame_of, Data, ProtocolError};
use crate::mailbox::ChannelMessage;

verus! {

/// One inbound application message, as the transport hands it over.
#[derive(Clone, Debug, PartialEq)]
pub enum InboundMessage {
    /// A binary payload: one candidate frame.
    Binary(Vec<u8>),
    /// A text control message.
    Text,
    /// A ping control message.
    Ping,
    /// A pong control message.
    Pong,
    /// The peer closed the connection, or the stream ended.
    Close,
    /// A raw transport frame surfaced by the transport layer.
    Raw,
}

/// What the worker does with one inbound message.
#[derive(Clone, Debug, PartialEq)]
pub enum WorkerAction {
    /// Forward this message into the frame mailbox.
    Forward(ChannelMessage),
    /// Log the control message and keep reading.
    Ignore,
    /// The payload was malformed: log it and close this connection alone;
    /// other connections and the render loop are unaffected.
    CloseOnError(ProtocolError),
    /// The peer is done: count the connection as closed and end the
    /// worker.
    Disconnect,
}

/// Decides one worker step. A binary payload is decoded — success is owed
/// exactly when its byte count is a multiple of three — and on success the
/// decoded frame is forwarded, tagged with the given registry snapshot.
/// Control messages are ignored; a close ends the worker.
pub fn handle_message(msg: InboundMessage, info: ConnectionInformation) -> (r: WorkerAction)
    ensures
        msg matches InboundMessage::Binary(bytes) ==> if bytes@.len() % 3 == 0 {
            r matches WorkerAction::Forward(m) && m.connection == info && m.data@ == frame_of(
                bytes@,
            )
        } else {
            r == WorkerAction::CloseOnError(ProtocolError::InvalidFrameLength)
        },
        msg is Text || msg is Ping || msg is Pong || msg is Raw ==> r is Ignore,
        msg is Close ==> r is Disconnect,
{
    match msg {
        InboundMessage::Binary(bytes) => match Data::from_bytes_vec(bytes) {
            Ok(data) => WorkerAction::Forward(ChannelMessage { connection: info, data }),
            Err(e) => WorkerAction::CloseOnError(e),
        },
        InboundMessage::Text => WorkerAction::Ignore,
        InboundMessage::Ping => WorkerAction::Ignore,
        InboundMessage::Pong => WorkerAction::Ignore,
        InboundMessage::Close => WorkerAction::Disconnect,
        InboundMessage::Raw => WorkerAction::Ignore,
    }
}

} // verus!
