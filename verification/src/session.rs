//! One connection's view of the world: its identity and what it does with
//! each transport frame. The transport itself (socket, actor mailbox) lives
//! outside; it feeds frames in and carries the returned actions out.

use vstd::prelude::*;
use crate::ws::{ClientMessage, Connect, Disconnect};

verus! {

/// One inbound transport frame, as the session logic reads it: text to
/// relay, a close frame, a protocol violation (a malformed or unexpected
/// frame the transport could not read), or anything else (pings, binary).
pub enum Frame {
    Text(String),
    Close,
    ProtocolError,
    Other,
}

/// What the session asks its runtime to do with a frame.
pub enum SessionAction {
    /// Hand this message to the coordinator's ingestion pipeline.
    Forward(ClientMessage),
    /// Echo the close and stop the session.
    CloseAndStop,
    /// Drop the frame.
    Ignore,
}

/// A live connection: bound to one user and one room for its lifetime.
pub struct WsSession {
    pub user_id: u128,
    pub room_id: u128,
}

impl WsSession {
    pub fn new(user_id: u128, room_id: u128) -> (s: WsSession)
        ensures
            s.user_id == user_id,
            s.room_id == room_id,
    {
        WsSession { user_id, room_id }
    }

    /// On session start: what the coordinator is told, carrying the token
    /// of the sink that reaches this connection.
    pub fn connect_message(&self, addr: u64) -> (m: Connect)
        ensures
            m.addr == addr,
            m.room_id == self.room_id,
            m.user_id == self.user_id,
    {
        Connect { addr, room_id: self.room_id, user_id: self.user_id }
    }

    /// On session stop — every exit path, normal close, protocol violation
    /// or transport drop alike: what the coordinator is told.
    pub fn disconnect_message(&self) -> (m: Disconnect)
        ensures
            m.room_id == self.room_id,
            m.user_id == self.user_id,
    {
        Disconnect { room_id: self.room_id, user_id: self.user_id }
    }

    /// The reader path: text becomes a message attributed to this session,
    /// verbatim; a close frame or a protocol violation ends the session;
    /// everything else is dropped.
    pub fn handle_frame(&self, frame: Frame) -> (a: SessionAction)
        ensures
            match frame {
                Frame::Text(t) => a matches SessionAction::Forward(m) && m.room_id == self.room_id
                    && m.user_id == self.user_id && m.content == t,
                Frame::Close => a is CloseAndStop,
                Frame::ProtocolError => a is CloseAndStop,
                Frame::Other => a is Ignore,
            },
    {
        match frame {
            Frame::Text(t) => SessionAction::Forward(
                ClientMessage { room_id: self.room_id, user_id: self.user_id, content: t },
            ),
            Frame::Close => SessionAction::CloseAndStop,
            Frame::ProtocolError => SessionAction::CloseAndStop,
            Frame::Other => SessionAction::Ignore,
        }
    }
}

} // verus!
