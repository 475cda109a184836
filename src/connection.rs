//! The life of one client connection: a login handshake, then relaying between
//! the socket and the session actor, then teardown. The transport does the I/O;
//! these decisions say what to do with each event.

use vstd::prelude::*;
use crate::packet::{IDPass, Packet};
use crate::server::{LoginResult, failed_login_udata};

verus! {

/// Where a connection is in its life.
#[derive(Clone, Copy, Debug, PartialEq, Eq, Structural)]
pub enum ConnState {
    /// Only a game-server login is accepted.
    Handshaking,
    /// Logged in as connection `cid`.
    Relaying { cid: i32 },
    /// Being torn down; nothing more is done.
    Closing,
}

/// Something that happened to a connection.
#[derive(Debug)]
pub enum ConnEvent {
    /// A whole message arrived from the client.
    Inbound { pid: i16, packet: Packet },
    /// The session actor answered a login.
    LoginAnswer(LoginResult),
    /// The session actor has a message for the client, answering `pid` if given.
    Outbound { pid: Option<i16>, packet: Packet },
    /// Reading, decoding or writing failed, or the client closed the stream.
    TransportClosed,
    /// The session actor dropped this connection's queue.
    QueueClosed,
}

/// What the transport must do.
#[derive(Debug)]
pub enum ConnAction {
    /// Ask the session actor to admit these credentials.
    AskLogin(IDPass),
    /// Write a message to the client.
    Send { pid: Option<i16>, packet: Packet },
    /// Hand a client message to the session actor.
    Forward { cid: i32, pid: i16, packet: Packet },
    /// Tell the session actor that connection `cid` is gone.
    Logout(i32),
    /// Shut the secure socket down.
    Shutdown,
}

/// Decides what an event does to a connection in state `state`. Once logged
/// in, any end of the connection (the transport failing or the session actor
/// dropping the queue) tells the session actor the connection is gone, then
/// shuts the socket down.
pub fn step(state: ConnState, event: ConnEvent) -> (r: (ConnState, Vec<ConnAction>))
    ensures
        match (state, event) {
            (ConnState::Closing, _) => r.0 == ConnState::Closing && r.1@.len() == 0,
            (ConnState::Handshaking, ConnEvent::Inbound { packet: Packet::SEND_IDPASS_G(p), .. }) => r.0
                == ConnState::Handshaking && r.1@.len() == 1 && r.1@[0] == ConnAction::AskLogin(p),
            (ConnState::Handshaking, ConnEvent::Inbound { .. }) => r.0 == ConnState::Handshaking && r.1@.len() == 0,
            (ConnState::Handshaking, ConnEvent::LoginAnswer(LoginResult::Success { cid })) => r.0
                == (ConnState::Relaying { cid }) && r.1@.len() == 0,
            (ConnState::Handshaking, ConnEvent::LoginAnswer(LoginResult::Fail(code))) => r.0
                == ConnState::Handshaking && r.1@.len() == 1 && (r.1@[0] matches ConnAction::Send {
                pid,
                packet: Packet::ACK_IDPASS_G(u),
            } && pid is None && u.cid == crate::login::ack_value(code) as i32),
            (ConnState::Handshaking, ConnEvent::Outbound { .. }) => r.0 == ConnState::Handshaking && r.1@.len() == 0,
            (ConnState::Handshaking, _) => r.0 == ConnState::Closing && r.1@.len() == 1 && r.1@[0] is Shutdown,
            (ConnState::Relaying { cid }, ConnEvent::Inbound { pid, packet }) => r.0 == state && r.1@.len() == 1
                && r.1@[0] == (ConnAction::Forward { cid, pid, packet }),
            (ConnState::Relaying { cid }, ConnEvent::Outbound { pid, packet }) => r.0 == state && r.1@.len() == 1
                && r.1@[0] == (ConnAction::Send { pid, packet }),
            (ConnState::Relaying { cid }, ConnEvent::LoginAnswer(_)) => r.0 == state && r.1@.len() == 0,
            (ConnState::Relaying { cid }, ConnEvent::TransportClosed) => r.0 == ConnState::Closing && r.1@.len() == 2
                && r.1@[0] == ConnAction::Logout(cid) && r.1@[1] is Shutdown,
            (ConnState::Relaying { cid }, ConnEvent::QueueClosed) => r.0 == ConnState::Closing && r.1@.len() == 2
                && r.1@[0] == ConnAction::Logout(cid) && r.1@[1] is Shutdown,
        },
{
    match state {
        ConnState::Closing => (ConnState::Closing, Vec::new()),
        ConnState::Handshaking => match event {
            ConnEvent::Inbound { pid: _, packet } => match packet {
                Packet::SEND_IDPASS_G(p) => (ConnState::Handshaking, vec![ConnAction::AskLogin(p)]),
                _ => (ConnState::Handshaking, Vec::new()),
            },
            ConnEvent::LoginAnswer(LoginResult::Success { cid }) => (ConnState::Relaying { cid }, Vec::new()),
            ConnEvent::LoginAnswer(LoginResult::Fail(code)) => (
                ConnState::Handshaking,
                vec![ConnAction::Send { pid: None, packet: Packet::ACK_IDPASS_G(failed_login_udata(code)) }],
            ),
            ConnEvent::Outbound { .. } => (ConnState::Handshaking, Vec::new()),
            ConnEvent::TransportClosed | ConnEvent::QueueClosed => (ConnState::Closing, vec![ConnAction::Shutdown]),
        },
        ConnState::Relaying { cid } => match event {
            ConnEvent::Inbound { pid, packet } => (state, vec![ConnAction::Forward { cid, pid, packet }]),
            ConnEvent::Outbound { pid, packet } => (state, vec![ConnAction::Send { pid, packet }]),
            ConnEvent::LoginAnswer(_) => (state, Vec::new()),
            ConnEvent::TransportClosed => (ConnState::Closing, vec![ConnAction::Logout(cid), ConnAction::Shutdown]),
            ConnEvent::QueueClosed => (ConnState::Closing, vec![ConnAction::Logout(cid), ConnAction::Shutdown]),
        },
    }
}

} // verus!
