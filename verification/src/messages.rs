//! The closed message sets exchanged between client and server, and the
//! reliability class each message is sent with.
use vstd::prelude::*;

use crate::GameArchetype;
use crate::NetworkID;
use crate::position::Position;

verus! {

/// Messages a client sends to the server.
#[derive(Debug, Clone, PartialEq)]
pub enum ClientMessage {
    /// The `String` is the desired username.
    Connect(String),
    RequestArchetype(NetworkID),
    RequestEntityInfo(NetworkID, InfoRequestType),
    SendMessage(String),
    MoveTo(Position),
    IssueChallenge(NetworkID),
    RespondToChallenge(NetworkID, bool),
    Disconnect,
}

/// Messages the server sends to a client.
#[derive(Debug, Clone, PartialEq)]
pub enum ServerMessage {
    ConnectionAccepted,
    SpawnNetworkedEntity(NetworkID, GameArchetype, bool),
    DespawnNetworkedEntity(NetworkID),
    SendNetworkedEntityInfo(NetworkID, InfoSendType),
    SendMessage(String, String),
    PassAlongChallenge(NetworkID),
    DisconnectClient(DisconnectReason),
}

/// The kinds of entity information a client may request.
#[derive(Debug, Copy, Clone, PartialEq, Eq, Structural)]
pub enum InfoRequestType {
    Identity,
}

/// The kinds of entity information the server sends back.
#[derive(Debug, Clone, PartialEq)]
pub enum InfoSendType {
    Identity(String),
    Position(Position),
}

/// Why the server closed a connection.
#[derive(Debug, Copy, Clone, PartialEq, Eq, Structural)]
pub enum DisconnectReason {
    InvalidUsername,
}

/// The delivery class of an outbound message: best-effort, superseded by the
/// next update, or guaranteed eventual delivery without cross-type ordering.
#[derive(Debug, Copy, Clone, PartialEq, Eq, Structural)]
pub enum MessageType {
    Unreliable,
    ReliableUnordered,
}

/// The mathematical value of a [`ClientMessage`]: strings are sequences of
/// characters, everything else is plain data.
pub enum ClientMessageV {
    Connect(Seq<char>),
    RequestArchetype(NetworkID),
    RequestEntityInfo(NetworkID, InfoRequestType),
    SendMessage(Seq<char>),
    MoveTo(Position),
    IssueChallenge(NetworkID),
    RespondToChallenge(NetworkID, bool),
    Disconnect,
}

/// The mathematical value of an [`InfoSendType`].
pub enum InfoSendTypeV {
    Identity(Seq<char>),
    Position(Position),
}

/// The mathematical value of a [`ServerMessage`].
pub enum ServerMessageV {
    ConnectionAccepted,
    SpawnNetworkedEntity(NetworkID, GameArchetype, bool),
    DespawnNetworkedEntity(NetworkID),
    SendNetworkedEntityInfo(NetworkID, InfoSendTypeV),
    SendMessage(Seq<char>, Seq<char>),
    PassAlongChallenge(NetworkID),
    DisconnectClient(DisconnectReason),
}

impl View for ClientMessage {
    type V = ClientMessageV;

    open spec fn view(&self) -> ClientMessageV {
        match self {
            ClientMessage::Connect(name) => ClientMessageV::Connect(name@),
            ClientMessage::RequestArchetype(id) => ClientMessageV::RequestArchetype(*id),
            ClientMessage::RequestEntityInfo(id, kind) => ClientMessageV::RequestEntityInfo(
                *id,
                *kind,
            ),
            ClientMessage::SendMessage(text) => ClientMessageV::SendMessage(text@),
            ClientMessage::MoveTo(pos) => ClientMessageV::MoveTo(*pos),
            ClientMessage::IssueChallenge(id) => ClientMessageV::IssueChallenge(*id),
            ClientMessage::RespondToChallenge(id, accepted) => ClientMessageV::RespondToChallenge(
                *id,
                *accepted,
            ),
            ClientMessage::Disconnect => ClientMessageV::Disconnect,
        }
    }
}

impl View for InfoSendType {
    type V = InfoSendTypeV;

    open spec fn view(&self) -> InfoSendTypeV {
        match self {
            InfoSendType::Identity(name) => InfoSendTypeV::Identity(name@),
            InfoSendType::Position(pos) => InfoSendTypeV::Position(*pos),
        }
    }
}

impl View for ServerMessage {
    type V = ServerMessageV;

    open spec fn view(&self) -> ServerMessageV {
        match self {
            ServerMessage::ConnectionAccepted => ServerMessageV::ConnectionAccepted,
            ServerMessage::SpawnNetworkedEntity(id, archetype, is_owned) => {
                ServerMessageV::SpawnNetworkedEntity(*id, *archetype, *is_owned)
            },
            ServerMessage::DespawnNetworkedEntity(id) => ServerMessageV::DespawnNetworkedEntity(
                *id,
            ),
            ServerMessage::SendNetworkedEntityInfo(id, info) => {
                ServerMessageV::SendNetworkedEntityInfo(*id, info@)
            },
            ServerMessage::SendMessage(author, text) => ServerMessageV::SendMessage(
                author@,
                text@,
            ),
            ServerMessage::PassAlongChallenge(id) => ServerMessageV::PassAlongChallenge(*id),
            ServerMessage::DisconnectClient(reason) => ServerMessageV::DisconnectClient(*reason),
        }
    }
}

impl DeepView for ClientMessage {
    type V = ClientMessageV;

    open spec fn deep_view(&self) -> ClientMessageV {
        self.view()
    }
}

impl DeepView for InfoSendType {
    type V = InfoSendTypeV;

    open spec fn deep_view(&self) -> InfoSendTypeV {
        self.view()
    }
}

impl DeepView for ServerMessage {
    type V = ServerMessageV;

    open spec fn deep_view(&self) -> ServerMessageV {
        self.view()
    }
}

/// The reliability class a client message is sent with: position updates are
/// best-effort because each is superseded by the next; everything else must
/// eventually arrive.
pub open spec fn spec_client_message_type(m: ClientMessageV) -> MessageType {
    match m {
        ClientMessageV::MoveTo(_) => MessageType::Unreliable,
        _ => MessageType::ReliableUnordered,
    }
}

impl MessageType {
    /// The reliability class of one client message, a pure function of its
    /// variant.
    pub fn of_client_message(m: &ClientMessage) -> (r: MessageType)
        ensures
            r == spec_client_message_type(m@),
    {
        match m {
            ClientMessage::MoveTo(_) => MessageType::Unreliable,
            _ => MessageType::ReliableUnordered,
        }
    }
}

} // verus!
