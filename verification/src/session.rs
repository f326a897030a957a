//! The client's session state machine.
//!
//! A session owns at most one connection, tracks its lifecycle
//! (`NotConnected`, `Connecting`, `Connected`, `Failed`), and fans decoded
//! server messages out into a typed event queue that the simulation layer
//! drains each tick. The session never drops an event; only the transport's
//! unreliable class may drop in flight.
use vstd::prelude::*;

use crate::GameArchetype;
use crate::NetworkID;
use crate::messages::ClientMessage;
use crate::messages::ClientMessageV;
use crate::messages::DisconnectReason;
use crate::messages::InfoRequestType;
use crate::messages::InfoSendType;
use crate::messages::InfoSendTypeV;
use crate::messages::ServerMessage;
use crate::messages::ServerMessageV;
use crate::position::Position;

verus! {

/// The lifecycle of the session's connection. Exactly one status holds at
/// any time.
#[derive(Debug, Copy, Clone, PartialEq, Eq, Structural)]
pub enum ConnectionStatus {
    NotConnected,
    Connecting,
    Connected,
    Failed(DisconnectReason),
}

/// A transport failure, described for the user interface.
#[derive(Debug)]
pub struct TransportError {
    pub message: String,
}

/// Why a session operation failed. Session-state errors are returned to the
/// caller, never panics; the caller surfaces them as notifications.
#[derive(Debug)]
pub enum ClientError {
    DuplicateConnectionError,
    NetworkError(TransportError),
    NotConnected,
}

/// A typed event handed to the simulation layer, one per routed server
/// message, in arrival order.
#[derive(Debug)]
pub enum ClientEvent {
    SpawnEntity(NetworkID, GameArchetype, bool),
    DespawnEntity(NetworkID),
    UpdateEntityInfo(NetworkID, InfoSendType),
    MessageReceived(String, String),
    ChallengeReceived(NetworkID),
}

/// The mathematical value of a [`ClientEvent`].
pub enum ClientEventV {
    SpawnEntity(NetworkID, GameArchetype, bool),
    DespawnEntity(NetworkID),
    UpdateEntityInfo(NetworkID, InfoSendTypeV),
    MessageReceived(Seq<char>, Seq<char>),
    ChallengeReceived(NetworkID),
}

impl DeepView for ClientEvent {
    type V = ClientEventV;

    open spec fn deep_view(&self) -> ClientEventV {
        match self {
            ClientEvent::SpawnEntity(id, archetype, is_owned) => ClientEventV::SpawnEntity(
                *id,
                *archetype,
                *is_owned,
            ),
            ClientEvent::DespawnEntity(id) => ClientEventV::DespawnEntity(*id),
            ClientEvent::UpdateEntityInfo(id, info) => ClientEventV::UpdateEntityInfo(*id, info@),
            ClientEvent::MessageReceived(author, text) => ClientEventV::MessageReceived(
                author@,
                text@,
            ),
            ClientEvent::ChallengeReceived(id) => ClientEventV::ChallengeReceived(*id),
        }
    }
}

/// The abstract connection capability the session is written against, so a
/// test double can replace live transport. Implementations decide their own
/// failures; the session states what holds of every outcome.
///
/// `outbox` is the connection's record of the messages it accepted for
/// sending, in order: a fresh connection has accepted none, a successful
/// `send_message` appends exactly its message, a failed one appends
/// nothing. The session's contracts say what they handed to the connection
/// in terms of it. The default reports no accepted messages; an
/// implementation verified against this trait overrides it, as the
/// in-memory double does, while a live transport implemented outside
/// verification may inherit it.
pub trait ConnectionInterface where Self: Sized {
    open spec fn outbox(&self) -> Seq<ClientMessageV> {
        Seq::empty()
    }

    fn new() -> (r: Result<Self, TransportError>)
        ensures
            r matches Ok(conn) ==> conn.outbox() == Seq::<ClientMessageV>::empty(),
    ;

    fn send_message(&mut self, message: ClientMessage) -> (r: Result<(), TransportError>)
        ensures
            r is Ok ==> final(self).outbox() == old(self).outbox().push(message@),
            r is Err ==> final(self).outbox() == old(self).outbox(),
    ;

    fn receive_messages(&mut self) -> (r: Vec<ServerMessage>)
        ensures
            final(self).outbox() == old(self).outbox(),
    ;
}

/// The mathematical value of a session: username, status, queued events.
#[verifier::ext_equal]
pub struct SessionV {
    pub username: Option<Seq<char>>,
    pub status: ConnectionStatus,
    pub events: Seq<ClientEventV>,
}

/// How one decoded server message advances a session: acceptance connects,
/// a server-side disconnect fails the session and clears the username, and
/// every other message appends exactly one event to the queue.
pub open spec fn spec_apply_message(s: SessionV, m: ServerMessageV) -> SessionV {
    match m {
        ServerMessageV::ConnectionAccepted => SessionV {
            status: ConnectionStatus::Connected,
            ..s
        },
        ServerMessageV::DisconnectClient(reason) => SessionV {
            username: None,
            status: ConnectionStatus::Failed(reason),
            ..s
        },
        ServerMessageV::SpawnNetworkedEntity(id, archetype, is_owned) => SessionV {
            events: s.events.push(ClientEventV::SpawnEntity(id, archetype, is_owned)),
            ..s
        },
        ServerMessageV::DespawnNetworkedEntity(id) => SessionV {
            events: s.events.push(ClientEventV::DespawnEntity(id)),
            ..s
        },
        ServerMessageV::SendNetworkedEntityInfo(id, info) => SessionV {
            events: s.events.push(ClientEventV::UpdateEntityInfo(id, info)),
            ..s
        },
        ServerMessageV::SendMessage(author, text) => SessionV {
            events: s.events.push(ClientEventV::MessageReceived(author, text)),
            ..s
        },
        ServerMessageV::PassAlongChallenge(id) => SessionV {
            events: s.events.push(ClientEventV::ChallengeReceived(id)),
            ..s
        },
    }
}

/// [`spec_apply_message`] folded over a whole batch, in arrival order.
pub open spec fn spec_apply_all(s: SessionV, ms: Seq<ServerMessageV>) -> SessionV
    decreases ms.len(),
{
    if ms.len() == 0 {
        s
    } else {
        spec_apply_message(spec_apply_all(s, ms.drop_last()), ms.last())
    }
}

/// A client session: at most one connection with its status, the username
/// once a connect attempt is in flight, and the queued events.
pub struct Client<T: ConnectionInterface> {
    pub connection: Option<(T, ConnectionStatus)>,
    pub username: Option<String>,
    pub events: Vec<ClientEvent>,
}

impl<T: ConnectionInterface> Default for Client<T> {
    /// A session with no connection, no username and no queued events.
    fn default() -> (r: Self)
        ensures
            r.connection is None,
            r.username is None,
            r.events@.len() == 0,
    {
        Client { connection: None, username: None, events: Vec::new() }
    }
}

impl<T: ConnectionInterface> Client<T> {
    /// The status of this session's connection, `NotConnected` when none
    /// exists.
    pub open spec fn spec_status(&self) -> ConnectionStatus {
        match self.connection {
            None => ConnectionStatus::NotConnected,
            Some((_, status)) => status,
        }
    }

    /// What this session has handed its connection for sending, in order;
    /// empty when no connection exists.
    pub open spec fn spec_outbox(&self) -> Seq<ClientMessageV> {
        match self.connection {
            None => Seq::empty(),
            Some((conn, _)) => conn.outbox(),
        }
    }

    /// The session's mathematical value.
    pub open spec fn session_view(&self) -> SessionV {
        SessionV {
            username: match self.username {
                None => None,
                Some(u) => Some(u@),
            },
            status: self.spec_status(),
            events: self.events.deep_view(),
        }
    }

    /// A session with no connection, no username and no queued events.
    pub fn new() -> (r: Self)
        ensures
            r.connection is None,
            r.username is None,
            r.events@.len() == 0,
    {
        Client { connection: None, username: None, events: Vec::new() }
    }

    /// Opens a connection and sends the connect request carrying `username`.
    ///
    /// Only one connect may be in flight: if a connection already exists
    /// this fails with `DuplicateConnectionError` and performs no transport
    /// work. On success the fresh connection has been handed exactly one
    /// message, the connect request. Transport failures are reported as
    /// `NetworkError`; the username is recorded only once the request was
    /// handed to the transport.
    pub fn connect(&mut self, username: &str) -> (r: Result<(), ClientError>)
        ensures
            old(self).connection is Some ==> (r matches Err(ClientError::DuplicateConnectionError))
                && *final(self) == *old(self),
            old(self).connection is None ==> final(self).events@ == old(self).events@ && match r {
                Ok(_) => {
                    &&& final(self).connection is Some
                    &&& final(self).spec_status() == ConnectionStatus::Connecting
                    &&& final(self).session_view().username == Some(username@)
                    &&& final(self).spec_outbox() == seq![ClientMessageV::Connect(username@)]
                },
                Err(e) => (e is NetworkError) && final(self).username == old(self).username,
            },
    {
        if self.connection.is_some() {
            return Err(ClientError::DuplicateConnectionError);
        }

        let conn = match T::new() {
            Ok(conn) => conn,
            Err(e) => {
                return Err(ClientError::NetworkError(e));
            },
        };
        self.connection = Some((conn, ConnectionStatus::Connecting));

        let result = match &mut self.connection {
            Some(pair) => pair.0.send_message(
                ClientMessage::Connect(String::from_str(username)),
            ),
            None => Ok(()),
        };
        if let Err(e) = result {
            return Err(ClientError::NetworkError(e));
        }

        self.username = Some(String::from_str(username));
        Ok(())
    }

    /// The current connection status.
    pub fn connection_status(&self) -> (r: ConnectionStatus)
        ensures
            r == self.spec_status(),
    {
        match &self.connection {
            None => ConnectionStatus::NotConnected,
            Some(pair) => pair.1,
        }
    }

    /// Routes one already-decoded server message into the session: exactly
    /// the step [`spec_apply_message`] describes.
    pub fn apply_server_message(&mut self, msg: &ServerMessage)
        requires
            old(self).connection is Some,
        ensures
            final(self).session_view() == spec_apply_message(old(self).session_view(), msg@),
            final(self).connection is Some <==> old(self).connection is Some,
    {
        match msg {
            ServerMessage::ConnectionAccepted => {
                match &mut self.connection {
                    Some(pair) => {
                        pair.1 = ConnectionStatus::Connected;
                    },
                    None => {},
                }
            },
            ServerMessage::DisconnectClient(reason) => {
                self.username = None;
                match &mut self.connection {
                    Some(pair) => {
                        pair.1 = ConnectionStatus::Failed(*reason);
                    },
                    None => {},
                }
            },
            ServerMessage::SpawnNetworkedEntity(id, archetype, is_owned) => {
                self.events.push(ClientEvent::SpawnEntity(*id, *archetype, *is_owned));
            },
            ServerMessage::DespawnNetworkedEntity(id) => {
                self.events.push(ClientEvent::DespawnEntity(*id));
            },
            ServerMessage::SendNetworkedEntityInfo(id, info) => {
                let copy = match info {
                    InfoSendType::Identity(name) => InfoSendType::Identity(name.clone()),
                    InfoSendType::Position(p) => InfoSendType::Position(*p),
                };
                self.events.push(ClientEvent::UpdateEntityInfo(*id, copy));
            },
            ServerMessage::SendMessage(author, text) => {
                self.events.push(ClientEvent::MessageReceived(author.clone(), text.clone()));
            },
            ServerMessage::PassAlongChallenge(id) => {
                self.events.push(ClientEvent::ChallengeReceived(*id));
            },
        }
        proof {
            assert(final(self).session_view().events =~= spec_apply_message(
                old(self).session_view(),
                msg@,
            ).events);
            assert(final(self).session_view() =~~= spec_apply_message(
                old(self).session_view(),
                msg@,
            ));
        }
    }

    /// Routes a whole batch of decoded server messages, in order: the fold
    /// [`spec_apply_all`] describes.
    pub fn apply_server_messages(&mut self, msgs: &Vec<ServerMessage>)
        requires
            old(self).connection is Some,
        ensures
            final(self).session_view() == spec_apply_all(
                old(self).session_view(),
                msgs.deep_view(),
            ),
            final(self).connection is Some <==> old(self).connection is Some,
    {
        let ghost s0 = self.session_view();
        let mut i: usize = 0;
        while i < msgs.len()
            invariant
                s0 == old(self).session_view(),
                i <= msgs@.len(),
                self.connection is Some,
                msgs.deep_view().len() == msgs@.len(),
                self.session_view() == spec_apply_all(s0, msgs.deep_view().take(i as int)),
                self.connection is Some <==> old(self).connection is Some,
            decreases msgs@.len() - i,
        {
            proof {
                assert(msgs.deep_view().take(i + 1 as int).drop_last() =~= msgs.deep_view().take(
                    i as int,
                ));
                assert(msgs.deep_view().take(i + 1 as int).last() == msgs@[i as int]@);
            }
            self.apply_server_message(&msgs[i]);
            i += 1;
        }
        proof {
            assert(msgs.deep_view().take(msgs@.len() as int) =~= msgs.deep_view());
        }
    }

    /// Drains the connection and routes every inbound message into the
    /// session. Whatever batch the transport hands back, the session
    /// advances by exactly the fold [`spec_apply_all`] over it.
    pub fn receive_messages(&mut self) -> (r: Result<(), ClientError>)
        ensures
            old(self).connection is None ==> (r matches Err(ClientError::NotConnected)) && *final(self) == *old(self),
            old(self).connection is Some ==> r is Ok && final(self).connection is Some && exists|
                ms: Seq<ServerMessageV>,
            |
                final(self).session_view() == spec_apply_all(old(self).session_view(), ms),
    {
        let msgs = match &mut self.connection {
            None => {
                return Err(ClientError::NotConnected);
            },
            Some(pair) => pair.0.receive_messages(),
        };
        self.apply_server_messages(&msgs);
        Ok(())
    }

    /// The username of the connect attempt in flight, if any.
    pub fn get_username(&self) -> (r: Option<&str>)
        ensures
            match r {
                Some(u) => self.username matches Some(x) && x@ == u@,
                None => self.username is None,
            },
    {
        match &self.username {
            Some(u) => Some(u.as_str()),
            None => None,
        }
    }

    /// Hands out every queued event, oldest first, leaving the queue empty.
    /// Events not drained in one tick stay queued; the session itself never
    /// drops one.
    pub fn take_events(&mut self) -> (r: Vec<ClientEvent>)
        ensures
            r.deep_view() == old(self).events.deep_view(),
            final(self).events@.len() == 0,
            final(self).connection == old(self).connection,
            final(self).username == old(self).username,
    {
        let mut out: Vec<ClientEvent> = Vec::new();
        core::mem::swap(&mut out, &mut self.events);
        out
    }

    /// Sends a position update for the local player.
    pub fn move_player(&mut self, pos: Position) -> (r: Result<(), ClientError>)
        ensures
            old(self).connection is None ==> (r matches Err(ClientError::NotConnected)) && *final(self) == *old(self),
            final(self).username == old(self).username,
            final(self).events@ == old(self).events@,
            final(self).spec_status() == old(self).spec_status(),
            final(self).connection is Some <==> old(self).connection is Some,
            old(self).connection is Some ==> match r {
                Ok(_) => final(self).spec_outbox() == old(self).spec_outbox().push(
                    ClientMessageV::MoveTo(pos),
                ),
                Err(e) => (e is NetworkError) && final(self).spec_outbox() == old(
                    self,
                ).spec_outbox(),
            },
    {
        match &mut self.connection {
            None => Err(ClientError::NotConnected),
            Some(pair) => match pair.0.send_message(ClientMessage::MoveTo(pos)) {
                Ok(_) => Ok(()),
                Err(e) => Err(ClientError::NetworkError(e)),
            },
        }
    }

    /// Asks the server what archetype `id` has, to repair a local desync.
    pub fn request_id_archetype(&mut self, id: NetworkID) -> (r: Result<(), ClientError>)
        ensures
            old(self).connection is None ==> (r matches Err(ClientError::NotConnected)) && *final(self) == *old(self),
            final(self).username == old(self).username,
            final(self).events@ == old(self).events@,
            final(self).spec_status() == old(self).spec_status(),
            final(self).connection is Some <==> old(self).connection is Some,
            old(self).connection is Some ==> match r {
                Ok(_) => final(self).spec_outbox() == old(self).spec_outbox().push(
                    ClientMessageV::RequestArchetype(id),
                ),
                Err(e) => (e is NetworkError) && final(self).spec_outbox() == old(
                    self,
                ).spec_outbox(),
            },
    {
        match &mut self.connection {
            None => Err(ClientError::NotConnected),
            Some(pair) => match pair.0.send_message(ClientMessage::RequestArchetype(id)) {
                Ok(_) => Ok(()),
                Err(e) => Err(ClientError::NetworkError(e)),
            },
        }
    }

    /// Asks the server for information about entity `id`.
    pub fn request_id_info(&mut self, id: NetworkID, info: InfoRequestType) -> (r: Result<
        (),
        ClientError,
    >)
        ensures
            old(self).connection is None ==> (r matches Err(ClientError::NotConnected)) && *final(self) == *old(self),
            final(self).username == old(self).username,
            final(self).events@ == old(self).events@,
            final(self).spec_status() == old(self).spec_status(),
            final(self).connection is Some <==> old(self).connection is Some,
            old(self).connection is Some ==> match r {
                Ok(_) => final(self).spec_outbox() == old(self).spec_outbox().push(
                    ClientMessageV::RequestEntityInfo(id, info),
                ),
                Err(e) => (e is NetworkError) && final(self).spec_outbox() == old(
                    self,
                ).spec_outbox(),
            },
    {
        match &mut self.connection {
            None => Err(ClientError::NotConnected),
            Some(pair) => match pair.0.send_message(
                ClientMessage::RequestEntityInfo(id, info),
            ) {
                Ok(_) => Ok(()),
                Err(e) => Err(ClientError::NetworkError(e)),
            },
        }
    }

    /// Sends a chat line.
    pub fn send_chat_message(&mut self, text: &str) -> (r: Result<(), ClientError>)
        ensures
            old(self).connection is None ==> (r matches Err(ClientError::NotConnected)) && *final(self) == *old(self),
            final(self).username == old(self).username,
            final(self).events@ == old(self).events@,
            final(self).spec_status() == old(self).spec_status(),
            final(self).connection is Some <==> old(self).connection is Some,
            old(self).connection is Some ==> match r {
                Ok(_) => final(self).spec_outbox() == old(self).spec_outbox().push(
                    ClientMessageV::SendMessage(text@),
                ),
                Err(e) => (e is NetworkError) && final(self).spec_outbox() == old(
                    self,
                ).spec_outbox(),
            },
    {
        match &mut self.connection {
            None => Err(ClientError::NotConnected),
            Some(pair) => match pair.0.send_message(
                ClientMessage::SendMessage(String::from_str(text)),
            ) {
                Ok(_) => Ok(()),
                Err(e) => Err(ClientError::NetworkError(e)),
            },
        }
    }
}

/// An in-memory connection double: what was sent is kept for inspection,
/// and inbound messages are staged by tests.
pub struct TestConnection {
    pub sent: Vec<ClientMessage>,
    pub inbound: Vec<ServerMessage>,
}

impl ConnectionInterface for TestConnection {
    /// The messages this double accepted, in order.
    open spec fn outbox(&self) -> Seq<ClientMessageV> {
        self.sent.deep_view()
    }

    fn new() -> (r: Result<Self, TransportError>) {
        let conn = TestConnection { sent: Vec::new(), inbound: Vec::new() };
        proof {
            assert(conn.outbox() =~= Seq::<ClientMessageV>::empty());
        }
        Ok(conn)
    }

    fn send_message(&mut self, message: ClientMessage) -> (r: Result<(), TransportError>) {
        let ghost pre = self.outbox();
        self.sent.push(message);
        proof {
            assert(self.outbox() =~= pre.push(message@));
        }
        Ok(())
    }

    fn receive_messages(&mut self) -> (r: Vec<ServerMessage>) {
        let mut out: Vec<ServerMessage> = Vec::new();
        core::mem::swap(&mut out, &mut self.inbound);
        out
    }
}

/// A connection double whose sends always fail, for driving the
/// network-error paths: it accepts nothing and receives nothing.
pub struct BrokenConnection;

impl ConnectionInterface for BrokenConnection {
    /// This double never accepts a message.
    open spec fn outbox(&self) -> Seq<ClientMessageV> {
        Seq::empty()
    }

    fn new() -> (r: Result<Self, TransportError>) {
        Ok(BrokenConnection)
    }

    fn send_message(&mut self, _message: ClientMessage) -> (r: Result<(), TransportError>) {
        Err(TransportError { message: String::from_str("wire cut") })
    }

    fn receive_messages(&mut self) -> (r: Vec<ServerMessage>) {
        Vec::new()
    }
}

/// A session over the in-memory double, for tests.
pub type TestClient = Client<TestConnection>;

impl Client<TestConnection> {
    /// A session that has already issued a connect attempt.
    pub fn already_connected() -> (r: Self) {
        let mut result: Client<TestConnection> = Client::new();
        let _ = result.connect("TestUser");
        result
    }

    /// Hands out every message sent so far, oldest first.
    pub fn get_sent_messages(&mut self) -> (r: Vec<ClientMessage>) {
        match &mut self.connection {
            None => Vec::new(),
            Some(pair) => {
                let mut out: Vec<ClientMessage> = Vec::new();
                core::mem::swap(&mut out, &mut pair.0.sent);
                out
            },
        }
    }

    /// Stages a message as if the server had sent it; the next
    /// `receive_messages` call routes it.
    pub fn fake_server_message(&mut self, msg: ServerMessage) {
        match &mut self.connection {
            None => {},
            Some(pair) => {
                pair.0.inbound.push(msg);
            },
        }
    }
}

} // verus!
