//! The dueling interface: clients able to issue and answer duel
//! challenges. Code can target this capability while ignoring clients
//! without it.
//!
//! Server-side duel resolution is deliberately not implemented in this
//! revision; the messages are routed as distinguishable variants so the
//! extension point stays typed.
use vstd::prelude::*;

use crate::NetworkID;
use crate::messages::ClientMessage;
use crate::messages::ClientMessageV;
use crate::session::Client;
use crate::session::ClientError;
use crate::session::ConnectionInterface;

verus! {

/// A client able to issue and answer duel challenges.
///
/// Both operations require a connection: without one they fail with
/// `NotConnected` and send nothing. With one, success means exactly the
/// dueling message was handed to the connection, and a transport failure
/// surfaces as `NetworkError` with nothing handed over.
pub trait DuelingClient {
    /// Whether a connection exists to carry dueling messages.
    spec fn duel_connected(&self) -> bool;

    /// What this client has handed its connection for sending, in order.
    spec fn duel_outbox(&self) -> Seq<ClientMessageV>;

    fn send_challenge(&mut self, target_id: NetworkID) -> (r: Result<(), ClientError>)
        ensures
            (r matches Err(ClientError::NotConnected)) <==> !old(self).duel_connected(),
            final(self).duel_connected() == old(self).duel_connected(),
            !old(self).duel_connected() ==> final(self).duel_outbox() == old(self).duel_outbox(),
            old(self).duel_connected() ==> match r {
                Ok(_) => final(self).duel_outbox() == old(self).duel_outbox().push(
                    ClientMessageV::IssueChallenge(target_id),
                ),
                Err(e) => (e is NetworkError) && final(self).duel_outbox() == old(
                    self,
                ).duel_outbox(),
            },
    ;

    fn respond_to_challenge(&mut self, target_id: NetworkID, response: bool) -> (r: Result<
        (),
        ClientError,
    >)
        ensures
            (r matches Err(ClientError::NotConnected)) <==> !old(self).duel_connected(),
            final(self).duel_connected() == old(self).duel_connected(),
            !old(self).duel_connected() ==> final(self).duel_outbox() == old(self).duel_outbox(),
            old(self).duel_connected() ==> match r {
                Ok(_) => final(self).duel_outbox() == old(self).duel_outbox().push(
                    ClientMessageV::RespondToChallenge(target_id, response),
                ),
                Err(e) => (e is NetworkError) && final(self).duel_outbox() == old(
                    self,
                ).duel_outbox(),
            },
    ;
}

impl<T: ConnectionInterface> DuelingClient for Client<T> {
    open spec fn duel_connected(&self) -> bool {
        self.connection is Some
    }

    open spec fn duel_outbox(&self) -> Seq<ClientMessageV> {
        self.spec_outbox()
    }

    fn send_challenge(&mut self, target_id: NetworkID) -> (r: Result<(), ClientError>) {
        match &mut self.connection {
            None => Err(ClientError::NotConnected),
            Some(pair) => match pair.0.send_message(ClientMessage::IssueChallenge(target_id)) {
                Ok(_) => Ok(()),
                Err(e) => Err(ClientError::NetworkError(e)),
            },
        }
    }

    fn respond_to_challenge(&mut self, target_id: NetworkID, response: bool) -> (r: Result<
        (),
        ClientError,
    >) {
        match &mut self.connection {
            None => Err(ClientError::NotConnected),
            Some(pair) => match pair.0.send_message(
                ClientMessage::RespondToChallenge(target_id, response),
            ) {
                Ok(_) => Ok(()),
                Err(e) => Err(ClientError::NetworkError(e)),
            },
        }
    }
}

} // verus!
