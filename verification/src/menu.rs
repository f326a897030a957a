//! The main menu's decisions: validating a login attempt, connecting, and
//! following the connection into the overworld. The widgets that raise the
//! events and display the notifications live outside the library.
use vstd::prelude::*;

use crate::scheduler::AppState;
use crate::scheduler::NextState;
use crate::session::Client;
use crate::session::ClientError;
use crate::session::ConnectionInterface;
use crate::session::ConnectionStatus;
use crate::validation::MIN_LENGTH;
use crate::validation::MAX_LENGTH;
use crate::validation::spec_found_profanity;
use crate::validation::spec_profanity_message;
use crate::validation::spec_too_long_message;
use crate::validation::spec_too_short_message;
use crate::validation::spec_valid_username;
use crate::validation::validate_username;

verus! {

/// A notification surfaced to the player by the main menu.
#[derive(Debug, Clone, PartialEq)]
pub enum MainMenuNotification {
    Error(String),
}

/// What a login attempt decided: proceed to the connecting screen, or show
/// a notification and stay.
#[derive(Debug)]
pub enum LoginOutcome {
    Connecting,
    Rejected(MainMenuNotification),
}

impl ClientError {
    /// The user-facing description of this failure.
    pub fn message(&self) -> (r: String)
        ensures
            match self {
                ClientError::DuplicateConnectionError => r@ == "a connection already exists"@,
                ClientError::NotConnected => r@ == "not connected"@,
                ClientError::NetworkError(e) => r@ == "network error: "@ + e.message@,
            },
    {
        match self {
            ClientError::DuplicateConnectionError => String::from_str(
                "a connection already exists",
            ),
            ClientError::NotConnected => String::from_str("not connected"),
            ClientError::NetworkError(e) => {
                let mut r = String::from_str("network error: ");
                r.append(e.message.as_str());
                r
            },
        }
    }
}

/// Applies a login attempt with the text currently entered: the username is
/// checked first, purely advisorily — the server's own check stays
/// authoritative — and only a passing name is sent in a connect request.
/// Every failure becomes a notification; nothing panics.
pub fn attempt_login<T: ConnectionInterface>(client: &mut Client<T>, text: &str) -> (r:
    LoginOutcome)
    ensures
        !spec_valid_username(text@) ==> *final(client) == *old(client),
        text@.len() < MIN_LENGTH ==> (r matches LoginOutcome::Rejected(
            MainMenuNotification::Error(m),
        ) && m@ == spec_too_short_message()),
        text@.len() > MAX_LENGTH ==> (r matches LoginOutcome::Rejected(
            MainMenuNotification::Error(m),
        ) && m@ == spec_too_long_message()),
        MIN_LENGTH <= text@.len() <= MAX_LENGTH && spec_found_profanity(text@).len() > 0 ==> (r
            matches LoginOutcome::Rejected(MainMenuNotification::Error(m)) && m@
            == spec_profanity_message(spec_found_profanity(text@))),
        spec_valid_username(text@) && old(client).connection is Some ==> *final(client) == *old(
            client,
        ) && (r matches LoginOutcome::Rejected(MainMenuNotification::Error(m)) && m@
            == "a connection already exists"@),
        spec_valid_username(text@) && old(client).connection is None ==> (r matches
        LoginOutcome::Connecting ==> final(client).spec_status() == ConnectionStatus::Connecting
            && final(client).session_view().username == Some(text@)),
{
    match validate_username(text) {
        Err(e) => LoginOutcome::Rejected(MainMenuNotification::Error(e.message())),
        Ok(_) => match client.connect(text) {
            Ok(_) => LoginOutcome::Connecting,
            Err(e) => LoginOutcome::Rejected(MainMenuNotification::Error(e.message())),
        },
    }
}

/// Polls the session and, once the server has accepted the connection,
/// requests the transition into the overworld.
pub fn join_server_when_connected<T: ConnectionInterface>(
    client: &mut Client<T>,
    next_state: &mut NextState,
)
    ensures
        final(client).spec_status() == ConnectionStatus::Connected ==> final(next_state).0
            == Some(AppState::Overworld),
        final(client).spec_status() != ConnectionStatus::Connected ==> *final(next_state) == *old(
            next_state,
        ),
{
    let _ = client.receive_messages();
    match client.connection_status() {
        ConnectionStatus::Connected => {
            *next_state = NextState(Some(AppState::Overworld));
        },
        _ => {},
    }
}

} // verus!
