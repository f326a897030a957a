use shackle_core::menu::attempt_login;
use shackle_core::menu::join_server_when_connected;
use shackle_core::menu::LoginOutcome;
use shackle_core::menu::MainMenuNotification;
use shackle_core::messages::ServerMessage;
use shackle_core::scheduler::AppState;
use shackle_core::scheduler::NextState;
use shackle_core::session::ConnectionStatus;
use shackle_core::session::TestClient;

#[test]
fn test_login_with_valid_name_starts_connecting() {
    let mut client = TestClient::new();
    let outcome = attempt_login(&mut client, "Alaric");
    assert!(matches!(outcome, LoginOutcome::Connecting));
    assert!(matches!(
        client.connection_status(),
        ConnectionStatus::Connecting
    ));
}

#[test]
fn test_login_with_short_name_is_rejected_without_io() {
    let mut client = TestClient::new();
    let outcome = attempt_login(&mut client, "Al");
    match outcome {
        LoginOutcome::Rejected(MainMenuNotification::Error(m)) => {
            assert_eq!(
                m,
                "Username must have a minimum length of 3 characters."
            );
        }
        other => panic!("expected a rejection, got {other:?}"),
    }
    // The check is advisory and local: no connection was opened.
    assert!(matches!(
        client.connection_status(),
        ConnectionStatus::NotConnected
    ));
}

#[test]
fn test_login_while_connected_reports_duplicate() {
    let mut client = TestClient::already_connected();
    let outcome = attempt_login(&mut client, "Alaric");
    match outcome {
        LoginOutcome::Rejected(MainMenuNotification::Error(m)) => {
            assert_eq!(m, "a connection already exists");
        }
        other => panic!("expected a rejection, got {other:?}"),
    }
}

#[test]
fn test_join_server_waits_for_acceptance() {
    let mut client = TestClient::already_connected();
    let mut next_state = NextState(None);

    join_server_when_connected(&mut client, &mut next_state);
    assert_eq!(next_state.0, None, "still connecting: no transition yet");

    client.fake_server_message(ServerMessage::ConnectionAccepted);
    join_server_when_connected(&mut client, &mut next_state);
    assert_eq!(next_state.0, Some(AppState::Overworld));
}
