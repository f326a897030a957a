use shackle_core::dueling::DuelingClient;
use shackle_core::messages::ClientMessage;
use shackle_core::messages::DisconnectReason;
use shackle_core::messages::InfoSendType;
use shackle_core::messages::ServerMessage;
use shackle_core::position::Position;
use shackle_core::session::ClientError;
use shackle_core::session::ClientEvent;
use shackle_core::session::ConnectionStatus;
use shackle_core::session::TestClient;
use shackle_core::GameArchetype;
use shackle_core::NetworkID;

#[test]
fn test_send_challenge() {
    let mut client = TestClient::already_connected();
    let target_id = NetworkID::new(1);
    client
        .send_challenge(target_id.clone())
        .expect("This should work.");
    let binding = client.get_sent_messages();
    let last_message = binding.last().unwrap();
    assert_eq!(*last_message, ClientMessage::IssueChallenge(target_id))
}

#[test]
fn test_connect_sends_connect_message() {
    let mut client = TestClient::new();
    client.connect("Alaric").expect("connect should succeed");
    assert!(matches!(
        client.connection_status(),
        ConnectionStatus::Connecting
    ));
    assert_eq!(client.get_username(), Some("Alaric"));
    let sent = client.get_sent_messages();
    assert_eq!(sent, vec![ClientMessage::Connect("Alaric".to_string())]);
}

#[test]
fn test_second_connect_is_a_duplicate() {
    let mut client = TestClient::already_connected();
    let result = client.connect("Yslith");
    assert!(matches!(
        result,
        Err(ClientError::DuplicateConnectionError)
    ));
    // No transport work happened: only the original connect was sent.
    let sent = client.get_sent_messages();
    assert_eq!(sent, vec![ClientMessage::Connect("TestUser".to_string())]);
}

#[test]
fn test_operations_without_connection_fail_not_connected() {
    let mut client = TestClient::new();
    assert!(matches!(
        client.move_player(Position::new(1, 2)),
        Err(ClientError::NotConnected)
    ));
    assert!(matches!(
        client.send_chat_message("hello"),
        Err(ClientError::NotConnected)
    ));
    assert!(matches!(
        client.request_id_archetype(NetworkID::new(1)),
        Err(ClientError::NotConnected)
    ));
    assert!(matches!(
        client.receive_messages(),
        Err(ClientError::NotConnected)
    ));
    assert!(matches!(
        client.send_challenge(NetworkID::new(1)),
        Err(ClientError::NotConnected)
    ));
}

#[test]
fn test_connection_accepted_connects_the_session() {
    let mut client = TestClient::already_connected();
    client.fake_server_message(ServerMessage::ConnectionAccepted);
    client.receive_messages().expect("session is connected");
    assert!(matches!(
        client.connection_status(),
        ConnectionStatus::Connected
    ));
    // Acceptance changes status only; no event is emitted.
    assert!(client.take_events().is_empty());
}

#[test]
fn test_disconnect_client_fails_the_session_and_clears_username() {
    let mut client = TestClient::already_connected();
    client.fake_server_message(ServerMessage::DisconnectClient(
        DisconnectReason::InvalidUsername,
    ));
    client.receive_messages().expect("session exists");
    assert!(matches!(
        client.connection_status(),
        ConnectionStatus::Failed(DisconnectReason::InvalidUsername)
    ));
    assert_eq!(client.get_username(), None);
}

#[test]
fn test_server_messages_become_events_in_arrival_order() {
    let mut client = TestClient::already_connected();
    client.fake_server_message(ServerMessage::SpawnNetworkedEntity(
        NetworkID::new(4),
        GameArchetype::Player,
        false,
    ));
    client.fake_server_message(ServerMessage::SendNetworkedEntityInfo(
        NetworkID::new(4),
        InfoSendType::Position(Position::new(10, 20)),
    ));
    client.fake_server_message(ServerMessage::SendMessage(
        "Yslith".to_string(),
        "hi".to_string(),
    ));
    client.fake_server_message(ServerMessage::PassAlongChallenge(NetworkID::new(4)));
    client.fake_server_message(ServerMessage::DespawnNetworkedEntity(NetworkID::new(4)));
    client.receive_messages().expect("session exists");

    let events = client.take_events();
    assert_eq!(events.len(), 5);
    assert!(matches!(
        events[0],
        ClientEvent::SpawnEntity(id, GameArchetype::Player, false) if id == NetworkID::new(4)
    ));
    assert!(matches!(
        events[1],
        ClientEvent::UpdateEntityInfo(_, InfoSendType::Position(p)) if p == Position::new(10, 20)
    ));
    assert!(matches!(events[2], ClientEvent::MessageReceived(_, _)));
    assert!(matches!(events[3], ClientEvent::ChallengeReceived(_)));
    assert!(matches!(events[4], ClientEvent::DespawnEntity(_)));

    // Draining consumed the queue; nothing was dropped and nothing remains.
    assert!(client.take_events().is_empty());
}

#[test]
fn test_session_operations_hand_their_message_to_the_connection() {
    let mut client = TestClient::already_connected();
    client.get_sent_messages();

    client
        .move_player(Position::new(3, 4))
        .expect("connected session");
    client
        .request_id_archetype(NetworkID::new(8))
        .expect("connected session");
    client
        .request_id_info(
            NetworkID::new(8),
            shackle_core::messages::InfoRequestType::Identity,
        )
        .expect("connected session");
    client.send_chat_message("hello").expect("connected session");

    let sent = client.get_sent_messages();
    assert_eq!(
        sent,
        vec![
            ClientMessage::MoveTo(Position::new(3, 4)),
            ClientMessage::RequestArchetype(NetworkID::new(8)),
            ClientMessage::RequestEntityInfo(
                NetworkID::new(8),
                shackle_core::messages::InfoRequestType::Identity
            ),
            ClientMessage::SendMessage("hello".to_string()),
        ],
        "each operation hands exactly its message to the connection, in order"
    );
}

#[test]
fn test_transport_failure_surfaces_as_network_error() {
    let mut client: shackle_core::session::Client<shackle_core::session::BrokenConnection> =
        shackle_core::session::Client::new();
    let result = client.connect("Alaric");
    match result {
        Err(ClientError::NetworkError(e)) => assert_eq!(e.message.as_str(), "wire cut"),
        other => panic!("expected a network error, got {other:?}"),
    }
    // The username is recorded only once a request was handed to the
    // transport.
    assert_eq!(client.get_username(), None);
}

#[test]
fn test_undrained_events_stay_queued() {
    let mut client = TestClient::already_connected();
    client.fake_server_message(ServerMessage::DespawnNetworkedEntity(NetworkID::new(1)));
    client.receive_messages().expect("session exists");
    // A second poll with nothing inbound must not lose the queued event.
    client.receive_messages().expect("session exists");
    let events = client.take_events();
    assert_eq!(events.len(), 1);
}
