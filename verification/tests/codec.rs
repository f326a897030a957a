use shackle_core::messages::ClientMessage;
use shackle_core::messages::DisconnectReason;
use shackle_core::messages::InfoRequestType;
use shackle_core::messages::InfoSendType;
use shackle_core::messages::MessageType;
use shackle_core::messages::ServerMessage;
use shackle_core::position::Position;
use shackle_core::GameArchetype;
use shackle_core::NetworkID;

fn client_round_trip(m: ClientMessage) {
    let payload = m.to_payload();
    let decoded = ClientMessage::from_payload(&payload).expect("should decode");
    assert_eq!(decoded, m);
}

fn server_round_trip(m: ServerMessage) {
    let payload = m.to_payload();
    let decoded = ServerMessage::from_payload(&payload).expect("should decode");
    assert_eq!(decoded, m);
}

#[test]
fn test_client_message_round_trips() {
    client_round_trip(ClientMessage::Connect("Alaric".to_string()));
    client_round_trip(ClientMessage::Connect(String::new()));
    client_round_trip(ClientMessage::RequestArchetype(NetworkID::new(7)));
    client_round_trip(ClientMessage::RequestEntityInfo(
        NetworkID::new(0),
        InfoRequestType::Identity,
    ));
    client_round_trip(ClientMessage::SendMessage("hello there".to_string()));
    client_round_trip(ClientMessage::MoveTo(Position::new(-40, 9000)));
    client_round_trip(ClientMessage::IssueChallenge(NetworkID::new(3)));
    client_round_trip(ClientMessage::RespondToChallenge(NetworkID::new(3), true));
    client_round_trip(ClientMessage::RespondToChallenge(NetworkID::new(4), false));
    client_round_trip(ClientMessage::Disconnect);
}

#[test]
fn test_server_message_round_trips() {
    server_round_trip(ServerMessage::ConnectionAccepted);
    server_round_trip(ServerMessage::SpawnNetworkedEntity(
        NetworkID::new(12),
        GameArchetype::Player,
        true,
    ));
    server_round_trip(ServerMessage::SpawnNetworkedEntity(
        NetworkID::new(13),
        GameArchetype::Player,
        false,
    ));
    server_round_trip(ServerMessage::DespawnNetworkedEntity(NetworkID::new(12)));
    server_round_trip(ServerMessage::SendNetworkedEntityInfo(
        NetworkID::new(5),
        InfoSendType::Identity("Yslith".to_string()),
    ));
    server_round_trip(ServerMessage::SendNetworkedEntityInfo(
        NetworkID::new(5),
        InfoSendType::Position(Position::new(420, -1)),
    ));
    server_round_trip(ServerMessage::SendMessage(
        "SERVER".to_string(),
        "Alaric has connected".to_string(),
    ));
    server_round_trip(ServerMessage::PassAlongChallenge(NetworkID::new(9)));
    server_round_trip(ServerMessage::DisconnectClient(
        DisconnectReason::InvalidUsername,
    ));
}

#[test]
fn test_round_trip_keeps_unicode_text() {
    client_round_trip(ClientMessage::SendMessage("héllo wörld \u{1F600}".to_string()));
}

#[test]
fn test_decode_rejects_garbage() {
    assert!(ClientMessage::from_payload(&[0xFF, 0x01, 0x02]).is_err());
    assert!(ServerMessage::from_payload(&[0xFF]).is_err());
    assert!(ClientMessage::from_payload(&[]).is_err());
    assert!(ServerMessage::from_payload(&[]).is_err());
}

#[test]
fn test_decode_rejects_truncated_payload() {
    let payload = ClientMessage::Connect("Alaric".to_string()).to_payload();
    assert!(ClientMessage::from_payload(&payload[..payload.len() - 1]).is_err());
}

#[test]
fn test_decode_rejects_invalid_code_point() {
    // A Connect whose single character is a surrogate code point: the tag,
    // a character count of one, then 0xD800 little-endian.
    let mut payload = vec![0u8];
    payload.extend_from_slice(&1u64.to_le_bytes());
    payload.extend_from_slice(&0xD800u32.to_le_bytes());
    assert!(ClientMessage::from_payload(&payload).is_err());

    // The same shape with a valid character decodes.
    let mut good = vec![0u8];
    good.extend_from_slice(&3u64.to_le_bytes());
    for c in "Ali".chars() {
        good.extend_from_slice(&(c as u32).to_le_bytes());
    }
    assert_eq!(
        ClientMessage::from_payload(&good).expect("valid payload"),
        ClientMessage::Connect("Ali".to_string())
    );
}

#[test]
fn test_decode_rejects_trailing_bytes() {
    let mut payload = ClientMessage::Disconnect.to_payload();
    payload.push(0);
    assert!(ClientMessage::from_payload(&payload).is_err());
}

#[test]
fn test_move_to_is_unreliable_everything_else_reliable() {
    assert_eq!(
        MessageType::of_client_message(&ClientMessage::MoveTo(Position::new(1, 2))),
        MessageType::Unreliable
    );
    assert_eq!(
        MessageType::of_client_message(&ClientMessage::Connect("Alaric".to_string())),
        MessageType::ReliableUnordered
    );
    assert_eq!(
        MessageType::of_client_message(&ClientMessage::Disconnect),
        MessageType::ReliableUnordered
    );
    assert_eq!(
        MessageType::of_client_message(&ClientMessage::SendMessage("hi".to_string())),
        MessageType::ReliableUnordered
    );
}
