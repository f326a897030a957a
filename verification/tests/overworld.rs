use shackle_core::messages::ClientMessage;
use shackle_core::messages::InfoSendType;
use shackle_core::overworld::handle_event;
use shackle_core::overworld::apply_client_event;
use shackle_core::overworld::handle_client_events;
use shackle_core::overworld::ChatMessages;
use shackle_core::overworld::NetworkedEntities;
use shackle_core::overworld::OverworldNotification;
use shackle_core::overworld::OverworldNotifications;
use shackle_core::overworld::OverworldUIEvent;
use shackle_core::overworld::MAX_DISPLAYED_MESSAGES;
use shackle_core::position::Position;
use shackle_core::scheduler::AppState;
use shackle_core::scheduler::NextState;
use shackle_core::session::ClientEvent;
use shackle_core::session::TestClient;
use shackle_core::messages::ServerMessage;
use shackle_core::GameArchetype;
use shackle_core::NetworkID;

struct Overworld {
    entities: NetworkedEntities,
    chat: ChatMessages,
    notifications: OverworldNotifications,
}

impl Overworld {
    fn fresh() -> Self {
        Overworld {
            entities: NetworkedEntities::new(),
            chat: ChatMessages::new(),
            notifications: OverworldNotifications::new(),
        }
    }

    fn apply(&mut self, client: &mut TestClient, event: ClientEvent) {
        apply_client_event(
            &mut self.entities,
            client,
            &mut self.chat,
            &mut self.notifications,
            &event,
        );
    }
}

#[test]
fn test_logout_event() {
    let mut next_state = NextState(None);
    let mut client = TestClient::already_connected();
    let mut notifications = OverworldNotifications::new();

    handle_event(
        &OverworldUIEvent::Logout,
        &mut client,
        &mut next_state,
        &mut notifications,
    );

    assert_eq!(next_state.0, Some(AppState::MainMenu))
}

#[test]
fn test_duel_event() {
    let mut next_state = NextState(None);
    let mut client = TestClient::already_connected();
    let mut notifications = OverworldNotifications::new();

    let target = NetworkID::new(1);
    handle_event(
        &OverworldUIEvent::Challenge(target.clone()),
        &mut client,
        &mut next_state,
        &mut notifications,
    );

    let binding = client.get_sent_messages();
    let last_message = binding.last().unwrap();
    assert_eq!(*last_message, ClientMessage::IssueChallenge(target));
}

#[test]
fn test_challenge_response_consumes_the_notification() {
    let mut next_state = NextState(None);
    let mut client = TestClient::already_connected();
    let mut notifications = OverworldNotifications::new();
    notifications
        .0
        .push_back(OverworldNotification::ReceivedChallenge(NetworkID::new(2)));

    handle_event(
        &OverworldUIEvent::ChallengeResponse(NetworkID::new(2), true),
        &mut client,
        &mut next_state,
        &mut notifications,
    );

    assert!(notifications.0.is_empty());
    let binding = client.get_sent_messages();
    let last_message = binding.last().unwrap();
    assert_eq!(
        *last_message,
        ClientMessage::RespondToChallenge(NetworkID::new(2), true)
    );
}

#[test]
fn test_two_spawns_leave_two_mirrored_entities() {
    let mut world = Overworld::fresh();
    let mut client = TestClient::already_connected();

    client.fake_server_message(ServerMessage::SpawnNetworkedEntity(
        NetworkID::new(0),
        GameArchetype::Player,
        true,
    ));
    client.fake_server_message(ServerMessage::SpawnNetworkedEntity(
        NetworkID::new(1),
        GameArchetype::Player,
        false,
    ));
    handle_client_events(
        &mut world.entities,
        &mut client,
        &mut world.chat,
        &mut world.notifications,
    );

    assert_eq!(world.entities.len(), 2);
    let own = world.entities.lookup(NetworkID::new(0)).unwrap();
    assert!(own.is_owned);
    assert!(!own.needs_name);
    let remote = world.entities.lookup(NetworkID::new(1)).unwrap();
    assert!(!remote.is_owned);
    assert!(remote.needs_name, "a remote player's name is still owed");
}

#[test]
fn test_despawn_removes_the_mirrored_entity() {
    let mut world = Overworld::fresh();
    let mut client = TestClient::already_connected();

    world.apply(
        &mut client,
        ClientEvent::SpawnEntity(NetworkID::new(5), GameArchetype::Player, false),
    );
    assert_eq!(world.entities.len(), 1);
    world.apply(&mut client, ClientEvent::DespawnEntity(NetworkID::new(5)));
    assert_eq!(world.entities.len(), 0);
    // Despawning an identity that was never spawned passes silently.
    world.apply(&mut client, ClientEvent::DespawnEntity(NetworkID::new(5)));
    assert_eq!(world.entities.len(), 0);
}

#[test]
fn test_info_update_fills_in_the_mirrored_record() {
    let mut world = Overworld::fresh();
    let mut client = TestClient::already_connected();
    let id = NetworkID::new(3);

    world.apply(
        &mut client,
        ClientEvent::SpawnEntity(id, GameArchetype::Player, false),
    );
    world.apply(
        &mut client,
        ClientEvent::UpdateEntityInfo(id, InfoSendType::Position(Position::new(7, 8))),
    );
    world.apply(
        &mut client,
        ClientEvent::UpdateEntityInfo(id, InfoSendType::Identity("Yslith".to_string())),
    );

    let entry = world.entities.lookup(id).unwrap();
    assert_eq!(entry.position, Some(Position::new(7, 8)));
    assert_eq!(entry.name.as_deref(), Some("Yslith"));
    assert!(!entry.needs_name);
}

#[test]
fn test_info_update_for_unknown_identity_rerequests_archetype() {
    let mut world = Overworld::fresh();
    let mut client = TestClient::already_connected();
    let id = NetworkID::new(77);

    world.apply(
        &mut client,
        ClientEvent::UpdateEntityInfo(id, InfoSendType::Position(Position::new(1, 1))),
    );

    assert_eq!(world.entities.len(), 0, "nothing is mirrored yet");
    let binding = client.get_sent_messages();
    let last_message = binding.last().unwrap();
    assert_eq!(*last_message, ClientMessage::RequestArchetype(id));
}

#[test]
fn test_request_names_asks_once_per_entity_still_owing_one() {
    let mut world = Overworld::fresh();
    let mut client = TestClient::already_connected();

    // One owned entity (knows its name), two remote ones (names owed).
    world.apply(
        &mut client,
        ClientEvent::SpawnEntity(NetworkID::new(0), GameArchetype::Player, true),
    );
    world.apply(
        &mut client,
        ClientEvent::SpawnEntity(NetworkID::new(1), GameArchetype::Player, false),
    );
    world.apply(
        &mut client,
        ClientEvent::SpawnEntity(NetworkID::new(2), GameArchetype::Player, false),
    );
    client.get_sent_messages();

    shackle_core::overworld::request_names(&world.entities, &mut client);
    let sent = client.get_sent_messages();
    assert_eq!(
        sent,
        vec![
            ClientMessage::RequestEntityInfo(
                NetworkID::new(1),
                shackle_core::messages::InfoRequestType::Identity
            ),
            ClientMessage::RequestEntityInfo(
                NetworkID::new(2),
                shackle_core::messages::InfoRequestType::Identity
            ),
        ],
        "one identity request per entity owing a name, nothing else"
    );
}

#[test]
fn test_chat_log_keeps_only_the_newest_lines() {
    let mut chat = ChatMessages::new();
    chat.add_message("Alaric", "one");
    assert_eq!(chat.0.len(), 1);
    assert_eq!(chat.0[0].as_str(), "Alaric: one");

    chat.add_message("Alaric", "two");
    chat.add_message("Alaric", "three");
    chat.add_message("Alaric", "four");
    chat.add_message("Alaric", "five");
    chat.add_message("Alaric", "six");
    assert_eq!(chat.0.len(), MAX_DISPLAYED_MESSAGES);
    assert_eq!(chat.0[0].as_str(), "Alaric: two", "the oldest line was dropped");
    assert_eq!(chat.0[MAX_DISPLAYED_MESSAGES - 1].as_str(), "Alaric: six");
}

#[test]
fn test_challenge_event_queues_a_notification() {
    let mut world = Overworld::fresh();
    let mut client = TestClient::already_connected();

    world.apply(&mut client, ClientEvent::ChallengeReceived(NetworkID::new(6)));
    assert_eq!(
        world.notifications.0.front(),
        Some(&OverworldNotification::ReceivedChallenge(NetworkID::new(6)))
    );
}
