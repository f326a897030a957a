use shackle_core::messages::ClientMessage;
use shackle_core::messages::DisconnectReason;
use shackle_core::messages::InfoRequestType;
use shackle_core::messages::InfoSendType;
use shackle_core::messages::MessageType;
use shackle_core::messages::ServerMessage;
use shackle_core::position::Position;
use shackle_core::registry::handle_connect_message;
use shackle_core::registry::handle_disconnect;
use shackle_core::registry::handle_move;
use shackle_core::registry::handle_request_archetype;
use shackle_core::registry::handle_request_entity_info;
use shackle_core::registry::handle_socket_event;
use shackle_core::registry::send_player_info;
use shackle_core::registry::Address;
use shackle_core::registry::ClientList;
use shackle_core::registry::NetworkedEntities;
use shackle_core::registry::OutboundMessage;
use shackle_core::registry::SendInfoRequest;
use shackle_core::registry::ServerEvent;
use shackle_core::world::SimWorld;
use shackle_core::GameArchetype;
use shackle_core::NetworkID;

struct Server {
    next_id: usize,
    clients: ClientList,
    entities: NetworkedEntities,
    world: SimWorld,
    pending: Vec<SendInfoRequest>,
}

impl Server {
    fn fresh() -> Self {
        Server {
            next_id: 0,
            clients: ClientList::new(),
            entities: NetworkedEntities::new(),
            world: SimWorld::new(),
            pending: Vec::new(),
        }
    }

    fn connect(&mut self, username: &str, source: Address) -> Vec<OutboundMessage> {
        handle_connect_message(
            username,
            &mut self.next_id,
            &mut self.clients,
            source,
            &mut self.entities,
            &mut self.world,
        )
    }
}

fn spawns_in(out: &[OutboundMessage]) -> Vec<(Address, NetworkID, bool)> {
    out.iter()
        .filter_map(|m| match m.message {
            ServerMessage::SpawnNetworkedEntity(id, _, is_owned) => Some((m.to, id, is_owned)),
            _ => None,
        })
        .collect()
}

#[test]
fn test_connect_fresh_registry_broadcasts() {
    let mut server = Server::fresh();
    let origin = Address(1);
    let out = server.connect("Alaric", origin);

    let accepts: Vec<&OutboundMessage> = out
        .iter()
        .filter(|m| matches!(m.message, ServerMessage::ConnectionAccepted))
        .collect();
    assert_eq!(accepts.len(), 1, "exactly one acceptance");
    assert_eq!(accepts[0].to, origin);
    assert_eq!(accepts[0].delivery, MessageType::ReliableUnordered);

    let spawns = spawns_in(&out);
    assert_eq!(spawns.len(), 1);
    assert_eq!(spawns[0], (origin, NetworkID::new(0), true));

    let chats: Vec<&OutboundMessage> = out
        .iter()
        .filter(|m| matches!(m.message, ServerMessage::SendMessage(_, _)))
        .collect();
    assert_eq!(chats.len(), 1);
    match &chats[0].message {
        ServerMessage::SendMessage(author, text) => {
            assert_eq!(author.as_str(), "SERVER");
            assert_eq!(text.as_str(), "Alaric has connected");
        }
        _ => unreachable!(),
    }
}

#[test]
fn test_two_connects_allocate_increasing_identities() {
    let mut server = Server::fresh();
    let first = Address(1);
    let second = Address(2);

    let out_first = server.connect("Alaric", first);
    let out_second = server.connect("Yslith", second);

    let spawns_first = spawns_in(&out_first);
    assert_eq!(spawns_first, vec![(first, NetworkID::new(0), true)]);

    // The second connect announces the new player to both addresses: owned
    // only at the origin.
    let spawns_second = spawns_in(&out_second);
    assert_eq!(
        spawns_second,
        vec![
            (first, NetworkID::new(1), false),
            (second, NetworkID::new(1), true),
        ]
    );
    assert_eq!(server.next_id, 2);
}

#[test]
fn test_connect_rejects_invalid_username() {
    let mut server = Server::fresh();
    let origin = Address(9);
    let out = server.connect("Al", origin);

    assert_eq!(out.len(), 1);
    assert_eq!(out[0].to, origin);
    assert!(matches!(
        out[0].message,
        ServerMessage::DisconnectClient(DisconnectReason::InvalidUsername)
    ));
    // No state was mutated: the same registry still allocates identity 0.
    assert_eq!(server.next_id, 0);
    let accepted = server.connect("Alaric", origin);
    assert!(spawns_in(&accepted).contains(&(origin, NetworkID::new(0), true)));
}

#[test]
fn test_move_clamps_out_of_bounds_position() {
    let mut server = Server::fresh();
    let mover = Address(1);
    let other = Address(2);
    server.connect("Alaric", mover);
    server.connect("Yslith", other);

    let out = handle_move(&server.clients, mover, Position::new(2000, -50));

    // Every other client receives the clamped value, not the request.
    let updates: Vec<(Address, Position)> = out
        .iter()
        .filter_map(|m| match m.message {
            ServerMessage::SendNetworkedEntityInfo(_, InfoSendType::Position(p)) => {
                Some((m.to, p))
            }
            _ => None,
        })
        .collect();
    assert_eq!(
        updates,
        vec![(other, Position::new(800, 0)), (mover, Position::new(800, 0))],
        "the other client gets the clamped value, and the origin gets an echo because clamping changed it"
    );
    for m in &out {
        assert_eq!(m.delivery, MessageType::Unreliable);
    }
}

#[test]
fn test_move_in_bounds_is_not_echoed() {
    let mut server = Server::fresh();
    let mover = Address(1);
    let other = Address(2);
    server.connect("Alaric", mover);
    server.connect("Yslith", other);

    let out = handle_move(&server.clients, mover, Position::new(100, 100));
    assert_eq!(out.len(), 1);
    assert_eq!(out[0].to, other);
}

#[test]
fn test_unauthenticated_move_is_dropped() {
    let mut server = Server::fresh();
    server.connect("Alaric", Address(1));

    let out = handle_move(&server.clients, Address(99), Position::new(5000, 5000));
    assert!(out.is_empty(), "no broadcast for an unauthenticated move");
}

#[test]
fn test_disconnect_broadcasts_once_and_is_idempotent() {
    let mut server = Server::fresh();
    let leaver = Address(1);
    let stayer = Address(2);
    server.connect("Alaric", leaver);
    server.connect("Yslith", stayer);

    let out = handle_disconnect(
        &mut server.clients,
        &mut server.entities,
        &mut server.world,
        leaver,
    );
    let despawns: Vec<&OutboundMessage> = out
        .iter()
        .filter(|m| matches!(m.message, ServerMessage::DespawnNetworkedEntity(_)))
        .collect();
    assert_eq!(despawns.len(), 1);
    assert_eq!(despawns[0].to, stayer);
    assert!(matches!(
        despawns[0].message,
        ServerMessage::DespawnNetworkedEntity(id) if id == NetworkID::new(0)
    ));

    // The second disconnect for the same address is a no-op: no duplicate
    // broadcasts.
    let again = handle_disconnect(
        &mut server.clients,
        &mut server.entities,
        &mut server.world,
        leaver,
    );
    assert!(again.is_empty());
}

#[test]
fn test_request_archetype_for_unknown_identity_sends_nothing() {
    let mut server = Server::fresh();
    let origin = Address(1);
    server.connect("Alaric", origin);

    let out = handle_request_archetype(
        &server.clients,
        &server.entities,
        origin,
        NetworkID::new(42),
    );
    assert!(out.is_empty(), "an unknown identity is logged and ignored");
}

#[test]
fn test_request_archetype_for_known_identity_replies_unowned() {
    let mut server = Server::fresh();
    let asker = Address(1);
    let owner = Address(2);
    server.connect("Alaric", asker);
    server.connect("Yslith", owner);

    let out = handle_request_archetype(
        &server.clients,
        &server.entities,
        asker,
        NetworkID::new(1),
    );
    assert_eq!(out.len(), 1);
    assert_eq!(out[0].to, asker);
    assert!(matches!(
        out[0].message,
        ServerMessage::SpawnNetworkedEntity(id, GameArchetype::Player, false)
            if id == NetworkID::new(1)
    ));
}

#[test]
fn test_entity_info_request_is_resolved_in_a_later_phase() {
    let mut server = Server::fresh();
    let asker = Address(1);
    let target_owner = Address(2);
    server.connect("Alaric", asker);
    server.connect("Yslith", target_owner);

    handle_request_entity_info(
        &server.clients,
        &server.entities,
        &mut server.pending,
        asker,
        NetworkID::new(1),
        InfoRequestType::Identity,
    );
    assert_eq!(server.pending.len(), 1);

    let out = send_player_info(&mut server.pending, &server.entities, &server.world);
    assert_eq!(out.len(), 1);
    assert_eq!(out[0].to, asker);
    match &out[0].message {
        ServerMessage::SendNetworkedEntityInfo(id, InfoSendType::Identity(name)) => {
            assert_eq!(*id, NetworkID::new(1));
            assert_eq!(name.as_str(), "Yslith");
        }
        other => panic!("unexpected reply {other:?}"),
    }

    // The marker is consumed exactly once: resolving again sends nothing.
    assert!(server.pending.is_empty());
    let again = send_player_info(&mut server.pending, &server.entities, &server.world);
    assert!(again.is_empty());
}

#[test]
fn test_socket_event_with_malformed_payload_is_discarded() {
    let mut server = Server::fresh();
    server.connect("Alaric", Address(1));

    let out = handle_socket_event(
        ServerEvent::Packet(Address(1), vec![0xDE, 0xAD, 0xBE, 0xEF]),
        &mut server.next_id,
        &mut server.clients,
        &mut server.entities,
        &mut server.world,
        &mut server.pending,
    );
    assert!(out.is_empty(), "a payload that is not a message is dropped");
    assert_eq!(server.next_id, 1, "nothing was mutated");
}

#[test]
fn test_socket_event_routes_decoded_connect() {
    let mut server = Server::fresh();
    let origin = Address(7);
    let payload = ClientMessage::Connect("Tyrlia".to_string()).to_payload();

    let out = handle_socket_event(
        ServerEvent::Packet(origin, payload),
        &mut server.next_id,
        &mut server.clients,
        &mut server.entities,
        &mut server.world,
        &mut server.pending,
    );
    assert!(matches!(out[0].message, ServerMessage::ConnectionAccepted));
    assert_eq!(spawns_in(&out), vec![(origin, NetworkID::new(0), true)]);
}

#[test]
fn test_socket_event_routes_dueling_messages_without_behaviour() {
    let mut server = Server::fresh();
    server.connect("Alaric", Address(1));

    let challenge = ClientMessage::IssueChallenge(NetworkID::new(0)).to_payload();
    let out = handle_socket_event(
        ServerEvent::Packet(Address(1), challenge),
        &mut server.next_id,
        &mut server.clients,
        &mut server.entities,
        &mut server.world,
        &mut server.pending,
    );
    assert!(out.is_empty(), "dueling is an extension point with no behaviour yet");
}

#[test]
fn test_transport_disconnect_equals_explicit_disconnect() {
    let mut server = Server::fresh();
    let leaver = Address(1);
    let stayer = Address(2);
    server.connect("Alaric", leaver);
    server.connect("Yslith", stayer);

    let via_event = handle_socket_event(
        ServerEvent::Disconnect(leaver),
        &mut server.next_id,
        &mut server.clients,
        &mut server.entities,
        &mut server.world,
        &mut server.pending,
    );

    let mut other = Server::fresh();
    other.connect("Alaric", leaver);
    other.connect("Yslith", stayer);
    let via_message = handle_socket_event(
        ServerEvent::Packet(leaver, ClientMessage::Disconnect.to_payload()),
        &mut other.next_id,
        &mut other.clients,
        &mut other.entities,
        &mut other.world,
        &mut other.pending,
    );

    assert_eq!(via_event, via_message);
    assert!(!via_event.is_empty());
}
