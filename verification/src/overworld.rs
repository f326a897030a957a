//! The client's overworld state: its mirror of the server's networked
//! entities, the chat log, and queued notifications, plus the routing of
//! session events and user-interface events into them.
use vstd::prelude::*;

use std::collections::VecDeque;

use crate::NetworkID;
use crate::dueling::DuelingClient;
use crate::messages::ClientMessageV;
use crate::messages::InfoRequestType;
use crate::messages::InfoSendType;
use crate::messages::InfoSendTypeV;
use crate::position::PLAY_AREA_HEIGHT;
use crate::position::PLAY_AREA_WIDTH;
use crate::position::Position;
use crate::scheduler::AppState;
use crate::scheduler::NextState;
use crate::session::Client;
use crate::session::ClientEvent;
use crate::session::ClientEventV;
use crate::session::ConnectionInterface;

verus! {

/// The chat log shows at most this many lines; older ones are dropped.
pub const MAX_DISPLAYED_MESSAGES: usize = 5;

/// The lines of the chat log, oldest first, capped at
/// [`MAX_DISPLAYED_MESSAGES`].
pub struct ChatMessages(pub VecDeque<String>);

impl View for ChatMessages {
    type V = Seq<Seq<char>>;

    open spec fn view(&self) -> Seq<Seq<char>> {
        Seq::new(self.0@.len(), |i: int| self.0@[i]@)
    }
}

/// What one new line does to the log: appended, and the oldest line dropped
/// once the cap is exceeded.
pub open spec fn spec_chat_push(log: Seq<Seq<char>>, msg: Seq<char>) -> Seq<Seq<char>> {
    let grown = log.push(msg);
    if grown.len() > MAX_DISPLAYED_MESSAGES {
        grown.skip(grown.len() - MAX_DISPLAYED_MESSAGES as int)
    } else {
        grown
    }
}

impl ChatMessages {
    pub fn new() -> (r: Self)
        ensures
            r@ == Seq::<Seq<char>>::empty(),
    {
        let r = ChatMessages(VecDeque::new());
        proof {
            assert(r@ =~= Seq::<Seq<char>>::empty());
        }
        r
    }

    /// Appends `author: text`, dropping the oldest lines beyond the cap.
    pub fn add_message(&mut self, author: &str, text: &str)
        ensures
            final(self)@ == spec_chat_push(old(self)@, author@ + ": "@ + text@),
            final(self)@.len() <= MAX_DISPLAYED_MESSAGES,
    {
        let mut message = String::from_str(author);
        message.append(": ");
        message.append(text);
        let ghost msg = message@;
        let ghost pushed = old(self)@.push(msg);
        self.0.push_back(message);
        proof {
            assert(self@ =~= pushed);
        }
        let ghost dropped: int = 0;
        while self.0.len() > MAX_DISPLAYED_MESSAGES
            invariant
                pushed == old(self)@.push(msg),
                0 <= dropped <= pushed.len(),
                self@ == pushed.skip(dropped),
                dropped == 0 || self@.len() >= MAX_DISPLAYED_MESSAGES,
            decreases self.0@.len(),
        {
            let ghost before = self@;
            self.0.pop_front();
            proof {
                assert(self@ =~= before.skip(1));
                assert(self@ =~= pushed.skip(dropped + 1));
                dropped = dropped + 1;
            }
        }
        proof {
            if pushed.len() > MAX_DISPLAYED_MESSAGES {
                assert(self@.len() == MAX_DISPLAYED_MESSAGES);
                assert(dropped == pushed.len() - MAX_DISPLAYED_MESSAGES as int);
            } else {
                assert(dropped == 0);
            }
        }
    }
}

/// The client's record of one networked entity: who controls it, whether
/// its display name is still owed, and the components mirrored so far.
#[derive(Debug)]
pub struct ClientEntity {
    pub is_owned: bool,
    pub needs_name: bool,
    pub position: Option<Position>,
    pub name: Option<String>,
}

/// The mathematical value of a [`ClientEntity`].
#[verifier::ext_equal]
pub struct ClientEntityV {
    pub is_owned: bool,
    pub needs_name: bool,
    pub position: Option<Position>,
    pub name: Option<Seq<char>>,
}

impl DeepView for ClientEntity {
    type V = ClientEntityV;

    open spec fn deep_view(&self) -> ClientEntityV {
        ClientEntityV {
            is_owned: self.is_owned,
            needs_name: self.needs_name,
            position: self.position,
            name: match self.name {
                None => None,
                Some(n) => Some(n@),
            },
        }
    }
}

/// The record a freshly announced player entity starts with: at the centre
/// of the play area; the local player knows its own name, a remote player's
/// name is still owed.
pub open spec fn spec_new_player(is_owned: bool) -> ClientEntityV {
    ClientEntityV {
        is_owned,
        needs_name: !is_owned,
        position: Some(
            Position { x: (PLAY_AREA_WIDTH / 2) as i32, y: (PLAY_AREA_HEIGHT / 2) as i32 },
        ),
        name: if is_owned {
            Some("Me"@)
        } else {
            None
        },
    }
}

/// The client's mirror of the server's registry: network identity to local
/// entity record. Entries are created on spawn events and removed on
/// despawn events; it may briefly lag the server, which is expected and
/// repaired by re-requesting archetypes.
pub struct NetworkedEntities(pub Vec<(NetworkID, ClientEntity)>);

impl View for NetworkedEntities {
    type V = Seq<(NetworkID, ClientEntityV)>;

    open spec fn view(&self) -> Seq<(NetworkID, ClientEntityV)> {
        self.0.deep_view()
    }
}

/// The record for `id` in `s`, scanning from the front.
pub open spec fn spec_mirror_lookup(s: Seq<(NetworkID, ClientEntityV)>, id: NetworkID) -> Option<
    ClientEntityV,
>
    decreases s.len(),
{
    if s.len() == 0 {
        None
    } else if s[0].0 == id {
        Some(s[0].1)
    } else {
        spec_mirror_lookup(s.skip(1), id)
    }
}

/// `s` with the first record for `id` replaced by `v`, or `(id, v)`
/// appended when there is none.
pub open spec fn spec_mirror_upsert(
    s: Seq<(NetworkID, ClientEntityV)>,
    id: NetworkID,
    v: ClientEntityV,
) -> Seq<(NetworkID, ClientEntityV)>
    decreases s.len(),
{
    if s.len() == 0 {
        seq![(id, v)]
    } else if s[0].0 == id {
        seq![(id, v)] + s.skip(1)
    } else {
        seq![s[0]] + spec_mirror_upsert(s.skip(1), id, v)
    }
}

/// `s` with the first record for `id` removed, if any.
pub open spec fn spec_mirror_remove(s: Seq<(NetworkID, ClientEntityV)>, id: NetworkID) -> Seq<
    (NetworkID, ClientEntityV),
>
    decreases s.len(),
{
    if s.len() == 0 {
        s
    } else if s[0].0 == id {
        s.skip(1)
    } else {
        seq![s[0]] + spec_mirror_remove(s.skip(1), id)
    }
}

impl NetworkedEntities {
    pub fn new() -> (r: Self)
        ensures
            r@ == Seq::<(NetworkID, ClientEntityV)>::empty(),
    {
        let r = NetworkedEntities(Vec::new());
        proof {
            assert(r@ =~= Seq::<(NetworkID, ClientEntityV)>::empty());
        }
        r
    }

    fn find_index(&self, id: NetworkID) -> (r: Option<usize>)
        ensures
            match r {
                Some(i) => i < self@.len() && self@[i as int].0 == id && forall|k: int|
                    0 <= k < i ==> self@[k].0 != id,
                None => forall|k: int| 0 <= k < self@.len() ==> self@[k].0 != id,
            },
    {
        let mut i: usize = 0;
        while i < self.0.len()
            invariant
                i <= self@.len(),
                self@.len() == self.0@.len(),
                forall|k: int| 0 <= k < i ==> self@[k].0 != id,
            decreases self@.len() - i,
        {
            if self.0[i].0.0 == id.0 {
                return Some(i);
            }
            i += 1;
        }
        None
    }

    /// The record mirrored for `id`, if any.
    pub fn lookup(&self, id: NetworkID) -> (r: Option<&ClientEntity>)
        ensures
            match r {
                Some(entry) => spec_mirror_lookup(self@, id) == Some(entry.deep_view()),
                None => spec_mirror_lookup(self@, id) is None,
            },
    {
        match self.find_index(id) {
            Some(i) => {
                proof {
                    lemma_mirror_lookup_first(self@, id, i as int);
                }
                Some(&self.0[i].1)
            },
            None => {
                proof {
                    lemma_mirror_lookup_absent(self@, id);
                }
                None
            },
        }
    }

    /// Replaces or creates the record for `id`.
    pub fn upsert(&mut self, id: NetworkID, entity: ClientEntity)
        ensures
            final(self)@ == spec_mirror_upsert(old(self)@, id, entity.deep_view()),
    {
        let ghost pre = self@;
        match self.find_index(id) {
            Some(i) => {
                *vstd::std_specs::vec::vec_index_mut(&mut self.0, i) = (id, entity);
                proof {
                    assert(self@ =~= pre.update(i as int, (id, entity.deep_view())));
                    lemma_mirror_upsert_at(pre, id, entity.deep_view(), i as int);
                }
            },
            None => {
                self.0.push((id, entity));
                proof {
                    assert(self@ =~= pre.push((id, entity.deep_view())));
                    lemma_mirror_upsert_missing(pre, id, entity.deep_view());
                }
            },
        }
    }

    /// Removes the record for `id`, if any; a despawn for an unknown
    /// identity passes silently.
    pub fn remove(&mut self, id: NetworkID)
        ensures
            final(self)@ == spec_mirror_remove(old(self)@, id),
    {
        let ghost pre = self@;
        match self.find_index(id) {
            Some(i) => {
                self.0.remove(i);
                proof {
                    assert(self@ =~= pre.remove(i as int));
                    lemma_mirror_remove_at(pre, id, i as int);
                }
            },
            None => {
                proof {
                    lemma_mirror_remove_absent(pre, id);
                }
            },
        }
    }

    /// How many entities the mirror currently holds.
    pub fn len(&self) -> (r: usize)
        ensures
            r == self@.len(),
    {
        self.0.len()
    }
}

proof fn lemma_mirror_lookup_first(s: Seq<(NetworkID, ClientEntityV)>, id: NetworkID, i: int)
    requires
        0 <= i < s.len(),
        s[i].0 == id,
        forall|k: int| 0 <= k < i ==> s[k].0 != id,
    ensures
        spec_mirror_lookup(s, id) == Some(s[i].1),
    decreases i,
{
    if i == 0 {
    } else {
        assert(s.skip(1)[i - 1] == s[i]);
        assert forall|k: int| 0 <= k < i - 1 implies s.skip(1)[k].0 != id by {
            assert(s.skip(1)[k] == s[k + 1]);
        }
        lemma_mirror_lookup_first(s.skip(1), id, i - 1);
    }
}

proof fn lemma_mirror_lookup_absent(s: Seq<(NetworkID, ClientEntityV)>, id: NetworkID)
    requires
        forall|k: int| 0 <= k < s.len() ==> s[k].0 != id,
    ensures
        spec_mirror_lookup(s, id) is None,
    decreases s.len(),
{
    if s.len() == 0 {
    } else {
        assert forall|k: int| 0 <= k < s.skip(1).len() implies s.skip(1)[k].0 != id by {
            assert(s.skip(1)[k] == s[k + 1]);
        }
        lemma_mirror_lookup_absent(s.skip(1), id);
    }
}

proof fn lemma_mirror_upsert_at(
    s: Seq<(NetworkID, ClientEntityV)>,
    id: NetworkID,
    v: ClientEntityV,
    i: int,
)
    requires
        0 <= i < s.len(),
        s[i].0 == id,
        forall|k: int| 0 <= k < i ==> s[k].0 != id,
    ensures
        spec_mirror_upsert(s, id, v) == s.update(i, (id, v)),
    decreases i,
{
    if i == 0 {
        assert(spec_mirror_upsert(s, id, v) =~= s.update(0, (id, v)));
    } else {
        assert(s.skip(1)[i - 1] == s[i]);
        assert forall|k: int| 0 <= k < i - 1 implies s.skip(1)[k].0 != id by {
            assert(s.skip(1)[k] == s[k + 1]);
        }
        lemma_mirror_upsert_at(s.skip(1), id, v, i - 1);
        assert(spec_mirror_upsert(s, id, v) =~= s.update(i, (id, v)));
    }
}

proof fn lemma_mirror_upsert_missing(
    s: Seq<(NetworkID, ClientEntityV)>,
    id: NetworkID,
    v: ClientEntityV,
)
    requires
        forall|k: int| 0 <= k < s.len() ==> s[k].0 != id,
    ensures
        spec_mirror_upsert(s, id, v) == s.push((id, v)),
    decreases s.len(),
{
    if s.len() == 0 {
        assert(spec_mirror_upsert(s, id, v) =~= s.push((id, v)));
    } else {
        assert forall|k: int| 0 <= k < s.skip(1).len() implies s.skip(1)[k].0 != id by {
            assert(s.skip(1)[k] == s[k + 1]);
        }
        lemma_mirror_upsert_missing(s.skip(1), id, v);
        assert(spec_mirror_upsert(s, id, v) =~= s.push((id, v)));
    }
}

proof fn lemma_mirror_remove_at(s: Seq<(NetworkID, ClientEntityV)>, id: NetworkID, i: int)
    requires
        0 <= i < s.len(),
        s[i].0 == id,
        forall|k: int| 0 <= k < i ==> s[k].0 != id,
    ensures
        spec_mirror_remove(s, id) == s.remove(i),
    decreases i,
{
    if i == 0 {
        assert(spec_mirror_remove(s, id) =~= s.remove(0));
    } else {
        assert(s.skip(1)[i - 1] == s[i]);
        assert forall|k: int| 0 <= k < i - 1 implies s.skip(1)[k].0 != id by {
            assert(s.skip(1)[k] == s[k + 1]);
        }
        lemma_mirror_remove_at(s.skip(1), id, i - 1);
        assert(spec_mirror_remove(s, id) =~= s.remove(i));
    }
}

proof fn lemma_mirror_remove_absent(s: Seq<(NetworkID, ClientEntityV)>, id: NetworkID)
    requires
        forall|k: int| 0 <= k < s.len() ==> s[k].0 != id,
    ensures
        spec_mirror_remove(s, id) == s,
    decreases s.len(),
{
    if s.len() == 0 {
    } else {
        assert forall|k: int| 0 <= k < s.skip(1).len() implies s.skip(1)[k].0 != id by {
            assert(s.skip(1)[k] == s[k + 1]);
        }
        lemma_mirror_remove_absent(s.skip(1), id);
        assert(spec_mirror_remove(s, id) =~= s);
    }
}

/// A notification queued for the overworld's user interface.
#[derive(Debug, Copy, Clone, PartialEq, Eq, Structural)]
pub enum OverworldNotification {
    ReceivedChallenge(NetworkID),
}

/// The queued overworld notifications, oldest first.
pub struct OverworldNotifications(pub VecDeque<OverworldNotification>);

impl View for OverworldNotifications {
    type V = Seq<OverworldNotification>;

    open spec fn view(&self) -> Seq<OverworldNotification> {
        self.0@
    }
}

impl OverworldNotifications {
    pub fn new() -> (r: Self)
        ensures
            r@ == Seq::<OverworldNotification>::empty(),
    {
        OverworldNotifications(VecDeque::new())
    }
}

/// The overworld state one session event acts on.
#[verifier::ext_equal]
pub struct OverworldV {
    pub entities: Seq<(NetworkID, ClientEntityV)>,
    pub chat: Seq<Seq<char>>,
    pub notifications: Seq<OverworldNotification>,
}

/// What one session event does to the overworld state: spawns create or
/// replace a mirror record, despawns remove one, info updates fill in a
/// known record's components, chat lines join the log, and challenges queue
/// a notification. An info update for an unknown identity changes nothing
/// here; the routing repairs it by re-requesting the archetype.
pub open spec fn spec_apply_event(w: OverworldV, e: ClientEventV) -> OverworldV {
    match e {
        ClientEventV::SpawnEntity(id, _archetype, is_owned) => OverworldV {
            entities: spec_mirror_upsert(w.entities, id, spec_new_player(is_owned)),
            ..w
        },
        ClientEventV::DespawnEntity(id) => OverworldV {
            entities: spec_mirror_remove(w.entities, id),
            ..w
        },
        ClientEventV::UpdateEntityInfo(id, info) => match spec_mirror_lookup(w.entities, id) {
            Some(entry) => OverworldV {
                entities: spec_mirror_upsert(w.entities, id, spec_entity_with_info(entry, info)),
                ..w
            },
            None => w,
        },
        ClientEventV::MessageReceived(author, text) => OverworldV {
            chat: spec_chat_push(w.chat, author + ": "@ + text),
            ..w
        },
        ClientEventV::ChallengeReceived(id) => OverworldV {
            notifications: w.notifications.push(OverworldNotification::ReceivedChallenge(id)),
            ..w
        },
    }
}

/// A mirror record with one received piece of entity info applied.
pub open spec fn spec_entity_with_info(entry: ClientEntityV, info: InfoSendTypeV) -> ClientEntityV {
    match info {
        InfoSendTypeV::Position(p) => ClientEntityV { position: Some(p), ..entry },
        InfoSendTypeV::Identity(name) => ClientEntityV {
            name: Some(name),
            needs_name: false,
            ..entry
        },
    }
}

/// [`spec_apply_event`] folded over a batch, in arrival order.
pub open spec fn spec_apply_events(w: OverworldV, evs: Seq<ClientEventV>) -> OverworldV
    decreases evs.len(),
{
    if evs.len() == 0 {
        w
    } else {
        spec_apply_event(spec_apply_events(w, evs.drop_last()), evs.last())
    }
}

/// The bundled mathematical value of the three overworld resources.
pub open spec fn spec_overworld_view(
    entities: &NetworkedEntities,
    chat: &ChatMessages,
    notifications: &OverworldNotifications,
) -> OverworldV {
    OverworldV { entities: entities@, chat: chat@, notifications: notifications@ }
}

/// Routes one session event into the overworld state: exactly the step
/// [`spec_apply_event`] describes. An info update for an identity the
/// mirror does not know hands the connection one archetype re-request for
/// that identity (or nothing, if the transport refuses it); every other
/// event leaves the session untouched.
pub fn apply_client_event<T: ConnectionInterface>(
    networked_entities: &mut NetworkedEntities,
    client: &mut Client<T>,
    chat_messages: &mut ChatMessages,
    notifications: &mut OverworldNotifications,
    event: &ClientEvent,
)
    ensures
        spec_overworld_view(final(networked_entities), final(chat_messages), final(notifications))
            == spec_apply_event(
            spec_overworld_view(old(networked_entities), old(chat_messages), old(notifications)),
            event.deep_view(),
        ),
        final(client).username == old(client).username,
        final(client).events@ == old(client).events@,
        final(client).spec_status() == old(client).spec_status(),
        final(client).connection is Some <==> old(client).connection is Some,
        match event.deep_view() {
            ClientEventV::UpdateEntityInfo(id, _) => {
                if spec_mirror_lookup(old(networked_entities)@, id) is Some {
                    *final(client) == *old(client)
                } else {
                    final(client).spec_outbox() == old(client).spec_outbox().push(
                        ClientMessageV::RequestArchetype(id),
                    ) || final(client).spec_outbox() == old(client).spec_outbox()
                }
            },
            _ => *final(client) == *old(client),
        },
{
    let ghost w0 = spec_overworld_view(networked_entities, chat_messages, notifications);
    match event {
        ClientEvent::SpawnEntity(id, _archetype, is_owned) => {
            let entity = ClientEntity {
                is_owned: *is_owned,
                needs_name: !*is_owned,
                position: Some(
                    Position { x: PLAY_AREA_WIDTH / 2, y: PLAY_AREA_HEIGHT / 2 },
                ),
                name: if *is_owned {
                    Some(String::from_str("Me"))
                } else {
                    None
                },
            };
            proof {
                assert(entity.deep_view() =~~= spec_new_player(*is_owned));
            }
            networked_entities.upsert(*id, entity);
        },
        ClientEvent::DespawnEntity(id) => {
            networked_entities.remove(*id);
        },
        ClientEvent::UpdateEntityInfo(id, info) => {
            let entry = match networked_entities.lookup(*id) {
                None => {
                    let _ = client.request_id_archetype(*id);
                    proof {
                        assert(spec_overworld_view(
                            networked_entities,
                            chat_messages,
                            notifications,
                        ) =~~= spec_apply_event(w0, event.deep_view()));
                    }
                    return ;
                },
                Some(entry) => ClientEntity {
                    is_owned: entry.is_owned,
                    needs_name: entry.needs_name,
                    position: entry.position,
                    name: match &entry.name {
                        None => None,
                        Some(n) => Some(n.clone()),
                    },
                },
            };
            let updated = match info {
                InfoSendType::Position(p) => ClientEntity { position: Some(*p), ..entry },
                InfoSendType::Identity(name) => ClientEntity {
                    name: Some(name.clone()),
                    needs_name: false,
                    ..entry
                },
            };
            proof {
                assert(updated.deep_view() =~~= spec_entity_with_info(
                    spec_mirror_lookup(old(networked_entities)@, *id)->Some_0,
                    info.deep_view(),
                ));
            }
            networked_entities.upsert(*id, updated);
        },
        ClientEvent::MessageReceived(author, text) => {
            chat_messages.add_message(author.as_str(), text.as_str());
        },
        ClientEvent::ChallengeReceived(id) => {
            notifications.0.push_back(OverworldNotification::ReceivedChallenge(*id));
        },
    }
    proof {
        assert(spec_overworld_view(networked_entities, chat_messages, notifications)
            =~~= spec_apply_event(w0, event.deep_view()));
    }
}

/// Drains the session and routes every queued event into the overworld
/// state, in arrival order: for some inbound batch of server messages, the
/// events of the session fold over that batch advance the overworld state
/// by exactly the fold [`spec_apply_events`], and the session queue is
/// left empty.
pub fn handle_client_events<T: ConnectionInterface>(
    networked_entities: &mut NetworkedEntities,
    client: &mut Client<T>,
    chat_messages: &mut ChatMessages,
    notifications: &mut OverworldNotifications,
)
    requires
        old(client).connection is Some,
    ensures
        exists|ms: Seq<crate::messages::ServerMessageV>|
            spec_overworld_view(
                final(networked_entities),
                final(chat_messages),
                final(notifications),
            ) == spec_apply_events(
                spec_overworld_view(
                    old(networked_entities),
                    old(chat_messages),
                    old(notifications),
                ),
                crate::session::spec_apply_all(old(client).session_view(), ms).events,
            ),
        final(client).events@.len() == 0,
        final(client).connection is Some,
{
    let ghost w0 = spec_overworld_view(networked_entities, chat_messages, notifications);
    let _ = client.receive_messages();
    let ghost ms = choose|ms: Seq<crate::messages::ServerMessageV>|
        client.session_view() == crate::session::spec_apply_all(
            old(client).session_view(),
            ms,
        );
    let events = client.take_events();
    let ghost evs = events.deep_view();
    proof {
        assert(evs == crate::session::spec_apply_all(old(client).session_view(), ms).events);
    }
    let mut i: usize = 0;
    while i < events.len()
        invariant
            i <= events@.len(),
            evs == events.deep_view(),
            evs.len() == events@.len(),
            spec_overworld_view(networked_entities, chat_messages, notifications)
                == spec_apply_events(w0, evs.take(i as int)),
            client.events@.len() == 0,
            client.connection is Some,
        decreases events@.len() - i,
    {
        proof {
            assert(evs.take(i + 1 as int).drop_last() =~= evs.take(i as int));
            assert(evs.take(i + 1 as int).last() == events@[i as int].deep_view());
        }
        apply_client_event(
            networked_entities,
            client,
            chat_messages,
            notifications,
            &events[i],
        );
        i += 1;
    }
    proof {
        assert(evs.take(events@.len() as int) =~= evs);
        assert(spec_overworld_view(networked_entities, chat_messages, notifications)
            == spec_apply_events(
            w0,
            crate::session::spec_apply_all(old(client).session_view(), ms).events,
        ));
    }
}

/// The identity requests owed for the mirrored entities still needing a
/// name, in mirror order.
pub open spec fn spec_name_requests(entities: Seq<(NetworkID, ClientEntityV)>) -> Seq<
    ClientMessageV,
>
    decreases entities.len(),
{
    if entities.len() == 0 {
        Seq::empty()
    } else {
        let rest = spec_name_requests(entities.drop_last());
        if entities.last().1.needs_name {
            rest.push(
                ClientMessageV::RequestEntityInfo(entities.last().0, InfoRequestType::Identity),
            )
        } else {
            rest
        }
    }
}

/// `s` is `t` with zero or more elements left out, order kept.
pub open spec fn spec_is_subseq(s: Seq<ClientMessageV>, t: Seq<ClientMessageV>) -> bool
    decreases s.len() + t.len(),
{
    if s.len() == 0 {
        true
    } else if t.len() == 0 {
        false
    } else if s.last() == t.last() && spec_is_subseq(s.drop_last(), t.drop_last()) {
        true
    } else {
        spec_is_subseq(s, t.drop_last())
    }
}

proof fn lemma_subseq_keep(s: Seq<ClientMessageV>, t: Seq<ClientMessageV>, x: ClientMessageV)
    requires
        spec_is_subseq(s, t),
    ensures
        spec_is_subseq(s.push(x), t.push(x)),
{
    assert(s.push(x).last() == t.push(x).last());
    assert(s.push(x).drop_last() =~= s);
    assert(t.push(x).drop_last() =~= t);
}

proof fn lemma_subseq_skip(s: Seq<ClientMessageV>, t: Seq<ClientMessageV>, x: ClientMessageV)
    requires
        spec_is_subseq(s, t),
    ensures
        spec_is_subseq(s, t.push(x)),
{
    assert(t.push(x).drop_last() =~= t);
    if s.len() != 0 {
        assert(spec_is_subseq(s, t.push(x)));
    }
}

/// Asks the server for the display name of every mirrored entity that
/// still owes one, in mirror order. The messages handed to the connection
/// are a subsequence of those owed requests — each send the transport
/// refuses drops its request and nothing else is sent — and with a
/// transport that accepts everything they are exactly the owed list. The
/// mirror itself, the session queue, username and status are untouched.
pub fn request_names<T: ConnectionInterface>(
    networked_entities: &NetworkedEntities,
    client: &mut Client<T>,
)
    ensures
        final(client).username == old(client).username,
        final(client).events@ == old(client).events@,
        final(client).spec_status() == old(client).spec_status(),
        final(client).connection is Some <==> old(client).connection is Some,
        exists|sent: Seq<ClientMessageV>|
            final(client).spec_outbox() == old(client).spec_outbox() + sent && spec_is_subseq(
                sent,
                spec_name_requests(networked_entities@),
            ),
{
    let ghost mut sent: Seq<ClientMessageV> = Seq::empty();
    proof {
        assert(client.spec_outbox() =~= old(client).spec_outbox() + sent);
    }
    let mut i: usize = 0;
    while i < networked_entities.0.len()
        invariant
            i <= networked_entities@.len(),
            networked_entities@.len() == networked_entities.0@.len(),
            client.username == old(client).username,
            client.events@ == old(client).events@,
            client.spec_status() == old(client).spec_status(),
            client.connection is Some <==> old(client).connection is Some,
            client.spec_outbox() == old(client).spec_outbox() + sent,
            spec_is_subseq(sent, spec_name_requests(networked_entities@.take(i as int))),
        decreases networked_entities.0@.len() - i,
    {
        proof {
            assert(networked_entities@.take(i + 1 as int).drop_last()
                =~= networked_entities@.take(i as int));
            let ii = i as int;
            assert(networked_entities@.take(i + 1 as int).last() == networked_entities@[ii]);
        }
        let ghost reqs_so_far = spec_name_requests(networked_entities@.take(i as int));
        if networked_entities.0[i].1.needs_name {
            let ghost msg = ClientMessageV::RequestEntityInfo(
                networked_entities@[i as int].0,
                InfoRequestType::Identity,
            );
            let result = client.request_id_info(
                networked_entities.0[i].0,
                InfoRequestType::Identity,
            );
            proof {
                if result is Ok && old(client).connection is Some {
                    assert(old(client).spec_outbox() + sent.push(msg) =~= (old(
                        client,
                    ).spec_outbox() + sent).push(msg));
                    lemma_subseq_keep(sent, reqs_so_far, msg);
                    sent = sent.push(msg);
                } else {
                    lemma_subseq_skip(sent, reqs_so_far, msg);
                }
            }
        } else {
            proof {
                assert(spec_name_requests(networked_entities@.take(i + 1 as int))
                    == reqs_so_far);
            }
        }
        i += 1;
    }
    proof {
        assert(networked_entities@.take(networked_entities@.len() as int)
            =~= networked_entities@);
    }
}

/// An event raised by the overworld's user interface.
#[derive(Debug, Copy, Clone, PartialEq, Eq, Structural)]
pub enum OverworldUIEvent {
    Challenge(NetworkID),
    ChallengeResponse(NetworkID, bool),
    Logout,
}

/// Routes one user-interface event: challenges go out through the dueling
/// interface (the message is handed to the connection, or dropped if the
/// transport refuses it), a challenge response also consumes the
/// notification being answered, and logging out requests a transition back
/// to the main menu without touching the client.
pub fn handle_event<T: DuelingClient>(
    event: &OverworldUIEvent,
    client: &mut T,
    next_state: &mut NextState,
    notifications: &mut OverworldNotifications,
)
    ensures
        event matches OverworldUIEvent::Logout ==> final(next_state).0 == Some(
            AppState::MainMenu,
        ) && final(notifications)@ == old(notifications)@ && *final(client) == *old(client),
        event matches OverworldUIEvent::Challenge(_) ==> *final(next_state) == *old(next_state)
            && final(notifications)@ == old(notifications)@,
        event matches OverworldUIEvent::ChallengeResponse(_, _) ==> *final(next_state) == *old(
            next_state,
        ) && final(notifications)@ == if old(notifications)@.len() == 0 {
            old(notifications)@
        } else {
            old(notifications)@.skip(1)
        },
        final(client).duel_connected() == old(client).duel_connected(),
        match event {
            OverworldUIEvent::Challenge(id) => {
                ||| final(client).duel_outbox() == old(client).duel_outbox().push(
                    ClientMessageV::IssueChallenge(*id),
                )
                ||| final(client).duel_outbox() == old(client).duel_outbox()
            },
            OverworldUIEvent::ChallengeResponse(id, response) => {
                ||| final(client).duel_outbox() == old(client).duel_outbox().push(
                    ClientMessageV::RespondToChallenge(*id, *response),
                )
                ||| final(client).duel_outbox() == old(client).duel_outbox()
            },
            OverworldUIEvent::Logout => final(client).duel_outbox() == old(client).duel_outbox(),
        },
{
    match event {
        OverworldUIEvent::Challenge(id) => {
            let _ = client.send_challenge(*id);
        },
        OverworldUIEvent::ChallengeResponse(id, response) => {
            let _ = client.respond_to_challenge(*id, *response);
            let ghost before = notifications@;
            let _ = notifications.0.pop_front();
            proof {
                if before.len() > 0 {
                    assert(notifications@ =~= before.skip(1));
                }
            }
        },
        OverworldUIEvent::Logout => {
            *next_state = NextState(Some(AppState::MainMenu));
        },
    }
}

} // verus!
