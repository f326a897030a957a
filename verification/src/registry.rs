//! The server's session registry: the authoritative mapping of transport
//! address to player identity and of network identity to simulation entity.
//!
//! Handlers validate and apply connects, disconnects, moves, chat and info
//! requests, and return the messages to send; the transport layer performs
//! the actual sends and hands back inbound events as plain values.
use vstd::prelude::*;

use crate::GameArchetype;
use crate::NetworkID;
use crate::codec::spec_dec_client_msg;
use crate::messages::ClientMessage;
use crate::messages::ClientMessageV;
use crate::messages::InfoRequestType;
use crate::messages::InfoSendType;
use crate::messages::InfoSendTypeV;
use crate::messages::DisconnectReason;
use crate::messages::MessageType;
use crate::messages::ServerMessage;
use crate::messages::ServerMessageV;
use crate::position::Position;
use crate::position::clamp_to_play_area;
use crate::position::spec_clamp_to_play_area;
use crate::validation::spec_valid_username;
use crate::validation::validate_username;
use crate::world::PlayerInfo;
use crate::world::SimWorld;
use crate::world::spec_world_contains;
use crate::world::spec_world_lookup;

verus! {

/// A transport address, as an opaque token. The transport layer assigns one
/// token per remote peer and translates between tokens and real socket
/// addresses.
#[derive(Debug, Copy, Clone, PartialEq, Eq, Hash, Structural)]
pub struct Address(pub u64);

impl DeepView for Address {
    type V = Address;

    open spec fn deep_view(&self) -> Address {
        *self
    }
}

/// One connected client: its username and its player identity.
#[derive(Debug)]
pub struct ClientInfo {
    pub username: String,
    pub player_id: NetworkID,
}

/// The mathematical value of a [`ClientInfo`].
pub struct ClientInfoV {
    pub username: Seq<char>,
    pub player_id: NetworkID,
}

impl ClientInfo {
    pub fn new(username: String, player_id: NetworkID) -> (r: Self)
        ensures
            r.deep_view() == (ClientInfoV { username: username@, player_id }),
    {
        ClientInfo { username, player_id }
    }
}

impl DeepView for ClientInfo {
    type V = ClientInfoV;

    open spec fn deep_view(&self) -> ClientInfoV {
        ClientInfoV { username: self.username@, player_id: self.player_id }
    }
}

/// A message the registry decided to send: recipient, delivery class, body.
#[derive(Debug, PartialEq)]
pub struct OutboundMessage {
    pub to: Address,
    pub delivery: MessageType,
    pub message: ServerMessage,
}

/// The mathematical value of an [`OutboundMessage`].
pub struct OutboundMessageV {
    pub to: Address,
    pub delivery: MessageType,
    pub message: ServerMessageV,
}

impl DeepView for OutboundMessage {
    type V = OutboundMessageV;

    open spec fn deep_view(&self) -> OutboundMessageV {
        OutboundMessageV { to: self.to, delivery: self.delivery, message: self.message@ }
    }
}

/// The authoritative address-to-client mapping. Entries are kept in
/// insertion order; addresses are unique.
pub struct ClientList {
    pub addr_map: Vec<(Address, ClientInfo)>,
}

/// The address `a` owns an entry of `s`.
pub open spec fn spec_contains_addr(s: Seq<(Address, ClientInfoV)>, a: Address) -> bool {
    exists|k: int| 0 <= k < s.len() && s[k].0 == a
}

/// The client info registered for `a` in `s`, scanning from the front.
pub open spec fn spec_lookup(s: Seq<(Address, ClientInfoV)>, a: Address) -> Option<ClientInfoV>
    decreases s.len(),
{
    if s.len() == 0 {
        None
    } else if s[0].0 == a {
        Some(s[0].1)
    } else {
        spec_lookup(s.skip(1), a)
    }
}

impl View for ClientList {
    type V = Seq<(Address, ClientInfoV)>;

    open spec fn view(&self) -> Seq<(Address, ClientInfoV)> {
        self.addr_map.deep_view()
    }
}

impl ClientList {
    /// Addresses are pairwise distinct.
    pub open spec fn wf(&self) -> bool {
        forall|i: int, j: int|
            0 <= i < j < self@.len() ==> self@[i].0 != self@[j].0
    }

    pub fn new() -> (r: Self)
        ensures
            r@ == Seq::<(Address, ClientInfoV)>::empty(),
            r.wf(),
    {
        ClientList { addr_map: Vec::new() }
    }

    /// The position of the entry owned by `a`, if any.
    pub fn find_index(&self, a: Address) -> (r: Option<usize>)
        ensures
            match r {
                Some(i) => i < self@.len() && self@[i as int].0 == a,
                None => !spec_contains_addr(self@, a),
            },
    {
        let mut i: usize = 0;
        while i < self.addr_map.len()
            invariant
                i <= self@.len(),
                self@.len() == self.addr_map@.len(),
                forall|k: int| 0 <= k < i ==> self@[k].0 != a,
            decreases self@.len() - i,
        {
            if self.addr_map[i].0 == a {
                return Some(i);
            }
            i += 1;
        }
        None
    }

    /// Every address in insertion order.
    pub fn all_addresses(&self) -> (r: Vec<Address>)
        ensures
            r@ == self@.map_values(|e: (Address, ClientInfoV)| e.0),
    {
        let mut out: Vec<Address> = Vec::new();
        let mut i: usize = 0;
        while i < self.addr_map.len()
            invariant
                i <= self@.len(),
                self@.len() == self.addr_map@.len(),
                out@.len() == i,
                forall|k: int| 0 <= k < i ==> out@[k] == self@[k].0,
            decreases self@.len() - i,
        {
            out.push(self.addr_map[i].0);
            i += 1;
        }
        proof {
            assert(out@ =~= self@.map_values(|e: (Address, ClientInfoV)| e.0));
        }
        out
    }
}

proof fn lemma_lookup_is_contained(s: Seq<(Address, ClientInfoV)>, a: Address)
    ensures
        spec_lookup(s, a) is Some <==> spec_contains_addr(s, a),
        spec_lookup(s, a) matches Some(info) ==> exists|k: int|
            0 <= k < s.len() && s[k] == (a, info),
    decreases s.len(),
{
    if s.len() == 0 {
    } else if s[0].0 == a {
    } else {
        lemma_lookup_is_contained(s.skip(1), a);
        if spec_contains_addr(s.skip(1), a) {
            let k = choose|k: int| 0 <= k < s.skip(1).len() && s.skip(1)[k].0 == a;
            assert(s[k + 1].0 == a);
        }
        if spec_contains_addr(s, a) {
            let k = choose|k: int| 0 <= k < s.len() && s[k].0 == a;
            assert(s.skip(1)[k - 1].0 == a);
        }
        if spec_lookup(s, a) is Some {
            let info = spec_lookup(s, a)->Some_0;
            let k = choose|k: int| 0 <= k < s.skip(1).len() && s.skip(1)[k] == (a, info);
            assert(s[k + 1] == (a, info));
        }
    }
}

/// Under unique addresses, the lookup result is exactly the entry at any
/// index holding that address.
pub proof fn lemma_lookup_unique(s: Seq<(Address, ClientInfoV)>, a: Address, k: int)
    requires
        forall|i: int, j: int| 0 <= i < j < s.len() ==> s[i].0 != s[j].0,
        0 <= k < s.len(),
        s[k].0 == a,
    ensures
        spec_lookup(s, a) == Some(s[k].1),
    decreases s.len(),
{
    if k == 0 {
    } else {
        assert(s[0].0 != a);
        assert(s.skip(1)[k - 1] == s[k]);
        lemma_lookup_unique(s.skip(1), a, k - 1);
    }
}

impl ClientList {
    /// Looks up the client registered at `a`.
    pub fn lookup(&self, a: Address) -> (r: Option<&ClientInfo>)
        requires
            self.wf(),
        ensures
            match r {
                Some(info) => spec_lookup(self@, a) == Some(info.deep_view()),
                None => spec_lookup(self@, a) is None,
            },
    {
        proof {
            lemma_lookup_is_contained(self@, a);
        }
        match self.find_index(a) {
            Some(i) => {
                proof {
                    lemma_lookup_unique(self@, a, i as int);
                }
                Some(&self.addr_map[i].1)
            },
            None => None,
        }
    }

    /// Registers `info` at address `a`, replacing any existing entry for `a`.
    pub fn upsert(&mut self, a: Address, info: ClientInfo)
        requires
            old(self).wf(),
        ensures
            final(self).wf(),
            spec_lookup(final(self)@, a) == Some(info.deep_view()),
            !spec_contains_addr(old(self)@, a) ==> final(self)@ == old(self)@.push(
                (a, info.deep_view()),
            ),
            forall|k: int|
                0 <= k < old(self)@.len() && old(self)@[k].0 == a ==> final(self)@ == old(
                    self,
                )@.update(k, (a, info.deep_view())),
    {
        let ghost pre = self@;
        match self.find_index(a) {
            Some(i) => {
                *vstd::std_specs::vec::vec_index_mut(&mut self.addr_map, i) = (a, info);
                proof {
                    assert(self@ =~= pre.update(i as int, (a, info.deep_view())));
                    lemma_lookup_unique(self@, a, i as int);
                    assert forall|k: int|
                        0 <= k < pre.len() && pre[k].0 == a implies self@ == pre.update(
                        k,
                        (a, info.deep_view()),
                    ) by {
                        if k != i as int {
                            assert(pre[k].0 == pre[i as int].0);
                        }
                    }
                }
            },
            None => {
                self.addr_map.push((a, info));
                proof {
                    assert(self@ =~= pre.push((a, info.deep_view())));
                    lemma_lookup_unique(self@, a, pre.len() as int);
                }
            },
        }
    }

    /// Removes the entry at address `a`, if any.
    pub fn remove(&mut self, a: Address)
        requires
            old(self).wf(),
        ensures
            final(self).wf(),
            !spec_contains_addr(old(self)@, a) ==> final(self)@ == old(self)@,
            forall|k: int|
                0 <= k < old(self)@.len() && old(self)@[k].0 == a ==> final(self)@ == old(
                    self,
                )@.remove(k),
            !spec_contains_addr(final(self)@, a),
    {
        let ghost pre = self@;
        match self.find_index(a) {
            Some(i) => {
                self.addr_map.remove(i);
                proof {
                    assert(self@ =~= pre.remove(i as int));
                    assert forall|k: int|
                        0 <= k < pre.len() && pre[k].0 == a implies self@ == pre.remove(k) by {
                        if k != i as int {
                            assert(pre[k].0 == pre[i as int].0);
                        }
                    }
                    assert forall|k: int| 0 <= k < self@.len() implies self@[k].0 != a by {
                        if k < i as int {
                            assert(self@[k] == pre[k]);
                        } else {
                            assert(self@[k] == pre[k + 1]);
                        }
                    }
                }
            },
            None => {},
        }
    }
}

/// The registry's record of live networked entities: identity to local
/// entity handle and archetype. Identities are unique.
pub struct NetworkedEntities(pub Vec<(NetworkID, (u64, GameArchetype))>);

/// The identity `id` owns an entry of `s`.
pub open spec fn spec_contains_id(s: Seq<(NetworkID, (u64, GameArchetype))>, id: NetworkID) -> bool {
    exists|k: int| 0 <= k < s.len() && s[k].0 == id
}

/// The record registered for `id` in `s`, scanning from the front.
pub open spec fn spec_lookup_id(
    s: Seq<(NetworkID, (u64, GameArchetype))>,
    id: NetworkID,
) -> Option<(u64, GameArchetype)>
    decreases s.len(),
{
    if s.len() == 0 {
        None
    } else if s[0].0 == id {
        Some(s[0].1)
    } else {
        spec_lookup_id(s.skip(1), id)
    }
}

impl View for NetworkedEntities {
    type V = Seq<(NetworkID, (u64, GameArchetype))>;

    open spec fn view(&self) -> Seq<(NetworkID, (u64, GameArchetype))> {
        self.0@
    }
}

proof fn lemma_lookup_id_is_contained(s: Seq<(NetworkID, (u64, GameArchetype))>, id: NetworkID)
    ensures
        spec_lookup_id(s, id) is Some <==> spec_contains_id(s, id),
    decreases s.len(),
{
    if s.len() == 0 {
    } else if s[0].0 == id {
    } else {
        lemma_lookup_id_is_contained(s.skip(1), id);
        if spec_contains_id(s.skip(1), id) {
            let k = choose|k: int| 0 <= k < s.skip(1).len() && s.skip(1)[k].0 == id;
            assert(s[k + 1].0 == id);
        }
        if spec_contains_id(s, id) {
            let k = choose|k: int| 0 <= k < s.len() && s[k].0 == id;
            assert(s.skip(1)[k - 1].0 == id);
        }
    }
}

/// Under unique identities, the lookup result is exactly the entry at any
/// index holding that identity.
pub proof fn lemma_lookup_id_unique(
    s: Seq<(NetworkID, (u64, GameArchetype))>,
    id: NetworkID,
    k: int,
)
    requires
        forall|i: int, j: int| 0 <= i < j < s.len() ==> s[i].0 != s[j].0,
        0 <= k < s.len(),
        s[k].0 == id,
    ensures
        spec_lookup_id(s, id) == Some(s[k].1),
    decreases s.len(),
{
    if k == 0 {
    } else {
        assert(s[0].0 != id);
        assert(s.skip(1)[k - 1] == s[k]);
        lemma_lookup_id_unique(s.skip(1), id, k - 1);
    }
}

impl NetworkedEntities {
    /// Identities are pairwise distinct.
    pub open spec fn wf(&self) -> bool {
        forall|i: int, j: int| 0 <= i < j < self@.len() ==> self@[i].0 != self@[j].0
    }

    pub fn new() -> (r: Self)
        ensures
            r@ == Seq::<(NetworkID, (u64, GameArchetype))>::empty(),
            r.wf(),
    {
        NetworkedEntities(Vec::new())
    }

    /// The position of the record for `id`, if any.
    pub fn find_index(&self, id: NetworkID) -> (r: Option<usize>)
        ensures
            match r {
                Some(i) => i < self@.len() && self@[i as int].0 == id,
                None => !spec_contains_id(self@, id),
            },
    {
        let mut i: usize = 0;
        while i < self.0.len()
            invariant
                i <= self@.len(),
                self@.len() == self.0@.len(),
                forall|k: int| 0 <= k < i ==> self@[k].0 != id,
            decreases self@.len() - i,
        {
            if self.0[i].0.0 == id.0 {
                return Some(i);
            }
            i += 1;
        }
        None
    }

    /// Looks up the record for `id`.
    pub fn lookup(&self, id: NetworkID) -> (r: Option<(u64, GameArchetype)>)
        requires
            self.wf(),
        ensures
            r == spec_lookup_id(self@, id),
    {
        proof {
            lemma_lookup_id_is_contained(self@, id);
        }
        match self.find_index(id) {
            Some(i) => {
                proof {
                    lemma_lookup_id_unique(self@, id, i as int);
                }
                Some(self.0[i].1)
            },
            None => None,
        }
    }

    /// Registers a record for `id`, replacing any existing one.
    pub fn upsert(&mut self, id: NetworkID, record: (u64, GameArchetype))
        requires
            old(self).wf(),
        ensures
            final(self).wf(),
            spec_lookup_id(final(self)@, id) == Some(record),
            !spec_contains_id(old(self)@, id) ==> final(self)@ == old(self)@.push((id, record)),
            forall|k: int|
                0 <= k < old(self)@.len() && old(self)@[k].0 == id ==> final(self)@ == old(
                    self,
                )@.update(k, (id, record)),
    {
        let ghost pre = self@;
        match self.find_index(id) {
            Some(i) => {
                *vstd::std_specs::vec::vec_index_mut(&mut self.0, i) = (id, record);
                proof {
                    assert(self@ =~= pre.update(i as int, (id, record)));
                    lemma_lookup_id_unique(self@, id, i as int);
                    assert forall|k: int|
                        0 <= k < pre.len() && pre[k].0 == id implies self@ == pre.update(
                        k,
                        (id, record),
                    ) by {
                        if k != i as int {
                            assert(pre[k].0 == pre[i as int].0);
                        }
                    }
                }
            },
            None => {
                self.0.push((id, record));
                proof {
                    assert(self@ =~= pre.push((id, record)));
                    lemma_lookup_id_unique(self@, id, pre.len() as int);
                }
            },
        }
    }

    /// Removes the record for `id`, if any.
    pub fn remove(&mut self, id: NetworkID)
        requires
            old(self).wf(),
        ensures
            final(self).wf(),
            !spec_contains_id(old(self)@, id) ==> final(self)@ == old(self)@,
            forall|k: int|
                0 <= k < old(self)@.len() && old(self)@[k].0 == id ==> final(self)@ == old(
                    self,
                )@.remove(k),
            !spec_contains_id(final(self)@, id),
    {
        let ghost pre = self@;
        match self.find_index(id) {
            Some(i) => {
                self.0.remove(i);
                proof {
                    assert(self@ =~= pre.remove(i as int));
                    assert forall|k: int|
                        0 <= k < pre.len() && pre[k].0 == id implies self@ == pre.remove(k) by {
                        if k != i as int {
                            assert(pre[k].0 == pre[i as int].0);
                        }
                    }
                    assert forall|k: int| 0 <= k < self@.len() implies self@[k].0 != id by {
                        if k < i as int {
                            assert(self@[k] == pre[k]);
                        } else {
                            assert(self@[k] == pre[k + 1]);
                        }
                    }
                }
            },
            None => {},
        }
    }
}

// ---------------------------------------------------------------------------
// The messages each handler decides to send.
// ---------------------------------------------------------------------------
/// The acceptance reply sent to a freshly connected address.
pub open spec fn spec_accept_msg(source: Address) -> OutboundMessageV {
    OutboundMessageV {
        to: source,
        delivery: MessageType::ReliableUnordered,
        message: ServerMessageV::ConnectionAccepted,
    }
}

/// The rejection reply sent when a username fails validation.
pub open spec fn spec_reject_msg(source: Address) -> OutboundMessageV {
    OutboundMessageV {
        to: source,
        delivery: MessageType::ReliableUnordered,
        message: ServerMessageV::DisconnectClient(DisconnectReason::InvalidUsername),
    }
}

/// One spawn announcement per connected address, marked owned only for the
/// originating address.
pub open spec fn spec_spawn_broadcast(
    entries: Seq<(Address, ClientInfoV)>,
    id: NetworkID,
    source: Address,
) -> Seq<OutboundMessageV> {
    entries.map_values(
        |e: (Address, ClientInfoV)|
            OutboundMessageV {
                to: e.0,
                delivery: MessageType::ReliableUnordered,
                message: ServerMessageV::SpawnNetworkedEntity(
                    id,
                    GameArchetype::Player,
                    e.0 == source,
                ),
            },
    )
}

/// One chat line per connected address.
pub open spec fn spec_chat_broadcast(
    entries: Seq<(Address, ClientInfoV)>,
    author: Seq<char>,
    text: Seq<char>,
    delivery: MessageType,
) -> Seq<OutboundMessageV> {
    entries.map_values(
        |e: (Address, ClientInfoV)|
            OutboundMessageV { to: e.0, delivery, message: ServerMessageV::SendMessage(author, text) },
    )
}

/// One despawn notice per connected address.
pub open spec fn spec_despawn_broadcast(
    entries: Seq<(Address, ClientInfoV)>,
    id: NetworkID,
) -> Seq<OutboundMessageV> {
    entries.map_values(
        |e: (Address, ClientInfoV)|
            OutboundMessageV {
                to: e.0,
                delivery: MessageType::ReliableUnordered,
                message: ServerMessageV::DespawnNetworkedEntity(id),
            },
    )
}

/// The unreliable position update sent for `id` at `p`.
pub open spec fn spec_pos_msg(to: Address, id: NetworkID, p: Position) -> OutboundMessageV {
    OutboundMessageV {
        to,
        delivery: MessageType::Unreliable,
        message: ServerMessageV::SendNetworkedEntityInfo(id, InfoSendTypeV::Position(p)),
    }
}

/// One position update per connected address other than `source`.
pub open spec fn spec_move_broadcast(
    entries: Seq<(Address, ClientInfoV)>,
    source: Address,
    id: NetworkID,
    p: Position,
) -> Seq<OutboundMessageV>
    decreases entries.len(),
{
    if entries.len() == 0 {
        Seq::empty()
    } else {
        let rest = spec_move_broadcast(entries.drop_last(), source, id, p);
        if entries.last().0 != source {
            rest.push(spec_pos_msg(entries.last().0, id, p))
        } else {
            rest
        }
    }
}

/// The allocation invariant: every live identity — registered for a client
/// or carried by an entity record — lies strictly below the allocation
/// counter. A fresh registry satisfies it with counter zero, and the
/// handlers preserve it.
pub open spec fn spec_ids_below(
    clients: Seq<(Address, ClientInfoV)>,
    entities: Seq<(NetworkID, (u64, GameArchetype))>,
    next_id: usize,
) -> bool {
    &&& forall|k: int| 0 <= k < clients.len() ==> clients[k].1.player_id.0 < next_id
    &&& forall|k: int| 0 <= k < entities.len() ==> entities[k].0.0 < next_id
}

/// Law: identities are allocated monotonically and never reused while the
/// object is live. Under the allocation invariant, the identity the next
/// successful connect hands out — `NetworkID(next_id)` — is distinct from
/// every identity currently registered for a client or an entity, and
/// every later allocation is strictly larger still.
pub proof fn lemma_next_identity_fresh(
    clients: Seq<(Address, ClientInfoV)>,
    entities: Seq<(NetworkID, (u64, GameArchetype))>,
    next_id: usize,
)
    requires
        spec_ids_below(clients, entities, next_id),
    ensures
        !spec_contains_id(entities, NetworkID(next_id)),
        forall|k: int| 0 <= k < clients.len() ==> clients[k].1.player_id != NetworkID(next_id),
        forall|later: usize| next_id < later ==> NetworkID(next_id) != NetworkID(later),
{
    if spec_contains_id(entities, NetworkID(next_id)) {
        let k = choose|k: int| 0 <= k < entities.len() && entities[k].0 == NetworkID(next_id);
        assert(entities[k].0.0 < next_id);
    }
}

// ---------------------------------------------------------------------------
// Handlers.
// ---------------------------------------------------------------------------
/// Applies a connect attempt from `source` asking for `username`.
///
/// On a valid username: allocates the next identity, registers the client,
/// spawns its player entity, and returns, in order, one acceptance to the
/// origin, one spawn announcement to every connected address (owned only at
/// the origin), and one system chat line to every connected address. On an
/// invalid username: mutates nothing and returns one rejection to the
/// origin.
pub fn handle_connect_message(
    username: &str,
    next_id: &mut usize,
    clients: &mut ClientList,
    source: Address,
    networked_entities: &mut NetworkedEntities,
    world: &mut SimWorld,
) -> (out: Vec<OutboundMessage>)
    requires
        old(clients).wf(),
        old(networked_entities).wf(),
        old(world).wf(),
        *old(next_id) < usize::MAX,
        old(world).next_handle < u64::MAX,
    ensures
        final(clients).wf(),
        final(networked_entities).wf(),
        final(world).wf(),
        !spec_valid_username(username@) ==> {
            &&& *final(next_id) == *old(next_id)
            &&& final(clients)@ == old(clients)@
            &&& final(networked_entities)@ == old(networked_entities)@
            &&& final(world)@ == old(world)@
            &&& final(world).next_handle == old(world).next_handle
            &&& out.deep_view() == seq![spec_reject_msg(source)]
        },
        spec_valid_username(username@) ==> {
            let id = NetworkID(*old(next_id));
            let handle = old(world).next_handle;
            &&& *final(next_id) == *old(next_id) + 1
            &&& spec_lookup(final(clients)@, source) == Some(
                ClientInfoV { username: username@, player_id: id },
            )
            &&& (!spec_contains_addr(old(clients)@, source) ==> final(clients)@ == old(
                clients,
            )@.push((source, ClientInfoV { username: username@, player_id: id })))
            &&& (forall|k: int|
                0 <= k < old(clients)@.len() && old(clients)@[k].0 == source ==> final(clients)@
                    == old(clients)@.update(
                    k,
                    (source, ClientInfoV { username: username@, player_id: id }),
                ))
            &&& final(world)@ == old(world)@.push((handle, username@))
            &&& final(world).next_handle == old(world).next_handle + 1
            &&& spec_lookup_id(final(networked_entities)@, id) == Some(
                (handle, GameArchetype::Player),
            )
            &&& (!spec_contains_id(old(networked_entities)@, id) ==> final(networked_entities)@
                == old(networked_entities)@.push((id, (handle, GameArchetype::Player))))
            &&& out.deep_view() == seq![spec_accept_msg(source)] + spec_spawn_broadcast(
                final(clients)@,
                id,
                source,
            ) + spec_chat_broadcast(
                final(clients)@,
                "SERVER"@,
                username@ + " has connected"@,
                MessageType::Unreliable,
            )
        },
        spec_ids_below(old(clients)@, old(networked_entities)@, *old(next_id)) ==> spec_ids_below(
            final(clients)@,
            final(networked_entities)@,
            *final(next_id),
        ),
{
    let validation_result = validate_username(username);
    if validation_result.is_ok() {
        let player_id = NetworkID::new(*next_id);
        *next_id += 1;
        clients.upsert(source, ClientInfo::new(String::from_str(username), player_id));

        let mut out: Vec<OutboundMessage> = Vec::new();
        out.push(
            OutboundMessage {
                to: source,
                delivery: MessageType::ReliableUnordered,
                message: ServerMessage::ConnectionAccepted,
            },
        );
        proof {
            assert(out.deep_view() =~= seq![spec_accept_msg(source)]);
        }

        let ghost entries = clients@;
        let ghost spawn_bcast = spec_spawn_broadcast(entries, player_id, source);
        let addrs = clients.all_addresses();
        let mut i: usize = 0;
        while i < addrs.len()
            invariant
                entries == clients@,
                spawn_bcast == spec_spawn_broadcast(entries, player_id, source),
                addrs@ == entries.map_values(|e: (Address, ClientInfoV)| e.0),
                i <= addrs@.len(),
                out.deep_view().len() == 1 + i,
                out.deep_view()[0] == spec_accept_msg(source),
                forall|k: int| 0 <= k < i ==> out.deep_view()[1 + k] == spawn_bcast[k],
            decreases addrs@.len() - i,
        {
            let to = addrs[i];
            out.push(
                OutboundMessage {
                    to,
                    delivery: MessageType::ReliableUnordered,
                    message: ServerMessage::SpawnNetworkedEntity(
                        player_id,
                        GameArchetype::Player,
                        to.0 == source.0,
                    ),
                },
            );
            i += 1;
        }

        let e = world.spawn(PlayerInfo(String::from_str(username)));
        networked_entities.upsert(player_id, (e, GameArchetype::Player));

        let mut txt = String::from_str(username);
        txt.append(" has connected");
        let ghost chat_bcast = spec_chat_broadcast(
            entries,
            "SERVER"@,
            username@ + " has connected"@,
            MessageType::Unreliable,
        );
        let mut j: usize = 0;
        while j < addrs.len()
            invariant
                entries == clients@,
                spawn_bcast == spec_spawn_broadcast(entries, player_id, source),
                chat_bcast == spec_chat_broadcast(
                    entries,
                    "SERVER"@,
                    username@ + " has connected"@,
                    MessageType::Unreliable,
                ),
                txt@ == username@ + " has connected"@,
                addrs@ == entries.map_values(|e: (Address, ClientInfoV)| e.0),
                j <= addrs@.len(),
                out.deep_view().len() == 1 + addrs@.len() + j,
                out.deep_view()[0] == spec_accept_msg(source),
                forall|k: int| 0 <= k < addrs@.len() ==> out.deep_view()[1 + k] == spawn_bcast[k],
                forall|k: int|
                    0 <= k < j ==> out.deep_view()[1 + addrs@.len() + k] == chat_bcast[k],
            decreases addrs@.len() - j,
        {
            let to = addrs[j];
            out.push(
                OutboundMessage {
                    to,
                    delivery: MessageType::Unreliable,
                    message: ServerMessage::SendMessage(String::from_str("SERVER"), txt.clone()),
                },
            );
            j += 1;
        }
        proof {
            assert(out.deep_view() =~= seq![spec_accept_msg(source)] + spawn_bcast + chat_bcast);
            if spec_ids_below(old(clients)@, old(networked_entities)@, *old(next_id)) {
                let pre_c = old(clients)@;
                let pre_e = old(networked_entities)@;
                let new_info = ClientInfoV { username: username@, player_id };
                assert forall|k: int|
                    0 <= k < clients@.len() implies clients@[k].1.player_id.0 < *next_id by {
                    if !spec_contains_addr(pre_c, source) {
                        if k < pre_c.len() {
                            assert(clients@[k] == pre_c[k]);
                        }
                    } else {
                        let j = choose|j: int| 0 <= j < pre_c.len() && pre_c[j].0 == source;
                        assert(clients@ == pre_c.update(j, (source, new_info)));
                        if k != j {
                            assert(clients@[k] == pre_c[k]);
                        }
                    }
                }
                assert(!spec_contains_id(pre_e, player_id)) by {
                    if spec_contains_id(pre_e, player_id) {
                        let k = choose|k: int| 0 <= k < pre_e.len() && pre_e[k].0 == player_id;
                        assert(pre_e[k].0.0 < *old(next_id));
                    }
                }
                assert forall|k: int|
                    0 <= k < networked_entities@.len() implies networked_entities@[k].0.0
                    < *next_id by {
                    if k < pre_e.len() {
                        assert(networked_entities@[k] == pre_e[k]);
                    }
                }
            }
        }
        out
    } else {
        let mut out: Vec<OutboundMessage> = Vec::new();
        out.push(
            OutboundMessage {
                to: source,
                delivery: MessageType::ReliableUnordered,
                message: ServerMessage::DisconnectClient(DisconnectReason::InvalidUsername),
            },
        );
        proof {
            assert(out.deep_view() =~= seq![spec_reject_msg(source)]);
        }
        out
    }
}

/// Applies a disconnect for `source`, whether from an explicit request or a
/// transport-detected timeout; the two are indistinguishable here.
///
/// If `source` is connected: removes its client entry, entity record and
/// world entity, and returns one system chat line and one despawn notice per
/// remaining address. If it is not, nothing changes and nothing is sent, so
/// a repeated disconnect is a no-op.
pub fn handle_disconnect(
    clients: &mut ClientList,
    networked_entities: &mut NetworkedEntities,
    world: &mut SimWorld,
    source: Address,
) -> (out: Vec<OutboundMessage>)
    requires
        old(clients).wf(),
        old(networked_entities).wf(),
        old(world).wf(),
    ensures
        final(clients).wf(),
        final(networked_entities).wf(),
        final(world).wf(),
        spec_lookup(old(clients)@, source) is None ==> {
            &&& final(clients)@ == old(clients)@
            &&& final(networked_entities)@ == old(networked_entities)@
            &&& final(world)@ == old(world)@
            &&& final(world).next_handle == old(world).next_handle
            &&& out.deep_view() == Seq::<OutboundMessageV>::empty()
        },
        spec_lookup(old(clients)@, source) matches Some(info) ==> {
            &&& (forall|k: int|
                0 <= k < old(clients)@.len() && old(clients)@[k].0 == source ==> final(clients)@
                    == old(clients)@.remove(k))
            &&& !spec_contains_addr(final(clients)@, source)
            &&& !spec_contains_id(final(networked_entities)@, info.player_id)
            &&& (spec_lookup_id(old(networked_entities)@, info.player_id) matches Some(record)
                ==> !spec_world_contains(final(world)@, record.0))
            &&& out.deep_view() == spec_chat_broadcast(
                final(clients)@,
                "SERVER"@,
                info.username + " has disconnected."@,
                MessageType::ReliableUnordered,
            ) + spec_despawn_broadcast(final(clients)@, info.player_id)
        },
        forall|n: usize|
            spec_ids_below(old(clients)@, old(networked_entities)@, n) ==> spec_ids_below(
                final(clients)@,
                final(networked_entities)@,
                n,
            ),
{
    let (username, player_id) = match clients.lookup(source) {
        None => {
            let out: Vec<OutboundMessage> = Vec::new();
            proof {
                assert(out.deep_view() =~= Seq::<OutboundMessageV>::empty());
            }
            return out;
        },
        Some(info) => (info.username.clone(), info.player_id),
    };
    clients.remove(source);
    match networked_entities.lookup(player_id) {
        Some((handle, _)) => {
            world.remove_entity(handle);
        },
        None => {},
    }
    networked_entities.remove(player_id);
    proof {
        let pre_c = old(clients)@;
        let pre_e = old(networked_entities)@;
        assert forall|n: usize|
            spec_ids_below(pre_c, pre_e, n) implies spec_ids_below(
            clients@,
            networked_entities@,
            n,
        ) by {
            lemma_lookup_is_contained(pre_c, source);
            let j = choose|j: int| 0 <= j < pre_c.len() && pre_c[j].0 == source;
            assert(clients@ == pre_c.remove(j));
            assert forall|k: int|
                0 <= k < clients@.len() implies clients@[k].1.player_id.0 < n by {
                if k < j {
                    assert(clients@[k] == pre_c[k]);
                } else {
                    assert(clients@[k] == pre_c[k + 1]);
                }
            }
            if spec_contains_id(pre_e, player_id) {
                let m = choose|m: int| 0 <= m < pre_e.len() && pre_e[m].0 == player_id;
                assert(networked_entities@ == pre_e.remove(m));
                assert forall|k: int|
                    0 <= k < networked_entities@.len() implies networked_entities@[k].0.0
                    < n by {
                    if k < m {
                        assert(networked_entities@[k] == pre_e[k]);
                    } else {
                        assert(networked_entities@[k] == pre_e[k + 1]);
                    }
                }
            } else {
                assert(networked_entities@ == pre_e);
            }
        }
    }

    let mut txt = username;
    txt.append(" has disconnected.");

    let ghost entries = clients@;
    let ghost chat_bcast = spec_chat_broadcast(
        entries,
        "SERVER"@,
        txt@,
        MessageType::ReliableUnordered,
    );
    let ghost despawn_bcast = spec_despawn_broadcast(entries, player_id);
    let addrs = clients.all_addresses();
    let mut out: Vec<OutboundMessage> = Vec::new();
    let mut i: usize = 0;
    while i < addrs.len()
        invariant
            entries == clients@,
            chat_bcast == spec_chat_broadcast(
                entries,
                "SERVER"@,
                txt@,
                MessageType::ReliableUnordered,
            ),
            addrs@ == entries.map_values(|e: (Address, ClientInfoV)| e.0),
            i <= addrs@.len(),
            out.deep_view().len() == i,
            forall|k: int| 0 <= k < i ==> out.deep_view()[k] == chat_bcast[k],
        decreases addrs@.len() - i,
    {
        let to = addrs[i];
        out.push(
            OutboundMessage {
                to,
                delivery: MessageType::ReliableUnordered,
                message: ServerMessage::SendMessage(String::from_str("SERVER"), txt.clone()),
            },
        );
        i += 1;
    }
    let mut j: usize = 0;
    while j < addrs.len()
        invariant
            entries == clients@,
            chat_bcast == spec_chat_broadcast(
                entries,
                "SERVER"@,
                txt@,
                MessageType::ReliableUnordered,
            ),
            despawn_bcast == spec_despawn_broadcast(entries, player_id),
            addrs@ == entries.map_values(|e: (Address, ClientInfoV)| e.0),
            j <= addrs@.len(),
            out.deep_view().len() == addrs@.len() + j,
            forall|k: int| 0 <= k < addrs@.len() ==> out.deep_view()[k] == chat_bcast[k],
            forall|k: int| 0 <= k < j ==> out.deep_view()[addrs@.len() + k] == despawn_bcast[k],
        decreases addrs@.len() - j,
    {
        let to = addrs[j];
        out.push(
            OutboundMessage {
                to,
                delivery: MessageType::ReliableUnordered,
                message: ServerMessage::DespawnNetworkedEntity(player_id),
            },
        );
        j += 1;
    }
    proof {
        assert(out.deep_view() =~= chat_bcast + despawn_bcast);
    }
    out
}

/// Applies a position update from `source`.
///
/// A move from an unauthenticated address is dropped: nothing is sent and
/// nothing changes. Otherwise the position is clamped into the play area,
/// the clamped position is broadcast to every other connected address, and
/// it is echoed back to the origin only when clamping changed the value.
pub fn handle_move(clients: &ClientList, source: Address, pos: Position) -> (out: Vec<
    OutboundMessage,
>)
    requires
        clients.wf(),
    ensures
        spec_lookup(clients@, source) is None ==> out.deep_view()
            == Seq::<OutboundMessageV>::empty(),
        spec_lookup(clients@, source) matches Some(info) ==> out.deep_view()
            == spec_move_broadcast(
            clients@,
            source,
            info.player_id,
            spec_clamp_to_play_area(pos),
        ) + if spec_clamp_to_play_area(pos) != pos {
            seq![spec_pos_msg(source, info.player_id, spec_clamp_to_play_area(pos))]
        } else {
            Seq::<OutboundMessageV>::empty()
        },
{
    let player_id = match clients.lookup(source) {
        None => {
            let out: Vec<OutboundMessage> = Vec::new();
            proof {
                assert(out.deep_view() =~= Seq::<OutboundMessageV>::empty());
            }
            return out;
        },
        Some(info) => info.player_id,
    };
    let clamped = clamp_to_play_area(pos);
    let mut out: Vec<OutboundMessage> = Vec::new();
    let mut i: usize = 0;
    while i < clients.addr_map.len()
        invariant
            clients.wf(),
            i <= clients@.len(),
            clients@.len() == clients.addr_map@.len(),
            clamped == spec_clamp_to_play_area(pos),
            out.deep_view() == spec_move_broadcast(
                clients@.take(i as int),
                source,
                player_id,
                clamped,
            ),
        decreases clients@.len() - i,
    {
        proof {
            assert(clients@.take(i + 1 as int).drop_last() =~= clients@.take(i as int));
            assert(clients@.take(i + 1 as int).last() == clients@[i as int]);
        }
        let to = clients.addr_map[i].0;
        if to.0 != source.0 {
            let ghost old_dv = out.deep_view();
            out.push(
                OutboundMessage {
                    to,
                    delivery: MessageType::Unreliable,
                    message: ServerMessage::SendNetworkedEntityInfo(
                        player_id,
                        InfoSendType::Position(clamped),
                    ),
                },
            );
            proof {
                assert(out.deep_view() =~= old_dv.push(
                    spec_pos_msg(to, player_id, clamped),
                ));
            }
        }
        i += 1;
    }
    proof {
        assert(clients@.take(clients@.len() as int) =~= clients@);
    }
    if clamped.x != pos.x || clamped.y != pos.y {
        let ghost old_dv = out.deep_view();
        out.push(
            OutboundMessage {
                to: source,
                delivery: MessageType::Unreliable,
                message: ServerMessage::SendNetworkedEntityInfo(
                    player_id,
                    InfoSendType::Position(clamped),
                ),
            },
        );
        proof {
            assert(out.deep_view() =~= old_dv.push(spec_pos_msg(source, player_id, clamped)));
            assert(out.deep_view() =~= old_dv + seq![
                spec_pos_msg(source, player_id, clamped),
            ]);
        }
    } else {
        proof {
            assert(out.deep_view() =~= out.deep_view()
                + Seq::<OutboundMessageV>::empty());
        }
    }
    out
}

/// Answers an archetype request from `source` for identity `id`.
///
/// Requires an authenticated source and a known identity; the reply is one
/// unowned spawn announcement to the requester. An unknown identity is
/// ignored: the requester may be lagging behind a despawn it has not yet
/// processed.
pub fn handle_request_archetype(
    clients: &ClientList,
    networked_entities: &NetworkedEntities,
    source: Address,
    id: NetworkID,
) -> (out: Vec<OutboundMessage>)
    requires
        clients.wf(),
        networked_entities.wf(),
    ensures
        spec_lookup(clients@, source) is None ==> out.deep_view()
            == Seq::<OutboundMessageV>::empty(),
        spec_lookup(clients@, source) is Some && spec_lookup_id(networked_entities@, id) is None
            ==> out.deep_view() == Seq::<OutboundMessageV>::empty(),
        spec_lookup(clients@, source) is Some && (spec_lookup_id(networked_entities@, id) matches
        Some(record)) ==> out.deep_view() == seq![
            (OutboundMessageV {
                to: source,
                delivery: MessageType::Unreliable,
                message: ServerMessageV::SpawnNetworkedEntity(
                    id,
                    spec_lookup_id(networked_entities@, id)->Some_0.1,
                    false,
                ),
            }),
        ],
{
    let mut out: Vec<OutboundMessage> = Vec::new();
    proof {
        assert(out.deep_view() =~= Seq::<OutboundMessageV>::empty());
    }
    if clients.lookup(source).is_some() {
        match networked_entities.lookup(id) {
            Some((_handle, archetype)) => {
                out.push(
                    OutboundMessage {
                        to: source,
                        delivery: MessageType::Unreliable,
                        message: ServerMessage::SpawnNetworkedEntity(id, archetype, false),
                    },
                );
                proof {
                    assert(out.deep_view() =~= seq![
                        (OutboundMessageV {
                            to: source,
                            delivery: MessageType::Unreliable,
                            message: ServerMessageV::SpawnNetworkedEntity(id, archetype, false),
                        }),
                    ]);
                }
            },
            None => {},
        }
    }
    out
}

/// Applies a chat line from `source`: broadcasts it under the sender's
/// username to every connected address, the sender included, in registry
/// order. A chat line from an unauthenticated address is dropped.
pub fn handle_chat(clients: &ClientList, source: Address, text: &str) -> (out: Vec<
    OutboundMessage,
>)
    requires
        clients.wf(),
    ensures
        spec_lookup(clients@, source) is None ==> out.deep_view()
            == Seq::<OutboundMessageV>::empty(),
        spec_lookup(clients@, source) matches Some(info) ==> out.deep_view()
            == spec_chat_broadcast(clients@, info.username, text@, MessageType::Unreliable),
{
    let username = match clients.lookup(source) {
        None => {
            let out: Vec<OutboundMessage> = Vec::new();
            proof {
                assert(out.deep_view() =~= Seq::<OutboundMessageV>::empty());
            }
            return out;
        },
        Some(info) => info.username.clone(),
    };
    let ghost chat_bcast = spec_chat_broadcast(
        clients@,
        username@,
        text@,
        MessageType::Unreliable,
    );
    let addrs = clients.all_addresses();
    let mut out: Vec<OutboundMessage> = Vec::new();
    let mut i: usize = 0;
    while i < addrs.len()
        invariant
            chat_bcast == spec_chat_broadcast(
                clients@,
                username@,
                text@,
                MessageType::Unreliable,
            ),
            addrs@ == clients@.map_values(|e: (Address, ClientInfoV)| e.0),
            i <= addrs@.len(),
            out.deep_view().len() == i,
            forall|k: int| 0 <= k < i ==> out.deep_view()[k] == chat_bcast[k],
        decreases addrs@.len() - i,
    {
        let to = addrs[i];
        out.push(
            OutboundMessage {
                to,
                delivery: MessageType::Unreliable,
                message: ServerMessage::SendMessage(username.clone(), String::from_str(text)),
            },
        );
        i += 1;
    }
    proof {
        assert(out.deep_view() =~= chat_bcast);
    }
    out
}

/// A pending entity-info request: the identity asked about, the requesting
/// address, and the kind of information wanted. Queued by
/// [`handle_request_entity_info`] and consumed by [`send_player_info`].
#[derive(Debug, Copy, Clone, PartialEq, Eq, Structural)]
pub struct SendInfoRequest(pub NetworkID, pub Address, pub InfoRequestType);

/// Queues an entity-info request for later resolution rather than answering
/// synchronously, so entity data is read through the same world-access
/// pattern as all other simulation logic.
///
/// Requires an authenticated source and a known identity; otherwise nothing
/// is queued.
pub fn handle_request_entity_info(
    clients: &ClientList,
    networked_entities: &NetworkedEntities,
    pending: &mut Vec<SendInfoRequest>,
    source: Address,
    id: NetworkID,
    kind: InfoRequestType,
)
    requires
        clients.wf(),
        networked_entities.wf(),
    ensures
        spec_lookup(clients@, source) is Some && spec_lookup_id(networked_entities@, id) is Some
            ==> final(pending)@ == old(pending)@.push(SendInfoRequest(id, source, kind)),
        spec_lookup(clients@, source) is None || spec_lookup_id(networked_entities@, id) is None
            ==> final(pending)@ == old(pending)@,
{
    if clients.lookup(source).is_some() {
        if networked_entities.lookup(id).is_some() {
            pending.push(SendInfoRequest(id, source, kind));
        }
    }
}

/// The unreliable identity reply sent for `id` carrying `name`.
pub open spec fn spec_identity_msg(to: Address, id: NetworkID, name: Seq<char>) -> OutboundMessageV {
    OutboundMessageV {
        to,
        delivery: MessageType::Unreliable,
        message: ServerMessageV::SendNetworkedEntityInfo(id, InfoSendTypeV::Identity(name)),
    }
}

/// The replies produced by resolving `reqs` against the current registry and
/// world: one identity reply per request whose target still exists and
/// carries player info; the others resolve to nothing.
pub open spec fn spec_resolve_pending(
    reqs: Seq<SendInfoRequest>,
    entities: Seq<(NetworkID, (u64, GameArchetype))>,
    world: Seq<(u64, Seq<char>)>,
) -> Seq<OutboundMessageV>
    decreases reqs.len(),
{
    if reqs.len() == 0 {
        Seq::empty()
    } else {
        let rest = spec_resolve_pending(reqs.drop_last(), entities, world);
        let req = reqs.last();
        match spec_lookup_id(entities, req.0) {
            Some(record) => match spec_world_lookup(world, record.0) {
                Some(name) => rest.push(spec_identity_msg(req.1, req.0, name)),
                None => rest,
            },
            None => rest,
        }
    }
}

/// Resolves every pending entity-info request against the current registry.
///
/// Each marker is consumed exactly once whether or not resolution succeeds:
/// the pending list is left empty, and one identity reply goes to each
/// requester whose target entity still exists and carries player info.
pub fn send_player_info(
    pending: &mut Vec<SendInfoRequest>,
    networked_entities: &NetworkedEntities,
    world: &SimWorld,
) -> (out: Vec<OutboundMessage>)
    requires
        networked_entities.wf(),
        world.wf(),
    ensures
        final(pending)@.len() == 0,
        out.deep_view() == spec_resolve_pending(old(pending)@, networked_entities@, world@),
{
    let mut out: Vec<OutboundMessage> = Vec::new();
    let mut i: usize = 0;
    while i < pending.len()
        invariant
            networked_entities.wf(),
            world.wf(),
            pending@ == old(pending)@,
            i <= pending@.len(),
            out.deep_view() == spec_resolve_pending(
                pending@.take(i as int),
                networked_entities@,
                world@,
            ),
        decreases pending@.len() - i,
    {
        proof {
            assert(pending@.take(i + 1 as int).drop_last() =~= pending@.take(i as int));
            assert(pending@.take(i + 1 as int).last() == pending@[i as int]);
        }
        let req = pending[i];
        match networked_entities.lookup(req.0) {
            Some((handle, _archetype)) => {
                match world.get_player_info(handle) {
                    Some(info) => {
                        let ghost old_dv = out.deep_view();
                        out.push(
                            OutboundMessage {
                                to: req.1,
                                delivery: MessageType::Unreliable,
                                message: ServerMessage::SendNetworkedEntityInfo(
                                    req.0,
                                    InfoSendType::Identity(info.0.clone()),
                                ),
                            },
                        );
                        proof {
                            assert(out.deep_view() =~= old_dv.push(
                                spec_identity_msg(req.1, req.0, info.deep_view()),
                            ));
                        }
                    },
                    None => {},
                }
            },
            None => {},
        }
        i += 1;
    }
    proof {
        assert(pending@.take(pending@.len() as int) =~= pending@);
    }
    pending.clear();
    out
}

/// An event handed in from the transport layer, as plain values. The
/// transport's background polling thread only ever feeds these through a
/// queue; it never touches registry state directly.
pub enum ServerEvent {
    /// A raw payload arrived from the address.
    Packet(Address, Vec<u8>),
    /// The transport opened a connection; no registry action, since players
    /// authenticate through a `Connect` message.
    Connect(Address),
    /// The transport saw the address go idle; the disconnect that follows
    /// it carries the registry action.
    Timeout(Address),
    /// The remote disconnected, explicitly or by timeout.
    Disconnect(Address),
}

/// Parses one transport event and applies it to the registry.
///
/// A payload that decodes to no message is discarded: nothing changes and
/// nothing is sent, never a panic or a connection drop. Decoded messages are
/// routed to their handlers. The dueling messages are routed as their own
/// variants but deliberately have no behaviour yet.
pub fn handle_socket_event(
    event: ServerEvent,
    next_id: &mut usize,
    clients: &mut ClientList,
    networked_entities: &mut NetworkedEntities,
    world: &mut SimWorld,
    pending: &mut Vec<SendInfoRequest>,
) -> (out: Vec<OutboundMessage>)
    requires
        old(clients).wf(),
        old(networked_entities).wf(),
        old(world).wf(),
        *old(next_id) < usize::MAX,
        old(world).next_handle < u64::MAX,
    ensures
        final(clients).wf(),
        final(networked_entities).wf(),
        final(world).wf(),
        spec_ids_below(old(clients)@, old(networked_entities)@, *old(next_id)) ==> spec_ids_below(
            final(clients)@,
            final(networked_entities)@,
            *final(next_id),
        ),
        (event matches ServerEvent::Connect(_)) || (event matches ServerEvent::Timeout(_)) ==> {
            &&& *final(next_id) == *old(next_id)
            &&& final(clients)@ == old(clients)@
            &&& final(networked_entities)@ == old(networked_entities)@
            &&& final(world)@ == old(world)@
            &&& final(pending)@ == old(pending)@
            &&& out.deep_view() == Seq::<OutboundMessageV>::empty()
        },
        event matches ServerEvent::Disconnect(source) ==> {
            &&& *final(next_id) == *old(next_id)
            &&& final(pending)@ == old(pending)@
            &&& (spec_lookup(old(clients)@, source) is None ==> final(clients)@ == old(clients)@
                && final(networked_entities)@ == old(networked_entities)@ && final(world)@ == old(
                world,
            )@ && out.deep_view() == Seq::<OutboundMessageV>::empty())
            &&& (spec_lookup(old(clients)@, source) matches Some(info) ==> {
                &&& !spec_contains_addr(final(clients)@, source)
                &&& !spec_contains_id(final(networked_entities)@, info.player_id)
                &&& out.deep_view() == spec_chat_broadcast(
                    final(clients)@,
                    "SERVER"@,
                    info.username + " has disconnected."@,
                    MessageType::ReliableUnordered,
                ) + spec_despawn_broadcast(final(clients)@, info.player_id)
            })
        },
        event matches ServerEvent::Packet(source, bytes) ==> match spec_dec_client_msg(bytes@) {
            None => {
                &&& *final(next_id) == *old(next_id)
                &&& final(clients)@ == old(clients)@
                &&& final(networked_entities)@ == old(networked_entities)@
                &&& final(world)@ == old(world)@
                &&& final(pending)@ == old(pending)@
                &&& out.deep_view() == Seq::<OutboundMessageV>::empty()
            },
            Some(m) => match m {
                ClientMessageV::Connect(name) => {
                    &&& final(pending)@ == old(pending)@
                    &&& (!spec_valid_username(name) ==> *final(next_id) == *old(next_id)
                        && final(clients)@ == old(clients)@ && out.deep_view() == seq![
                        spec_reject_msg(source),
                    ])
                    &&& (spec_valid_username(name) ==> {
                        let id = NetworkID(*old(next_id));
                        &&& *final(next_id) == *old(next_id) + 1
                        &&& spec_lookup(final(clients)@, source) == Some(
                            ClientInfoV { username: name, player_id: id },
                        )
                        &&& out.deep_view() == seq![spec_accept_msg(source)]
                            + spec_spawn_broadcast(final(clients)@, id, source)
                            + spec_chat_broadcast(
                            final(clients)@,
                            "SERVER"@,
                            name + " has connected"@,
                            MessageType::Unreliable,
                        )
                    })
                },
                ClientMessageV::MoveTo(p) => {
                    &&& *final(next_id) == *old(next_id)
                    &&& final(clients)@ == old(clients)@
                    &&& final(networked_entities)@ == old(networked_entities)@
                    &&& final(world)@ == old(world)@
                    &&& final(pending)@ == old(pending)@
                    &&& (spec_lookup(old(clients)@, source) is None ==> out.deep_view()
                        == Seq::<OutboundMessageV>::empty())
                    &&& (spec_lookup(old(clients)@, source) matches Some(info) ==> out.deep_view()
                        == spec_move_broadcast(
                        old(clients)@,
                        source,
                        info.player_id,
                        spec_clamp_to_play_area(p),
                    ) + if spec_clamp_to_play_area(p) != p {
                        seq![spec_pos_msg(source, info.player_id, spec_clamp_to_play_area(p))]
                    } else {
                        Seq::<OutboundMessageV>::empty()
                    })
                },
                ClientMessageV::Disconnect => {
                    &&& *final(next_id) == *old(next_id)
                    &&& final(pending)@ == old(pending)@
                    &&& (spec_lookup(old(clients)@, source) is None ==> final(clients)@ == old(
                        clients,
                    )@ && final(networked_entities)@ == old(networked_entities)@ && final(world)@
                        == old(world)@ && out.deep_view() == Seq::<OutboundMessageV>::empty())
                    &&& (spec_lookup(old(clients)@, source) matches Some(info) ==> {
                        &&& !spec_contains_addr(final(clients)@, source)
                        &&& !spec_contains_id(final(networked_entities)@, info.player_id)
                        &&& out.deep_view() == spec_chat_broadcast(
                            final(clients)@,
                            "SERVER"@,
                            info.username + " has disconnected."@,
                            MessageType::ReliableUnordered,
                        ) + spec_despawn_broadcast(final(clients)@, info.player_id)
                    })
                },
                ClientMessageV::RequestArchetype(id) => {
                    &&& *final(next_id) == *old(next_id)
                    &&& final(clients)@ == old(clients)@
                    &&& final(networked_entities)@ == old(networked_entities)@
                    &&& final(world)@ == old(world)@
                    &&& final(pending)@ == old(pending)@
                    &&& (spec_lookup(old(clients)@, source) is None || spec_lookup_id(
                        old(networked_entities)@,
                        id,
                    ) is None ==> out.deep_view() == Seq::<OutboundMessageV>::empty())
                    &&& (spec_lookup(old(clients)@, source) is Some && spec_lookup_id(
                        old(networked_entities)@,
                        id,
                    ) is Some ==> out.deep_view() == seq![
                        (OutboundMessageV {
                            to: source,
                            delivery: MessageType::Unreliable,
                            message: ServerMessageV::SpawnNetworkedEntity(
                                id,
                                spec_lookup_id(old(networked_entities)@, id)->Some_0.1,
                                false,
                            ),
                        }),
                    ])
                },
                ClientMessageV::SendMessage(text) => {
                    &&& *final(next_id) == *old(next_id)
                    &&& final(clients)@ == old(clients)@
                    &&& final(networked_entities)@ == old(networked_entities)@
                    &&& final(world)@ == old(world)@
                    &&& final(pending)@ == old(pending)@
                    &&& (spec_lookup(old(clients)@, source) is None ==> out.deep_view()
                        == Seq::<OutboundMessageV>::empty())
                    &&& (spec_lookup(old(clients)@, source) matches Some(info) ==> out.deep_view()
                        == spec_chat_broadcast(
                        old(clients)@,
                        info.username,
                        text,
                        MessageType::Unreliable,
                    ))
                },
                ClientMessageV::RequestEntityInfo(id, kind) => {
                    &&& *final(next_id) == *old(next_id)
                    &&& final(clients)@ == old(clients)@
                    &&& final(networked_entities)@ == old(networked_entities)@
                    &&& final(world)@ == old(world)@
                    &&& out.deep_view() == Seq::<OutboundMessageV>::empty()
                    &&& (spec_lookup(old(clients)@, source) is Some && spec_lookup_id(
                        old(networked_entities)@,
                        id,
                    ) is Some ==> final(pending)@ == old(pending)@.push(
                        SendInfoRequest(id, source, kind),
                    ))
                    &&& (spec_lookup(old(clients)@, source) is None || spec_lookup_id(
                        old(networked_entities)@,
                        id,
                    ) is None ==> final(pending)@ == old(pending)@)
                },
                ClientMessageV::IssueChallenge(_) => {
                    &&& *final(next_id) == *old(next_id)
                    &&& final(clients)@ == old(clients)@
                    &&& final(networked_entities)@ == old(networked_entities)@
                    &&& final(world)@ == old(world)@
                    &&& final(pending)@ == old(pending)@
                    &&& out.deep_view() == Seq::<OutboundMessageV>::empty()
                },
                ClientMessageV::RespondToChallenge(_, _) => {
                    &&& *final(next_id) == *old(next_id)
                    &&& final(clients)@ == old(clients)@
                    &&& final(networked_entities)@ == old(networked_entities)@
                    &&& final(world)@ == old(world)@
                    &&& final(pending)@ == old(pending)@
                    &&& out.deep_view() == Seq::<OutboundMessageV>::empty()
                },
            },
        },
{
    match event {
        ServerEvent::Connect(_) => {
            let out: Vec<OutboundMessage> = Vec::new();
            proof {
                assert(out.deep_view() =~= Seq::<OutboundMessageV>::empty());
            }
            out
        },
        ServerEvent::Timeout(_) => {
            let out: Vec<OutboundMessage> = Vec::new();
            proof {
                assert(out.deep_view() =~= Seq::<OutboundMessageV>::empty());
            }
            out
        },
        ServerEvent::Disconnect(source) => handle_disconnect(
            clients,
            networked_entities,
            world,
            source,
        ),
        ServerEvent::Packet(source, bytes) => match ClientMessage::from_payload(
            bytes.as_slice(),
        ) {
            Err(_) => {
                let out: Vec<OutboundMessage> = Vec::new();
                proof {
                    assert(out.deep_view() =~= Seq::<OutboundMessageV>::empty());
                }
                out
            },
            Ok(msg) => match msg {
                ClientMessage::Connect(username) => handle_connect_message(
                    username.as_str(),
                    next_id,
                    clients,
                    source,
                    networked_entities,
                    world,
                ),
                ClientMessage::MoveTo(p) => handle_move(clients, source, p),
                ClientMessage::Disconnect => handle_disconnect(
                    clients,
                    networked_entities,
                    world,
                    source,
                ),
                ClientMessage::RequestArchetype(id) => handle_request_archetype(
                    clients,
                    networked_entities,
                    source,
                    id,
                ),
                ClientMessage::SendMessage(text) => handle_chat(clients, source, text.as_str()),
                ClientMessage::RequestEntityInfo(id, kind) => {
                    handle_request_entity_info(
                        clients,
                        networked_entities,
                        pending,
                        source,
                        id,
                        kind,
                    );
                    let out: Vec<OutboundMessage> = Vec::new();
                    proof {
                        assert(out.deep_view() =~= Seq::<OutboundMessageV>::empty());
                    }
                    out
                },
                ClientMessage::IssueChallenge(_) => {
                    let out: Vec<OutboundMessage> = Vec::new();
                    proof {
                        assert(out.deep_view() =~= Seq::<OutboundMessageV>::empty());
                    }
                    out
                },
                ClientMessage::RespondToChallenge(_, _) => {
                    let out: Vec<OutboundMessage> = Vec::new();
                    proof {
                        assert(out.deep_view() =~= Seq::<OutboundMessageV>::empty());
                    }
                    out
                },
            },
        },
    }
}

// ---------------------------------------------------------------------------
// Laws about the handlers' broadcasts.
// ---------------------------------------------------------------------------
/// Law: an accepted connect yields exactly one `ConnectionAccepted`,
/// addressed to the origin; exactly one owned spawn announcement, addressed
/// to the origin; an unowned spawn announcement to every other connected
/// address; and no other acceptance or spawn announcement anywhere in the
/// reply. `out` is the reply [`handle_connect_message`] promises when the
/// username passes validation; `j` is the origin's position in the client
/// list after registration.
pub proof fn lemma_connect_broadcast_shape(
    out: Seq<OutboundMessageV>,
    entries: Seq<(Address, ClientInfoV)>,
    id: NetworkID,
    source: Address,
    author: Seq<char>,
    text: Seq<char>,
    j: int,
)
    requires
        out == seq![spec_accept_msg(source)] + spec_spawn_broadcast(entries, id, source)
            + spec_chat_broadcast(entries, author, text, MessageType::Unreliable),
        forall|i: int, k: int| 0 <= i < k < entries.len() ==> entries[i].0 != entries[k].0,
        0 <= j < entries.len(),
        entries[j].0 == source,
    ensures
        out.len() == 1 + 2 * entries.len(),
        out[0] == spec_accept_msg(source),
        forall|k: int| 0 < k < out.len() ==> !(out[k].message is ConnectionAccepted),
        out[1 + j] == (OutboundMessageV {
            to: source,
            delivery: MessageType::ReliableUnordered,
            message: ServerMessageV::SpawnNetworkedEntity(id, GameArchetype::Player, true),
        }),
        forall|k: int|
            1 <= k < 1 + entries.len() && k != 1 + j ==> out[k] == (OutboundMessageV {
                to: entries[k - 1].0,
                delivery: MessageType::ReliableUnordered,
                message: ServerMessageV::SpawnNetworkedEntity(id, GameArchetype::Player, false),
            }) && out[k].to != source,
        forall|k: int|
            1 + entries.len() <= k < out.len() ==> !(out[k].message
                is SpawnNetworkedEntity),
{
    let spawn = spec_spawn_broadcast(entries, id, source);
    let chat = spec_chat_broadcast(entries, author, text, MessageType::Unreliable);
    assert(spawn.len() == entries.len());
    assert(chat.len() == entries.len());
    assert forall|k: int|
        1 <= k < 1 + entries.len() && k != 1 + j implies out[k] == (OutboundMessageV {
            to: entries[k - 1].0,
            delivery: MessageType::ReliableUnordered,
            message: ServerMessageV::SpawnNetworkedEntity(id, GameArchetype::Player, false),
        }) && out[k].to != source by {
        assert(out[k] == spawn[k - 1]);
        if k - 1 < j {
            assert(entries[k - 1].0 != entries[j].0);
        } else {
            assert(entries[j].0 != entries[k - 1].0);
        }
    }
    assert(out[1 + j] == spawn[j]);
    assert forall|k: int| 0 < k < out.len() implies !(out[k].message
        is ConnectionAccepted) by {
        if k < 1 + entries.len() {
            assert(out[k] == spawn[k - 1]);
        } else {
            assert(out[k] == chat[k - 1 - entries.len()]);
        }
    }
    assert forall|k: int| 1 + entries.len() <= k < out.len() implies !(out[k].message
        is SpawnNetworkedEntity) by {
        assert(out[k] == chat[k - 1 - entries.len()]);
    }
}

/// Law: every position update in a move broadcast carries exactly the
/// position handed to it — the clamped value, for the broadcasts
/// [`handle_move`] promises — is addressed to a connected address other
/// than the origin, and is sent unreliably; and every connected address
/// other than the origin receives one.
pub proof fn lemma_move_broadcast_clamped(
    entries: Seq<(Address, ClientInfoV)>,
    source: Address,
    id: NetworkID,
    p: Position,
)
    ensures
        forall|k: int|
            0 <= k < spec_move_broadcast(entries, source, id, p).len() ==> spec_move_broadcast(
                entries,
                source,
                id,
                p,
            )[k].to != source && spec_move_broadcast(entries, source, id, p)[k]
                == spec_pos_msg(spec_move_broadcast(entries, source, id, p)[k].to, id, p),
        forall|i: int|
            0 <= i < entries.len() && entries[i].0 != source ==> exists|k: int|
                0 <= k < spec_move_broadcast(entries, source, id, p).len()
                    && spec_move_broadcast(entries, source, id, p)[k].to == entries[i].0,
    decreases entries.len(),
{
    if entries.len() == 0 {
    } else {
        lemma_move_broadcast_clamped(entries.drop_last(), source, id, p);
        let b = spec_move_broadcast(entries, source, id, p);
        let rest = spec_move_broadcast(entries.drop_last(), source, id, p);
        assert forall|i: int|
            0 <= i < entries.len() && entries[i].0 != source implies exists|k: int|
                0 <= k < b.len() && b[k].to == entries[i].0 by {
            if i < entries.len() - 1 {
                assert(entries.drop_last()[i] == entries[i]);
                let k = choose|k: int| 0 <= k < rest.len() && rest[k].to == entries[i].0;
                assert(b[k].to == entries[i].0);
            } else {
                assert(b[b.len() - 1].to == entries[i].0);
            }
        }
    }
}

} // verus!
