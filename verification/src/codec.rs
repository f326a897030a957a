//! Binary encoding and decoding of the wire protocol.
//!
//! Every message variant is encoded as a one-byte tag followed by its fields:
//! integers little-endian, strings as a character count followed by one
//! 32-bit code point per character, positions as bias-shifted 32-bit words.
//! Decoding accepts exactly the byte strings the encoder produces; anything
//! else is a [`DecodeError`], never a panic.
use vstd::prelude::*;

use vstd::bytes::lemma_auto_spec_u32_to_from_le_bytes;
use vstd::bytes::lemma_auto_spec_u64_to_from_le_bytes;
use vstd::bytes::spec_u32_from_le_bytes;
use vstd::bytes::spec_u32_to_le_bytes;
use vstd::bytes::spec_u64_from_le_bytes;
use vstd::bytes::spec_u64_to_le_bytes;
use vstd::bytes::u32_from_le_bytes;
use vstd::bytes::u32_to_le_bytes;
use vstd::bytes::u64_from_le_bytes;
use vstd::bytes::u64_to_le_bytes;
use vstd::slice::slice_subrange;
use vstd::assert_seqs_equal;

use crate::GameArchetype;
use crate::NetworkID;
use crate::messages::ClientMessage;
use crate::messages::ClientMessageV;
use crate::messages::DisconnectReason;
use crate::messages::InfoRequestType;
use crate::messages::InfoSendType;
use crate::messages::InfoSendTypeV;
use crate::messages::ServerMessage;
use crate::messages::ServerMessageV;
use crate::position::Position;

verus! {

/// A payload that is not the encoding of any message. Decode failures are
/// reported to the caller and the packet is discarded; they are distinct from
/// messages that decode but are semantically rejected.
#[derive(Debug, Copy, Clone, PartialEq, Eq, Structural)]
pub struct DecodeError;

// ---------------------------------------------------------------------------
// Specification-level encoders.
// ---------------------------------------------------------------------------
pub open spec fn spec_enc_byte(x: u8) -> Seq<u8> {
    seq![x]
}

pub open spec fn spec_enc_u32(x: u32) -> Seq<u8> {
    spec_u32_to_le_bytes(x)
}

pub open spec fn spec_enc_u64(x: u64) -> Seq<u8> {
    spec_u64_to_le_bytes(x)
}

pub open spec fn spec_enc_bool(b: bool) -> Seq<u8> {
    seq![if b { 1u8 } else { 0u8 }]
}

/// The bias shift that maps an `i32` coordinate onto an unsigned word.
pub open spec fn spec_bias(x: i32) -> u32 {
    (x + 0x8000_0000) as u32
}

/// The inverse of [`spec_bias`].
pub open spec fn spec_unbias(u: u32) -> i32 {
    (u - 0x8000_0000) as i32
}

pub open spec fn spec_enc_pos(p: Position) -> Seq<u8> {
    spec_enc_u32(spec_bias(p.x)) + spec_enc_u32(spec_bias(p.y))
}

pub open spec fn spec_enc_id(id: NetworkID) -> Seq<u8> {
    spec_enc_u64(id.0 as u64)
}

pub open spec fn spec_enc_char(c: char) -> Seq<u8> {
    spec_enc_u32(c as u32)
}

pub open spec fn spec_enc_chars(s: Seq<char>) -> Seq<u8>
    decreases s.len(),
{
    if s.len() == 0 {
        Seq::empty()
    } else {
        spec_enc_char(s[0]) + spec_enc_chars(s.skip(1))
    }
}

pub open spec fn spec_enc_str(s: Seq<char>) -> Seq<u8> {
    spec_enc_u64(s.len() as u64) + spec_enc_chars(s)
}

pub open spec fn spec_enc_info_req(kind: InfoRequestType) -> Seq<u8> {
    match kind {
        InfoRequestType::Identity => spec_enc_byte(0),
    }
}

pub open spec fn spec_enc_archetype(a: GameArchetype) -> Seq<u8> {
    match a {
        GameArchetype::Player => spec_enc_byte(0),
    }
}

pub open spec fn spec_enc_reason(r: DisconnectReason) -> Seq<u8> {
    match r {
        DisconnectReason::InvalidUsername => spec_enc_byte(0),
    }
}

pub open spec fn spec_enc_info_send(info: InfoSendTypeV) -> Seq<u8> {
    match info {
        InfoSendTypeV::Identity(name) => spec_enc_byte(0) + spec_enc_str(name),
        InfoSendTypeV::Position(p) => spec_enc_byte(1) + spec_enc_pos(p),
    }
}

pub open spec fn spec_enc_client_msg(m: ClientMessageV) -> Seq<u8> {
    match m {
        ClientMessageV::Connect(name) => spec_enc_byte(0) + spec_enc_str(name),
        ClientMessageV::RequestArchetype(id) => spec_enc_byte(1) + spec_enc_id(id),
        ClientMessageV::RequestEntityInfo(id, kind) => spec_enc_byte(2) + spec_enc_id(id)
            + spec_enc_info_req(kind),
        ClientMessageV::SendMessage(text) => spec_enc_byte(3) + spec_enc_str(text),
        ClientMessageV::MoveTo(p) => spec_enc_byte(4) + spec_enc_pos(p),
        ClientMessageV::IssueChallenge(id) => spec_enc_byte(5) + spec_enc_id(id),
        ClientMessageV::RespondToChallenge(id, accepted) => spec_enc_byte(6) + spec_enc_id(id)
            + spec_enc_bool(accepted),
        ClientMessageV::Disconnect => spec_enc_byte(7),
    }
}

pub open spec fn spec_enc_server_msg(m: ServerMessageV) -> Seq<u8> {
    match m {
        ServerMessageV::ConnectionAccepted => spec_enc_byte(0),
        ServerMessageV::SpawnNetworkedEntity(id, archetype, is_owned) => spec_enc_byte(1)
            + spec_enc_id(id) + spec_enc_archetype(archetype) + spec_enc_bool(is_owned),
        ServerMessageV::DespawnNetworkedEntity(id) => spec_enc_byte(2) + spec_enc_id(id),
        ServerMessageV::SendNetworkedEntityInfo(id, info) => spec_enc_byte(3) + spec_enc_id(id)
            + spec_enc_info_send(info),
        ServerMessageV::SendMessage(author, text) => spec_enc_byte(4) + spec_enc_str(author)
            + spec_enc_str(text),
        ServerMessageV::PassAlongChallenge(id) => spec_enc_byte(5) + spec_enc_id(id),
        ServerMessageV::DisconnectClient(reason) => spec_enc_byte(6) + spec_enc_reason(reason),
    }
}

/// Encodable client messages: string payloads whose character count fits the
/// length prefix. Every message built from an executable `String` satisfies
/// this.
pub open spec fn wf_client_msg(m: ClientMessageV) -> bool {
    match m {
        ClientMessageV::Connect(name) => name.len() <= u64::MAX,
        ClientMessageV::SendMessage(text) => text.len() <= u64::MAX,
        _ => true,
    }
}

/// Encodable server messages; see [`wf_client_msg`].
pub open spec fn wf_server_msg(m: ServerMessageV) -> bool {
    match m {
        ServerMessageV::SendNetworkedEntityInfo(_, info) => match info {
            InfoSendTypeV::Identity(name) => name.len() <= u64::MAX,
            InfoSendTypeV::Position(_) => true,
        },
        ServerMessageV::SendMessage(author, text) => author.len() <= u64::MAX && text.len()
            <= u64::MAX,
        _ => true,
    }
}

// ---------------------------------------------------------------------------
// Specification-level decoders. Each consumes a prefix of the byte sequence
// and yields the value together with the remaining bytes, or nothing if the
// bytes are not a valid prefix.
// ---------------------------------------------------------------------------
pub open spec fn spec_dec_byte(b: Seq<u8>) -> Option<(u8, Seq<u8>)> {
    if b.len() >= 1 {
        Some((b[0], b.skip(1)))
    } else {
        None
    }
}

pub open spec fn spec_dec_u32(b: Seq<u8>) -> Option<(u32, Seq<u8>)> {
    if b.len() >= 4 {
        Some((spec_u32_from_le_bytes(b.take(4)), b.skip(4)))
    } else {
        None
    }
}

pub open spec fn spec_dec_u64(b: Seq<u8>) -> Option<(u64, Seq<u8>)> {
    if b.len() >= 8 {
        Some((spec_u64_from_le_bytes(b.take(8)), b.skip(8)))
    } else {
        None
    }
}

pub open spec fn spec_dec_bool(b: Seq<u8>) -> Option<(bool, Seq<u8>)> {
    match spec_dec_byte(b) {
        Some((x, r)) => if x == 0 {
            Some((false, r))
        } else if x == 1 {
            Some((true, r))
        } else {
            None
        },
        None => None,
    }
}

pub open spec fn spec_dec_pos(b: Seq<u8>) -> Option<(Position, Seq<u8>)> {
    match spec_dec_u32(b) {
        Some((ux, r)) => match spec_dec_u32(r) {
            Some((uy, r2)) => Some(
                (Position { x: spec_unbias(ux), y: spec_unbias(uy) }, r2),
            ),
            None => None,
        },
        None => None,
    }
}

pub open spec fn spec_dec_id(b: Seq<u8>) -> Option<(NetworkID, Seq<u8>)> {
    match spec_dec_u64(b) {
        Some((x, r)) => if x <= usize::MAX as u64 {
            Some((NetworkID(x as usize), r))
        } else {
            None
        },
        None => None,
    }
}

/// A 32-bit word that is a Unicode scalar value, i.e. a valid `char`.
pub open spec fn spec_valid_char_code(u: u32) -> bool {
    u <= 0xD7FF || (0xE000 <= u && u <= 0x10FFFF)
}

pub open spec fn spec_dec_char(b: Seq<u8>) -> Option<(char, Seq<u8>)> {
    match spec_dec_u32(b) {
        Some((u, r)) => if spec_valid_char_code(u) {
            Some((u as char, r))
        } else {
            None
        },
        None => None,
    }
}

pub open spec fn spec_dec_chars(n: nat, b: Seq<u8>) -> Option<(Seq<char>, Seq<u8>)>
    decreases n,
{
    if n == 0 {
        Some((Seq::empty(), b))
    } else {
        match spec_dec_char(b) {
            Some((c, r)) => match spec_dec_chars((n - 1) as nat, r) {
                Some((s, r2)) => Some((seq![c] + s, r2)),
                None => None,
            },
            None => None,
        }
    }
}

pub open spec fn spec_dec_str(b: Seq<u8>) -> Option<(Seq<char>, Seq<u8>)> {
    match spec_dec_u64(b) {
        Some((n, r)) => spec_dec_chars(n as nat, r),
        None => None,
    }
}

pub open spec fn spec_dec_info_req(b: Seq<u8>) -> Option<(InfoRequestType, Seq<u8>)> {
    match spec_dec_byte(b) {
        Some((x, r)) => if x == 0 {
            Some((InfoRequestType::Identity, r))
        } else {
            None
        },
        None => None,
    }
}

pub open spec fn spec_dec_archetype(b: Seq<u8>) -> Option<(GameArchetype, Seq<u8>)> {
    match spec_dec_byte(b) {
        Some((x, r)) => if x == 0 {
            Some((GameArchetype::Player, r))
        } else {
            None
        },
        None => None,
    }
}

pub open spec fn spec_dec_reason(b: Seq<u8>) -> Option<(DisconnectReason, Seq<u8>)> {
    match spec_dec_byte(b) {
        Some((x, r)) => if x == 0 {
            Some((DisconnectReason::InvalidUsername, r))
        } else {
            None
        },
        None => None,
    }
}

pub open spec fn spec_dec_info_send(b: Seq<u8>) -> Option<(InfoSendTypeV, Seq<u8>)> {
    match spec_dec_byte(b) {
        Some((x, r)) => if x == 0 {
            match spec_dec_str(r) {
                Some((name, r2)) => Some((InfoSendTypeV::Identity(name), r2)),
                None => None,
            }
        } else if x == 1 {
            match spec_dec_pos(r) {
                Some((p, r2)) => Some((InfoSendTypeV::Position(p), r2)),
                None => None,
            }
        } else {
            None
        },
        None => None,
    }
}

/// The message, if any, that a whole payload decodes to. The payload must be
/// consumed exactly.
pub open spec fn spec_dec_client_msg(b: Seq<u8>) -> Option<ClientMessageV> {
    match spec_dec_byte(b) {
        None => None,
        Some((tag, r)) => if tag == 0 {
            match spec_dec_str(r) {
                Some((name, r2)) => if r2.len() == 0 {
                    Some(ClientMessageV::Connect(name))
                } else {
                    None
                },
                None => None,
            }
        } else if tag == 1 {
            match spec_dec_id(r) {
                Some((id, r2)) => if r2.len() == 0 {
                    Some(ClientMessageV::RequestArchetype(id))
                } else {
                    None
                },
                None => None,
            }
        } else if tag == 2 {
            match spec_dec_id(r) {
                Some((id, r2)) => match spec_dec_info_req(r2) {
                    Some((kind, r3)) => if r3.len() == 0 {
                        Some(ClientMessageV::RequestEntityInfo(id, kind))
                    } else {
                        None
                    },
                    None => None,
                },
                None => None,
            }
        } else if tag == 3 {
            match spec_dec_str(r) {
                Some((text, r2)) => if r2.len() == 0 {
                    Some(ClientMessageV::SendMessage(text))
                } else {
                    None
                },
                None => None,
            }
        } else if tag == 4 {
            match spec_dec_pos(r) {
                Some((p, r2)) => if r2.len() == 0 {
                    Some(ClientMessageV::MoveTo(p))
                } else {
                    None
                },
                None => None,
            }
        } else if tag == 5 {
            match spec_dec_id(r) {
                Some((id, r2)) => if r2.len() == 0 {
                    Some(ClientMessageV::IssueChallenge(id))
                } else {
                    None
                },
                None => None,
            }
        } else if tag == 6 {
            match spec_dec_id(r) {
                Some((id, r2)) => match spec_dec_bool(r2) {
                    Some((accepted, r3)) => if r3.len() == 0 {
                        Some(ClientMessageV::RespondToChallenge(id, accepted))
                    } else {
                        None
                    },
                    None => None,
                },
                None => None,
            }
        } else if tag == 7 {
            if r.len() == 0 {
                Some(ClientMessageV::Disconnect)
            } else {
                None
            }
        } else {
            None
        },
    }
}

/// The server message, if any, that a whole payload decodes to.
pub open spec fn spec_dec_server_msg(b: Seq<u8>) -> Option<ServerMessageV> {
    match spec_dec_byte(b) {
        None => None,
        Some((tag, r)) => if tag == 0 {
            if r.len() == 0 {
                Some(ServerMessageV::ConnectionAccepted)
            } else {
                None
            }
        } else if tag == 1 {
            match spec_dec_id(r) {
                Some((id, r2)) => match spec_dec_archetype(r2) {
                    Some((archetype, r3)) => match spec_dec_bool(r3) {
                        Some((is_owned, r4)) => if r4.len() == 0 {
                            Some(ServerMessageV::SpawnNetworkedEntity(id, archetype, is_owned))
                        } else {
                            None
                        },
                        None => None,
                    },
                    None => None,
                },
                None => None,
            }
        } else if tag == 2 {
            match spec_dec_id(r) {
                Some((id, r2)) => if r2.len() == 0 {
                    Some(ServerMessageV::DespawnNetworkedEntity(id))
                } else {
                    None
                },
                None => None,
            }
        } else if tag == 3 {
            match spec_dec_id(r) {
                Some((id, r2)) => match spec_dec_info_send(r2) {
                    Some((info, r3)) => if r3.len() == 0 {
                        Some(ServerMessageV::SendNetworkedEntityInfo(id, info))
                    } else {
                        None
                    },
                    None => None,
                },
                None => None,
            }
        } else if tag == 4 {
            match spec_dec_str(r) {
                Some((author, r2)) => match spec_dec_str(r2) {
                    Some((text, r3)) => if r3.len() == 0 {
                        Some(ServerMessageV::SendMessage(author, text))
                    } else {
                        None
                    },
                    None => None,
                },
                None => None,
            }
        } else if tag == 5 {
            match spec_dec_id(r) {
                Some((id, r2)) => if r2.len() == 0 {
                    Some(ServerMessageV::PassAlongChallenge(id))
                } else {
                    None
                },
                None => None,
            }
        } else if tag == 6 {
            match spec_dec_reason(r) {
                Some((reason, r2)) => if r2.len() == 0 {
                    Some(ServerMessageV::DisconnectClient(reason))
                } else {
                    None
                },
                None => None,
            }
        } else {
            None
        },
    }
}

// ---------------------------------------------------------------------------
// Round-trip: decoding an encoding yields the encoded value.
// ---------------------------------------------------------------------------
proof fn lemma_concat_take_skip(s1: Seq<u8>, s2: Seq<u8>)
    ensures
        (s1 + s2).take(s1.len() as int) == s1,
        (s1 + s2).skip(s1.len() as int) == s2,
{
    assert_seqs_equal!((s1 + s2).take(s1.len() as int) == s1);
    assert_seqs_equal!((s1 + s2).skip(s1.len() as int) == s2);
}

proof fn lemma_rt_byte(x: u8, rest: Seq<u8>)
    ensures
        spec_dec_byte(spec_enc_byte(x) + rest) == Some((x, rest)),
{
    lemma_concat_take_skip(spec_enc_byte(x), rest);
    assert((spec_enc_byte(x) + rest)[0] == x);
}

proof fn lemma_rt_u32(x: u32, rest: Seq<u8>)
    ensures
        spec_dec_u32(spec_enc_u32(x) + rest) == Some((x, rest)),
{
    lemma_auto_spec_u32_to_from_le_bytes();
    lemma_concat_take_skip(spec_enc_u32(x), rest);
}

proof fn lemma_rt_u64(x: u64, rest: Seq<u8>)
    ensures
        spec_dec_u64(spec_enc_u64(x) + rest) == Some((x, rest)),
{
    lemma_auto_spec_u64_to_from_le_bytes();
    lemma_concat_take_skip(spec_enc_u64(x), rest);
}

proof fn lemma_rt_bool(v: bool, rest: Seq<u8>)
    ensures
        spec_dec_bool(spec_enc_bool(v) + rest) == Some((v, rest)),
{
    lemma_rt_byte(if v { 1u8 } else { 0u8 }, rest);
}

proof fn lemma_rt_pos(p: Position, rest: Seq<u8>)
    ensures
        spec_dec_pos(spec_enc_pos(p) + rest) == Some((p, rest)),
{
    let ex = spec_enc_u32(spec_bias(p.x));
    let ey = spec_enc_u32(spec_bias(p.y));
    assert(spec_enc_pos(p) + rest =~= ex + (ey + rest));
    lemma_rt_u32(spec_bias(p.x), ey + rest);
    lemma_rt_u32(spec_bias(p.y), rest);
    assert(spec_unbias(spec_bias(p.x)) == p.x);
    assert(spec_unbias(spec_bias(p.y)) == p.y);
}

proof fn lemma_rt_id(id: NetworkID, rest: Seq<u8>)
    ensures
        spec_dec_id(spec_enc_id(id) + rest) == Some((id, rest)),
{
    lemma_rt_u64(id.0 as u64, rest);
}

proof fn lemma_rt_char(c: char, rest: Seq<u8>)
    ensures
        spec_dec_char(spec_enc_char(c) + rest) == Some((c, rest)),
{
    lemma_rt_u32(c as u32, rest);
    assert(spec_valid_char_code(c as u32));
    assert((c as u32) as char == c);
}

proof fn lemma_rt_chars(s: Seq<char>, rest: Seq<u8>)
    ensures
        spec_dec_chars(s.len(), spec_enc_chars(s) + rest) == Some((s, rest)),
    decreases s.len(),
{
    if s.len() == 0 {
        assert(spec_enc_chars(s) + rest =~= rest);
        assert(spec_dec_chars(0, rest) == Some((Seq::<char>::empty(), rest)));
        assert(s =~= Seq::<char>::empty());
    } else {
        let c = s[0];
        let tail = s.skip(1);
        assert(spec_enc_chars(s) + rest =~= spec_enc_char(c) + (spec_enc_chars(tail) + rest));
        lemma_rt_char(c, spec_enc_chars(tail) + rest);
        lemma_rt_chars(tail, rest);
        assert(seq![c] + tail =~= s);
    }
}

proof fn lemma_rt_str(s: Seq<char>, rest: Seq<u8>)
    requires
        s.len() <= u64::MAX,
    ensures
        spec_dec_str(spec_enc_str(s) + rest) == Some((s, rest)),
{
    let n = s.len() as u64;
    assert(spec_enc_str(s) + rest =~= spec_enc_u64(n) + (spec_enc_chars(s) + rest));
    lemma_rt_u64(n, spec_enc_chars(s) + rest);
    lemma_rt_chars(s, rest);
    assert(n as nat == s.len());
}

proof fn lemma_rt_info_req(kind: InfoRequestType, rest: Seq<u8>)
    ensures
        spec_dec_info_req(spec_enc_info_req(kind) + rest) == Some((kind, rest)),
{
    lemma_rt_byte(0, rest);
}

proof fn lemma_rt_archetype(a: GameArchetype, rest: Seq<u8>)
    ensures
        spec_dec_archetype(spec_enc_archetype(a) + rest) == Some((a, rest)),
{
    lemma_rt_byte(0, rest);
}

proof fn lemma_rt_reason(reason: DisconnectReason, rest: Seq<u8>)
    ensures
        spec_dec_reason(spec_enc_reason(reason) + rest) == Some((reason, rest)),
{
    lemma_rt_byte(0, rest);
}

proof fn lemma_rt_info_send(info: InfoSendTypeV, rest: Seq<u8>)
    requires
        info matches InfoSendTypeV::Identity(name) ==> name.len() <= u64::MAX,
    ensures
        spec_dec_info_send(spec_enc_info_send(info) + rest) == Some((info, rest)),
{
    match info {
        InfoSendTypeV::Identity(name) => {
            assert(spec_enc_info_send(info) + rest =~= spec_enc_byte(0) + (spec_enc_str(name)
                + rest));
            lemma_rt_byte(0, spec_enc_str(name) + rest);
            lemma_rt_str(name, rest);
        },
        InfoSendTypeV::Position(p) => {
            assert(spec_enc_info_send(info) + rest =~= spec_enc_byte(1) + (spec_enc_pos(p)
                + rest));
            lemma_rt_byte(1, spec_enc_pos(p) + rest);
            lemma_rt_pos(p, rest);
        },
    }
}

/// Round-trip law for the client-to-server wire protocol: decoding the
/// encoding of any client message yields exactly that message.
pub proof fn lemma_client_msg_round_trip(m: ClientMessageV)
    requires
        wf_client_msg(m),
    ensures
        spec_dec_client_msg(spec_enc_client_msg(m)) == Some(m),
{
    let b = spec_enc_client_msg(m);
    let empty = Seq::<u8>::empty();
    match m {
        ClientMessageV::Connect(name) => {
            assert(b =~= spec_enc_byte(0) + (spec_enc_str(name) + empty));
            lemma_rt_byte(0, spec_enc_str(name) + empty);
            lemma_rt_str(name, empty);
        },
        ClientMessageV::RequestArchetype(id) => {
            assert(b =~= spec_enc_byte(1) + (spec_enc_id(id) + empty));
            lemma_rt_byte(1, spec_enc_id(id) + empty);
            lemma_rt_id(id, empty);
        },
        ClientMessageV::RequestEntityInfo(id, kind) => {
            assert(b =~= spec_enc_byte(2) + (spec_enc_id(id) + (spec_enc_info_req(kind)
                + empty)));
            lemma_rt_byte(2, spec_enc_id(id) + (spec_enc_info_req(kind) + empty));
            lemma_rt_id(id, spec_enc_info_req(kind) + empty);
            lemma_rt_info_req(kind, empty);
        },
        ClientMessageV::SendMessage(text) => {
            assert(b =~= spec_enc_byte(3) + (spec_enc_str(text) + empty));
            lemma_rt_byte(3, spec_enc_str(text) + empty);
            lemma_rt_str(text, empty);
        },
        ClientMessageV::MoveTo(p) => {
            assert(b =~= spec_enc_byte(4) + (spec_enc_pos(p) + empty));
            lemma_rt_byte(4, spec_enc_pos(p) + empty);
            lemma_rt_pos(p, empty);
        },
        ClientMessageV::IssueChallenge(id) => {
            assert(b =~= spec_enc_byte(5) + (spec_enc_id(id) + empty));
            lemma_rt_byte(5, spec_enc_id(id) + empty);
            lemma_rt_id(id, empty);
        },
        ClientMessageV::RespondToChallenge(id, accepted) => {
            assert(b =~= spec_enc_byte(6) + (spec_enc_id(id) + (spec_enc_bool(accepted)
                + empty)));
            lemma_rt_byte(6, spec_enc_id(id) + (spec_enc_bool(accepted) + empty));
            lemma_rt_id(id, spec_enc_bool(accepted) + empty);
            lemma_rt_bool(accepted, empty);
        },
        ClientMessageV::Disconnect => {
            assert(b =~= spec_enc_byte(7) + empty);
            lemma_rt_byte(7, empty);
        },
    }
}

/// Round-trip law for the server-to-client wire protocol: decoding the
/// encoding of any server message yields exactly that message.
pub proof fn lemma_server_msg_round_trip(m: ServerMessageV)
    requires
        wf_server_msg(m),
    ensures
        spec_dec_server_msg(spec_enc_server_msg(m)) == Some(m),
{
    let b = spec_enc_server_msg(m);
    let empty = Seq::<u8>::empty();
    match m {
        ServerMessageV::ConnectionAccepted => {
            assert(b =~= spec_enc_byte(0) + empty);
            lemma_rt_byte(0, empty);
        },
        ServerMessageV::SpawnNetworkedEntity(id, archetype, is_owned) => {
            assert(b =~= spec_enc_byte(1) + (spec_enc_id(id) + (spec_enc_archetype(archetype) + (
            spec_enc_bool(is_owned) + empty))));
            lemma_rt_byte(
                1,
                spec_enc_id(id) + (spec_enc_archetype(archetype) + (spec_enc_bool(is_owned)
                    + empty)),
            );
            lemma_rt_id(id, spec_enc_archetype(archetype) + (spec_enc_bool(is_owned) + empty));
            lemma_rt_archetype(archetype, spec_enc_bool(is_owned) + empty);
            lemma_rt_bool(is_owned, empty);
        },
        ServerMessageV::DespawnNetworkedEntity(id) => {
            assert(b =~= spec_enc_byte(2) + (spec_enc_id(id) + empty));
            lemma_rt_byte(2, spec_enc_id(id) + empty);
            lemma_rt_id(id, empty);
        },
        ServerMessageV::SendNetworkedEntityInfo(id, info) => {
            assert(b =~= spec_enc_byte(3) + (spec_enc_id(id) + (spec_enc_info_send(info)
                + empty)));
            lemma_rt_byte(3, spec_enc_id(id) + (spec_enc_info_send(info) + empty));
            lemma_rt_id(id, spec_enc_info_send(info) + empty);
            lemma_rt_info_send(info, empty);
        },
        ServerMessageV::SendMessage(author, text) => {
            assert(b =~= spec_enc_byte(4) + (spec_enc_str(author) + (spec_enc_str(text)
                + empty)));
            lemma_rt_byte(4, spec_enc_str(author) + (spec_enc_str(text) + empty));
            lemma_rt_str(author, spec_enc_str(text) + empty);
            lemma_rt_str(text, empty);
        },
        ServerMessageV::PassAlongChallenge(id) => {
            assert(b =~= spec_enc_byte(5) + (spec_enc_id(id) + empty));
            lemma_rt_byte(5, spec_enc_id(id) + empty);
            lemma_rt_id(id, empty);
        },
        ServerMessageV::DisconnectClient(reason) => {
            assert(b =~= spec_enc_byte(6) + (spec_enc_reason(reason) + empty));
            lemma_rt_byte(6, spec_enc_reason(reason) + empty);
            lemma_rt_reason(reason, empty);
        },
    }
}

// ---------------------------------------------------------------------------
// Soundness: whatever a decoder accepts is the encoding of the value it
// returned, followed by the rest it handed back. Together with the
// round-trip laws, a payload fails to decode exactly when it is the
// encoding of no message.
// ---------------------------------------------------------------------------
proof fn lemma_sound_byte(b: Seq<u8>)
    ensures
        spec_dec_byte(b) matches Some((x, r)) ==> b == spec_enc_byte(x) + r,
{
    if b.len() >= 1 {
        assert(b =~= seq![b[0]] + b.skip(1));
    }
}

proof fn lemma_sound_u32(b: Seq<u8>)
    ensures
        spec_dec_u32(b) matches Some((x, r)) ==> b == spec_enc_u32(x) + r,
{
    if b.len() >= 4 {
        lemma_auto_spec_u32_to_from_le_bytes();
        assert(b =~= b.take(4) + b.skip(4));
    }
}

proof fn lemma_sound_u64(b: Seq<u8>)
    ensures
        spec_dec_u64(b) matches Some((x, r)) ==> b == spec_enc_u64(x) + r,
{
    if b.len() >= 8 {
        lemma_auto_spec_u64_to_from_le_bytes();
        assert(b =~= b.take(8) + b.skip(8));
    }
}

proof fn lemma_sound_bool(b: Seq<u8>)
    ensures
        spec_dec_bool(b) matches Some((v, r)) ==> b == spec_enc_bool(v) + r,
{
    lemma_sound_byte(b);
}

proof fn lemma_sound_pos(b: Seq<u8>)
    ensures
        spec_dec_pos(b) matches Some((p, r)) ==> b == spec_enc_pos(p) + r,
{
    match spec_dec_u32(b) {
        Some((ux, r1)) => {
            lemma_sound_u32(b);
            lemma_sound_u32(r1);
            match spec_dec_u32(r1) {
                Some((uy, r2)) => {
                    assert(spec_bias(spec_unbias(ux)) == ux);
                    assert(spec_bias(spec_unbias(uy)) == uy);
                    assert(spec_enc_u32(ux) + (spec_enc_u32(uy) + r2) =~= (spec_enc_u32(ux)
                        + spec_enc_u32(uy)) + r2);
                },
                None => {},
            }
        },
        None => {},
    }
}

proof fn lemma_sound_id(b: Seq<u8>)
    ensures
        spec_dec_id(b) matches Some((id, r)) ==> b == spec_enc_id(id) + r,
{
    lemma_sound_u64(b);
}

proof fn lemma_sound_char(b: Seq<u8>)
    ensures
        spec_dec_char(b) matches Some((c, r)) ==> b == spec_enc_char(c) + r,
{
    lemma_sound_u32(b);
}

proof fn lemma_sound_chars(n: nat, b: Seq<u8>)
    ensures
        spec_dec_chars(n, b) matches Some((s, r)) ==> s.len() == n && b == spec_enc_chars(s) + r,
    decreases n,
{
    if n == 0 {
        match spec_dec_chars(n, b) {
            Some((s, r)) => {
                assert(b =~= spec_enc_chars(s) + r);
            },
            None => {},
        }
    } else {
        lemma_sound_char(b);
        match spec_dec_char(b) {
            Some((c, r1)) => {
                lemma_sound_chars((n - 1) as nat, r1);
                match spec_dec_chars((n - 1) as nat, r1) {
                    Some((s2, r)) => {
                        let s = seq![c] + s2;
                        assert(s[0] == c);
                        assert(s.skip(1) =~= s2);
                        assert(spec_enc_chars(s) == spec_enc_char(c) + spec_enc_chars(s2));
                        assert(spec_enc_char(c) + (spec_enc_chars(s2) + r) =~= (spec_enc_char(c)
                            + spec_enc_chars(s2)) + r);
                    },
                    None => {},
                }
            },
            None => {},
        }
    }
}

proof fn lemma_sound_str(b: Seq<u8>)
    ensures
        spec_dec_str(b) matches Some((s, r)) ==> s.len() <= u64::MAX && b == spec_enc_str(s) + r,
{
    lemma_sound_u64(b);
    match spec_dec_u64(b) {
        Some((n, r1)) => {
            lemma_sound_chars(n as nat, r1);
            match spec_dec_chars(n as nat, r1) {
                Some((s, r)) => {
                    assert(s.len() as u64 == n);
                    assert(spec_enc_u64(n) + (spec_enc_chars(s) + r) =~= (spec_enc_u64(n)
                        + spec_enc_chars(s)) + r);
                },
                None => {},
            }
        },
        None => {},
    }
}

proof fn lemma_sound_info_req(b: Seq<u8>)
    ensures
        spec_dec_info_req(b) matches Some((kind, r)) ==> b == spec_enc_info_req(kind) + r,
{
    lemma_sound_byte(b);
}

proof fn lemma_sound_archetype(b: Seq<u8>)
    ensures
        spec_dec_archetype(b) matches Some((a, r)) ==> b == spec_enc_archetype(a) + r,
{
    lemma_sound_byte(b);
}

proof fn lemma_sound_reason(b: Seq<u8>)
    ensures
        spec_dec_reason(b) matches Some((reason, r)) ==> b == spec_enc_reason(reason) + r,
{
    lemma_sound_byte(b);
}

proof fn lemma_sound_info_send(b: Seq<u8>)
    ensures
        spec_dec_info_send(b) matches Some((info, r)) ==> b == spec_enc_info_send(info) + r
            && (info matches InfoSendTypeV::Identity(name) ==> name.len() <= u64::MAX),
{
    lemma_sound_byte(b);
    match spec_dec_byte(b) {
        Some((x, r1)) => {
            if x == 0 {
                lemma_sound_str(r1);
                match spec_dec_str(r1) {
                    Some((name, r)) => {
                        assert(spec_enc_byte(0) + (spec_enc_str(name) + r) =~= (spec_enc_byte(0)
                            + spec_enc_str(name)) + r);
                    },
                    None => {},
                }
            } else if x == 1 {
                lemma_sound_pos(r1);
                match spec_dec_pos(r1) {
                    Some((p, r)) => {
                        assert(spec_enc_byte(1) + (spec_enc_pos(p) + r) =~= (spec_enc_byte(1)
                            + spec_enc_pos(p)) + r);
                    },
                    None => {},
                }
            }
        },
        None => {},
    }
}

/// Soundness of client-message decoding: a payload the decoder accepts is
/// exactly the encoding of the message it returns. With the round-trip law
/// this means decoding fails precisely on payloads that encode no message.
pub proof fn lemma_client_msg_decode_sound(b: Seq<u8>)
    ensures
        spec_dec_client_msg(b) matches Some(m) ==> wf_client_msg(m) && b == spec_enc_client_msg(
            m,
        ),
{
    if spec_dec_client_msg(b) is Some {
        lemma_sound_byte(b);
        let (tag, r) = spec_dec_byte(b)->Some_0;
        if tag == 0 || tag == 3 {
            lemma_sound_str(r);
            let (s, r2) = spec_dec_str(r)->Some_0;
            assert(r2 =~= Seq::<u8>::empty());
            assert(spec_enc_str(s) + r2 =~= spec_enc_str(s));
        } else if tag == 1 || tag == 5 {
            lemma_sound_id(r);
            let (id, r2) = spec_dec_id(r)->Some_0;
            assert(r2 =~= Seq::<u8>::empty());
            assert(spec_enc_id(id) + r2 =~= spec_enc_id(id));
        } else if tag == 2 {
            lemma_sound_id(r);
            let (id, r2) = spec_dec_id(r)->Some_0;
            lemma_sound_info_req(r2);
            let (kind, r3) = spec_dec_info_req(r2)->Some_0;
            assert(r3 =~= Seq::<u8>::empty());
            assert(spec_enc_info_req(kind) + r3 =~= spec_enc_info_req(kind));
            assert(spec_enc_id(id) + spec_enc_info_req(kind) + Seq::<u8>::empty()
                =~= spec_enc_id(id) + spec_enc_info_req(kind));
            assert(b =~= spec_enc_byte(2) + spec_enc_id(id) + spec_enc_info_req(kind));
        } else if tag == 4 {
            lemma_sound_pos(r);
            let (p, r2) = spec_dec_pos(r)->Some_0;
            assert(r2 =~= Seq::<u8>::empty());
            assert(spec_enc_pos(p) + r2 =~= spec_enc_pos(p));
        } else if tag == 6 {
            lemma_sound_id(r);
            let (id, r2) = spec_dec_id(r)->Some_0;
            lemma_sound_bool(r2);
            let (accepted, r3) = spec_dec_bool(r2)->Some_0;
            assert(r3 =~= Seq::<u8>::empty());
            assert(spec_enc_bool(accepted) + r3 =~= spec_enc_bool(accepted));
            assert(b =~= spec_enc_byte(6) + spec_enc_id(id) + spec_enc_bool(accepted));
        } else if tag == 7 {
            assert(r =~= Seq::<u8>::empty());
            assert(b =~= spec_enc_byte(7));
        }
    }
}

/// Soundness of server-message decoding; see
/// [`lemma_client_msg_decode_sound`].
pub proof fn lemma_server_msg_decode_sound(b: Seq<u8>)
    ensures
        spec_dec_server_msg(b) matches Some(m) ==> wf_server_msg(m) && b == spec_enc_server_msg(
            m,
        ),
{
    if spec_dec_server_msg(b) is Some {
        lemma_sound_byte(b);
        let (tag, r) = spec_dec_byte(b)->Some_0;
        if tag == 0 {
            assert(r =~= Seq::<u8>::empty());
            assert(b =~= spec_enc_byte(0));
        } else if tag == 1 {
            lemma_sound_id(r);
            let (id, r2) = spec_dec_id(r)->Some_0;
            lemma_sound_archetype(r2);
            let (archetype, r3) = spec_dec_archetype(r2)->Some_0;
            lemma_sound_bool(r3);
            let (is_owned, r4) = spec_dec_bool(r3)->Some_0;
            assert(r4 =~= Seq::<u8>::empty());
            assert(spec_enc_bool(is_owned) + r4 =~= spec_enc_bool(is_owned));
            assert(b =~= spec_enc_byte(1) + spec_enc_id(id) + spec_enc_archetype(archetype)
                + spec_enc_bool(is_owned));
        } else if tag == 2 || tag == 5 {
            lemma_sound_id(r);
            let (id, r2) = spec_dec_id(r)->Some_0;
            assert(r2 =~= Seq::<u8>::empty());
            assert(spec_enc_id(id) + r2 =~= spec_enc_id(id));
        } else if tag == 3 {
            lemma_sound_id(r);
            let (id, r2) = spec_dec_id(r)->Some_0;
            lemma_sound_info_send(r2);
            let (info, r3) = spec_dec_info_send(r2)->Some_0;
            assert(r3 =~= Seq::<u8>::empty());
            assert(spec_enc_info_send(info) + r3 =~= spec_enc_info_send(info));
            assert(b =~= spec_enc_byte(3) + spec_enc_id(id) + spec_enc_info_send(info));
        } else if tag == 4 {
            lemma_sound_str(r);
            let (author, r2) = spec_dec_str(r)->Some_0;
            lemma_sound_str(r2);
            let (text, r3) = spec_dec_str(r2)->Some_0;
            assert(r3 =~= Seq::<u8>::empty());
            assert(spec_enc_str(text) + r3 =~= spec_enc_str(text));
            assert(b =~= spec_enc_byte(4) + spec_enc_str(author) + spec_enc_str(text));
        } else if tag == 6 {
            lemma_sound_reason(r);
            let (reason, r2) = spec_dec_reason(r)->Some_0;
            assert(r2 =~= Seq::<u8>::empty());
            assert(spec_enc_reason(reason) + r2 =~= spec_enc_reason(reason));
        }
    }
}

// ---------------------------------------------------------------------------
// Executable encoders.
// ---------------------------------------------------------------------------
fn push_byte(out: &mut Vec<u8>, x: u8)
    ensures
        final(out)@ == old(out)@ + spec_enc_byte(x),
{
    out.push(x);
    proof {
        assert_seqs_equal!(out@ == old(out)@ + spec_enc_byte(x));
    }
}

fn push_u32(out: &mut Vec<u8>, x: u32)
    ensures
        final(out)@ == old(out)@ + spec_enc_u32(x),
{
    let mut b = u32_to_le_bytes(x);
    out.append(&mut b);
}

fn push_u64(out: &mut Vec<u8>, x: u64)
    ensures
        final(out)@ == old(out)@ + spec_enc_u64(x),
{
    let mut b = u64_to_le_bytes(x);
    out.append(&mut b);
}

fn push_bool(out: &mut Vec<u8>, b: bool)
    ensures
        final(out)@ == old(out)@ + spec_enc_bool(b),
{
    push_byte(out, if b { 1 } else { 0 });
}

fn push_pos(out: &mut Vec<u8>, p: Position)
    ensures
        final(out)@ == old(out)@ + spec_enc_pos(p),
{
    let ux: u32 = ((p.x as i64) + 0x8000_0000i64) as u32;
    let uy: u32 = ((p.y as i64) + 0x8000_0000i64) as u32;
    push_u32(out, ux);
    push_u32(out, uy);
    proof {
        assert_seqs_equal!(out@ == old(out)@ + spec_enc_pos(p));
    }
}

fn push_id(out: &mut Vec<u8>, id: NetworkID)
    ensures
        final(out)@ == old(out)@ + spec_enc_id(id),
{
    push_u64(out, id.0 as u64);
}

proof fn lemma_enc_chars_push(t: Seq<char>, c: char)
    ensures
        spec_enc_chars(t.push(c)) == spec_enc_chars(t) + spec_enc_char(c),
    decreases t.len(),
{
    if t.len() == 0 {
        assert(t.push(c)[0] == c);
        assert(t.push(c).skip(1) =~= Seq::<char>::empty());
        assert(spec_enc_chars(t.push(c).skip(1)) == Seq::<u8>::empty());
        assert(spec_enc_chars(t.push(c)) == spec_enc_char(c) + Seq::<u8>::empty());
        assert(spec_enc_chars(t) == Seq::<u8>::empty());
        assert(spec_enc_char(c) + Seq::<u8>::empty() =~= Seq::<u8>::empty() + spec_enc_char(c));
    } else {
        lemma_enc_chars_push(t.skip(1), c);
        let head = spec_enc_char(t[0]);
        let middle = spec_enc_chars(t.skip(1));
        let tail = spec_enc_char(c);
        assert(t.push(c)[0] == t[0]);
        assert(t.push(c).skip(1) =~= t.skip(1).push(c));
        assert(spec_enc_chars(t.push(c)) == head + (middle + tail));
        assert(head + (middle + tail) =~= (head + middle) + tail);
        assert(spec_enc_chars(t) == head + middle);
    }
}

fn push_str(out: &mut Vec<u8>, s: &str)
    ensures
        final(out)@ == old(out)@ + spec_enc_str(s@),
{
    let n = s.unicode_len();
    push_u64(out, n as u64);
    let mut i: usize = 0;
    while i < n
        invariant
            n == s@.len(),
            i <= n,
            out@ == old(out)@ + spec_enc_u64(n as u64) + spec_enc_chars(s@.take(i as int)),
        decreases n - i,
    {
        let c = s.get_char(i);
        push_u32(out, c as u32);
        proof {
            assert(s@.take(i + 1 as int) =~= s@.take(i as int).push(s@[i as int]));
            lemma_enc_chars_push(s@.take(i as int), s@[i as int]);
            assert_seqs_equal!(
                out@ == old(out)@ + spec_enc_u64(n as u64)
                    + spec_enc_chars(s@.take(i + 1 as int))
            );
        }
        i += 1;
    }
    proof {
        assert(s@.take(n as int) =~= s@);
        assert_seqs_equal!(out@ == old(out)@ + spec_enc_str(s@));
    }
}

// ---------------------------------------------------------------------------
// Executable decoders. Each reads at a cursor into the payload and reports
// exactly what the specification decoder says about the bytes from there on.
// ---------------------------------------------------------------------------
/// Relies on `char::from_u32`: it returns `Some` exactly on Unicode scalar
/// values, and the character returned has the given code point.
pub assume_specification[ char::from_u32 ](u: u32) -> (r: Option<char>)
    ensures
        r == if spec_valid_char_code(u) {
            Some(u as char)
        } else {
            None::<char>
        },
;

/// Relies on `String`'s `FromIterator<char>` impl: collecting characters
/// yields the string of exactly those characters in order.
#[verifier::external_body]
fn chars_to_string(chars: &Vec<char>) -> (s: String)
    ensures
        s@ == chars@,
{
    chars.iter().collect()
}

proof fn lemma_skip_skip<T>(s: Seq<T>, a: int, c: int)
    requires
        0 <= a,
        0 <= c,
        a + c <= s.len(),
    ensures
        s.skip(a).skip(c) == s.skip(a + c),
{
    assert_seqs_equal!(s.skip(a).skip(c) == s.skip(a + c));
}

fn read_byte(b: &[u8], i: usize) -> (r: Result<(u8, usize), DecodeError>)
    requires
        i <= b@.len(),
    ensures
        match r {
            Ok((x, j)) => i <= j <= b@.len() && spec_dec_byte(b@.skip(i as int)) == Some(
                (x, b@.skip(j as int)),
            ),
            Err(_) => spec_dec_byte(b@.skip(i as int)) is None,
        },
{
    if i < b.len() {
        let x = *vstd::slice::slice_index_get(b, i);
        proof {
            lemma_skip_skip(b@, i as int, 1);
        }
        Ok((x, i + 1))
    } else {
        Err(DecodeError)
    }
}

fn read_u32(b: &[u8], i: usize) -> (r: Result<(u32, usize), DecodeError>)
    requires
        i <= b@.len(),
    ensures
        match r {
            Ok((x, j)) => i <= j <= b@.len() && spec_dec_u32(b@.skip(i as int)) == Some(
                (x, b@.skip(j as int)),
            ),
            Err(_) => spec_dec_u32(b@.skip(i as int)) is None,
        },
{
    if b.len() - i >= 4 {
        let chunk = slice_subrange(b, i, i + 4);
        let x = u32_from_le_bytes(chunk);
        proof {
            assert_seqs_equal!(chunk@ == b@.skip(i as int).take(4));
            lemma_skip_skip(b@, i as int, 4);
        }
        Ok((x, i + 4))
    } else {
        Err(DecodeError)
    }
}

fn read_u64(b: &[u8], i: usize) -> (r: Result<(u64, usize), DecodeError>)
    requires
        i <= b@.len(),
    ensures
        match r {
            Ok((x, j)) => i <= j <= b@.len() && spec_dec_u64(b@.skip(i as int)) == Some(
                (x, b@.skip(j as int)),
            ),
            Err(_) => spec_dec_u64(b@.skip(i as int)) is None,
        },
{
    if b.len() - i >= 8 {
        let chunk = slice_subrange(b, i, i + 8);
        let x = u64_from_le_bytes(chunk);
        proof {
            assert_seqs_equal!(chunk@ == b@.skip(i as int).take(8));
            lemma_skip_skip(b@, i as int, 8);
        }
        Ok((x, i + 8))
    } else {
        Err(DecodeError)
    }
}

fn read_bool(b: &[u8], i: usize) -> (r: Result<(bool, usize), DecodeError>)
    requires
        i <= b@.len(),
    ensures
        match r {
            Ok((x, j)) => i <= j <= b@.len() && spec_dec_bool(b@.skip(i as int)) == Some(
                (x, b@.skip(j as int)),
            ),
            Err(_) => spec_dec_bool(b@.skip(i as int)) is None,
        },
{
    match read_byte(b, i) {
        Ok((x, j)) => {
            if x == 0 {
                Ok((false, j))
            } else if x == 1 {
                Ok((true, j))
            } else {
                Err(DecodeError)
            }
        },
        Err(e) => Err(e),
    }
}

fn read_pos(b: &[u8], i: usize) -> (r: Result<(Position, usize), DecodeError>)
    requires
        i <= b@.len(),
    ensures
        match r {
            Ok((p, j)) => i <= j <= b@.len() && spec_dec_pos(b@.skip(i as int)) == Some(
                (p, b@.skip(j as int)),
            ),
            Err(_) => spec_dec_pos(b@.skip(i as int)) is None,
        },
{
    match read_u32(b, i) {
        Ok((ux, j)) => match read_u32(b, j) {
            Ok((uy, j2)) => {
                let x: i32 = ((ux as i64) - 0x8000_0000i64) as i32;
                let y: i32 = ((uy as i64) - 0x8000_0000i64) as i32;
                Ok((Position { x, y }, j2))
            },
            Err(e) => Err(e),
        },
        Err(e) => Err(e),
    }
}

fn read_id(b: &[u8], i: usize) -> (r: Result<(NetworkID, usize), DecodeError>)
    requires
        i <= b@.len(),
    ensures
        match r {
            Ok((id, j)) => i <= j <= b@.len() && spec_dec_id(b@.skip(i as int)) == Some(
                (id, b@.skip(j as int)),
            ),
            Err(_) => spec_dec_id(b@.skip(i as int)) is None,
        },
{
    match read_u64(b, i) {
        Ok((x, j)) => {
            if x <= usize::MAX as u64 {
                Ok((NetworkID(x as usize), j))
            } else {
                Err(DecodeError)
            }
        },
        Err(e) => Err(e),
    }
}

fn read_char(b: &[u8], i: usize) -> (r: Result<(char, usize), DecodeError>)
    requires
        i <= b@.len(),
    ensures
        match r {
            Ok((c, j)) => i <= j <= b@.len() && spec_dec_char(b@.skip(i as int)) == Some(
                (c, b@.skip(j as int)),
            ),
            Err(_) => spec_dec_char(b@.skip(i as int)) is None,
        },
{
    match read_u32(b, i) {
        Ok((u, j)) => match char::from_u32(u) {
            Some(c) => Ok((c, j)),
            None => Err(DecodeError),
        },
        Err(e) => Err(e),
    }
}

fn read_string(b: &[u8], i: usize) -> (r: Result<(String, usize), DecodeError>)
    requires
        i <= b@.len(),
    ensures
        match r {
            Ok((s, j)) => i <= j <= b@.len() && spec_dec_str(b@.skip(i as int)) == Some(
                (s@, b@.skip(j as int)),
            ),
            Err(_) => spec_dec_str(b@.skip(i as int)) is None,
        },
{
    let ghost start = i as int;
    match read_u64(b, i) {
        Ok((n, mut j)) => {
            let ghost count = n as nat;
            let ghost rest0 = b@.skip(j as int);
            proof {
                assert(spec_dec_str(b@.skip(start)) == spec_dec_chars(count, rest0));
            }
            let mut acc: Vec<char> = Vec::new();
            let mut k: u64 = 0;
            proof {
                match spec_dec_chars(count, rest0) {
                    Some((s2, r2)) => {
                        assert(Seq::<char>::empty() + s2 =~= s2);
                    },
                    None => {},
                }
            }
            while k < n
                invariant
                    k <= n,
                    i <= j <= b@.len(),
                    start == i as int,
                    count == n as nat,
                    spec_dec_str(b@.skip(start)) == spec_dec_chars(count, rest0),
                    match spec_dec_chars((n - k) as nat, b@.skip(j as int)) {
                        Some((s2, r2)) => spec_dec_chars(count, rest0) == Some((acc@ + s2, r2)),
                        None => spec_dec_chars(count, rest0) is None,
                    },
                decreases n - k,
            {
                match read_char(b, j) {
                    Ok((c, j2)) => {
                        proof {
                            let tail = spec_dec_chars((n - k - 1) as nat, b@.skip(j2 as int));
                            match tail {
                                Some((s2, r2)) => {
                                    assert(acc@ + (seq![c] + s2) =~= acc@.push(c) + s2);
                                },
                                None => {},
                            }
                        }
                        acc.push(c);
                        j = j2;
                        k = k + 1;
                    },
                    Err(e) => {
                        proof {
                            assert(spec_dec_chars((n - k) as nat, b@.skip(j as int)) is None);
                        }
                        return Err(e);
                    },
                }
            }
            proof {
                assert(spec_dec_chars(0, b@.skip(j as int)) == Some(
                    (Seq::<char>::empty(), b@.skip(j as int)),
                ));
                assert(acc@ + Seq::<char>::empty() =~= acc@);
            }
            let s = chars_to_string(&acc);
            Ok((s, j))
        },
        Err(e) => Err(e),
    }
}

fn read_info_req(b: &[u8], i: usize) -> (r: Result<(InfoRequestType, usize), DecodeError>)
    requires
        i <= b@.len(),
    ensures
        match r {
            Ok((kind, j)) => i <= j <= b@.len() && spec_dec_info_req(b@.skip(i as int)) == Some(
                (kind, b@.skip(j as int)),
            ),
            Err(_) => spec_dec_info_req(b@.skip(i as int)) is None,
        },
{
    match read_byte(b, i) {
        Ok((x, j)) => {
            if x == 0 {
                Ok((InfoRequestType::Identity, j))
            } else {
                Err(DecodeError)
            }
        },
        Err(e) => Err(e),
    }
}

fn read_archetype(b: &[u8], i: usize) -> (r: Result<(GameArchetype, usize), DecodeError>)
    requires
        i <= b@.len(),
    ensures
        match r {
            Ok((a, j)) => i <= j <= b@.len() && spec_dec_archetype(b@.skip(i as int)) == Some(
                (a, b@.skip(j as int)),
            ),
            Err(_) => spec_dec_archetype(b@.skip(i as int)) is None,
        },
{
    match read_byte(b, i) {
        Ok((x, j)) => {
            if x == 0 {
                Ok((GameArchetype::Player, j))
            } else {
                Err(DecodeError)
            }
        },
        Err(e) => Err(e),
    }
}

fn read_reason(b: &[u8], i: usize) -> (r: Result<(DisconnectReason, usize), DecodeError>)
    requires
        i <= b@.len(),
    ensures
        match r {
            Ok((reason, j)) => i <= j <= b@.len() && spec_dec_reason(b@.skip(i as int)) == Some(
                (reason, b@.skip(j as int)),
            ),
            Err(_) => spec_dec_reason(b@.skip(i as int)) is None,
        },
{
    match read_byte(b, i) {
        Ok((x, j)) => {
            if x == 0 {
                Ok((DisconnectReason::InvalidUsername, j))
            } else {
                Err(DecodeError)
            }
        },
        Err(e) => Err(e),
    }
}

fn read_info_send(b: &[u8], i: usize) -> (r: Result<(InfoSendType, usize), DecodeError>)
    requires
        i <= b@.len(),
    ensures
        match r {
            Ok((info, j)) => i <= j <= b@.len() && spec_dec_info_send(b@.skip(i as int)) == Some(
                (info@, b@.skip(j as int)),
            ),
            Err(_) => spec_dec_info_send(b@.skip(i as int)) is None,
        },
{
    match read_byte(b, i) {
        Ok((x, j)) => {
            if x == 0 {
                match read_string(b, j) {
                    Ok((name, j2)) => Ok((InfoSendType::Identity(name), j2)),
                    Err(e) => Err(e),
                }
            } else if x == 1 {
                match read_pos(b, j) {
                    Ok((p, j2)) => Ok((InfoSendType::Position(p), j2)),
                    Err(e) => Err(e),
                }
            } else {
                Err(DecodeError)
            }
        },
        Err(e) => Err(e),
    }
}

impl ClientMessage {
    /// Encodes this message for the wire; the result is exactly
    /// [`spec_enc_client_msg`] of the message's value.
    pub fn to_payload(&self) -> (r: Vec<u8>)
        ensures
            r@ == spec_enc_client_msg(self@),
    {
        let mut out: Vec<u8> = Vec::new();
        match self {
            ClientMessage::Connect(name) => {
                push_byte(&mut out, 0);
                push_str(&mut out, name.as_str());
            },
            ClientMessage::RequestArchetype(id) => {
                push_byte(&mut out, 1);
                push_id(&mut out, *id);
            },
            ClientMessage::RequestEntityInfo(id, kind) => {
                push_byte(&mut out, 2);
                push_id(&mut out, *id);
                match kind {
                    InfoRequestType::Identity => push_byte(&mut out, 0),
                }
            },
            ClientMessage::SendMessage(text) => {
                push_byte(&mut out, 3);
                push_str(&mut out, text.as_str());
            },
            ClientMessage::MoveTo(p) => {
                push_byte(&mut out, 4);
                push_pos(&mut out, *p);
            },
            ClientMessage::IssueChallenge(id) => {
                push_byte(&mut out, 5);
                push_id(&mut out, *id);
            },
            ClientMessage::RespondToChallenge(id, accepted) => {
                push_byte(&mut out, 6);
                push_id(&mut out, *id);
                push_bool(&mut out, *accepted);
            },
            ClientMessage::Disconnect => {
                push_byte(&mut out, 7);
            },
        }
        proof {
            assert_seqs_equal!(out@ == spec_enc_client_msg(self@));
        }
        out
    }

    /// Decodes a whole payload; succeeds exactly when the bytes are what
    /// [`spec_dec_client_msg`] accepts, and yields that message.
    pub fn from_payload(bytes: &[u8]) -> (r: Result<ClientMessage, DecodeError>)
        ensures
            match r {
                Ok(m) => spec_dec_client_msg(bytes@) == Some(m@),
                Err(_) => spec_dec_client_msg(bytes@) is None,
            },
    {
        proof {
            assert(bytes@.skip(0) =~= bytes@);
        }
        match read_byte(bytes, 0) {
            Err(e) => Err(e),
            Ok((tag, i)) => {
                if tag == 0 {
                    match read_string(bytes, i) {
                        Ok((name, j)) => {
                            if j == bytes.len() {
                                Ok(ClientMessage::Connect(name))
                            } else {
                                Err(DecodeError)
                            }
                        },
                        Err(e) => Err(e),
                    }
                } else if tag == 1 {
                    match read_id(bytes, i) {
                        Ok((id, j)) => {
                            if j == bytes.len() {
                                Ok(ClientMessage::RequestArchetype(id))
                            } else {
                                Err(DecodeError)
                            }
                        },
                        Err(e) => Err(e),
                    }
                } else if tag == 2 {
                    match read_id(bytes, i) {
                        Ok((id, j)) => match read_info_req(bytes, j) {
                            Ok((kind, j2)) => {
                                if j2 == bytes.len() {
                                    Ok(ClientMessage::RequestEntityInfo(id, kind))
                                } else {
                                    Err(DecodeError)
                                }
                            },
                            Err(e) => Err(e),
                        },
                        Err(e) => Err(e),
                    }
                } else if tag == 3 {
                    match read_string(bytes, i) {
                        Ok((text, j)) => {
                            if j == bytes.len() {
                                Ok(ClientMessage::SendMessage(text))
                            } else {
                                Err(DecodeError)
                            }
                        },
                        Err(e) => Err(e),
                    }
                } else if tag == 4 {
                    match read_pos(bytes, i) {
                        Ok((p, j)) => {
                            if j == bytes.len() {
                                Ok(ClientMessage::MoveTo(p))
                            } else {
                                Err(DecodeError)
                            }
                        },
                        Err(e) => Err(e),
                    }
                } else if tag == 5 {
                    match read_id(bytes, i) {
                        Ok((id, j)) => {
                            if j == bytes.len() {
                                Ok(ClientMessage::IssueChallenge(id))
                            } else {
                                Err(DecodeError)
                            }
                        },
                        Err(e) => Err(e),
                    }
                } else if tag == 6 {
                    match read_id(bytes, i) {
                        Ok((id, j)) => match read_bool(bytes, j) {
                            Ok((accepted, j2)) => {
                                if j2 == bytes.len() {
                                    Ok(ClientMessage::RespondToChallenge(id, accepted))
                                } else {
                                    Err(DecodeError)
                                }
                            },
                            Err(e) => Err(e),
                        },
                        Err(e) => Err(e),
                    }
                } else if tag == 7 {
                    if i == bytes.len() {
                        Ok(ClientMessage::Disconnect)
                    } else {
                        Err(DecodeError)
                    }
                } else {
                    Err(DecodeError)
                }
            },
        }
    }
}

impl ServerMessage {
    /// Encodes this message for the wire; the result is exactly
    /// [`spec_enc_server_msg`] of the message's value.
    pub fn to_payload(&self) -> (r: Vec<u8>)
        ensures
            r@ == spec_enc_server_msg(self@),
    {
        let mut out: Vec<u8> = Vec::new();
        match self {
            ServerMessage::ConnectionAccepted => {
                push_byte(&mut out, 0);
            },
            ServerMessage::SpawnNetworkedEntity(id, archetype, is_owned) => {
                push_byte(&mut out, 1);
                push_id(&mut out, *id);
                match archetype {
                    GameArchetype::Player => push_byte(&mut out, 0),
                }
                push_bool(&mut out, *is_owned);
            },
            ServerMessage::DespawnNetworkedEntity(id) => {
                push_byte(&mut out, 2);
                push_id(&mut out, *id);
            },
            ServerMessage::SendNetworkedEntityInfo(id, info) => {
                push_byte(&mut out, 3);
                push_id(&mut out, *id);
                match info {
                    InfoSendType::Identity(name) => {
                        push_byte(&mut out, 0);
                        push_str(&mut out, name.as_str());
                    },
                    InfoSendType::Position(p) => {
                        push_byte(&mut out, 1);
                        push_pos(&mut out, *p);
                    },
                }
            },
            ServerMessage::SendMessage(author, text) => {
                push_byte(&mut out, 4);
                push_str(&mut out, author.as_str());
                push_str(&mut out, text.as_str());
            },
            ServerMessage::PassAlongChallenge(id) => {
                push_byte(&mut out, 5);
                push_id(&mut out, *id);
            },
            ServerMessage::DisconnectClient(reason) => {
                push_byte(&mut out, 6);
                match reason {
                    DisconnectReason::InvalidUsername => push_byte(&mut out, 0),
                }
            },
        }
        proof {
            assert_seqs_equal!(out@ == spec_enc_server_msg(self@));
        }
        out
    }

    /// Decodes a whole payload; succeeds exactly when the bytes are what
    /// [`spec_dec_server_msg`] accepts, and yields that message.
    pub fn from_payload(bytes: &[u8]) -> (r: Result<ServerMessage, DecodeError>)
        ensures
            match r {
                Ok(m) => spec_dec_server_msg(bytes@) == Some(m@),
                Err(_) => spec_dec_server_msg(bytes@) is None,
            },
    {
        proof {
            assert(bytes@.skip(0) =~= bytes@);
        }
        match read_byte(bytes, 0) {
            Err(e) => Err(e),
            Ok((tag, i)) => {
                if tag == 0 {
                    if i == bytes.len() {
                        Ok(ServerMessage::ConnectionAccepted)
                    } else {
                        Err(DecodeError)
                    }
                } else if tag == 1 {
                    match read_id(bytes, i) {
                        Ok((id, j)) => match read_archetype(bytes, j) {
                            Ok((archetype, j2)) => match read_bool(bytes, j2) {
                                Ok((is_owned, j3)) => {
                                    if j3 == bytes.len() {
                                        Ok(
                                            ServerMessage::SpawnNetworkedEntity(
                                                id,
                                                archetype,
                                                is_owned,
                                            ),
                                        )
                                    } else {
                                        Err(DecodeError)
                                    }
                                },
                                Err(e) => Err(e),
                            },
                            Err(e) => Err(e),
                        },
                        Err(e) => Err(e),
                    }
                } else if tag == 2 {
                    match read_id(bytes, i) {
                        Ok((id, j)) => {
                            if j == bytes.len() {
                                Ok(ServerMessage::DespawnNetworkedEntity(id))
                            } else {
                                Err(DecodeError)
                            }
                        },
                        Err(e) => Err(e),
                    }
                } else if tag == 3 {
                    match read_id(bytes, i) {
                        Ok((id, j)) => match read_info_send(bytes, j) {
                            Ok((info, j2)) => {
                                if j2 == bytes.len() {
                                    Ok(ServerMessage::SendNetworkedEntityInfo(id, info))
                                } else {
                                    Err(DecodeError)
                                }
                            },
                            Err(e) => Err(e),
                        },
                        Err(e) => Err(e),
                    }
                } else if tag == 4 {
                    match read_string(bytes, i) {
                        Ok((author, j)) => match read_string(bytes, j) {
                            Ok((text, j2)) => {
                                if j2 == bytes.len() {
                                    Ok(ServerMessage::SendMessage(author, text))
                                } else {
                                    Err(DecodeError)
                                }
                            },
                            Err(e) => Err(e),
                        },
                        Err(e) => Err(e),
                    }
                } else if tag == 5 {
                    match read_id(bytes, i) {
                        Ok((id, j)) => {
                            if j == bytes.len() {
                                Ok(ServerMessage::PassAlongChallenge(id))
                            } else {
                                Err(DecodeError)
                            }
                        },
                        Err(e) => Err(e),
                    }
                } else if tag == 6 {
                    match read_reason(bytes, i) {
                        Ok((reason, j)) => {
                            if j == bytes.len() {
                                Ok(ServerMessage::DisconnectClient(reason))
                            } else {
                                Err(DecodeError)
                            }
                        },
                        Err(e) => Err(e),
                    }
                } else {
                    Err(DecodeError)
                }
            },
        }
    }
}

} // verus!
