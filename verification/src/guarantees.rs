//! What holds of the protocol as a whole, stated over the models that the
//! functions' contracts use.

use crate::chat_server::{
    decoded, dispatch_peers, dispatch_replies, intact, step_notice, step_peers, step_replies,
    FrameView, Notice,
};
use crate::client_handler::{bare_reply, Addr, Client, ReplyView};
use crate::msg_types::{lemma_type_code_round_trip, DecodeError, Type};
use crate::registry::{
    addresses, has_addr, lemma_deregistered, lemma_register_then_deregister, lemma_registered,
    unique_addrs,
};
use crate::server_utils::{
    checksum_of, encoded, frame_bytes, packed, HEADER_LEN, MAX_DATAGRAM, MAX_PAYLOAD,
};
use vstd::bytes::{lemma_auto_spec_u64_to_from_le_bytes, spec_u64_to_le_bytes};
use vstd::prelude::*;

verus! {

/// The checksum depends on the payload's bytes alone: payloads that agree
/// byte for byte have the same checksum and the same frame.
pub proof fn lemma_checksum_deterministic(message_type: Type, p: Seq<u8>, q: Seq<u8>)
    requires
        p.len() == q.len(),
        forall|i: int| 0 <= i < p.len() ==> p[i] == q[i],
    ensures
        checksum_of(p) == checksum_of(q),
        encoded(message_type, p) == encoded(message_type, q),
{
    assert(p =~= q);
}

/// A frame laid out around any checksum decodes to its type, that checksum
/// and its payload.
pub proof fn lemma_frame_round_trip(message_type: Type, checksum: u64, payload: Seq<u8>)
    ensures
        decoded(frame_bytes(message_type, checksum, payload)) == Ok::<FrameView, DecodeError>(
            FrameView { message_type, checksum, payload },
        ),
        frame_bytes(message_type, checksum, payload).len() == HEADER_LEN + payload.len(),
{
    lemma_auto_spec_u64_to_from_le_bytes();
    lemma_type_code_round_trip(message_type, 0);
    let bytes = frame_bytes(message_type, checksum, payload);
    let sum = spec_u64_to_le_bytes(checksum);
    assert(sum.len() == 8);
    assert(bytes.len() == 9 + payload.len());
    assert(bytes[0] == message_type.code());
    assert(bytes.subrange(1, 9) =~= sum);
    assert(bytes.subrange(9, bytes.len() as int) =~= payload);
}

/// Encoding and then decoding gives back the type and the payload, with a
/// checksum that verifies.
pub proof fn lemma_encode_decode_round_trip(message_type: Type, payload: Seq<u8>)
    ensures
        decoded(encoded(message_type, payload)) == Ok::<FrameView, DecodeError>(
            FrameView { message_type, checksum: checksum_of(payload), payload },
        ),
        intact(decoded(encoded(message_type, payload)).unwrap()),
{
    lemma_frame_round_trip(message_type, checksum_of(payload), payload);
}

/// A datagram of fewer than nine bytes gets no reply and leaves the
/// registry as it is.
pub proof fn lemma_short_datagram_ignored(peers: Seq<Client>, datagram: Seq<u8>, sender: Addr)
    requires
        datagram.len() < 9,
    ensures
        step_replies(peers, datagram, sender) == Seq::<ReplyView>::empty(),
        step_peers(peers, datagram, sender) == peers,
        step_notice(peers, datagram, sender) == Notice::Nothing,
{
}

/// A datagram whose first byte names no message type gets no reply and
/// leaves the registry as it is.
pub proof fn lemma_unknown_type_ignored(peers: Seq<Client>, datagram: Seq<u8>, sender: Addr)
    requires
        datagram.len() >= 9,
        datagram[0] > 10,
    ensures
        step_replies(peers, datagram, sender) == Seq::<ReplyView>::empty(),
        step_peers(peers, datagram, sender) == peers,
{
}

/// A frame whose checksum is not that of its payload is answered with
/// `SendFailed`, and the registry stays as it is.
pub proof fn lemma_bad_checksum_rejected(
    peers: Seq<Client>,
    message_type: Type,
    checksum: u64,
    payload: Seq<u8>,
    sender: Addr,
)
    requires
        checksum != checksum_of(payload),
    ensures
        step_replies(peers, frame_bytes(message_type, checksum, payload), sender)
            == seq![bare_reply(Type::SendFailed, sender)],
        step_peers(peers, frame_bytes(message_type, checksum, payload), sender) == peers,
{
    lemma_frame_round_trip(message_type, checksum, payload);
}

/// A well-formed frame does to the registry what the dispatcher says, and
/// is answered as the dispatcher says.
pub proof fn lemma_step_of_encoded(
    peers: Seq<Client>,
    message_type: Type,
    payload: Seq<u8>,
    sender: Addr,
)
    ensures
        step_peers(peers, encoded(message_type, payload), sender) == dispatch_peers(
            peers,
            message_type,
            sender,
        ),
        step_replies(peers, encoded(message_type, payload), sender) == dispatch_replies(
            peers,
            message_type,
            payload,
            sender,
        ),
{
    lemma_encode_decode_round_trip(message_type, payload);
}

/// No datagram makes the registry hold an address twice.
pub proof fn lemma_step_keeps_unique(peers: Seq<Client>, datagram: Seq<u8>, sender: Addr)
    requires
        unique_addrs(peers),
    ensures
        unique_addrs(step_peers(peers, datagram, sender)),
{
    lemma_registered(peers, sender);
    lemma_deregistered(peers, sender);
}

/// A connect from an address that is not registered, followed by a
/// disconnect from the same address, leaves the registry as it was; so an
/// empty registry is empty again.
pub proof fn lemma_connect_then_disconnect(
    peers: Seq<Client>,
    sender: Addr,
    first: Seq<u8>,
    second: Seq<u8>,
)
    requires
        !has_addr(peers, sender),
    ensures
        step_peers(
            step_peers(peers, encoded(Type::Connect, first), sender),
            encoded(Type::Disconnect, second),
            sender,
        ) == peers,
        step_peers(
            step_peers(Seq::<Client>::empty(), encoded(Type::Connect, first), sender),
            encoded(Type::Disconnect, second),
            sender,
        ) == Seq::<Client>::empty(),
{
    let nobody = Seq::<Client>::empty();
    lemma_step_of_encoded(peers, Type::Connect, first, sender);
    lemma_step_of_encoded(nobody, Type::Connect, first, sender);
    let joined = dispatch_peers(peers, Type::Connect, sender);
    let alone = dispatch_peers(nobody, Type::Connect, sender);
    lemma_step_of_encoded(joined, Type::Disconnect, second, sender);
    lemma_step_of_encoded(alone, Type::Disconnect, second, sender);
    lemma_register_then_deregister(peers, sender);
    lemma_register_then_deregister(nobody, sender);
}

/// After a disconnect from an address, that address is not registered,
/// whatever went before.
pub proof fn lemma_disconnect_removes(peers: Seq<Client>, sender: Addr, payload: Seq<u8>)
    requires
        unique_addrs(peers),
    ensures
        !has_addr(step_peers(peers, encoded(Type::Disconnect, payload), sender), sender),
{
    lemma_step_of_encoded(peers, Type::Disconnect, payload, sender);
    lemma_deregistered(peers, sender);
}

/// After a connect from an address, that address is registered.
pub proof fn lemma_connect_registers(peers: Seq<Client>, sender: Addr, payload: Seq<u8>)
    requires
        unique_addrs(peers),
    ensures
        has_addr(step_peers(peers, encoded(Type::Connect, payload), sender), sender),
        step_replies(peers, encoded(Type::Connect, payload), sender)
            == seq![bare_reply(Type::ConnectSuccess, sender)],
{
    lemma_step_of_encoded(peers, Type::Connect, payload, sender);
    lemma_registered(peers, sender);
    assert(addresses(step_peers(peers, encoded(Type::Connect, payload), sender)).contains(sender));
}

/// A broadcast from a registered sender goes to every registered address
/// once for each entry, the sender's own among them, with the payload as it
/// came, and the registry stays as it is.
pub proof fn lemma_broadcast_reaches_all(peers: Seq<Client>, sender: Addr, payload: Seq<u8>)
    requires
        has_addr(peers, sender),
    ensures
        step_peers(peers, encoded(Type::Broadcast, payload), sender) == peers,
        step_replies(peers, encoded(Type::Broadcast, payload), sender).len() == peers.len(),
        forall|i: int|
            0 <= i < peers.len() ==> #[trigger] step_replies(
                peers,
                encoded(Type::Broadcast, payload),
                sender,
            )[i] == (ReplyView { payload, msg_type: Type::Broadcast, dest: peers[i].addr }),
        forall|a: Addr|
            has_addr(peers, a) ==> step_replies(
                peers,
                encoded(Type::Broadcast, payload),
                sender,
            ).contains(ReplyView { payload, msg_type: Type::Broadcast, dest: a }),
{
    lemma_step_of_encoded(peers, Type::Broadcast, payload, sender);
    let replies = step_replies(peers, encoded(Type::Broadcast, payload), sender);
    assert forall|a: Addr| has_addr(peers, a) implies replies.contains(
        ReplyView { payload, msg_type: Type::Broadcast, dest: a },
    ) by {
        let i = choose|i: int| 0 <= i < peers.len() && (#[trigger] peers[i]).addr == a;
        assert(replies[i] == (ReplyView { payload, msg_type: Type::Broadcast, dest: a }));
    }
}

/// A disconnect from an address that is not registered is answered with
/// `SendFailed`, and the registry stays as it is.
pub proof fn lemma_disconnect_unregistered(peers: Seq<Client>, sender: Addr, payload: Seq<u8>)
    requires
        !has_addr(peers, sender),
    ensures
        step_replies(peers, encoded(Type::Disconnect, payload), sender)
            == seq![bare_reply(Type::SendFailed, sender)],
        step_peers(peers, encoded(Type::Disconnect, payload), sender) == peers,
{
    lemma_step_of_encoded(peers, Type::Disconnect, payload, sender);
}

/// Every reply to a datagram that fits the transport fits it too: none is
/// refused as too long.
pub proof fn lemma_replies_fit(peers: Seq<Client>, datagram: Seq<u8>, sender: Addr)
    requires
        datagram.len() <= MAX_DATAGRAM,
    ensures
        forall|i: int|
            0 <= i < step_replies(peers, datagram, sender).len() ==> (#[trigger] step_replies(
                peers,
                datagram,
                sender,
            )[i]).payload.len() <= MAX_PAYLOAD && packed(
                step_replies(peers, datagram, sender)[i],
            ).is_ok(),
{
}

/// A frame of a type that is bound for clients, or reserved, gets no reply
/// and leaves the registry as it is.
pub proof fn lemma_client_bound_ignored(
    peers: Seq<Client>,
    message_type: Type,
    payload: Seq<u8>,
    sender: Addr,
)
    requires
        !message_type.is_request(),
    ensures
        step_replies(peers, encoded(message_type, payload), sender) == Seq::<ReplyView>::empty(),
        step_peers(peers, encoded(message_type, payload), sender) == peers,
{
    lemma_step_of_encoded(peers, message_type, payload, sender);
}

} // verus!
