//! The server's side of the protocol: reading a frame, checking it, and
//! deciding what a datagram does to the registry and who is answered.

use crate::client_handler::{
    bare_reply, fan_out, peer_replies, replies_view, reply_to, send_to_all, u8_to_str, Addr,
    Client, Reply, ReplyView,
};
use crate::msg_types::{DecodeError, Type};
use crate::registry::{deregistered, has_addr, registered, unique_addrs, Registry};
use crate::server_utils::{checksum_of, create_checksum, HEADER_LEN};
use vstd::bytes::{spec_u64_from_le_bytes, u64_from_le_bytes};
use vstd::prelude::*;
use vstd::slice::{slice_subrange, slice_to_vec};
use vstd::string::StringSliceAdditionalSpecFns;
use vstd::utf8::valid_utf8;

verus! {

/// A frame as it came off the wire. Its checksum is what the sender wrote,
/// not yet held against the payload.
#[derive(Debug, Clone)]
pub struct Frame {
    pub message_type: Type,
    pub checksum: u64,
    pub payload: Vec<u8>,
}

/// A frame as a mathematical value.
pub struct FrameView {
    pub message_type: Type,
    pub checksum: u64,
    pub payload: Seq<u8>,
}

impl View for Frame {
    type V = FrameView;

    open spec fn view(&self) -> FrameView {
        FrameView {
            message_type: self.message_type,
            checksum: self.checksum,
            payload: self.payload@,
        }
    }
}

/// The checksum that a datagram of more than eight bytes carries.
pub open spec fn checksum_field(bytes: Seq<u8>) -> u64 {
    spec_u64_from_le_bytes(bytes.subrange(1, 9))
}

/// The payload of a datagram of more than eight bytes.
pub open spec fn payload_of(bytes: Seq<u8>) -> Seq<u8> {
    bytes.subrange(9, bytes.len() as int)
}

/// What a datagram decodes to. At most eight bytes are too short; then the
/// first byte has to name a type; all that follows the header is payload.
pub open spec fn decoded(bytes: Seq<u8>) -> Result<FrameView, DecodeError> {
    if bytes.len() < HEADER_LEN {
        Err(DecodeError::TooShort)
    } else {
        match Type::of_code(bytes[0]) {
            Some(message_type) => Ok(
                FrameView {
                    message_type,
                    checksum: checksum_field(bytes),
                    payload: payload_of(bytes),
                },
            ),
            None => Err(DecodeError::UnknownType),
        }
    }
}

/// The payload of a frame has the checksum that the frame carries.
pub open spec fn intact(frame: FrameView) -> bool {
    frame.checksum == checksum_of(frame.payload)
}

/// Splits a datagram into message type and payload, without a look at the
/// checksum.
pub fn deconstruct_msg(msg: &[u8]) -> (r: Result<(Type, &[u8]), DecodeError>)
    ensures
        r.is_ok() <==> msg@.len() >= HEADER_LEN && msg@[0] <= 10,
        r.is_err() ==> (r.unwrap_err() == DecodeError::TooShort <==> msg@.len() < HEADER_LEN),
        r.is_err() ==> (r.unwrap_err() == DecodeError::UnknownType <==> msg@.len() >= HEADER_LEN),
        r.is_ok() ==> r.unwrap().0 == decoded(msg@).unwrap().message_type && r.unwrap().1@
            == payload_of(msg@),
        r.is_err() ==> decoded(msg@) == Err::<FrameView, DecodeError>(r.unwrap_err()),
{
    if msg.len() < HEADER_LEN {
        return Err(DecodeError::TooShort);
    }
    match Type::from_u8(msg[0]) {
        Ok(msg_type) => Ok((msg_type, slice_subrange(msg, HEADER_LEN, msg.len()))),
        Err(e) => Err(e),
    }
}

/// Splits a datagram into message type and payload, the payload as text.
/// A payload that is not UTF-8 is refused as `InvalidText`.
pub fn deconstruct_msg_str(msg: &[u8]) -> (r: Result<(Type, &str), DecodeError>)
    ensures
        r.is_ok() <==> msg@.len() >= HEADER_LEN && msg@[0] <= 10 && valid_utf8(payload_of(msg@)),
        r.is_ok() ==> r.unwrap().0 == decoded(msg@).unwrap().message_type
            && r.unwrap().1.spec_bytes() == payload_of(msg@),
        r.is_err() ==> r.unwrap_err() == (match decoded(msg@) {
            Err(e) => e,
            Ok(_) => DecodeError::InvalidText,
        }),
{
    match deconstruct_msg(msg) {
        Ok((msg_type, payload)) => match u8_to_str(payload) {
            Some(text) => Ok((msg_type, text)),
            None => Err(DecodeError::InvalidText),
        },
        Err(e) => Err(e),
    }
}

/// Reads a frame from a datagram. The checksum is read, not checked.
pub fn decode(bytes: &[u8]) -> (r: Result<Frame, DecodeError>)
    ensures
        r.is_ok() <==> bytes@.len() >= HEADER_LEN && bytes@[0] <= 10,
        r.is_err() ==> (r.unwrap_err() == DecodeError::TooShort <==> bytes@.len() < HEADER_LEN),
        r.is_err() ==> (r.unwrap_err() == DecodeError::UnknownType <==> bytes@.len() >= HEADER_LEN),
        r.is_ok() ==> decoded(bytes@) == Ok::<FrameView, DecodeError>(r.unwrap()@),
        r.is_err() ==> decoded(bytes@) == Err::<FrameView, DecodeError>(r.unwrap_err()),
{
    match deconstruct_msg(bytes) {
        Ok((message_type, payload)) => {
            let checksum = u64_from_le_bytes(slice_subrange(bytes, 1, HEADER_LEN));
            Ok(Frame { message_type, checksum, payload: slice_to_vec(payload) })
        },
        Err(e) => Err(e),
    }
}

impl Frame {
    /// Whether the frame carries the checksum `expected`.
    pub fn has_checksum(&self, expected: u64) -> (b: bool)
        ensures
            b == (self.checksum == expected),
    {
        self.checksum == expected
    }
}

/// Recomputes the checksum of the payload and holds the frame's against it.
pub fn verify(frame: &Frame) -> (b: bool)
    ensures
        b == intact(frame@),
{
    let expected = create_checksum(frame.payload.as_slice());
    frame.has_checksum(expected)
}

/// Whether a datagram has a header and carries the checksum of its payload.
pub fn is_msg_valid(msg: &[u8]) -> (b: bool)
    ensures
        b == (msg@.len() >= HEADER_LEN && checksum_field(msg@) == checksum_of(payload_of(msg@))),
{
    if msg.len() < HEADER_LEN {
        return false;
    }
    let msg_checksum = u64_from_le_bytes(slice_subrange(msg, 1, HEADER_LEN));
    let payload = slice_subrange(msg, HEADER_LEN, msg.len());
    msg_checksum == create_checksum(payload)
}

/// What the server's log is told of a datagram.
#[derive(Debug, Clone, Copy, PartialEq, Eq, Structural)]
pub enum Notice {
    /// Nothing worth a line.
    Nothing,
    /// The sender asked to be connected.
    Connected,
    /// The sender was registered and has left.
    Disconnected,
    /// The sender is registered and has sent the server a text.
    Message,
}

/// What a datagram leads to, besides the change to the registry.
#[derive(Debug)]
pub struct Outcome {
    pub replies: Vec<Reply>,
    pub notice: Notice,
}

/// The registry after a checked frame of type `msg_type` from `sender`.
pub open spec fn dispatch_peers(peers: Seq<Client>, msg_type: Type, sender: Addr) -> Seq<Client> {
    match msg_type {
        Type::Connect => registered(peers, sender),
        Type::Disconnect => deregistered(peers, sender),
        _ => peers,
    }
}

/// The replies to a checked frame from `sender`, given the registry before
/// it. A connect is confirmed, also where the sender was there already. A
/// disconnect is confirmed to a registered sender and answered with
/// `SendFailed` to any other. Everything else counts only from a
/// registered sender.
pub open spec fn dispatch_replies(
    peers: Seq<Client>,
    msg_type: Type,
    payload: Seq<u8>,
    sender: Addr,
) -> Seq<ReplyView> {
    match msg_type {
        Type::Connect => seq![bare_reply(Type::ConnectSuccess, sender)],
        Type::Disconnect => if has_addr(peers, sender) {
            seq![bare_reply(Type::DisconnectSuccess, sender)]
        } else {
            seq![bare_reply(Type::SendFailed, sender)]
        },
        _ => if has_addr(peers, sender) {
            peer_replies(sender, msg_type, payload, peers)
        } else {
            Seq::empty()
        },
    }
}

/// What the log is told of a checked frame from `sender`.
pub open spec fn dispatch_notice(peers: Seq<Client>, msg_type: Type, sender: Addr) -> Notice {
    match msg_type {
        Type::Connect => Notice::Connected,
        Type::Disconnect => if has_addr(peers, sender) {
            Notice::Disconnected
        } else {
            Notice::Nothing
        },
        Type::SendTo => if has_addr(peers, sender) {
            Notice::Message
        } else {
            Notice::Nothing
        },
        _ => Notice::Nothing,
    }
}

/// A list that holds one reply.
fn single(reply: Reply) -> (r: Vec<Reply>)
    ensures
        replies_view(r@) == seq![reply@],
{
    let mut out: Vec<Reply> = Vec::new();
    out.push(reply);
    assert(replies_view(out@) =~= seq![reply@]);
    out
}

/// A list that holds no reply.
fn silence() -> (r: Vec<Reply>)
    ensures
        replies_view(r@) == Seq::<ReplyView>::empty(),
{
    let out: Vec<Reply> = Vec::new();
    assert(replies_view(out@) =~= Seq::<ReplyView>::empty());
    out
}

/// Acts on a frame whose checksum has been checked: changes the registry
/// and says who is answered with what.
pub fn dispatch(registry: &mut Registry, msg_type: Type, payload: &[u8], sender: Addr) -> (out:
    Outcome)
    ensures
        final(registry)@ == dispatch_peers(old(registry)@, msg_type, sender),
        replies_view(out.replies@) == dispatch_replies(old(registry)@, msg_type, payload@, sender),
        out.notice == dispatch_notice(old(registry)@, msg_type, sender),
        unique_addrs(old(registry)@),
        unique_addrs(final(registry)@),
{
    proof {
        use_type_invariant(&*registry);
    }
    match msg_type {
        Type::Connect => {
            registry.register(sender);
            Outcome {
                replies: single(reply_to(Type::ConnectSuccess, sender)),
                notice: Notice::Connected,
            }
        },
        Type::Disconnect => match registry.deregister(sender) {
            Ok(()) => Outcome {
                replies: single(reply_to(Type::DisconnectSuccess, sender)),
                notice: Notice::Disconnected,
            },
            Err(_) => Outcome {
                replies: single(reply_to(Type::SendFailed, sender)),
                notice: Notice::Nothing,
            },
        },
        _ => match registry.find(sender) {
            Some(client) => {
                let conns = registry.all();
                let replies = client.handle_msg(msg_type, payload, &conns);
                let notice = match msg_type {
                    Type::SendTo => Notice::Message,
                    _ => Notice::Nothing,
                };
                Outcome { replies, notice }
            },
            None => Outcome { replies: silence(), notice: Notice::Nothing },
        },
    }
}

/// The registry after a frame from `sender`, where `expected` is the
/// checksum of its payload.
pub open spec fn frame_peers(
    peers: Seq<Client>,
    frame: FrameView,
    expected: u64,
    sender: Addr,
) -> Seq<Client> {
    if frame.checksum == expected {
        dispatch_peers(peers, frame.message_type, sender)
    } else {
        peers
    }
}

/// The replies to a frame from `sender`, where `expected` is the checksum
/// of its payload: a frame with another checksum is answered with
/// `SendFailed`, whatever it asks for.
pub open spec fn frame_replies(
    peers: Seq<Client>,
    frame: FrameView,
    expected: u64,
    sender: Addr,
) -> Seq<ReplyView> {
    if frame.checksum == expected {
        dispatch_replies(peers, frame.message_type, frame.payload, sender)
    } else {
        seq![bare_reply(Type::SendFailed, sender)]
    }
}

/// What the log is told of a frame from `sender`.
pub open spec fn frame_notice(
    peers: Seq<Client>,
    frame: FrameView,
    expected: u64,
    sender: Addr,
) -> Notice {
    if frame.checksum == expected {
        dispatch_notice(peers, frame.message_type, sender)
    } else {
        Notice::Nothing
    }
}

/// Acts on a decoded frame, given the checksum `expected` that was computed
/// over its payload. A frame with another checksum never reaches the
/// registry.
pub fn handle_frame(registry: &mut Registry, frame: &Frame, expected: u64, sender: Addr) -> (out:
    Outcome)
    ensures
        final(registry)@ == frame_peers(old(registry)@, frame@, expected, sender),
        replies_view(out.replies@) == frame_replies(old(registry)@, frame@, expected, sender),
        out.notice == frame_notice(old(registry)@, frame@, expected, sender),
        unique_addrs(old(registry)@),
        unique_addrs(final(registry)@),
{
    proof {
        use_type_invariant(&*registry);
    }
    if frame.has_checksum(expected) {
        dispatch(registry, frame.message_type, frame.payload.as_slice(), sender)
    } else {
        Outcome { replies: single(reply_to(Type::SendFailed, sender)), notice: Notice::Nothing }
    }
}

/// The registry after a datagram from `sender`.
pub open spec fn step_peers(peers: Seq<Client>, datagram: Seq<u8>, sender: Addr) -> Seq<Client> {
    match decoded(datagram) {
        Ok(frame) => frame_peers(peers, frame, checksum_of(frame.payload), sender),
        Err(_) => peers,
    }
}

/// The replies to a datagram from `sender`. What does not decode is dropped
/// without an answer.
pub open spec fn step_replies(peers: Seq<Client>, datagram: Seq<u8>, sender: Addr) -> Seq<
    ReplyView,
> {
    match decoded(datagram) {
        Ok(frame) => frame_replies(peers, frame, checksum_of(frame.payload), sender),
        Err(_) => Seq::empty(),
    }
}

/// What the log is told of a datagram from `sender`.
pub open spec fn step_notice(peers: Seq<Client>, datagram: Seq<u8>, sender: Addr) -> Notice {
    match decoded(datagram) {
        Ok(frame) => frame_notice(peers, frame, checksum_of(frame.payload), sender),
        Err(_) => Notice::Nothing,
    }
}

/// One step of the server: decodes a datagram, checks it, and acts on it.
pub fn handle_datagram(registry: &mut Registry, datagram: &[u8], sender: Addr) -> (out: Outcome)
    ensures
        final(registry)@ == step_peers(old(registry)@, datagram@, sender),
        replies_view(out.replies@) == step_replies(old(registry)@, datagram@, sender),
        out.notice == step_notice(old(registry)@, datagram@, sender),
        unique_addrs(old(registry)@),
        unique_addrs(final(registry)@),
        datagram@.len() < HEADER_LEN ==> out.replies@.len() == 0 && final(registry)@ == old(
            registry,
        )@,
{
    proof {
        use_type_invariant(&*registry);
    }
    match decode(datagram) {
        Ok(frame) => {
            let expected = create_checksum(frame.payload.as_slice());
            handle_frame(registry, &frame, expected, sender)
        },
        Err(_) => Outcome { replies: silence(), notice: Notice::Nothing },
    }
}

/// The notices that tell every registered peer that the server stops.
pub fn shutdown_notices(registry: &Registry) -> (r: Vec<Reply>)
    ensures
        replies_view(r@) == fan_out(registry@, Type::Disconnect, Seq::<u8>::empty()),
{
    let conns = registry.all();
    let nothing: Vec<u8> = Vec::new();
    send_to_all(&conns, Type::Disconnect, nothing.as_slice())
}

} // verus!
