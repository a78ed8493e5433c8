//! Peers, their addresses, and what a registered peer's message calls for.

use crate::msg_types::Type;
use vstd::prelude::*;
use vstd::slice::slice_to_vec;
use vstd::string::StringSliceAdditionalSpecFns;
use vstd::utf8::valid_utf8;

verus! {

/// The host part of a network address.
#[derive(Debug, Clone, Copy, PartialEq, Eq, Structural)]
pub enum Host {
    /// An IPv4 address, its four octets from the most significant down.
    V4(u32),
    /// An IPv6 address with its flow information and scope.
    V6 { ip: u128, flowinfo: u32, scope_id: u32 },
}

/// A network address: host and port. It is what identifies a peer.
#[derive(Debug, Clone, Copy, PartialEq, Eq, Structural)]
pub struct Addr {
    pub host: Host,
    pub port: u16,
}

/// A registered peer.
#[derive(Debug, Clone, Copy, PartialEq, Eq, Structural)]
pub struct Client {
    pub addr: Addr,
    /// A placeholder, the same for every peer: it identifies nobody.
    pub client_id: u32,
}

/// A message that the server owes to a peer, not yet framed.
#[derive(Debug, Clone)]
pub struct Reply {
    pub payload: Vec<u8>,
    pub msg_type: Type,
    pub dest: Addr,
}

/// A reply as a mathematical value.
pub struct ReplyView {
    pub payload: Seq<u8>,
    pub msg_type: Type,
    pub dest: Addr,
}

impl View for Reply {
    type V = ReplyView;

    open spec fn view(&self) -> ReplyView {
        ReplyView { payload: self.payload@, msg_type: self.msg_type, dest: self.dest }
    }
}

/// The replies of a list, each as a mathematical value.
pub open spec fn replies_view(replies: Seq<Reply>) -> Seq<ReplyView> {
    replies.map_values(|r: Reply| r@)
}

/// One reply without a payload.
pub open spec fn bare_reply(msg_type: Type, dest: Addr) -> ReplyView {
    ReplyView { payload: Seq::empty(), msg_type, dest }
}

/// One message for each peer of `peers`, in their order, each with the same
/// payload and type.
pub open spec fn fan_out(peers: Seq<Client>, msg_type: Type, payload: Seq<u8>) -> Seq<ReplyView> {
    Seq::new(peers.len(), |i: int| ReplyView { payload, msg_type, dest: peers[i].addr })
}

/// What a message from the registered peer at `sender` calls for: a text for
/// the server is acknowledged, a broadcast goes to every peer of `conns`,
/// and nothing else is answered.
pub open spec fn peer_replies(
    sender: Addr,
    msg_type: Type,
    msg: Seq<u8>,
    conns: Seq<Client>,
) -> Seq<ReplyView> {
    match msg_type {
        Type::SendTo => seq![bare_reply(Type::SendSuccess, sender)],
        Type::Broadcast => fan_out(conns, Type::Broadcast, msg),
        _ => Seq::empty(),
    }
}

/// A reply to `dest` without a payload.
pub fn reply_to(msg_type: Type, dest: Addr) -> (r: Reply)
    ensures
        r@ == bare_reply(msg_type, dest),
{
    Reply { payload: Vec::new(), msg_type, dest }
}

/// The same message for each peer of `conns`.
pub fn send_to_all(conns: &Vec<Client>, msg_type: Type, payload: &[u8]) -> (r: Vec<Reply>)
    ensures
        replies_view(r@) == fan_out(conns@, msg_type, payload@),
{
    let mut out: Vec<Reply> = Vec::new();
    let mut i: usize = 0;
    while i < conns.len()
        invariant
            i <= conns@.len(),
            out@.len() == i,
            forall|k: int|
                0 <= k < i ==> (#[trigger] out@[k])@ == (ReplyView {
                    payload: payload@,
                    msg_type,
                    dest: conns@[k].addr,
                }),
        decreases conns@.len() - i,
    {
        out.push(Reply { payload: slice_to_vec(payload), msg_type, dest: conns[i].addr });
        i += 1;
    }
    assert(replies_view(out@) =~= fan_out(conns@, msg_type, payload@));
    out
}

impl Client {
    /// The replies that a message from this peer calls for, given the peers
    /// that are connected.
    pub fn handle_msg(&self, msg_type: Type, msg: &[u8], conns: &Vec<Client>) -> (r: Vec<Reply>)
        ensures
            replies_view(r@) == peer_replies(self.addr, msg_type, msg@, conns@),
    {
        match msg_type {
            Type::SendTo => {
                let mut out: Vec<Reply> = Vec::new();
                out.push(reply_to(Type::SendSuccess, self.addr));
                assert(replies_view(out@) =~= seq![bare_reply(Type::SendSuccess, self.addr)]);
                out
            },
            Type::Broadcast => send_to_all(conns, Type::Broadcast, msg),
            _ => {
                let out: Vec<Reply> = Vec::new();
                assert(replies_view(out@) =~= Seq::<ReplyView>::empty());
                out
            },
        }
    }
}

/// Calls `std::str::from_utf8`. Trusted: the text is there exactly when the
/// bytes are well-formed UTF-8, and it then consists of those bytes.
#[verifier::external_body]
fn text_of(buf: &[u8]) -> (r: Option<&str>)
    ensures
        r.is_some() <==> valid_utf8(buf@),
        r.is_some() ==> r.unwrap().spec_bytes() == buf@,
{
    match std::str::from_utf8(buf) {
        Ok(text) => Some(text),
        Err(_) => None,
    }
}

/// Reads a payload as text. Bytes that are not UTF-8 have no text.
pub fn u8_to_str(buf: &[u8]) -> (r: Option<&str>)
    ensures
        r.is_some() <==> valid_utf8(buf@),
        r.is_some() ==> r.unwrap().spec_bytes() == buf@,
{
    text_of(buf)
}

} // verus!
