//! The integrity check, the frame layout on the way out, and the line log.

use crate::client_handler::{Addr, Reply, ReplyView};
use crate::msg_types::{EncodeError, Type};
use vstd::bytes::{spec_u64_to_le_bytes, u64_to_le_bytes};
use vstd::prelude::*;
use vstd::string::StringSliceAdditionalSpecFns;

verus! {

/// Bytes before the payload: one for the type, eight for the checksum.
pub const HEADER_LEN: usize = 9;

/// The largest datagram that either side reads.
pub const MAX_DATAGRAM: usize = 4096;

/// The largest payload that fits a datagram behind the header.
pub const MAX_PAYLOAD: usize = 4087;

/// The value from which every checksum starts.
pub const CRC_SEED: u64 = 1892763397649723641;

/// The CRC-64 (Jones polynomial, reflected) of `data`, continued from `crc`.
pub uninterp spec fn crc64_of(crc: u64, data: Seq<u8>) -> u64;

/// The checksum that a frame carries for `payload`.
pub open spec fn checksum_of(payload: Seq<u8>) -> u64 {
    crc64_of(CRC_SEED, payload)
}

/// Calls `crc64::crc64`. Trusted: the result depends on the two arguments
/// alone, and is the value that `crc64_of` names.
#[verifier::external_body]
fn crc64_update(crc: u64, data: &[u8]) -> (r: u64)
    ensures
        r == crc64_of(crc, data@),
{
    crc64::crc64(crc, data)
}

/// The checksum of a payload. Equal payloads have equal checksums.
pub fn create_checksum(msg: &[u8]) -> (r: u64)
    ensures
        r == checksum_of(msg@),
{
    crc64_update(CRC_SEED, msg)
}

/// The checksum of a text payload: that of its UTF-8 bytes.
pub fn create_checksum_str(msg: &str) -> (r: u64)
    ensures
        r == checksum_of(msg.spec_bytes()),
{
    crc64_update(CRC_SEED, msg.as_bytes())
}

/// The frame layout: the type byte, the checksum with its least significant
/// byte first, then the payload.
pub open spec fn frame_bytes(message_type: Type, checksum: u64, payload: Seq<u8>) -> Seq<u8> {
    seq![message_type.code()] + spec_u64_to_le_bytes(checksum) + payload
}

/// The frame that carries `payload` with its own checksum.
pub open spec fn encoded(message_type: Type, payload: Seq<u8>) -> Seq<u8> {
    frame_bytes(message_type, checksum_of(payload), payload)
}

/// Lays out a frame around a checksum that the caller has computed.
/// A payload that does not fit one datagram is refused, never cut.
pub fn encode_with(message_type: Type, checksum: u64, payload: &[u8]) -> (r: Result<
    Vec<u8>,
    EncodeError,
>)
    ensures
        r.is_ok() <==> payload@.len() <= MAX_PAYLOAD,
        r.is_ok() ==> r.unwrap()@ == frame_bytes(message_type, checksum, payload@),
        r.is_err() ==> r.unwrap_err() == EncodeError::EncodeOverflow,
{
    if payload.len() > MAX_PAYLOAD {
        return Err(EncodeError::EncodeOverflow);
    }
    let mut msg: Vec<u8> = Vec::new();
    msg.push(message_type.to_u8());
    let mut sum = u64_to_le_bytes(checksum);
    msg.append(&mut sum);
    msg.extend_from_slice(payload);
    assert(msg@ =~= frame_bytes(message_type, checksum, payload@));
    Ok(msg)
}

/// Frames `payload` under `message_type`, with the payload's checksum.
pub fn encode(message_type: Type, payload: &[u8]) -> (r: Result<Vec<u8>, EncodeError>)
    ensures
        r.is_ok() <==> payload@.len() <= MAX_PAYLOAD,
        r.is_ok() ==> r.unwrap()@ == encoded(message_type, payload@),
        r.is_err() ==> r.unwrap_err() == EncodeError::EncodeOverflow,
{
    let checksum = create_checksum(payload);
    encode_with(message_type, checksum, payload)
}

/// A framed message and where it goes.
#[derive(Debug, Clone)]
pub struct Packet {
    pub addr: Addr,
    pub bytes: Vec<u8>,
}

/// A packet as a mathematical value.
pub struct PacketView {
    pub addr: Addr,
    pub bytes: Seq<u8>,
}

impl View for Packet {
    type V = PacketView;

    open spec fn view(&self) -> PacketView {
        PacketView { addr: self.addr, bytes: self.bytes@ }
    }
}

/// The packet that carries a reply, where the reply fits a datagram.
pub open spec fn packed(reply: ReplyView) -> Result<PacketView, EncodeError> {
    if reply.payload.len() <= MAX_PAYLOAD {
        Ok(PacketView { addr: reply.dest, bytes: encoded(reply.msg_type, reply.payload) })
    } else {
        Err(EncodeError::EncodeOverflow)
    }
}

/// What came of framing a reply, as a mathematical value.
pub open spec fn packing_view(r: Result<Packet, EncodeError>) -> Result<PacketView, EncodeError> {
    match r {
        Ok(packet) => Ok(packet@),
        Err(e) => Err(e),
    }
}

/// Assembles the datagram that carries `msg` to `addr`; sending it is the
/// caller's part.
pub fn write(msg: &[u8], msg_type: Type, addr: Addr) -> (r: Result<Packet, EncodeError>)
    ensures
        r.is_ok() <==> msg@.len() <= MAX_PAYLOAD,
        r.is_ok() ==> r.unwrap().addr == addr && r.unwrap().bytes@ == encoded(msg_type, msg@),
        r.is_err() ==> r.unwrap_err() == EncodeError::EncodeOverflow,
        packing_view(r) == packed(ReplyView { payload: msg@, msg_type, dest: addr }),
{
    match encode(msg_type, msg) {
        Ok(bytes) => Ok(Packet { addr, bytes }),
        Err(e) => Err(e),
    }
}

/// Assembles the datagram of each reply, in their order. A reply that does
/// not fit a datagram shows as an error in its place.
pub fn write_all(replies: &Vec<Reply>) -> (r: Vec<Result<Packet, EncodeError>>)
    ensures
        r@.len() == replies@.len(),
        forall|i: int| 0 <= i < r@.len() ==> packing_view(#[trigger] r@[i]) == packed(replies@[i]@),
{
    let mut out: Vec<Result<Packet, EncodeError>> = Vec::new();
    let mut i: usize = 0;
    while i < replies.len()
        invariant
            i <= replies@.len(),
            out@.len() == i,
            forall|k: int| 0 <= k < i ==> packing_view(#[trigger] out@[k]) == packed(replies@[k]@),
        decreases replies@.len() - i,
    {
        let reply = &replies[i];
        out.push(write(reply.payload.as_slice(), reply.msg_type, reply.dest));
        i += 1;
    }
    out
}

/// Calls `String::push_str`. Trusted: afterwards the string is what it was,
/// followed by `s`.
#[verifier::external_body]
fn append_str(line: &mut String, s: &str)
    ensures
        final(line)@ == old(line)@ + s@,
{
    line.push_str(s)
}

/// A log of lines. `print` says that the last line is still open: what is
/// logged next continues it.
pub struct Logger {
    pub log: Vec<String>,
    pub print: bool,
}

/// The lines after `s` was added to the last of `lines`; with no line there,
/// `s` becomes the first.
pub open spec fn added_to_last(lines: Seq<Seq<char>>, s: Seq<char>) -> Seq<Seq<char>> {
    if lines.len() > 0 {
        lines.update(lines.len() - 1, lines.last() + s)
    } else {
        lines.push(s)
    }
}

/// The lines after `s` was logged: it continues the last line where that is
/// open, and starts a new one where it is not.
pub open spec fn logged(lines: Seq<Seq<char>>, open: bool, s: Seq<char>) -> Seq<Seq<char>> {
    if open {
        added_to_last(lines, s)
    } else {
        lines.push(s)
    }
}

impl Logger {
    /// The logged lines as mathematical strings.
    pub open spec fn lines(&self) -> Seq<Seq<char>> {
        self.log@.map_values(|l: String| l@)
    }

    /// An empty log with no open line.
    pub fn new() -> (r: Logger)
        ensures
            r.lines() == Seq::<Seq<char>>::empty(),
            !r.print,
    {
        let r = Logger { log: Vec::new(), print: false };
        assert(r.lines() =~= Seq::<Seq<char>>::empty());
        r
    }

    /// Logs `s` and leaves the line open.
    pub fn log(&mut self, s: String)
        ensures
            final(self).lines() == logged(old(self).lines(), old(self).print, s@),
            final(self).print,
    {
        if self.print {
            self.add_to_last(s);
        } else {
            self.log.push(s);
            assert(self.lines() =~= old(self).lines().push(s@));
        }
        self.print = true;
    }

    /// Appends `s` to the last line and keeps `print` as it is.
    pub fn add_to_last(&mut self, s: String)
        ensures
            final(self).lines() == added_to_last(old(self).lines(), s@),
            final(self).print == old(self).print,
    {
        match self.log.pop() {
            Some(last) => {
                let mut last = last;
                append_str(&mut last, s.as_str());
                self.log.push(last);
                assert(self.lines() =~= added_to_last(old(self).lines(), s@));
            },
            None => {
                self.log.push(s);
                assert(self.lines() =~= added_to_last(old(self).lines(), s@));
            },
        }
    }

    /// Logs `s` and closes the line.
    pub fn logln(&mut self, s: String)
        ensures
            final(self).lines() == logged(old(self).lines(), old(self).print, s@),
            !final(self).print,
    {
        if self.print {
            self.add_to_last(s);
        } else {
            self.log.push(s);
            assert(self.lines() =~= old(self).lines().push(s@));
        }
        self.print = false;
    }

    /// Logs `s` and closes the line. Where `b` holds, the caller is handed
    /// the line to print.
    pub fn mode_println(&mut self, s: String, b: bool) -> (shown: Option<String>)
        ensures
            final(self).lines() == logged(old(self).lines(), old(self).print, s@),
            !final(self).print,
            shown == (if b { Some(s) } else { None::<String> }),
    {
        let shown = if b { Some(s.clone()) } else { None };
        self.logln(s);
        shown
    }

    /// Logs `s` and leaves the line open. Where `b` holds, the caller is
    /// handed the text to print.
    pub fn mode_print(&mut self, s: String, b: bool) -> (shown: Option<String>)
        ensures
            final(self).lines() == logged(old(self).lines(), old(self).print, s@),
            final(self).print,
            shown == (if b { Some(s) } else { None::<String> }),
    {
        let shown = if b { Some(s.clone()) } else { None };
        self.log(s);
        shown
    }
}

} // verus!
