//! The message taxonomy of the wire protocol and the errors of decoding.

use vstd::prelude::*;

verus! {

/// The kind of a frame, carried in its first byte.
#[derive(Debug, Clone, Copy, PartialEq, Eq, Structural)]
pub enum Type {
    Connect,
    SendSuccess,
    SendFailed,
    Broadcast,
    SendTo,
    ConnectSuccess,
    Disconnect,
    DisconnectSuccess,
    SendToSuccess,
    SendToFailed,
    EncryptedMessage,
}

/// Why a datagram is not a frame.
#[derive(Debug, Clone, Copy, PartialEq, Eq, Structural)]
pub enum DecodeError {
    /// The datagram has at most eight bytes: no room for type byte and checksum.
    TooShort,
    /// The first byte names no message type.
    UnknownType,
    /// The payload was asked for as text and is not UTF-8.
    InvalidText,
}

/// Why a frame cannot be put on the wire.
#[derive(Debug, Clone, Copy, PartialEq, Eq, Structural)]
pub enum EncodeError {
    /// Header and payload together exceed one datagram.
    EncodeOverflow,
}

impl Type {
    /// The byte that stands for this message type on the wire.
    pub open spec fn code(self) -> u8 {
        match self {
            Type::Connect => 0,
            Type::SendSuccess => 1,
            Type::SendFailed => 2,
            Type::Broadcast => 3,
            Type::SendTo => 4,
            Type::ConnectSuccess => 5,
            Type::Disconnect => 6,
            Type::DisconnectSuccess => 7,
            Type::SendToSuccess => 8,
            Type::SendToFailed => 9,
            Type::EncryptedMessage => 10,
        }
    }

    /// The message type that a wire byte stands for, if any.
    pub open spec fn of_code(n: u8) -> Option<Type> {
        if n == 0 {
            Some(Type::Connect)
        } else if n == 1 {
            Some(Type::SendSuccess)
        } else if n == 2 {
            Some(Type::SendFailed)
        } else if n == 3 {
            Some(Type::Broadcast)
        } else if n == 4 {
            Some(Type::SendTo)
        } else if n == 5 {
            Some(Type::ConnectSuccess)
        } else if n == 6 {
            Some(Type::Disconnect)
        } else if n == 7 {
            Some(Type::DisconnectSuccess)
        } else if n == 8 {
            Some(Type::SendToSuccess)
        } else if n == 9 {
            Some(Type::SendToFailed)
        } else if n == 10 {
            Some(Type::EncryptedMessage)
        } else {
            None
        }
    }

    /// The wire byte of a message type.
    pub fn to_u8(self) -> (n: u8)
        ensures
            n == self.code(),
            n <= 10,
    {
        match self {
            Type::Connect => 0,
            Type::SendSuccess => 1,
            Type::SendFailed => 2,
            Type::Broadcast => 3,
            Type::SendTo => 4,
            Type::ConnectSuccess => 5,
            Type::Disconnect => 6,
            Type::DisconnectSuccess => 7,
            Type::SendToSuccess => 8,
            Type::SendToFailed => 9,
            Type::EncryptedMessage => 10,
        }
    }

    /// Reads a message type from its wire byte. A byte above 10 names no
    /// type and is refused.
    pub fn from_u8(n: u8) -> (r: Result<Type, DecodeError>)
        ensures
            n <= 10 <==> r.is_ok(),
            r.is_ok() ==> Type::of_code(n) == Some(r.unwrap()) && r.unwrap().code() == n,
            r.is_err() ==> Type::of_code(n).is_none() && r == Err::<Type, DecodeError>(
                DecodeError::UnknownType,
            ),
    {
        match n {
            0 => Ok(Type::Connect),
            1 => Ok(Type::SendSuccess),
            2 => Ok(Type::SendFailed),
            3 => Ok(Type::Broadcast),
            4 => Ok(Type::SendTo),
            5 => Ok(Type::ConnectSuccess),
            6 => Ok(Type::Disconnect),
            7 => Ok(Type::DisconnectSuccess),
            8 => Ok(Type::SendToSuccess),
            9 => Ok(Type::SendToFailed),
            10 => Ok(Type::EncryptedMessage),
            _ => Err(DecodeError::UnknownType),
        }
    }

    /// Whether the server acts on a frame of this type. The other types are
    /// replies bound for clients, or reserved.
    pub open spec fn is_request(self) -> bool {
        self == Type::Connect || self == Type::Disconnect || self == Type::SendTo || self
            == Type::Broadcast
    }
}

/// Every message type is read back from its own wire byte, and the bytes
/// that name a type are exactly those from 0 to 10.
pub proof fn lemma_type_code_round_trip(t: Type, n: u8)
    ensures
        Type::of_code(t.code()) == Some(t),
        t.code() <= 10,
        Type::of_code(n).is_some() <==> n <= 10,
        Type::of_code(n).is_some() ==> Type::of_code(n).unwrap().code() == n,
{
}

} // verus!
