//! The binary wire format: client commands are decoded from bytes and server
//! responses are encoded into bytes.

use vstd::prelude::*;
use vstd::string::StringSliceAdditionalSpecFns;
use vstd::arithmetic::div_mod::{lemma_div_denominator, lemma_fundamental_div_mod};

verus! {

/// The type of a command sent by a client.
#[derive(Debug, Clone, Copy, PartialEq, Eq, Structural)]
pub enum WSMSGMessageTypeC2S {
    Message,
    Ping,
    ListSubscribed,
    Subscribe,
    Unsubscribe,
}

/// The type byte of a client command, or `None` for a byte outside the table.
pub open spec fn c2s_type_of(value: u8) -> Option<WSMSGMessageTypeC2S> {
    if value == 255 {
        Some(WSMSGMessageTypeC2S::Message)
    } else if value == 0 {
        Some(WSMSGMessageTypeC2S::Ping)
    } else if value == 1 {
        Some(WSMSGMessageTypeC2S::ListSubscribed)
    } else if value == 2 {
        Some(WSMSGMessageTypeC2S::Subscribe)
    } else if value == 3 {
        Some(WSMSGMessageTypeC2S::Unsubscribe)
    } else {
        None
    }
}

/// The byte that stands for a client command type on the wire.
pub open spec fn c2s_code(t: WSMSGMessageTypeC2S) -> u8 {
    match t {
        WSMSGMessageTypeC2S::Message => 255,
        WSMSGMessageTypeC2S::Ping => 0,
        WSMSGMessageTypeC2S::ListSubscribed => 1,
        WSMSGMessageTypeC2S::Subscribe => 2,
        WSMSGMessageTypeC2S::Unsubscribe => 3,
    }
}

impl WSMSGMessageTypeC2S {
    pub fn from_message_type(value: u8) -> (r: Option<Self>)
        ensures
            r == c2s_type_of(value),
    {
        match value {
            255u8 => Some(WSMSGMessageTypeC2S::Message),
            0u8 => Some(WSMSGMessageTypeC2S::Ping),
            1u8 => Some(WSMSGMessageTypeC2S::ListSubscribed),
            2u8 => Some(WSMSGMessageTypeC2S::Subscribe),
            3u8 => Some(WSMSGMessageTypeC2S::Unsubscribe),
            _ => None,
        }
    }

    pub fn to_message_type(value: Self) -> (r: u8)
        ensures
            r == c2s_code(value),
    {
        match value {
            WSMSGMessageTypeC2S::Message => 255u8,
            WSMSGMessageTypeC2S::Ping => 0u8,
            WSMSGMessageTypeC2S::ListSubscribed => 1u8,
            WSMSGMessageTypeC2S::Subscribe => 2u8,
            WSMSGMessageTypeC2S::Unsubscribe => 3u8,
        }
    }

    /// The name of the type, as a log line shows it.
    pub fn to_string(&self) -> (r: String)
        ensures
            r@ == c2s_name(*self),
    {
        let s = match self {
            WSMSGMessageTypeC2S::Message => "C2S_Message",
            WSMSGMessageTypeC2S::Ping => "C2S_Ping",
            WSMSGMessageTypeC2S::ListSubscribed => "C2S_ListSubscribed",
            WSMSGMessageTypeC2S::Subscribe => "C2S_Subscribe",
            WSMSGMessageTypeC2S::Unsubscribe => "C2S_Unsubscribe",
        };
        s.to_owned()
    }
}

/// The printable name of a client command type.
pub open spec fn c2s_name(t: WSMSGMessageTypeC2S) -> Seq<char> {
    match t {
        WSMSGMessageTypeC2S::Message => "C2S_Message"@,
        WSMSGMessageTypeC2S::Ping => "C2S_Ping"@,
        WSMSGMessageTypeC2S::ListSubscribed => "C2S_ListSubscribed"@,
        WSMSGMessageTypeC2S::Subscribe => "C2S_Subscribe"@,
        WSMSGMessageTypeC2S::Unsubscribe => "C2S_Unsubscribe"@,
    }
}

/// The type of a frame sent by the server.
#[derive(Debug, Clone, Copy, PartialEq, Eq, Structural)]
pub enum WSMSGMessageTypeS2C {
    Message,
    Reply,
}

/// The type byte of a server frame, or `None` for a byte outside the table.
pub open spec fn s2c_type_of(value: u8) -> Option<WSMSGMessageTypeS2C> {
    if value == 255 {
        Some(WSMSGMessageTypeS2C::Message)
    } else if value == 0 {
        Some(WSMSGMessageTypeS2C::Reply)
    } else {
        None
    }
}

/// The byte that stands for a server frame type on the wire.
pub open spec fn s2c_code(t: WSMSGMessageTypeS2C) -> u8 {
    match t {
        WSMSGMessageTypeS2C::Message => 255,
        WSMSGMessageTypeS2C::Reply => 0,
    }
}

impl WSMSGMessageTypeS2C {
    pub fn from_message_type(value: u8) -> (r: Option<Self>)
        ensures
            r == s2c_type_of(value),
    {
        match value {
            255u8 => Some(WSMSGMessageTypeS2C::Message),
            0u8 => Some(WSMSGMessageTypeS2C::Reply),
            _ => None,
        }
    }

    pub fn to_message_type(value: Self) -> (r: u8)
        ensures
            r == s2c_code(value),
    {
        match value {
            WSMSGMessageTypeS2C::Message => 255u8,
            WSMSGMessageTypeS2C::Reply => 0u8,
        }
    }

    /// The name of the type, as a log line shows it.
    pub fn to_string(&self) -> (r: String)
        ensures
            r@ == match *self {
                WSMSGMessageTypeS2C::Message => "S2C_Message"@,
                WSMSGMessageTypeS2C::Reply => "S2C_Reply"@,
            },
    {
        let s = match self {
            WSMSGMessageTypeS2C::Message => "S2C_Message",
            WSMSGMessageTypeS2C::Reply => "S2C_Reply",
        };
        s.to_owned()
    }
}

/// Both type tables are inverse to their decoding: every type survives a trip
/// through its byte, every byte that decodes comes back from its type, and the
/// server table only ever uses the bytes 0 and 255, so a byte that names a
/// client command such as Subscribe (2) never names a server frame.
pub proof fn lemma_type_tables_round_trip(t: WSMSGMessageTypeC2S, u: WSMSGMessageTypeS2C, b: u8)
    ensures
        c2s_type_of(c2s_code(t)) == Some(t),
        c2s_type_of(b) is Some ==> c2s_code(c2s_type_of(b)->0) == b,
        s2c_type_of(s2c_code(u)) == Some(u),
        s2c_type_of(b) is Some ==> s2c_code(s2c_type_of(b)->0) == b,
        s2c_code(u) == 0 || s2c_code(u) == 255,
        c2s_type_of(2) == Some(WSMSGMessageTypeC2S::Subscribe),
        s2c_type_of(2) is None,
{
}

/// Why a frame could not be decoded.
#[derive(Debug, Clone, Copy, PartialEq, Eq, Structural)]
pub enum WSMSGMessageError {
    MessageMalformed,
    InvalidMessageType,
}

/// The ASCII text of a decode error, as it travels in an error reply.
pub open spec fn decode_error_text(e: WSMSGMessageError) -> Seq<u8> {
    match e {
        WSMSGMessageError::MessageMalformed => "MessageMalformed".spec_bytes(),
        WSMSGMessageError::InvalidMessageType => "InvalidMessageType".spec_bytes(),
    }
}

impl WSMSGMessageError {
    /// The error's name as bytes: the payload of the reply that reports it.
    pub fn to_bytes(&self) -> (r: Vec<u8>)
        ensures
            r@ == decode_error_text(*self),
    {
        let s = match self {
            WSMSGMessageError::MessageMalformed => "MessageMalformed",
            WSMSGMessageError::InvalidMessageType => "InvalidMessageType",
        };
        vstd::slice::slice_to_vec(s.as_bytes())
    }
}

/// The unsigned number that eight bytes spell in big-endian order.
pub open spec fn be_u64(b: Seq<u8>) -> int
    recommends
        b.len() == 8,
{
    b[0] * 0x100000000000000 + b[1] * 0x1000000000000 + b[2] * 0x10000000000 + b[3]
        * 0x100000000 + b[4] * 0x1000000 + b[5] * 0x10000 + b[6] * 0x100 + b[7]
}

/// The eight big-endian bytes of a 64-bit number.
pub open spec fn u64_be(x: u64) -> Seq<u8> {
    seq![
        (x / 0x100000000000000) as u8,
        ((x / 0x1000000000000) % 0x100) as u8,
        ((x / 0x10000000000) % 0x100) as u8,
        ((x / 0x100000000) % 0x100) as u8,
        ((x / 0x1000000) % 0x100) as u8,
        ((x / 0x10000) % 0x100) as u8,
        ((x / 0x100) % 0x100) as u8,
        (x % 0x100) as u8,
    ]
}

/// Reading back the eight bytes that encode an id gives that id.
pub proof fn lemma_id_round_trip(x: u64)
    ensures
        u64_be(x).len() == 8,
        be_u64(u64_be(x)) == x,
{
    let n = x as int;
    let q1 = n / 0x100;
    let q2 = n / 0x10000;
    let q3 = n / 0x1000000;
    let q4 = n / 0x100000000;
    let q5 = n / 0x10000000000;
    let q6 = n / 0x1000000000000;
    let q7 = n / 0x100000000000000;
    lemma_div_denominator(n, 0x100, 0x100);
    lemma_div_denominator(n, 0x10000, 0x100);
    lemma_div_denominator(n, 0x1000000, 0x100);
    lemma_div_denominator(n, 0x100000000, 0x100);
    lemma_div_denominator(n, 0x10000000000, 0x100);
    lemma_div_denominator(n, 0x1000000000000, 0x100);
    lemma_fundamental_div_mod(n, 0x100);
    lemma_fundamental_div_mod(q1, 0x100);
    lemma_fundamental_div_mod(q2, 0x100);
    lemma_fundamental_div_mod(q3, 0x100);
    lemma_fundamental_div_mod(q4, 0x100);
    lemma_fundamental_div_mod(q5, 0x100);
    lemma_fundamental_div_mod(q6, 0x100);
    assert(q7 < 0x100);
}

/// A command decoded from a client frame.
#[derive(Debug, Clone)]
pub struct WSMSGMessage {
    pub message_type: WSMSGMessageTypeC2S,
    pub message_id: u64,
    pub message_data: Vec<u8>,
}

/// The outcome of decoding `bytes` as a client frame, with the command given as
/// its type, id and payload.
pub open spec fn decoded(bytes: Seq<u8>) -> Result<
    (WSMSGMessageTypeC2S, u64, Seq<u8>),
    WSMSGMessageError,
> {
    if bytes.len() < 9 {
        Err(WSMSGMessageError::MessageMalformed)
    } else if c2s_type_of(bytes[0]) is None {
        Err(WSMSGMessageError::InvalidMessageType)
    } else {
        Ok(
            (
                c2s_type_of(bytes[0])->0,
                be_u64(bytes.subrange(1, 9)) as u64,
                bytes.subrange(9, bytes.len() as int),
            ),
        )
    }
}

impl WSMSGMessage {
    /// Decodes a client frame: a type byte, an eight-byte big-endian id, and
    /// the rest as payload.
    pub fn from_message(bytes: Vec<u8>) -> (r: Result<WSMSGMessage, WSMSGMessageError>)
        ensures
            match (r, decoded(bytes@)) {
                (Ok(m), Ok((t, id, data))) => m.message_type == t && m.message_id == id
                    && m.message_data@ == data,
                (Err(e), Err(f)) => e == f,
                _ => false,
            },
    {
        if bytes.len() < 9 {
            return Err(WSMSGMessageError::MessageMalformed);
        }
        let message_type = match WSMSGMessageTypeC2S::from_message_type(bytes[0]) {
            Some(t) => t,
            None => {
                return Err(WSMSGMessageError::InvalidMessageType);
            },
        };
        let message_id: u64 = (bytes[1] as u64) * 0x100000000000000 + (bytes[2] as u64)
            * 0x1000000000000 + (bytes[3] as u64) * 0x10000000000 + (bytes[4] as u64)
            * 0x100000000 + (bytes[5] as u64) * 0x1000000 + (bytes[6] as u64) * 0x10000
            + (bytes[7] as u64) * 0x100 + (bytes[8] as u64);
        let mut message_data: Vec<u8> = Vec::new();
        let mut i: usize = 9;
        while i < bytes.len()
            invariant
                9 <= i <= bytes@.len(),
                message_data@ == bytes@.subrange(9, i as int),
            decreases bytes@.len() - i,
        {
            message_data.push(bytes[i]);
            i = i + 1;
            assert(message_data@ =~= bytes@.subrange(9, i as int));
        }
        let ghost sub = bytes@.subrange(1, 9);
        assert(sub[0] == bytes@[1] && sub[1] == bytes@[2] && sub[2] == bytes@[3] && sub[3]
            == bytes@[4] && sub[4] == bytes@[5] && sub[5] == bytes@[6] && sub[6] == bytes@[7]
            && sub[7] == bytes@[8]);
        Ok(WSMSGMessage { message_type, message_id, message_data })
    }
}

/// A frame sent by the server. A direct reply carries an id and a code; a
/// relayed message carries neither.
#[derive(Debug, Clone)]
pub struct WSMSGResponse {
    pub message_type: WSMSGMessageTypeS2C,
    pub message_id: Option<u64>,
    pub message_code: Option<u8>,
    pub message_data: Vec<u8>,
}

/// The bytes of a server frame: the type byte, the id's eight bytes if there
/// is an id, the code byte if there is a code, then the payload.
pub open spec fn encoded(
    t: WSMSGMessageTypeS2C,
    id: Option<u64>,
    code: Option<u8>,
    data: Seq<u8>,
) -> Seq<u8> {
    seq![s2c_code(t)] + match id {
        Some(i) => u64_be(i),
        None => Seq::empty(),
    } + match code {
        Some(c) => seq![c],
        None => Seq::empty(),
    } + data
}

impl WSMSGResponse {
    /// The frame's bytes as spelled out by `encoded`.
    pub open spec fn encoded_bytes(&self) -> Seq<u8> {
        encoded(self.message_type, self.message_id, self.message_code, self.message_data@)
    }

    pub fn to_message(&self) -> (r: Vec<u8>)
        ensures
            r@ == self.encoded_bytes(),
    {
        let mut message: Vec<u8> = Vec::new();
        message.push(WSMSGMessageTypeS2C::to_message_type(self.message_type));
        let ghost head = message@;
        if let Some(id) = self.message_id {
            message.push((id / 0x100000000000000) as u8);
            message.push(((id / 0x1000000000000) % 0x100) as u8);
            message.push(((id / 0x10000000000) % 0x100) as u8);
            message.push(((id / 0x100000000) % 0x100) as u8);
            message.push(((id / 0x1000000) % 0x100) as u8);
            message.push(((id / 0x10000) % 0x100) as u8);
            message.push(((id / 0x100) % 0x100) as u8);
            message.push((id % 0x100) as u8);
            assert(message@ =~= head + u64_be(id));
        }
        let ghost with_id = message@;
        if let Some(code) = self.message_code {
            message.push(code);
        }
        let ghost with_code = message@;
        let mut i: usize = 0;
        while i < self.message_data.len()
            invariant
                0 <= i <= self.message_data@.len(),
                message@ == with_code + self.message_data@.subrange(0, i as int),
            decreases self.message_data@.len() - i,
        {
            message.push(self.message_data[i]);
            i = i + 1;
            assert(message@ =~= with_code + self.message_data@.subrange(0, i as int));
        }
        assert(self.message_data@.subrange(0, i as int) =~= self.message_data@);
        assert(message@ =~= self.encoded_bytes());
        message
    }
}

} // verus!
