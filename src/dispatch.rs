//! The command dispatcher: applies one client frame to the sending
//! connection's state and the registry, and says which frames go out.

use vstd::prelude::*;
use crate::codec::{
    WSMSGMessage, WSMSGMessageError, WSMSGMessageTypeC2S, WSMSGMessageTypeS2C, WSMSGResponse,
    decode_error_text, decoded,
};
use crate::connection::{
    Connection, ConnectionView, TOKEN_LEN, after_subscribe, after_unsubscribe, channel_error_text,
    concat, registry_after_subscribe, registry_after_unsubscribe, subscribe_check,
    unsubscribe_check,
};
use crate::registry::{Registry, members_of, without_id};

verus! {

/// The id of the reply that reports a frame that could not be decoded.
pub const UNDECODABLE_ID: u64 = 0xffff_ffff_ffff_ffff;

/// A message to pass on to other subscribers of a channel.
pub struct Relay {
    pub targets: Vec<u64>,
    pub message: WSMSGResponse,
}

/// What handling one frame sends: at most one reply to the sender and at most
/// one message relayed to other connections.
pub struct Outcome {
    pub reply: Option<WSMSGResponse>,
    pub relay: Option<Relay>,
}

/// The answer a command earns: `Ok` with the payload of a success reply, or
/// `Err` with the text of an error reply.
pub open spec fn command_answer(v: ConnectionView, t: WSMSGMessageTypeC2S, data: Seq<u8>) -> Result<
    Seq<u8>,
    Seq<u8>,
> {
    match t {
        WSMSGMessageTypeC2S::Message => if data.len() < TOKEN_LEN {
            Err(decode_error_text(WSMSGMessageError::MessageMalformed))
        } else {
            Ok(Seq::empty())
        },
        WSMSGMessageTypeC2S::Ping => Ok(data),
        WSMSGMessageTypeC2S::ListSubscribed => Ok(concat(v.channels)),
        WSMSGMessageTypeC2S::Subscribe => match subscribe_check(v.channels, data, v.max_channels) {
            Ok(_) => Ok(Seq::empty()),
            Err(e) => Err(channel_error_text(e)),
        },
        WSMSGMessageTypeC2S::Unsubscribe => match unsubscribe_check(v.channels, data) {
            Ok(_) => Ok(Seq::empty()),
            Err(e) => Err(channel_error_text(e)),
        },
    }
}

/// The answer sent back for a command with id `id`: none for id 0.
pub open spec fn expected_reply(
    v: ConnectionView,
    id: u64,
    t: WSMSGMessageTypeC2S,
    data: Seq<u8>,
) -> Option<Result<Seq<u8>, Seq<u8>>> {
    if id == 0 {
        None
    } else {
        Some(command_answer(v, t, data))
    }
}

/// Whether `r` is a direct reply to command `id` carrying `answer`.
pub open spec fn is_reply(r: WSMSGResponse, id: u64, answer: Result<Seq<u8>, Seq<u8>>) -> bool {
    &&& r.message_type == WSMSGMessageTypeS2C::Reply
    &&& r.message_id == Some(id)
    &&& match answer {
        Ok(p) => r.message_code == Some(0u8) && r.message_data@ == p,
        Err(p) => r.message_code == Some(1u8) && r.message_data@ == p,
    }
}

/// Whether `r` is a relayed message with payload `data`: no id, no code.
pub open spec fn is_relayed(r: WSMSGResponse, data: Seq<u8>) -> bool {
    &&& r.message_type == WSMSGMessageTypeS2C::Message
    &&& r.message_id is None
    &&& r.message_code is None
    &&& r.message_data@ == data
}

/// The connections a command's payload is relayed to: for a Message whose
/// payload starts with a channel id, every subscriber of that channel but the
/// sender; for anything else, no relay at all.
pub open spec fn expected_relay(
    v: ConnectionView,
    m: Map<Seq<u8>, Seq<u64>>,
    t: WSMSGMessageTypeC2S,
    data: Seq<u8>,
) -> Option<Seq<u64>> {
    if t == WSMSGMessageTypeC2S::Message && data.len() >= TOKEN_LEN {
        Some(without_id(members_of(m, data.subrange(0, TOKEN_LEN as int)), v.id))
    } else {
        None
    }
}

/// The connection after a command.
pub open spec fn next_connection(
    v: ConnectionView,
    t: WSMSGMessageTypeC2S,
    data: Seq<u8>,
) -> ConnectionView {
    match t {
        WSMSGMessageTypeC2S::Subscribe => after_subscribe(v, data),
        WSMSGMessageTypeC2S::Unsubscribe => after_unsubscribe(v, data),
        _ => v,
    }
}

/// The registry after a command of connection `v`.
pub open spec fn next_registry(
    v: ConnectionView,
    m: Map<Seq<u8>, Seq<u64>>,
    t: WSMSGMessageTypeC2S,
    data: Seq<u8>,
) -> Map<Seq<u8>, Seq<u64>> {
    match t {
        WSMSGMessageTypeC2S::Subscribe => registry_after_subscribe(v, m, data),
        WSMSGMessageTypeC2S::Unsubscribe => registry_after_unsubscribe(v, m, data),
        _ => m,
    }
}

/// Whether `r` is what a command earns from connection `v` and registry `m`.
pub open spec fn outcome_ok(
    r: Outcome,
    v: ConnectionView,
    m: Map<Seq<u8>, Seq<u64>>,
    id: u64,
    t: WSMSGMessageTypeC2S,
    data: Seq<u8>,
) -> bool {
    &&& match (r.reply, expected_reply(v, id, t, data)) {
        (None, None) => true,
        (Some(resp), Some(answer)) => is_reply(resp, id, answer),
        _ => false,
    }
    &&& match (r.relay, expected_relay(v, m, t, data)) {
        (None, None) => true,
        (Some(rl), Some(targets)) => rl.targets@ == targets && is_relayed(rl.message, data),
        _ => false,
    }
}

/// A Message whose payload is too short to name a channel is answered with
/// `MessageMalformed` when it has an id, is not answered when its id is 0,
/// is never relayed, and changes nothing.
pub proof fn lemma_short_message(
    v: ConnectionView,
    m: Map<Seq<u8>, Seq<u64>>,
    id: u64,
    data: Seq<u8>,
)
    requires
        data.len() < TOKEN_LEN,
    ensures
        expected_reply(v, id, WSMSGMessageTypeC2S::Message, data) == if id == 0 {
            None
        } else {
            Some(Err::<Seq<u8>, Seq<u8>>(decode_error_text(WSMSGMessageError::MessageMalformed)))
        },
        expected_relay(v, m, WSMSGMessageTypeC2S::Message, data) is None,
        next_connection(v, WSMSGMessageTypeC2S::Message, data) == v,
        next_registry(v, m, WSMSGMessageTypeC2S::Message, data) == m,
{
}

/// A Message to a channel that nobody has joined is relayed to nobody and
/// still earns a success reply with an empty payload when it has an id.
pub proof fn lemma_message_to_empty_channel(
    v: ConnectionView,
    m: Map<Seq<u8>, Seq<u64>>,
    id: u64,
    data: Seq<u8>,
)
    requires
        data.len() >= TOKEN_LEN,
        !m.contains_key(data.subrange(0, TOKEN_LEN as int)),
    ensures
        expected_reply(v, id, WSMSGMessageTypeC2S::Message, data) == if id == 0 {
            None
        } else {
            Some(Ok::<Seq<u8>, Seq<u8>>(Seq::empty()))
        },
        expected_relay(v, m, WSMSGMessageTypeC2S::Message, data) == Some(Seq::<u64>::empty()),
{
    reveal(Seq::filter);
}

fn reply(id: u64, answer: Result<Vec<u8>, Vec<u8>>) -> (r: WSMSGResponse)
    ensures
        is_reply(
            r,
            id,
            match answer {
                Ok(p) => Ok(p@),
                Err(p) => Err(p@),
            },
        ),
{
    let (code, data) = match answer {
        Ok(p) => (0u8, p),
        Err(p) => (1u8, p),
    };
    WSMSGResponse {
        message_type: WSMSGMessageTypeS2C::Reply,
        message_id: Some(id),
        message_code: Some(code),
        message_data: data,
    }
}

impl Connection {
    /// Applies a decoded command of this connection: Message relays its
    /// payload to the channel that its first 32 bytes name, Ping echoes,
    /// ListSubscribed lists, Subscribe and Unsubscribe change this connection
    /// and the registry. A reply goes back unless the command's id is 0.
    pub fn handle_command(&mut self, reg: &mut Registry, cmd: WSMSGMessage) -> (r: Outcome)
        requires
            old(self).wf(),
            old(reg).wf(),
        ensures
            final(self).wf(),
            final(reg).wf(),
            final(self)@ == next_connection(old(self)@, cmd.message_type, cmd.message_data@),
            final(reg)@ == next_registry(
                old(self)@,
                old(reg)@,
                cmd.message_type,
                cmd.message_data@,
            ),
            outcome_ok(
                r,
                old(self)@,
                old(reg)@,
                cmd.message_id,
                cmd.message_type,
                cmd.message_data@,
            ),
    {
        let id = cmd.message_id;
        let data = cmd.message_data;
        let (answer, relay): (Result<Vec<u8>, Vec<u8>>, Option<Relay>) = match cmd.message_type {
            WSMSGMessageTypeC2S::Message => {
                if data.len() < TOKEN_LEN {
                    (Err(WSMSGMessageError::MessageMalformed.to_bytes()), None)
                } else {
                    let channel = vstd::slice::slice_to_vec(
                        vstd::slice::slice_subrange(data.as_slice(), 0, TOKEN_LEN),
                    );
                    let targets = reg.fanout_targets(&channel, self.id());
                    let message = WSMSGResponse {
                        message_type: WSMSGMessageTypeS2C::Message,
                        message_id: None,
                        message_code: None,
                        message_data: data,
                    };
                    (Ok(Vec::new()), Some(Relay { targets, message }))
                }
            },
            WSMSGMessageTypeC2S::Ping => (Ok(data), None),
            WSMSGMessageTypeC2S::ListSubscribed => (Ok(self.list_subscribed()), None),
            WSMSGMessageTypeC2S::Subscribe => match self.subscribe(reg, data) {
                Ok(()) => (Ok(Vec::new()), None),
                Err(e) => (Err(e.to_bytes()), None),
            },
            WSMSGMessageTypeC2S::Unsubscribe => match self.unsubscribe(reg, &data) {
                Ok(()) => (Ok(Vec::new()), None),
                Err(e) => (Err(e.to_bytes()), None),
            },
        };
        if id == 0 {
            Outcome { reply: None, relay }
        } else {
            Outcome { reply: Some(reply(id, answer)), relay }
        }
    }

    /// Handles one binary frame from this connection. A frame that does not
    /// decode changes nothing and is always answered, with id
    /// `UNDECODABLE_ID`, code 1 and the decode error's name; any other frame
    /// is handled as `handle_command` says.
    pub fn on_message(&mut self, reg: &mut Registry, frame: Vec<u8>) -> (r: Outcome)
        requires
            old(self).wf(),
            old(reg).wf(),
        ensures
            final(self).wf(),
            final(reg).wf(),
            match decoded(frame@) {
                Err(e) => {
                    &&& final(self)@ == old(self)@
                    &&& final(reg)@ == old(reg)@
                    &&& r.relay is None
                    &&& r.reply matches Some(resp) && is_reply(
                        resp,
                        UNDECODABLE_ID,
                        Err(decode_error_text(e)),
                    )
                },
                Ok((t, id, data)) => {
                    &&& final(self)@ == next_connection(old(self)@, t, data)
                    &&& final(reg)@ == next_registry(old(self)@, old(reg)@, t, data)
                    &&& outcome_ok(r, old(self)@, old(reg)@, id, t, data)
                },
            },
    {
        match WSMSGMessage::from_message(frame) {
            Ok(cmd) => self.handle_command(reg, cmd),
            Err(e) => Outcome { reply: Some(reply(UNDECODABLE_ID, Err(e.to_bytes()))), relay: None },
        }
    }
}

} // verus!
