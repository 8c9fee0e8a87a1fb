use ws_relay::codec::{WSMSGMessageTypeS2C, WSMSGResponse};
use ws_relay::connection::{ChannelError, Connection, DEFAULT_MAX_CHANNELS};
use ws_relay::dispatch::{Outcome, UNDECODABLE_ID};
use ws_relay::registry::Registry;

fn frame(t: u8, id: u64, payload: &[u8]) -> Vec<u8> {
    let mut f = vec![t];
    f.extend_from_slice(&id.to_be_bytes());
    f.extend_from_slice(payload);
    f
}

fn channel(b: u8) -> Vec<u8> {
    vec![b; 32]
}

fn assert_reply(r: &Option<WSMSGResponse>, id: u64, code: u8, data: &[u8]) {
    let r = r.as_ref().expect("a reply");
    assert!(matches!(r.message_type, WSMSGMessageTypeS2C::Reply));
    assert_eq!(r.message_id, Some(id));
    assert_eq!(r.message_code, Some(code));
    assert_eq!(r.message_data, data.to_vec());
}

fn silent(o: &Outcome) -> bool {
    o.reply.is_none() && o.relay.is_none()
}

#[test]
fn message_fans_out_to_other_subscribers() {
    let mut reg = Registry::new();
    let mut a = Connection::new(1, DEFAULT_MAX_CHANNELS);
    let mut b = Connection::new(2, DEFAULT_MAX_CHANNELS);
    let c = channel(1);
    assert_reply(&a.on_message(&mut reg, frame(2, 1, &c)).reply, 1, 0, &[]);
    assert_reply(&b.on_message(&mut reg, frame(2, 1, &c)).reply, 1, 0, &[]);
    let mut payload = c.clone();
    payload.extend_from_slice(b"hello");
    assert_eq!(payload.len(), 37);
    let out = a.on_message(&mut reg, frame(255, 5, &payload));
    assert_reply(&out.reply, 5, 0, &[]);
    let relay = out.relay.expect("a relay");
    assert_eq!(relay.targets, vec![2]);
    assert_eq!(relay.message.to_message(), {
        let mut f = vec![255u8];
        f.extend_from_slice(&payload);
        f
    });
    assert_eq!(relay.message.message_id, None);
    assert_eq!(relay.message.message_code, None);
}

#[test]
fn undecodable_frame_gets_sentinel_reply() {
    let mut reg = Registry::new();
    let mut a = Connection::new(1, DEFAULT_MAX_CHANNELS);
    let out = a.on_message(&mut reg, vec![0, 0, 0, 0, 0]);
    assert_reply(&out.reply, u64::MAX, 1, b"MessageMalformed");
    assert!(out.relay.is_none());
    assert_eq!(UNDECODABLE_ID, u64::MAX);
    let bytes = out.reply.unwrap().to_message();
    let mut expected = vec![0u8, 255, 255, 255, 255, 255, 255, 255, 255, 1];
    expected.extend_from_slice(b"MessageMalformed");
    assert_eq!(bytes, expected);
}

#[test]
fn unknown_type_gets_sentinel_reply_even_with_id_zero() {
    let mut reg = Registry::new();
    let mut a = Connection::new(1, DEFAULT_MAX_CHANNELS);
    let out = a.on_message(&mut reg, frame(7, 0, &[]));
    assert_reply(&out.reply, u64::MAX, 1, b"InvalidMessageType");
}

#[test]
fn close_keeps_shared_channel_and_drops_exclusive_one() {
    let mut reg = Registry::new();
    let mut a = Connection::new(1, DEFAULT_MAX_CHANNELS);
    let mut b = Connection::new(2, DEFAULT_MAX_CHANNELS);
    let shared = channel(1);
    let own = channel(2);
    assert!(a.subscribe(&mut reg, shared.clone()).is_ok());
    assert!(a.subscribe(&mut reg, own.clone()).is_ok());
    assert!(b.subscribe(&mut reg, shared.clone()).is_ok());
    a.on_close(&mut reg);
    assert_eq!(reg.subscribers(&shared), vec![2]);
    assert!(reg.subscribers(&own).is_empty());
    b.on_close(&mut reg);
    assert!(reg.subscribers(&shared).is_empty());
}

#[test]
fn subscribe_then_unsubscribe_restores_state() {
    let mut reg = Registry::new();
    let mut a = Connection::new(1, DEFAULT_MAX_CHANNELS);
    let c = channel(3);
    assert_eq!(a.subscribe(&mut reg, c.clone()), Ok(()));
    assert_eq!(a.channel_count(), 1);
    assert_eq!(reg.subscribers(&c), vec![1]);
    assert_eq!(a.unsubscribe(&mut reg, &c), Ok(()));
    assert_eq!(a.channel_count(), 0);
    assert!(reg.subscribers(&c).is_empty());
}

#[test]
fn unsubscribe_keeps_other_subscribers() {
    let mut reg = Registry::new();
    let mut a = Connection::new(1, DEFAULT_MAX_CHANNELS);
    let mut b = Connection::new(2, DEFAULT_MAX_CHANNELS);
    let c = channel(3);
    assert!(a.subscribe(&mut reg, c.clone()).is_ok());
    assert!(b.subscribe(&mut reg, c.clone()).is_ok());
    let out = a.on_message(&mut reg, frame(3, 9, &c));
    assert_reply(&out.reply, 9, 0, &[]);
    assert_eq!(reg.subscribers(&c), vec![2]);
}

#[test]
fn subscribe_twice_is_refused() {
    let mut reg = Registry::new();
    let mut a = Connection::new(1, DEFAULT_MAX_CHANNELS);
    let c = channel(4);
    assert_reply(&a.on_message(&mut reg, frame(2, 1, &c)).reply, 1, 0, &[]);
    let out = a.on_message(&mut reg, frame(2, 2, &c));
    assert_reply(&out.reply, 2, 1, b"Already subscribed");
    assert_eq!(a.channel_count(), 1);
    assert_eq!(reg.subscribers(&c), vec![1]);
}

#[test]
fn subscribe_past_cap_is_refused() {
    let mut reg = Registry::new();
    let mut a = Connection::new(1, 2);
    assert!(a.subscribe(&mut reg, channel(1)).is_ok());
    assert!(a.subscribe(&mut reg, channel(2)).is_ok());
    let out = a.on_message(&mut reg, frame(2, 3, &channel(3)));
    assert_reply(&out.reply, 3, 1, b"Too many channels");
    assert_eq!(a.channel_count(), 2);
    assert!(reg.subscribers(&channel(3)).is_empty());
    assert_eq!(a.subscribe(&mut reg, channel(3)), Err(ChannelError::TooManyChannels));
}

#[test]
fn subscribe_with_wrong_length_is_refused() {
    let mut reg = Registry::new();
    let mut a = Connection::new(1, DEFAULT_MAX_CHANNELS);
    let out = a.on_message(&mut reg, frame(2, 4, &[1u8; 31]));
    assert_reply(&out.reply, 4, 1, b"Expected token length 32");
    let out = a.on_message(&mut reg, frame(3, 4, &[1u8; 33]));
    assert_reply(&out.reply, 4, 1, b"Expected token length 32");
    assert_eq!(a.channel_count(), 0);
}

#[test]
fn unsubscribe_unknown_channel_is_refused() {
    let mut reg = Registry::new();
    let mut a = Connection::new(1, DEFAULT_MAX_CHANNELS);
    let out = a.on_message(&mut reg, frame(3, 6, &channel(5)));
    assert_reply(&out.reply, 6, 1, b"Not subscribed");
    assert_eq!(a.unsubscribe(&mut reg, &channel(5)), Err(ChannelError::NotSubscribed));
}

#[test]
fn short_message_is_malformed_or_silent() {
    let mut reg = Registry::new();
    let mut a = Connection::new(1, DEFAULT_MAX_CHANNELS);
    let out = a.on_message(&mut reg, frame(255, 8, &[1u8; 31]));
    assert_reply(&out.reply, 8, 1, b"MessageMalformed");
    assert!(out.relay.is_none());
    let out = a.on_message(&mut reg, frame(255, 0, &[1u8; 31]));
    assert!(silent(&out));
}

#[test]
fn message_to_empty_channel_succeeds() {
    let mut reg = Registry::new();
    let mut a = Connection::new(1, DEFAULT_MAX_CHANNELS);
    let out = a.on_message(&mut reg, frame(255, 11, &channel(9)));
    assert_reply(&out.reply, 11, 0, &[]);
    assert!(out.relay.expect("a relay").targets.is_empty());
    let out = a.on_message(&mut reg, frame(255, 0, &channel(9)));
    assert!(out.reply.is_none());
}

#[test]
fn id_zero_is_never_answered() {
    let mut reg = Registry::new();
    let mut a = Connection::new(1, DEFAULT_MAX_CHANNELS);
    assert!(silent(&a.on_message(&mut reg, frame(0, 0, b"x"))));
    assert!(silent(&a.on_message(&mut reg, frame(1, 0, &[]))));
    assert!(silent(&a.on_message(&mut reg, frame(2, 0, &channel(1)))));
    assert_eq!(a.channel_count(), 1);
    assert!(silent(&a.on_message(&mut reg, frame(2, 0, &channel(1)))));
    assert!(silent(&a.on_message(&mut reg, frame(3, 0, &[1]))));
    assert!(silent(&a.on_message(&mut reg, frame(3, 0, &channel(1)))));
    assert_eq!(a.channel_count(), 0);
}

#[test]
fn ping_echoes_payload() {
    let mut reg = Registry::new();
    let mut a = Connection::new(1, DEFAULT_MAX_CHANNELS);
    let out = a.on_message(&mut reg, frame(0, 42, b"abc"));
    assert_reply(&out.reply, 42, 0, b"abc");
    assert!(out.relay.is_none());
}

#[test]
fn list_subscribed_concatenates_in_order() {
    let mut reg = Registry::new();
    let mut a = Connection::new(1, DEFAULT_MAX_CHANNELS);
    assert_reply(&a.on_message(&mut reg, frame(1, 2, &[])).reply, 2, 0, &[]);
    assert!(a.subscribe(&mut reg, channel(7)).is_ok());
    assert!(a.subscribe(&mut reg, channel(3)).is_ok());
    let mut expected = channel(7);
    expected.extend_from_slice(&channel(3));
    assert_reply(&a.on_message(&mut reg, frame(1, 2, &[])).reply, 2, 0, &expected);
    assert_eq!(a.list_subscribed(), expected);
}

#[test]
fn open_subscribes_header_tokens() {
    let mut reg = Registry::new();
    let mut a = Connection::new(1, 2);
    let mut value = channel(1);
    value.extend_from_slice(&channel(1));
    value.extend_from_slice(&channel(2));
    value.extend_from_slice(&channel(3));
    value.extend_from_slice(&[9u8; 5]);
    let headers = vec![
        (b"Host".to_vec(), channel(8)),
        (b"X-Token".to_vec(), value),
    ];
    a.on_open(&mut reg, &headers);
    let mut expected = channel(1);
    expected.extend_from_slice(&channel(2));
    assert_eq!(a.list_subscribed(), expected);
    assert_eq!(reg.subscribers(&channel(1)), vec![1]);
    assert_eq!(reg.subscribers(&channel(2)), vec![1]);
    assert!(reg.subscribers(&channel(3)).is_empty());
    assert!(reg.subscribers(&channel(8)).is_empty());
}

#[test]
fn registry_join_is_idempotent() {
    let mut reg = Registry::new();
    let c = channel(6);
    reg.join(&c, 4);
    reg.join(&c, 4);
    reg.join(&c, 5);
    assert_eq!(reg.subscribers(&c), vec![4, 5]);
    assert_eq!(reg.fanout_targets(&c, 4), vec![5]);
    reg.leave(&c, 4);
    reg.leave(&c, 4);
    assert_eq!(reg.subscribers(&c), vec![5]);
    reg.leave(&c, 5);
    assert!(reg.subscribers(&c).is_empty());
}

#[test]
fn channel_error_texts() {
    assert_eq!(ChannelError::WrongTokenLength.to_bytes(), b"Expected token length 32".to_vec());
    assert_eq!(ChannelError::AlreadySubscribed.to_bytes(), b"Already subscribed".to_vec());
    assert_eq!(ChannelError::TooManyChannels.to_bytes(), b"Too many channels".to_vec());
    assert_eq!(ChannelError::NotSubscribed.to_bytes(), b"Not subscribed".to_vec());
}

#[test]
fn close_twice_changes_nothing_more() {
    let mut reg = Registry::new();
    let mut a = Connection::new(1, DEFAULT_MAX_CHANNELS);
    let mut b = Connection::new(2, DEFAULT_MAX_CHANNELS);
    assert!(a.subscribe(&mut reg, channel(1)).is_ok());
    assert!(b.subscribe(&mut reg, channel(1)).is_ok());
    a.on_close(&mut reg);
    a.on_close(&mut reg);
    assert_eq!(reg.subscribers(&channel(1)), vec![2]);
}
