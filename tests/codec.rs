use ws_relay::codec::{
    WSMSGMessage, WSMSGMessageError, WSMSGMessageTypeC2S, WSMSGMessageTypeS2C, WSMSGResponse,
};

#[test]
fn decode_short_frame_is_malformed() {
    let r = WSMSGMessage::from_message(vec![0, 0, 0, 0, 1]);
    assert!(matches!(r, Err(WSMSGMessageError::MessageMalformed)));
    let r = WSMSGMessage::from_message(vec![]);
    assert!(matches!(r, Err(WSMSGMessageError::MessageMalformed)));
}

#[test]
fn decode_unknown_type_is_invalid() {
    let r = WSMSGMessage::from_message(vec![4, 0, 0, 0, 0, 0, 0, 0, 1]);
    assert!(matches!(r, Err(WSMSGMessageError::InvalidMessageType)));
    let r = WSMSGMessage::from_message(vec![254, 0, 0, 0, 0, 0, 0, 0, 1, 9]);
    assert!(matches!(r, Err(WSMSGMessageError::InvalidMessageType)));
}

#[test]
fn decode_reads_type_id_and_payload() {
    let r = WSMSGMessage::from_message(vec![2, 1, 2, 3, 4, 5, 6, 7, 8, 10, 11]).unwrap();
    assert!(matches!(r.message_type, WSMSGMessageTypeC2S::Subscribe));
    assert_eq!(r.message_id, 0x0102030405060708);
    assert_eq!(r.message_data, vec![10, 11]);
}

#[test]
fn decode_nine_bytes_has_empty_payload() {
    let r = WSMSGMessage::from_message(vec![255, 255, 255, 255, 255, 255, 255, 255, 255]).unwrap();
    assert!(matches!(r.message_type, WSMSGMessageTypeC2S::Message));
    assert_eq!(r.message_id, u64::MAX);
    assert!(r.message_data.is_empty());
}

#[test]
fn encode_reply_with_id_and_code() {
    let resp = WSMSGResponse {
        message_type: WSMSGMessageTypeS2C::Reply,
        message_id: Some(5),
        message_code: Some(0),
        message_data: vec![7, 8],
    };
    assert_eq!(resp.to_message(), vec![0, 0, 0, 0, 0, 0, 0, 0, 5, 0, 7, 8]);
}

#[test]
fn encode_big_endian_id() {
    let resp = WSMSGResponse {
        message_type: WSMSGMessageTypeS2C::Reply,
        message_id: Some(0x0102030405060708),
        message_code: Some(1),
        message_data: vec![],
    };
    assert_eq!(resp.to_message(), vec![0, 1, 2, 3, 4, 5, 6, 7, 8, 1]);
}

#[test]
fn encode_relay_has_no_id_or_code() {
    let resp = WSMSGResponse {
        message_type: WSMSGMessageTypeS2C::Message,
        message_id: None,
        message_code: None,
        message_data: vec![1, 2, 3],
    };
    assert_eq!(resp.to_message(), vec![255, 1, 2, 3]);
}

#[test]
fn type_tables_round_trip() {
    for b in 0..=255u8 {
        if let Some(t) = WSMSGMessageTypeC2S::from_message_type(b) {
            assert_eq!(WSMSGMessageTypeC2S::to_message_type(t), b);
        }
        if let Some(t) = WSMSGMessageTypeS2C::from_message_type(b) {
            assert_eq!(WSMSGMessageTypeS2C::to_message_type(t), b);
        }
    }
    assert!(matches!(
        WSMSGMessageTypeC2S::from_message_type(2),
        Some(WSMSGMessageTypeC2S::Subscribe)
    ));
    assert!(WSMSGMessageTypeS2C::from_message_type(2).is_none());
    assert!(WSMSGMessageTypeC2S::from_message_type(4).is_none());
    assert_eq!(WSMSGMessageTypeC2S::to_message_type(WSMSGMessageTypeC2S::Message), 255);
    assert_eq!(WSMSGMessageTypeC2S::to_message_type(WSMSGMessageTypeC2S::Ping), 0);
    assert_eq!(WSMSGMessageTypeS2C::to_message_type(WSMSGMessageTypeS2C::Reply), 0);
}

#[test]
fn names_and_error_texts() {
    assert_eq!(WSMSGMessageTypeC2S::ListSubscribed.to_string(), "C2S_ListSubscribed");
    assert_eq!(WSMSGMessageTypeS2C::Reply.to_string(), "S2C_Reply");
    assert_eq!(WSMSGMessageError::MessageMalformed.to_bytes(), b"MessageMalformed".to_vec());
    assert_eq!(WSMSGMessageError::InvalidMessageType.to_bytes(), b"InvalidMessageType".to_vec());
}
