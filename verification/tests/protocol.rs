use duocb::protocol::{
    announced_length, check_version, decode_auth_request, decode_auth_response, decode_clip_msg,
    decode_pin_challenge, decode_pin_confirm, decode_pin_response, encode_auth_request,
    encode_auth_response, encode_clip_msg, encode_pin_challenge, encode_pin_confirm,
    encode_pin_response, frame_of, open_frame, truncate_reason, AuthRequest, AuthResponse,
    AuthToken, ClipBody, ClipMsg, PinChallenge, PinConfirm, PinResponse, DUOCB_PROTO_VERSION,
    MAX_CLIP_MESSAGE_SIZE, MAX_CONTROL_MESSAGE_SIZE, MAX_REJECT_REASON_LENGTH,
};

fn framed(body: &[u8]) -> Vec<u8> {
    let mut buf = Vec::from((body.len() as u32).to_be_bytes());
    buf.extend_from_slice(body);
    buf
}

#[test]
fn test_auth_token_debug_redacts_value() {
    let token = AuthToken::new("super_secret_token");
    let debug_output = token.redacted();
    assert_eq!(debug_output, "AuthToken(***)");
    assert!(!debug_output.contains("super_secret"));
}

#[test]
fn test_auth_token_accessors() {
    let token = AuthToken::new("my_token_value_");
    assert_eq!(token.as_str(), "my_token_value_");
    assert_eq!(token.as_ref(), "my_token_value_");
    assert_eq!(&*token, "my_token_value_");
}

#[test]
fn test_truncate_reason_no_truncation() {
    let reason = "short reason".to_string();
    let result = truncate_reason(reason.clone(), 100);
    assert_eq!(result, reason);
}

#[test]
fn test_truncate_reason_ascii_truncation() {
    let reason = "a".repeat(20);
    let result = truncate_reason(reason, 10);
    assert_eq!(result, "aaaaaaa...");
    assert_eq!(result.len(), 10);
}

#[test]
fn test_truncate_reason_utf8_safe_truncation() {
    let reason = "ééééé".to_string();
    let result = truncate_reason(reason, 8);
    assert_eq!(result, "éé...");
    assert!(result.len() <= 8);
}

#[test]
fn truncation_with_no_room_for_dots() {
    assert_eq!(truncate_reason("abcdef".to_string(), 3), "...");
    let reason = "z".repeat(MAX_REJECT_REASON_LENGTH);
    assert_eq!(truncate_reason(reason.clone(), MAX_REJECT_REASON_LENGTH), reason);
}

#[test]
fn test_decode_auth_request_too_short() {
    assert!(decode_auth_request(&[0, 0]).is_err());
}

#[test]
fn test_decode_auth_request_incomplete() {
    let mut buf = vec![0, 0, 0, 100];
    buf.extend_from_slice(b"abcd");
    assert!(decode_auth_request(&buf).is_err());
}

#[test]
fn test_decode_auth_request_invalid_json() {
    let body = b"not json";
    let len = (body.len() as u32).to_be_bytes();
    let mut buf = Vec::from(len);
    buf.extend_from_slice(body);
    assert!(decode_auth_request(&buf).is_err());
}

#[test]
fn test_decode_rejects_trailing_bytes() {
    let mut buf = encode_auth_request(&AuthRequest::new("tok")).ok().unwrap();
    assert!(decode_auth_request(&buf).is_ok());
    buf.extend_from_slice(b"trailing");
    let err = decode_auth_request(&buf).err().unwrap();
    assert!(err.contains("trailing"));
}

#[test]
fn test_decode_control_exceeds_max_size() {
    let len = ((MAX_CONTROL_MESSAGE_SIZE + 1) as u32).to_be_bytes();
    let buf = Vec::from(len);
    let err = decode_auth_request(&buf).err().unwrap();
    assert!(err.contains("too large"));
}

#[test]
fn test_auth_request_token_roundtrip() {
    let req = AuthRequest::new("my_secret_token");
    let encoded = encode_auth_request(&req).unwrap();
    let decoded = decode_auth_request(&encoded).ok().unwrap();
    match decoded {
        AuthRequest::Token { version, auth_token } => {
            assert_eq!(version, DUOCB_PROTO_VERSION);
            assert_eq!(auth_token.as_str(), "my_secret_token");
        }
        AuthRequest::Pin { .. } => panic!("expected Token"),
    }
}

#[test]
fn test_auth_request_pin_roundtrip() {
    let req = AuthRequest::pin("bm9uY2U");
    let decoded = decode_auth_request(&encode_auth_request(&req).unwrap()).ok().unwrap();
    match decoded {
        AuthRequest::Pin { version, nonce } => {
            assert_eq!(version, DUOCB_PROTO_VERSION);
            assert_eq!(nonce, "bm9uY2U");
        }
        AuthRequest::Token { .. } => panic!("expected Pin"),
    }
}

#[test]
fn test_auth_request_wrong_version_rejected() {
    let json = br#"{"method":"Pin","version":99,"nonce":"x"}"#;
    let len = (json.len() as u32).to_be_bytes();
    let mut buf = Vec::from(len);
    buf.extend_from_slice(json);
    let err = decode_auth_request(&buf).err().unwrap();
    assert!(err.contains("version mismatch"));
}

#[test]
fn test_pin_challenge_response_roundtrip() {
    let challenge = PinChallenge::new("listener-nonce");
    let decoded = decode_pin_challenge(&encode_pin_challenge(&challenge).unwrap()).ok().unwrap();
    assert_eq!(decoded.version, DUOCB_PROTO_VERSION);
    assert_eq!(decoded.nonce, "listener-nonce");

    let response = PinResponse::new("sealed-proof");
    let decoded = decode_pin_response(&encode_pin_response(&response).unwrap()).ok().unwrap();
    assert_eq!(decoded.version, DUOCB_PROTO_VERSION);
    assert_eq!(decoded.proof, "sealed-proof");
}

#[test]
fn test_pin_confirm_roundtrip() {
    let ok = PinConfirm::accepted("listener-proof");
    let decoded = decode_pin_confirm(&encode_pin_confirm(&ok).unwrap()).ok().unwrap();
    assert!(decoded.accepted);
    assert_eq!(decoded.proof.as_deref(), Some("listener-proof"));
    assert!(decoded.reason.is_none());

    let rej = PinConfirm::rejected("no matching pin");
    let decoded = decode_pin_confirm(&encode_pin_confirm(&rej).unwrap()).ok().unwrap();
    assert!(!decoded.accepted);
    assert_eq!(decoded.reason.as_deref(), Some("no matching pin"));
    assert!(decoded.proof.is_none());
}

#[test]
fn test_auth_response_accepted_roundtrip() {
    let resp = AuthResponse::accepted();
    let encoded = encode_auth_response(&resp).unwrap();
    let decoded = decode_auth_response(&encoded).ok().unwrap();
    assert_eq!(decoded.version, DUOCB_PROTO_VERSION);
    assert!(decoded.accepted);
    assert!(decoded.reason.is_none());
}

#[test]
fn test_auth_response_rejected_roundtrip() {
    let resp = AuthResponse::rejected("bad token");
    let encoded = encode_auth_response(&resp).unwrap();
    let decoded = decode_auth_response(&encoded).ok().unwrap();
    assert_eq!(decoded.version, DUOCB_PROTO_VERSION);
    assert!(!decoded.accepted);
    assert_eq!(decoded.reason.as_deref(), Some("bad token"));
}

#[test]
fn test_clip_msg_item_roundtrip() {
    let msg = ClipMsg::item("hello 🔐 world\nline two", 1_720_000_000_123);
    let decoded = decode_clip_msg(&encode_clip_msg(&msg).unwrap()).ok().unwrap();
    assert_eq!(decoded.version, DUOCB_PROTO_VERSION);
    let ClipBody::Item { text, sent_at_ms } = decoded.body else {
        panic!("expected Item");
    };
    assert_eq!(text, "hello 🔐 world\nline two");
    assert_eq!(sent_at_ms, 1_720_000_000_123);
}

#[test]
fn test_clip_msg_pull_latest_and_latest_roundtrip() {
    let decoded = decode_clip_msg(&encode_clip_msg(&ClipMsg::pull_latest()).unwrap()).ok().unwrap();
    assert!(matches!(decoded.body, ClipBody::PullLatest));

    let decoded =
        decode_clip_msg(&encode_clip_msg(&ClipMsg::latest("resumed", 42)).unwrap()).ok().unwrap();
    let ClipBody::Latest { text, sent_at_ms } = decoded.body else {
        panic!("expected Latest");
    };
    assert_eq!(text, "resumed");
    assert_eq!(sent_at_ms, 42);
}

#[test]
fn test_clip_msg_accepts_larger_than_control_cap() {
    let msg = ClipMsg::item(&"x".repeat(MAX_CONTROL_MESSAGE_SIZE * 2), 0);
    let encoded = encode_clip_msg(&msg).unwrap();
    assert!(encoded.len() > MAX_CONTROL_MESSAGE_SIZE);
    assert!(decode_clip_msg(&encoded).is_ok());
}

#[test]
fn test_clip_msg_encode_exceeds_max_size() {
    let msg = ClipMsg::item(&"x".repeat(MAX_CLIP_MESSAGE_SIZE), 0);
    let err = encode_clip_msg(&msg).unwrap_err();
    assert!(err.contains("too large"));
}

#[test]
fn test_clip_msg_decode_exceeds_max_size() {
    let len = ((MAX_CLIP_MESSAGE_SIZE + 1) as u32).to_be_bytes();
    let buf = Vec::from(len);
    let err = decode_clip_msg(&buf).err().unwrap();
    assert!(err.contains("too large"));
}

#[test]
fn test_clip_msg_wrong_version_rejected() {
    let json = br#"{"version":99,"kind":"item","text":"x","sent_at_ms":0}"#;
    let len = (json.len() as u32).to_be_bytes();
    let mut buf = Vec::from(len);
    buf.extend_from_slice(json);
    let err = decode_clip_msg(&buf).err().unwrap();
    assert!(err.contains("version mismatch"));
}

#[test]
fn announced_length_respects_max() {
    let msg = ClipMsg::item(&"y".repeat(MAX_CONTROL_MESSAGE_SIZE * 2), 0);
    let encoded = encode_clip_msg(&msg).unwrap();
    let err = announced_length(&encoded[..4], MAX_CONTROL_MESSAGE_SIZE).unwrap_err();
    assert!(err.contains("too large"));
    assert_eq!(announced_length(&encoded[..4], MAX_CLIP_MESSAGE_SIZE), Ok(encoded.len() - 4));
    assert_eq!(announced_length(&[0, 0, 1, 2], 1000), Ok(258));
}

#[test]
fn frames_hold_a_length_and_the_json_of_the_message() {
    let frame = encode_auth_response(&AuthResponse::accepted()).unwrap();
    let body: &[u8] = &frame[4..];
    assert_eq!(frame[..4], (body.len() as u32).to_be_bytes());
    assert_eq!(body, br#"{"version":2,"accepted":true}"#);

    let frame = encode_clip_msg(&ClipMsg::item("a\"b\\c\u{1}\n", 7)).unwrap();
    assert_eq!(
        std::str::from_utf8(&frame[4..]),
        Ok("{\"version\":2,\"kind\":\"item\",\"text\":\"a\\\"b\\\\c\\u0001\\n\",\"sent_at_ms\":7}")
    );

    let frame = encode_auth_request(&AuthRequest::pin("bm9uY2U")).unwrap();
    assert_eq!(
        std::str::from_utf8(&frame[4..]),
        Ok(r#"{"method":"Pin","version":2,"nonce":"bm9uY2U"}"#)
    );
}

#[test]
fn bodies_that_miss_a_field_are_refused() {
    assert!(decode_pin_challenge(&framed(br#"{"version":2}"#)).is_err());
    assert!(decode_pin_challenge(&framed(br#"{"version":2,"nonce":7}"#)).is_err());
    assert!(decode_clip_msg(&framed(br#"{"version":2,"kind":"other"}"#)).is_err());
    assert!(decode_auth_response(&framed(br#"{"version":2,"accepted":true}"#)).is_ok());
}

#[test]
fn a_frame_holds_its_body_and_a_version_is_checked() {
    let frame = frame_of(b"abc", 3, "message").unwrap();
    assert_eq!(frame, [0, 0, 0, 3, b'a', b'b', b'c']);
    assert_eq!(open_frame(&frame, 3, "message"), Ok(&b"abc"[..]));
    assert_eq!(frame_of(b"abc", 2, "message"), Err("message too large: 3 bytes".to_string()));
    assert!(open_frame(&frame[..6], 3, "message").is_err());
    assert_eq!(check_version(DUOCB_PROTO_VERSION, "message"), Ok(()));
    assert!(check_version(DUOCB_PROTO_VERSION + 1, "message")
        .unwrap_err()
        .starts_with("message version mismatch: expected "));
}
