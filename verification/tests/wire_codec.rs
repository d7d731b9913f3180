use base64::Engine;
use frost_swarm::wire::JoinInvitation;
use frost_swarm::wire::SignRequest;
use frost_swarm::wire::decode_join_message;
use frost_swarm::wire::decode_sign_message;
use frost_swarm::wire::encode_join_message;
use frost_swarm::wire::encode_sign_message;
use frost_swarm::wire::frame;
use frost_swarm::wire::gen_round_one_message;
use frost_swarm::wire::join_gen_tag;
use frost_swarm::wire::sign_r1_tag;
use frost_swarm::wire::unframe;

fn sid() -> Vec<u8> {
    b"AAAAAAAAAAAAAAAAAAAAAAAAAAAAAAAA".to_vec()
}

#[test]
fn frame_then_unframe_round_trips() {
    let tag = join_gen_tag();
    let payload = b"hello world".to_vec();
    let framed = frame(&tag, &payload);
    assert_eq!(&framed[..9], b"JOIN_GEN ");
    let (t, p) = unframe(&framed).expect("framed message must unframe");
    assert_eq!(t, b"JOIN_GEN".to_vec());
    assert_eq!(p, payload);
}

#[test]
fn unframe_rejects_spaceless_bytes() {
    assert!(unframe(&b"JOIN_GEN".to_vec()).is_none());
}

#[test]
fn unframe_rejects_leading_space() {
    assert!(unframe(&b" payload".to_vec()).is_none());
}

#[test]
fn tags_are_their_ascii_names() {
    assert_eq!(join_gen_tag(), b"JOIN_GEN".to_vec());
    assert_eq!(sign_r1_tag(), b"SIGN_R1".to_vec());
    assert_eq!(gen_round_one_message(), b"GEN_R1".to_vec());
}

#[test]
fn join_invitation_round_trips() {
    let inv = JoinInvitation {
        session_id: sid(),
        inviter: b"12D3KooWPeer".to_vec(),
        index: 2,
        addresses: vec![b"/ip4/127.0.0.1/tcp/4001".to_vec(), b"/ip4/10.0.0.7/tcp/4001".to_vec()],
    };
    let msg = encode_join_message(&inv);
    let back = decode_join_message(&msg).expect("own envelope must decode");
    assert_eq!(back.session_id, inv.session_id);
    assert_eq!(back.inviter, inv.inviter);
    assert_eq!(back.index, 2);
    assert_eq!(back.addresses, inv.addresses);
}

#[test]
fn join_envelope_is_tag_space_base64_of_bincode() {
    let inv = JoinInvitation {
        session_id: sid(),
        inviter: b"me".to_vec(),
        index: 1,
        addresses: vec![b"/ip4/127.0.0.1/tcp/4001".to_vec()],
    };
    let msg = encode_join_message(&inv);
    let text = String::from_utf8(msg).expect("envelope is ascii");
    let payload = text.strip_prefix("JOIN_GEN ").expect("envelope starts with its tag");
    let body = base64::engine::general_purpose::STANDARD
        .decode(payload)
        .expect("payload is standard base64");
    let expected = bincode::serialize(&(
        inv.session_id.clone(),
        inv.inviter.clone(),
        1u16,
        inv.addresses.clone(),
    ))
    .unwrap();
    assert_eq!(body, expected);
}

#[test]
fn join_decode_rejects_other_tags() {
    let req = SignRequest {
        session_id: sid(),
        group_key: b"key".to_vec(),
        message: b"msg".to_vec(),
    };
    let msg = encode_sign_message(&req);
    assert!(decode_join_message(&msg).is_none());
}

#[test]
fn join_decode_rejects_corrupt_base64() {
    let inv = JoinInvitation {
        session_id: sid(),
        inviter: b"me".to_vec(),
        index: 1,
        addresses: vec![],
    };
    let mut msg = encode_join_message(&inv);
    let last = msg.len() - 1;
    msg[last] = b'!';
    assert!(decode_join_message(&msg).is_none());
}

#[test]
fn sign_request_round_trips() {
    let req = SignRequest {
        session_id: sid(),
        group_key: vec![7u8; 32],
        message: b"the message to sign".to_vec(),
    };
    let msg = encode_sign_message(&req);
    assert_eq!(&msg[..8], b"SIGN_R1 ");
    let back = decode_sign_message(&msg).expect("own envelope must decode");
    assert_eq!(back.session_id, req.session_id);
    assert_eq!(back.group_key, req.group_key);
    assert_eq!(back.message, req.message);
}
