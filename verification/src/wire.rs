//! Wire envelope codec.
//!
//! A session message travels as a textual command tag, one ASCII space, and
//! a base64 payload holding a bincode-serialized body. The tag and the
//! framing are this crate's own format; the body encodings are delegated to
//! the bincode and base64 crates behind trusted wrappers.

use vstd::prelude::*;
use base64::Engine;
use crate::bytes_eq;

verus! {

/// The byte envelope carried on the wire: tag, one space, payload.
pub open spec fn frame_spec(tag: Seq<u8>, payload: Seq<u8>) -> Seq<u8> {
    tag + seq![32u8] + payload
}

/// A well-formed command tag: non-empty and free of the space separator.
pub open spec fn valid_tag(tag: Seq<u8>) -> bool {
    tag.len() > 0 && forall|i: int| 0 <= i < tag.len() ==> tag[i] != 32u8
}

/// The tag of a generation join invitation, "JOIN_GEN".
pub open spec fn join_tag_spec() -> Seq<u8> {
    seq![74u8, 79u8, 73u8, 78u8, 95u8, 71u8, 69u8, 78u8]
}

/// The tag of a signing round-one request, "SIGN_R1".
pub open spec fn sign_tag_spec() -> Seq<u8> {
    seq![83u8, 73u8, 71u8, 78u8, 95u8, 82u8, 49u8]
}

/// The generation round-one start signal, "GEN_R1", broadcast bare.
pub open spec fn gen_round_one_spec() -> Seq<u8> {
    seq![71u8, 69u8, 78u8, 95u8, 82u8, 49u8]
}

/// The "JOIN_GEN" tag as bytes.
pub fn join_gen_tag() -> (r: Vec<u8>)
    ensures
        r@ == join_tag_spec(),
        valid_tag(r@),
{
    let r = vec![74u8, 79u8, 73u8, 78u8, 95u8, 71u8, 69u8, 78u8];
    proof {
        assert(r@ =~= join_tag_spec());
    }
    r
}

/// The "SIGN_R1" tag as bytes.
pub fn sign_r1_tag() -> (r: Vec<u8>)
    ensures
        r@ == sign_tag_spec(),
        valid_tag(r@),
{
    let r = vec![83u8, 73u8, 71u8, 78u8, 95u8, 82u8, 49u8];
    proof {
        assert(r@ =~= sign_tag_spec());
    }
    r
}

/// The "GEN_R1" round-start signal as bytes.
pub fn gen_round_one_message() -> (r: Vec<u8>)
    ensures
        r@ == gen_round_one_spec(),
{
    let r = vec![71u8, 69u8, 78u8, 95u8, 82u8, 49u8];
    proof {
        assert(r@ =~= gen_round_one_spec());
    }
    r
}

/// Copies the byte range `from..to` out of a byte string.
pub fn subvec(v: &Vec<u8>, from: usize, to: usize) -> (r: Vec<u8>)
    requires
        from <= to <= v@.len(),
    ensures
        r@ == v@.subrange(from as int, to as int),
{
    let mut r: Vec<u8> = Vec::new();
    let mut i: usize = from;
    while i < to
        invariant
            from <= i <= to <= v@.len(),
            r@ =~= v@.subrange(from as int, i as int),
        decreases to - i,
    {
        r.push(v[i]);
        assert(r@ =~= v@.subrange(from as int, i as int + 1));
        i = i + 1;
    }
    r
}

/// Wraps a payload in the wire envelope under the given tag.
pub fn frame(tag: &Vec<u8>, payload: &Vec<u8>) -> (r: Vec<u8>)
    ensures
        r@ == frame_spec(tag@, payload@),
{
    let mut r: Vec<u8> = Vec::new();
    let mut i: usize = 0;
    while i < tag.len()
        invariant
            0 <= i <= tag@.len(),
            r@ =~= tag@.subrange(0, i as int),
        decreases tag@.len() - i,
    {
        r.push(tag[i]);
        assert(r@ =~= tag@.subrange(0, i as int + 1));
        i = i + 1;
    }
    assert(r@ =~= tag@);
    r.push(32u8);
    let mut j: usize = 0;
    while j < payload.len()
        invariant
            0 <= j <= payload@.len(),
            r@ =~= tag@ + seq![32u8] + payload@.subrange(0, j as int),
        decreases payload@.len() - j,
    {
        r.push(payload[j]);
        assert(r@ =~= tag@ + seq![32u8] + payload@.subrange(0, j as int + 1));
        j = j + 1;
    }
    assert(r@ =~= frame_spec(tag@, payload@));
    r
}

/// A frame with a well-formed tag decomposes in only one way: the tag ends
/// at the first space.
pub proof fn lemma_frame_unique(t1: Seq<u8>, p1: Seq<u8>, t2: Seq<u8>, p2: Seq<u8>)
    requires
        valid_tag(t1),
        valid_tag(t2),
        frame_spec(t1, p1) == frame_spec(t2, p2),
    ensures
        t1 == t2,
        p1 == p2,
{
    let m1 = frame_spec(t1, p1);
    let m2 = frame_spec(t2, p2);
    assert(m1[t1.len() as int] == 32u8);
    assert(m2[t2.len() as int] == 32u8);
    if t1.len() < t2.len() {
        assert(m2[t1.len() as int] == t2[t1.len() as int]);
        assert(false);
    }
    if t2.len() < t1.len() {
        assert(m1[t2.len() as int] == t1[t2.len() as int]);
        assert(false);
    }
    assert(t1.len() == t2.len());
    assert forall|i: int| 0 <= i < t1.len() implies t1[i] == t2[i] by {
        assert(m1[i] == t1[i]);
        assert(m2[i] == t2[i]);
    }
    assert(t1 =~= t2);
    assert(m1.len() == t1.len() + 1 + p1.len());
    assert(m2.len() == t2.len() + 1 + p2.len());
    assert(p1.len() == p2.len());
    assert forall|i: int| 0 <= i < p1.len() implies p1[i] == p2[i] by {
        assert(m1[t1.len() + 1 + i] == p1[i]);
        assert(m2[t2.len() + 1 + i] == p2[i]);
    }
    assert(p1 =~= p2);
}

/// Splits a wire envelope at the first space into tag and payload; rejects
/// byte strings that are no envelope.
pub fn unframe(msg: &Vec<u8>) -> (r: Option<(Vec<u8>, Vec<u8>)>)
    ensures
        r matches Some(tp) ==> valid_tag(tp.0@) && msg@ == frame_spec(tp.0@, tp.1@),
        forall|t: Seq<u8>, p: Seq<u8>|
            valid_tag(t) && msg@ == #[trigger] frame_spec(t, p) ==> r is Some,
{
    let mut j: usize = 0;
    while j < msg.len() && msg[j] != 32u8
        invariant
            0 <= j <= msg@.len(),
            forall|i: int| 0 <= i < j ==> msg@[i] != 32u8,
        decreases msg@.len() - j,
    {
        j = j + 1;
    }
    if j == msg.len() {
        proof {
            assert forall|t: Seq<u8>, p: Seq<u8>|
                !(valid_tag(t) && msg@ == #[trigger] frame_spec(t, p)) by {
                if valid_tag(t) && msg@ == frame_spec(t, p) {
                    assert(msg@[t.len() as int] == 32u8);
                }
            }
        }
        return None;
    }
    if j == 0 {
        proof {
            assert forall|t: Seq<u8>, p: Seq<u8>|
                !(valid_tag(t) && msg@ == #[trigger] frame_spec(t, p)) by {
                if valid_tag(t) && msg@ == frame_spec(t, p) {
                    assert(msg@[0] == t[0]);
                }
            }
        }
        return None;
    }
    let tag = subvec(msg, 0, j);
    let payload = subvec(msg, j + 1, msg.len());
    proof {
        assert(msg@ =~= frame_spec(tag@, payload@));
    }
    Some((tag, payload))
}

// ---- base64 payload encoding ----

/// The base64 standard-alphabet, padded encoding of a byte string.
pub uninterp spec fn b64_of(b: Seq<u8>) -> Seq<u8>;

/// Relies on base64's `Engine::encode` with the STANDARD engine: the
/// encoding is a function of the input bytes alone.
#[verifier::external_body]
pub fn b64_encode(b: &Vec<u8>) -> (r: Vec<u8>)
    ensures
        r@ == b64_of(b@),
{
    base64::engine::general_purpose::STANDARD.encode(b).into_bytes()
}

/// Relies on base64's `Engine::decode` with the STANDARD engine: decoding
/// inverts `encode` (the encoding is injective and decoding is canonical).
#[verifier::external_body]
pub fn b64_decode(s: &Vec<u8>) -> (r: Option<Vec<u8>>)
    ensures
        r is Some || !(exists|b: Seq<u8>| s@ == #[trigger] b64_of(b)),
        r matches Some(v) ==> forall|b: Seq<u8>| s@ == #[trigger] b64_of(b) ==> v@ == b,
{
    base64::engine::general_purpose::STANDARD.decode(s).ok()
}

// ---- message bodies ----

/// Message inviting a peer into a generation session: the session id, the
/// inviter's own identity, the invitee's 1-based participant index, and the
/// inviter's known listen addresses.
pub struct JoinInvitation {
    pub session_id: Vec<u8>,
    pub inviter: Vec<u8>,
    pub index: u16,
    pub addresses: Vec<Vec<u8>>,
}

/// The bincode encoding of a join invitation body.
pub uninterp spec fn join_wire_of(
    session_id: Seq<u8>,
    inviter: Seq<u8>,
    index: u16,
    addresses: Seq<Seq<u8>>,
) -> Seq<u8>;

/// Relies on bincode's `serialize`: the encoding of the invitation tuple is
/// a function of the field values alone, and serializing these field types
/// cannot fail.
#[verifier::external_body]
pub fn bincode_encode_join(inv: &JoinInvitation) -> (r: Vec<u8>)
    ensures
        r@ == join_wire_of(inv.session_id@, inv.inviter@, inv.index, inv.addresses.deep_view()),
{
    bincode::serialize(&(&inv.session_id, &inv.inviter, inv.index, &inv.addresses)).unwrap()
}

/// Relies on bincode's `deserialize`: it inverts `serialize`, whose encoding
/// of this tuple shape is injective.
#[verifier::external_body]
pub fn bincode_decode_join(bytes: &Vec<u8>) -> (r: Option<JoinInvitation>)
    ensures
        r is Some || !(exists|s: Seq<u8>, p: Seq<u8>, x: u16, a: Seq<Seq<u8>>|
            bytes@ == #[trigger] join_wire_of(s, p, x, a)),
        r matches Some(inv) ==> forall|s: Seq<u8>, p: Seq<u8>, x: u16, a: Seq<Seq<u8>>|
            bytes@ == #[trigger] join_wire_of(s, p, x, a) ==> (inv.session_id@ == s
                && inv.inviter@ == p && inv.index == x && inv.addresses.deep_view() == a),
{
    let t: (Vec<u8>, Vec<u8>, u16, Vec<Vec<u8>>) = match bincode::deserialize(bytes) {
        Ok(t) => t,
        Err(_) => return None,
    };
    Some(JoinInvitation { session_id: t.0, inviter: t.1, index: t.2, addresses: t.3 })
}

/// Message inviting the participants of an established group to sign: the
/// signing session id, the group channel identifier, and the message bytes.
pub struct SignRequest {
    pub session_id: Vec<u8>,
    pub group_key: Vec<u8>,
    pub message: Vec<u8>,
}

/// The bincode encoding of a sign request body.
pub uninterp spec fn sign_wire_of(session_id: Seq<u8>, group_key: Seq<u8>, message: Seq<u8>) -> Seq<
    u8,
>;

/// Relies on bincode's `serialize`: the encoding of the request tuple is a
/// function of the field values alone, and serializing these field types
/// cannot fail.
#[verifier::external_body]
pub fn bincode_encode_sign(req: &SignRequest) -> (r: Vec<u8>)
    ensures
        r@ == sign_wire_of(req.session_id@, req.group_key@, req.message@),
{
    bincode::serialize(&(&req.session_id, &req.group_key, &req.message)).unwrap()
}

/// Relies on bincode's `deserialize`: it inverts `serialize`, whose encoding
/// of this tuple shape is injective.
#[verifier::external_body]
pub fn bincode_decode_sign(bytes: &Vec<u8>) -> (r: Option<SignRequest>)
    ensures
        r is Some || !(exists|s: Seq<u8>, k: Seq<u8>, m: Seq<u8>|
            bytes@ == #[trigger] sign_wire_of(s, k, m)),
        r matches Some(req) ==> forall|s: Seq<u8>, k: Seq<u8>, m: Seq<u8>|
            bytes@ == #[trigger] sign_wire_of(s, k, m) ==> (req.session_id@ == s
                && req.group_key@ == k && req.message@ == m),
{
    let t: (Vec<u8>, Vec<u8>, Vec<u8>) = match bincode::deserialize(bytes) {
        Ok(t) => t,
        Err(_) => return None,
    };
    Some(SignRequest { session_id: t.0, group_key: t.1, message: t.2 })
}

// ---- full envelopes ----

/// The full wire form of a join invitation.
pub open spec fn join_message_spec(s: Seq<u8>, p: Seq<u8>, x: u16, a: Seq<Seq<u8>>) -> Seq<u8> {
    frame_spec(join_tag_spec(), b64_of(join_wire_of(s, p, x, a)))
}

/// The full wire form of a sign request.
pub open spec fn sign_message_spec(s: Seq<u8>, k: Seq<u8>, m: Seq<u8>) -> Seq<u8> {
    frame_spec(sign_tag_spec(), b64_of(sign_wire_of(s, k, m)))
}

/// Serializes a join invitation into its wire envelope.
pub fn encode_join_message(inv: &JoinInvitation) -> (r: Vec<u8>)
    ensures
        r@ == join_message_spec(
            inv.session_id@,
            inv.inviter@,
            inv.index,
            inv.addresses.deep_view(),
        ),
{
    let body = bincode_encode_join(inv);
    let encoded = b64_encode(&body);
    let tag = join_gen_tag();
    frame(&tag, &encoded)
}

/// Parses a wire envelope as a join invitation; any envelope produced by
/// `encode_join_message` comes back with its fields intact.
pub fn decode_join_message(msg: &Vec<u8>) -> (r: Option<JoinInvitation>)
    ensures
        forall|s: Seq<u8>, p: Seq<u8>, x: u16, a: Seq<Seq<u8>>|
            msg@ == #[trigger] join_message_spec(s, p, x, a) ==> (r matches Some(inv)
                && inv.session_id@ == s && inv.inviter@ == p && inv.index == x
                && inv.addresses.deep_view() == a),
{
    let unframed = unframe(msg);
    match unframed {
        None => None,
        Some((tag, payload)) => {
            let jt = join_gen_tag();
            let tag_ok = bytes_eq(&tag, &jt);
            let decoded = if tag_ok {
                b64_decode(&payload)
            } else {
                None
            };
            let r = match decoded {
                None => None,
                Some(body) => bincode_decode_join(&body),
            };
            proof {
                assert forall|s: Seq<u8>, p: Seq<u8>, x: u16, a: Seq<Seq<u8>>|
                    msg@ == #[trigger] join_message_spec(s, p, x, a) implies (r matches Some(inv)
                    && inv.session_id@ == s && inv.inviter@ == p && inv.index == x
                    && inv.addresses.deep_view() == a) by {
                    lemma_frame_unique(
                        tag@,
                        payload@,
                        join_tag_spec(),
                        b64_of(join_wire_of(s, p, x, a)),
                    );
                }
            }
            r
        },
    }
}

/// Serializes a sign request into its wire envelope.
pub fn encode_sign_message(req: &SignRequest) -> (r: Vec<u8>)
    ensures
        r@ == sign_message_spec(req.session_id@, req.group_key@, req.message@),
{
    let body = bincode_encode_sign(req);
    let encoded = b64_encode(&body);
    let tag = sign_r1_tag();
    frame(&tag, &encoded)
}

/// Parses a wire envelope as a sign request; any envelope produced by
/// `encode_sign_message` comes back with its fields intact.
pub fn decode_sign_message(msg: &Vec<u8>) -> (r: Option<SignRequest>)
    ensures
        forall|s: Seq<u8>, k: Seq<u8>, m: Seq<u8>|
            msg@ == #[trigger] sign_message_spec(s, k, m) ==> (r matches Some(req)
                && req.session_id@ == s && req.group_key@ == k && req.message@ == m),
{
    let unframed = unframe(msg);
    match unframed {
        None => None,
        Some((tag, payload)) => {
            let st = sign_r1_tag();
            let tag_ok = bytes_eq(&tag, &st);
            let decoded = if tag_ok {
                b64_decode(&payload)
            } else {
                None
            };
            let r = match decoded {
                None => None,
                Some(body) => bincode_decode_sign(&body),
            };
            proof {
                assert forall|s: Seq<u8>, k: Seq<u8>, m: Seq<u8>|
                    msg@ == #[trigger] sign_message_spec(s, k, m) implies (r matches Some(req)
                    && req.session_id@ == s && req.group_key@ == k && req.message@ == m) by {
                    lemma_frame_unique(tag@, payload@, sign_tag_spec(), b64_of(sign_wire_of(s, k, m)));
                }
            }
            r
        },
    }
}

} // verus!
