use frost_swarm::SwarmError;
use frost_swarm::registry::Registry;
use frost_swarm::session::Action;
use frost_swarm::signing::finish_signature;
use frost_swarm::signing::settle_signature;
use frost_swarm::signing::verify_signature;

fn keypair() -> (Vec<u8>, frost_ed25519::SigningKey) {
    let mut rng = rand::rngs::OsRng;
    let sk = frost_ed25519::SigningKey::new(&mut rng);
    let vk = frost_ed25519::VerifyingKey::from(&sk);
    (vk.serialize().unwrap(), sk)
}

fn sid() -> Vec<u8> {
    b"SIGNSESSIONAAAAAAAAAAAAAAAAAAAA5".to_vec()
}

#[test]
fn valid_signature_is_returned() {
    let (key, sk) = keypair();
    let msg = b"attack at dawn".to_vec();
    let sig = sk.sign(rand::rngs::OsRng, &msg).serialize().unwrap();
    assert!(verify_signature(&key, &msg, &sig));
    let out = finish_signature(&key, &msg, sig.clone());
    assert_eq!(out, Ok(sig));
}

#[test]
fn corrupt_signature_is_reported_invalid() {
    let (key, sk) = keypair();
    let msg = b"attack at dawn".to_vec();
    let mut sig = sk.sign(rand::rngs::OsRng, &msg).serialize().unwrap();
    sig[3] ^= 0x55;
    assert!(!verify_signature(&key, &msg, &sig));
    let out = finish_signature(&key, &msg, sig);
    assert_eq!(out, Err(SwarmError::InvalidSignature));
}

#[test]
fn signature_over_other_message_is_invalid() {
    let (key, sk) = keypair();
    let sig = sk.sign(rand::rngs::OsRng, b"one message").serialize().unwrap();
    assert!(!verify_signature(&key, &b"another message".to_vec(), &sig));
}

#[test]
fn settle_never_passes_an_unverified_signature() {
    let sig = vec![1u8, 2, 3];
    assert_eq!(settle_signature(true, sig.clone()), Ok(sig));
    assert_eq!(
        settle_signature(false, vec![1u8, 2, 3]),
        Err(SwarmError::InvalidSignature)
    );
}

#[test]
fn signing_session_resolves_by_verification_outcome() {
    let (key, sk) = keypair();
    let msg = b"group message".to_vec();
    let good = sk.sign(rand::rngs::OsRng, &msg).serialize().unwrap();

    let mut reg = Registry::new();
    reg.begin_signing(sid(), key.clone(), msg.clone(), 0);
    let acts = reg.on_sig_ready(&sid(), good.clone());
    assert_eq!(reg.signs.len(), 0);
    assert!(matches!(&acts[0], Action::ResolveSign(s, Ok(g)) if *s == sid() && *g == good));

    let mut bad = good.clone();
    bad[7] ^= 0x11;
    let mut reg = Registry::new();
    reg.begin_signing(sid(), key, msg, 0);
    let acts = reg.on_sig_ready(&sid(), bad);
    assert!(matches!(
        &acts[0],
        Action::ResolveSign(s, Err(SwarmError::InvalidSignature)) if *s == sid()
    ));
}
