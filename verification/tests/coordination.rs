use frost_swarm::SwarmError;
use frost_swarm::ids::check_id;
use frost_swarm::ids::draw_picks;
use frost_swarm::ids::random_id;
use frost_swarm::registry::Registry;
use frost_swarm::select::SignerConfig;
use frost_swarm::select::dedup_peers;
use frost_swarm::select::select_participants;
use frost_swarm::select::validate_responders;
use frost_swarm::session::Action;
use frost_swarm::session::NetEvent;
use frost_swarm::wire::decode_join_message;

fn sid() -> Vec<u8> {
    b"SESSIONAAAAAAAAAAAAAAAAAAAAAAAA1".to_vec()
}

fn qid() -> Vec<u8> {
    b"QUERYAAAAAAAAAAAAAAAAAAAAAAAAAA2".to_vec()
}

fn five_peers() -> Vec<Vec<u8>> {
    vec![
        b"peerA".to_vec(),
        b"peerB".to_vec(),
        b"peerC".to_vec(),
        b"peerD".to_vec(),
        b"peerE".to_vec(),
    ]
}

#[test]
fn random_ids_are_well_formed() {
    for _ in 0..8 {
        let id = random_id();
        assert!(check_id(&id));
    }
}

#[test]
fn check_id_rejects_bad_ids() {
    assert!(!check_id(&b"short".to_vec()));
    assert!(!check_id(&b"SESSION AAAAAAAAAAAAAAAAAAAAAAAA".to_vec()));
    assert!(check_id(&sid()));
}

#[test]
fn draw_picks_fit_the_shrinking_pool() {
    for _ in 0..8 {
        let picks = draw_picks(3, 5);
        assert_eq!(picks.len(), 3);
        for (k, p) in picks.iter().enumerate() {
            assert!(*p < 5 - k);
        }
    }
}

#[test]
fn selection_follows_the_picks() {
    let picks = vec![2usize, 0, 1];
    let sel = select_participants(five_peers(), &picks);
    assert_eq!(sel, vec![b"peerC".to_vec(), b"peerA".to_vec(), b"peerD".to_vec()]);
}

#[test]
fn added_peer_in_lookup_result_is_selectable() {
    let mut peers = five_peers();
    peers.push(b"addedPeer".to_vec());
    let picks = vec![5usize, 0, 0];
    let sel = select_participants(peers, &picks);
    assert_eq!(sel[0], b"addedPeer".to_vec());
}

#[test]
fn dedup_keeps_first_occurrences() {
    let peers = vec![b"a".to_vec(), b"b".to_vec(), b"a".to_vec(), b"c".to_vec(), b"b".to_vec()];
    let distinct = dedup_peers(peers);
    assert_eq!(distinct, vec![b"a".to_vec(), b"b".to_vec(), b"c".to_vec()]);
}

#[test]
fn validation_flags_foreign_responders() {
    let selected = vec![b"peerA".to_vec(), b"peerB".to_vec()];
    let good = vec![b"peerB".to_vec()];
    let bad = vec![b"peerB".to_vec(), b"intruder".to_vec()];
    assert!(validate_responders(&good, &selected));
    assert!(!validate_responders(&bad, &selected));
}

fn start_generation(reg: &mut Registry) -> Vec<Action> {
    let config = SignerConfig { min_signers: 2, max_signers: 3 };
    reg.begin_generation(config, sid(), qid(), 0)
}

fn run_lookup(reg: &mut Registry) -> Vec<Action> {
    let me = b"selfPeer".to_vec();
    let addrs = vec![b"/ip4/127.0.0.1/tcp/4001".to_vec()];
    let picks = vec![0usize, 0, 0];
    reg.on_closest_peers(&qid(), five_peers(), &picks, &me, &addrs, 0)
}

#[test]
fn begin_generation_starts_one_lookup() {
    let mut reg = Registry::new();
    let acts = start_generation(&mut reg);
    assert_eq!(acts.len(), 1);
    assert!(matches!(&acts[0], Action::StartLookup(q) if *q == qid()));
    assert_eq!(reg.gens.len(), 1);
}

#[test]
fn begin_generation_rejects_bad_thresholds() {
    let mut reg = Registry::new();
    let config = SignerConfig { min_signers: 4, max_signers: 3 };
    let acts = reg.begin_generation(config, sid(), qid(), 0);
    assert_eq!(reg.gens.len(), 0);
    assert!(matches!(
        &acts[0],
        Action::ResolveGen(s, Err(SwarmError::GenerationError)) if *s == sid()
    ));
}

#[test]
fn lookup_selects_three_and_invites_each_once() {
    let mut reg = Registry::new();
    start_generation(&mut reg);
    let acts = run_lookup(&mut reg);
    assert_eq!(acts.len(), 4);
    assert!(matches!(&acts[0], Action::Subscribe(t) if *t == sid()));
    let expected_peers = [b"peerA".to_vec(), b"peerB".to_vec(), b"peerC".to_vec()];
    for (k, act) in acts[1..].iter().enumerate() {
        match act {
            Action::SendDirect(peer, msg) => {
                assert_eq!(*peer, expected_peers[k]);
                let inv = decode_join_message(msg).expect("invitation must decode");
                assert_eq!(inv.session_id, sid());
                assert_eq!(inv.inviter, b"selfPeer".to_vec());
                assert_eq!(inv.index, (k + 1) as u16);
                assert_eq!(inv.addresses, vec![b"/ip4/127.0.0.1/tcp/4001".to_vec()]);
            }
            _ => panic!("expected an invitation"),
        }
    }
}

#[test]
fn too_few_distinct_peers_fail_the_session() {
    let mut reg = Registry::new();
    start_generation(&mut reg);
    let me = b"selfPeer".to_vec();
    let addrs: Vec<Vec<u8>> = vec![];
    let picks: Vec<usize> = vec![];
    let peers = vec![b"peerA".to_vec(), b"peerA".to_vec(), b"peerB".to_vec()];
    let acts = reg.on_closest_peers(&qid(), peers, &picks, &me, &addrs, 0);
    assert_eq!(reg.gens.len(), 0);
    assert!(matches!(
        &acts[0],
        Action::ResolveGen(s, Err(SwarmError::GenerationError)) if *s == sid()
    ));
}

#[test]
fn full_valid_participation_starts_round_one() {
    let mut reg = Registry::new();
    start_generation(&mut reg);
    run_lookup(&mut reg);
    let responders = vec![b"peerA".to_vec(), b"peerB".to_vec(), b"peerC".to_vec()];
    let acts = reg.on_subscribed(&sid(), &responders);
    assert_eq!(acts.len(), 2);
    assert!(matches!(&acts[0], Action::Publish(t, m) if *t == sid() && m == b"GEN_R1"));
    assert!(matches!(&acts[1], Action::DeriveKey(t, 2, 3) if *t == sid()));
    let key = vec![9u8; 32];
    let done = reg.on_key_ready(&sid(), key.clone());
    assert_eq!(reg.gens.len(), 0);
    assert!(matches!(&done[0], Action::ResolveGen(s, Ok(k)) if *s == sid() && *k == key));
}

#[test]
fn foreign_responder_fails_with_invalid_peer() {
    let mut reg = Registry::new();
    start_generation(&mut reg);
    run_lookup(&mut reg);
    let responders = vec![b"peerA".to_vec(), b"intruder".to_vec()];
    let acts = reg.on_subscribed(&sid(), &responders);
    assert_eq!(reg.gens.len(), 0);
    assert_eq!(acts.len(), 1);
    assert!(matches!(
        &acts[0],
        Action::ResolveGen(s, Err(SwarmError::InvalidPeer)) if *s == sid()
    ));
}

#[test]
fn partial_valid_participation_keeps_waiting() {
    let mut reg = Registry::new();
    start_generation(&mut reg);
    run_lookup(&mut reg);
    let responders = vec![b"peerA".to_vec(), b"peerB".to_vec()];
    let acts = reg.on_subscribed(&sid(), &responders);
    assert!(acts.is_empty());
    assert_eq!(reg.gens.len(), 1);
}

#[test]
fn join_deadline_expiry_fails_with_timeout() {
    let mut reg = Registry::new();
    start_generation(&mut reg);
    run_lookup(&mut reg);
    let acts = reg.on_tick(121);
    assert_eq!(reg.gens.len(), 0);
    assert_eq!(acts.len(), 1);
    assert!(matches!(
        &acts[0],
        Action::ResolveGen(s, Err(SwarmError::GenerationError)) if *s == sid()
    ));
    let late = reg.route_message(&sid(), &b"GEN_R2 straggler".to_vec());
    assert!(late.is_empty());
}

#[test]
fn lookup_deadline_expiry_fails_with_timeout() {
    let mut reg = Registry::new();
    start_generation(&mut reg);
    let acts = reg.on_tick(31);
    assert_eq!(reg.gens.len(), 0);
    assert!(matches!(&acts[0], Action::ResolveGen(_, Err(SwarmError::GenerationError))));
}

#[test]
fn unknown_session_messages_are_dropped_silently() {
    let mut reg = Registry::new();
    start_generation(&mut reg);
    run_lookup(&mut reg);
    let other = b"OTHERAAAAAAAAAAAAAAAAAAAAAAAAAA3".to_vec();
    let acts = reg.route_message(&other, &b"JOIN_GEN whatever".to_vec());
    assert!(acts.is_empty());
    let acts = reg.on_subscribed(&other, &vec![b"peerA".to_vec()]);
    assert!(acts.is_empty());
    assert_eq!(reg.gens.len(), 1);
}

#[test]
fn sessions_do_not_cross_deliver() {
    let mut reg = Registry::new();
    start_generation(&mut reg);
    run_lookup(&mut reg);
    let other = b"OTHERAAAAAAAAAAAAAAAAAAAAAAAAAA4".to_vec();
    reg.begin_signing(other.clone(), b"groupkey".to_vec(), b"m".to_vec(), 0);
    let acts = reg.route_message(&sid(), &b"payload".to_vec());
    assert_eq!(acts.len(), 1);
    assert!(matches!(&acts[0], Action::DeliverGenRound(t, _) if *t == sid()));
    let acts = reg.route_message(&other, &b"payload".to_vec());
    assert_eq!(acts.len(), 1);
    assert!(matches!(&acts[0], Action::DeliverSignRound(t, _) if *t == other));
}

#[test]
fn begin_signing_subscribes_then_broadcasts() {
    let mut reg = Registry::new();
    let key = vec![5u8; 32];
    let acts = reg.begin_signing(sid(), key.clone(), b"message".to_vec(), 7);
    assert_eq!(acts.len(), 2);
    assert!(matches!(&acts[0], Action::Subscribe(t) if *t == sid()));
    match &acts[1] {
        Action::Publish(topic, msg) => {
            assert_eq!(*topic, key);
            assert_eq!(&msg[..8], b"SIGN_R1 ");
        }
        _ => panic!("expected a broadcast"),
    }
    assert_eq!(reg.signs.len(), 1);
}

#[test]
fn begin_signing_rejects_malformed_session_id() {
    let mut reg = Registry::new();
    let acts = reg.begin_signing(b"not-an-id".to_vec(), b"key".to_vec(), b"m".to_vec(), 0);
    assert_eq!(reg.signs.len(), 0);
    assert!(matches!(
        &acts[0],
        Action::ResolveSign(s, Err(SwarmError::SigningError)) if s == b"not-an-id"
    ));
}

#[test]
fn begin_generation_rejects_a_session_id_in_use() {
    let mut reg = Registry::new();
    start_generation(&mut reg);
    let config = SignerConfig { min_signers: 2, max_signers: 3 };
    let other_query = b"QUERYBBBBBBBBBBBBBBBBBBBBBBBBBB9".to_vec();
    let acts = reg.begin_generation(config, sid(), other_query, 0);
    assert_eq!(reg.gens.len(), 1);
    assert!(matches!(&acts[0], Action::ResolveGen(_, Err(SwarmError::GenerationError))));
}

#[test]
fn dispatch_routes_events_by_correlator() {
    let me = b"selfPeer".to_vec();
    let addrs: Vec<Vec<u8>> = vec![];
    let mut reg = Registry::new();
    start_generation(&mut reg);
    run_lookup(&mut reg);
    let acts = reg.dispatch(
        NetEvent::TopicMessage(sid(), b"round payload".to_vec()),
        &me,
        &addrs,
        5,
    );
    assert!(matches!(&acts[0], Action::DeliverGenRound(t, _) if *t == sid()));
    let acts = reg.dispatch(NetEvent::Tick(121), &me, &addrs, 121);
    assert_eq!(reg.gens.len(), 0);
    assert!(matches!(&acts[0], Action::ResolveGen(_, Err(SwarmError::GenerationError))));
}

#[test]
fn random_selection_invites_max_signers_distinct_peers() {
    let me = b"selfPeer".to_vec();
    let addrs: Vec<Vec<u8>> = vec![];
    let mut reg = Registry::new();
    start_generation(&mut reg);
    let acts = reg.dispatch(
        NetEvent::ClosestPeers(qid(), five_peers()),
        &me,
        &addrs,
        0,
    );
    assert_eq!(acts.len(), 4);
    assert!(matches!(&acts[0], Action::Subscribe(t) if *t == sid()));
    let mut invited: Vec<Vec<u8>> = Vec::new();
    for act in &acts[1..] {
        match act {
            Action::SendDirect(peer, _) => {
                assert!(!invited.contains(peer));
                assert!(five_peers().contains(peer));
                invited.push(peer.clone());
            }
            _ => panic!("expected an invitation"),
        }
    }
    assert_eq!(invited.len(), 3);
}

#[test]
fn error_messages_match_their_variants() {
    assert_eq!(SwarmError::InvalidPeer.message(), "Invalid peer responded");
    assert_eq!(
        SwarmError::InvalidSignature.message(),
        "Produced a signature that is invalid"
    );
    assert_eq!(SwarmError::GenerationError.message(), "Generation Error");
}
