//! The session registry and the event dispatch transitions.
//!
//! The registry owns every in-flight session, keyed by session id. Each
//! handler takes one network event and answers with the actions the network
//! layer must perform; a terminal transition resolves the session's pending
//! call and releases its id, so late messages for it are dropped.

use vstd::prelude::*;
use crate::SwarmError;
use crate::bytes_eq;
use crate::copy_bytes;
use crate::copy_bytes_vec;
use crate::ids::valid_id;
use crate::ids::check_id;
use crate::ids::draw_picks;
use crate::select::SignerConfig;
use crate::select::all_members;
use crate::select::dedup_peers;
use crate::select::dedup_spec;
use crate::select::lemma_dedup_spec;
use crate::select::lemma_select_spec;
use crate::select::picks_in_range;
use crate::select::select_participants;
use crate::select::select_spec;
use crate::select::validate_responders;
use crate::session::Action;
use crate::session::ActionV;
use crate::session::GenPhase;
use crate::session::GenSession;
use crate::session::JOIN_WAIT;
use crate::session::LOOKUP_WAIT;
use crate::session::NetEvent;
use crate::session::SignSession;
use crate::session::acts_view;
use crate::session::deadline_after;
use crate::session::sat_add64;
use crate::signing::settle_signature;
use crate::signing::sig_valid;
use crate::signing::verify_signature;
use crate::wire::JoinInvitation;
use crate::wire::encode_join_message;
use crate::wire::encode_sign_message;
use crate::wire::gen_round_one_message;
use crate::wire::gen_round_one_spec;
use crate::wire::join_message_spec;
use crate::wire::sign_message_spec;
use crate::wire::SignRequest;

verus! {

/// True when some registered generation session carries the session id.
pub open spec fn gen_has_id(gens: Seq<GenSession>, id: Seq<u8>) -> bool {
    exists|i: int| 0 <= i < gens.len() && (#[trigger] gens[i]).session_id@ == id
}

/// True when some registered generation session carries the query id.
pub open spec fn gen_has_query(gens: Seq<GenSession>, qid: Seq<u8>) -> bool {
    exists|i: int| 0 <= i < gens.len() && (#[trigger] gens[i]).query_id@ == qid
}

/// True when some registered signing session carries the session id.
pub open spec fn sign_has_id(signs: Seq<SignSession>, id: Seq<u8>) -> bool {
    exists|i: int| 0 <= i < signs.len() && (#[trigger] signs[i]).session_id@ == id
}

/// True when some generation session is waiting for this lookup result.
pub open spec fn gen_lookup_match(gens: Seq<GenSession>, qid: Seq<u8>) -> bool {
    exists|i: int|
        0 <= i < gens.len() && (#[trigger] gens[i]).query_id@ == qid && gens[i].phase
            == GenPhase::LookingUpPeers
}

/// True when some generation session is at the join barrier of this topic.
pub open spec fn gen_await_match(gens: Seq<GenSession>, topic: Seq<u8>) -> bool {
    exists|i: int|
        0 <= i < gens.len() && (#[trigger] gens[i]).session_id@ == topic && gens[i].phase
            == GenPhase::AwaitingJoinResponses
}

/// True when some generation session with this id has its rounds running.
pub open spec fn gen_run_match(gens: Seq<GenSession>, id: Seq<u8>) -> bool {
    exists|i: int|
        0 <= i < gens.len() && (#[trigger] gens[i]).session_id@ == id && gens[i].phase
            == GenPhase::Running
}

/// The generation sessions whose deadline has not yet passed, in order.
pub open spec fn live_gens(gens: Seq<GenSession>, now: u64) -> Seq<GenSession>
    decreases gens.len(),
{
    if gens.len() == 0 {
        Seq::empty()
    } else {
        let rest = live_gens(gens.drop_last(), now);
        if gens.last().deadline > now {
            rest.push(gens.last())
        } else {
            rest
        }
    }
}

/// One timeout resolution per expired generation session, in order.
pub open spec fn expired_gen_acts(gens: Seq<GenSession>, now: u64) -> Seq<ActionV>
    decreases gens.len(),
{
    if gens.len() == 0 {
        Seq::empty()
    } else {
        let rest = expired_gen_acts(gens.drop_last(), now);
        if gens.last().deadline > now {
            rest
        } else {
            rest.push(
                ActionV::ResolveGen(gens.last().session_id@, Err(SwarmError::GenerationError)),
            )
        }
    }
}

/// The signing sessions whose deadline has not yet passed, in order.
pub open spec fn live_signs(signs: Seq<SignSession>, now: u64) -> Seq<SignSession>
    decreases signs.len(),
{
    if signs.len() == 0 {
        Seq::empty()
    } else {
        let rest = live_signs(signs.drop_last(), now);
        if signs.last().deadline > now {
            rest.push(signs.last())
        } else {
            rest
        }
    }
}

/// One timeout resolution per expired signing session, in order.
pub open spec fn expired_sign_acts(signs: Seq<SignSession>, now: u64) -> Seq<ActionV>
    decreases signs.len(),
{
    if signs.len() == 0 {
        Seq::empty()
    } else {
        let rest = expired_sign_acts(signs.drop_last(), now);
        if signs.last().deadline > now {
            rest
        } else {
            rest.push(
                ActionV::ResolveSign(signs.last().session_id@, Err(SwarmError::SigningError)),
            )
        }
    }
}

/// Every expired generation session leaves its timeout resolution in the
/// tick's actions.
pub proof fn lemma_expired_gen_act(gens: Seq<GenSession>, now: u64, i: int)
    requires
        0 <= i < gens.len(),
        gens[i].deadline <= now,
    ensures
        expired_gen_acts(gens, now).contains(
            ActionV::ResolveGen(gens[i].session_id@, Err(SwarmError::GenerationError)),
        ),
    decreases gens.len(),
{
    let prefix = gens.drop_last();
    let a = ActionV::ResolveGen(gens[i].session_id@, Err(SwarmError::GenerationError));
    if i == gens.len() - 1 {
        assert(expired_gen_acts(gens, now).last() == a);
    } else {
        assert(prefix[i] == gens[i]);
        lemma_expired_gen_act(prefix, now, i);
        let pre = expired_gen_acts(prefix, now);
        let j = choose|j: int| 0 <= j < pre.len() && pre[j] == a;
        assert(expired_gen_acts(gens, now)[j] == a);
    }
}

/// Well-formedness of the stored sessions: every session is well-formed,
/// session ids are unique across the whole registry, and lookup query ids
/// are unique among generation sessions.
pub open spec fn wf_sessions(gens: Seq<GenSession>, signs: Seq<SignSession>) -> bool {
    &&& forall|i: int| 0 <= i < gens.len() ==> (#[trigger] gens[i]).wf()
    &&& forall|i: int| 0 <= i < signs.len() ==> (#[trigger] signs[i]).wf()
    &&& forall|i: int, j: int|
        #![trigger gens[i], gens[j]]
        0 <= i < j < gens.len() ==> gens[i].session_id@ != gens[j].session_id@ && gens[i].query_id@
            != gens[j].query_id@
    &&& forall|i: int, j: int|
        #![trigger signs[i], signs[j]]
        0 <= i < j < signs.len() ==> signs[i].session_id@ != signs[j].session_id@
    &&& forall|i: int, j: int|
        #![trigger gens[i], signs[j]]
        0 <= i < gens.len() && 0 <= j < signs.len() ==> gens[i].session_id@
            != signs[j].session_id@
}

/// Removing a generation session keeps the registry well-formed.
pub proof fn lemma_wf_remove_gen(gens: Seq<GenSession>, signs: Seq<SignSession>, i: int)
    requires
        wf_sessions(gens, signs),
        0 <= i < gens.len(),
    ensures
        wf_sessions(gens.remove(i), signs),
{
    gens.remove_ensures(i);
    let g2 = gens.remove(i);
    assert(forall|p: int|
        0 <= p < g2.len() ==> #[trigger] g2[p] == (if p < i {
            gens[p]
        } else {
            gens[p + 1]
        }));
}

/// Removing a signing session keeps the registry well-formed.
pub proof fn lemma_wf_remove_sign(gens: Seq<GenSession>, signs: Seq<SignSession>, i: int)
    requires
        wf_sessions(gens, signs),
        0 <= i < signs.len(),
    ensures
        wf_sessions(gens, signs.remove(i)),
{
    signs.remove_ensures(i);
    let s2 = signs.remove(i);
    assert(forall|p: int|
        0 <= p < s2.len() ==> #[trigger] s2[p] == (if p < i {
            signs[p]
        } else {
            signs[p + 1]
        }));
}

/// Replacing a generation session by a well-formed one with the same
/// identifiers keeps the registry well-formed.
pub proof fn lemma_wf_update_gen(
    gens: Seq<GenSession>,
    signs: Seq<SignSession>,
    i: int,
    g: GenSession,
)
    requires
        wf_sessions(gens, signs),
        0 <= i < gens.len(),
        g.wf(),
        g.session_id@ == gens[i].session_id@,
        g.query_id@ == gens[i].query_id@,
    ensures
        wf_sessions(gens.update(i, g), signs),
{
    let g2 = gens.update(i, g);
    assert(forall|p: int|
        0 <= p < g2.len() ==> #[trigger] g2[p] == (if p == i {
            g
        } else {
            gens[p]
        }));
}

/// Tracks in-flight generation and signing sessions. Only live sessions are
/// stored: completion or failure resolves the pending call and removes the
/// session, releasing its id.
pub struct Registry {
    pub gens: Vec<GenSession>,
    pub signs: Vec<SignSession>,
}

impl Registry {
    /// Well-formedness of the stored sessions.
    pub open spec fn wf(self) -> bool {
        wf_sessions(self.gens@, self.signs@)
    }

    /// An empty registry.
    pub fn new() -> (r: Registry)
        ensures
            r.wf(),
            r.gens@.len() == 0,
            r.signs@.len() == 0,
    {
        Registry { gens: Vec::new(), signs: Vec::new() }
    }

    /// Finds the generation session that carries the session id.
    fn find_gen_by_id(&self, id: &Vec<u8>) -> (r: Option<usize>)
        ensures
            r matches Some(i) ==> i < self.gens@.len() && self.gens@[i as int].session_id@ == id@,
            r is None ==> !gen_has_id(self.gens@, id@),
    {
        let mut i: usize = 0;
        while i < self.gens.len()
            invariant
                0 <= i <= self.gens@.len(),
                forall|j: int| 0 <= j < i ==> (#[trigger] self.gens@[j]).session_id@ != id@,
            decreases self.gens@.len() - i,
        {
            if bytes_eq(&self.gens[i].session_id, id) {
                return Some(i);
            }
            i = i + 1;
        }
        None
    }

    /// Finds the signing session that carries the session id.
    fn find_sign_by_id(&self, id: &Vec<u8>) -> (r: Option<usize>)
        ensures
            r matches Some(i) ==> i < self.signs@.len() && self.signs@[i as int].session_id@
                == id@,
            r is None ==> !sign_has_id(self.signs@, id@),
    {
        let mut i: usize = 0;
        while i < self.signs.len()
            invariant
                0 <= i <= self.signs@.len(),
                forall|j: int| 0 <= j < i ==> (#[trigger] self.signs@[j]).session_id@ != id@,
            decreases self.signs@.len() - i,
        {
            if bytes_eq(&self.signs[i].session_id, id) {
                return Some(i);
            }
            i = i + 1;
        }
        None
    }

    /// Finds the generation session that carries the query id.
    fn find_gen_by_query(&self, qid: &Vec<u8>) -> (r: Option<usize>)
        ensures
            r matches Some(i) ==> i < self.gens@.len() && self.gens@[i as int].query_id@ == qid@,
            r is None ==> !gen_has_query(self.gens@, qid@),
    {
        let mut i: usize = 0;
        while i < self.gens.len()
            invariant
                0 <= i <= self.gens@.len(),
                forall|j: int| 0 <= j < i ==> (#[trigger] self.gens@[j]).query_id@ != qid@,
            decreases self.gens@.len() - i,
        {
            if bytes_eq(&self.gens[i].query_id, qid) {
                return Some(i);
            }
            i = i + 1;
        }
        None
    }
}

/// True when the given picks fit whatever session awaits this lookup
/// result: exactly `max_signers` picks, each indexing the candidate pool
/// left after the picks before it.
pub open spec fn picks_fit(
    gens: Seq<GenSession>,
    qid: Seq<u8>,
    peers: Seq<Seq<u8>>,
    picks: Seq<usize>,
) -> bool {
    forall|i: int|
        0 <= i < gens.len() && (#[trigger] gens[i]).query_id@ == qid && gens[i].phase
            == GenPhase::LookingUpPeers && dedup_spec(peers).len() >= gens[i].config.max_signers
            ==> picks.len() == gens[i].config.max_signers && picks_in_range(
            picks,
            dedup_spec(peers).len() as int,
        )
}

/// Builds one join invitation per selected peer: the peer selected k-th
/// receives participant index k+1, together with the inviter's identity
/// and listen addresses.
pub fn build_invitations(
    session_id: &Vec<u8>,
    self_peer: &Vec<u8>,
    listen_addrs: &Vec<Vec<u8>>,
    selected: &Vec<Vec<u8>>,
) -> (r: Vec<Action>)
    requires
        selected@.len() <= u16::MAX,
    ensures
        acts_view(r@) == Seq::new(
            selected.deep_view().len(),
            |k: int| ActionV::SendDirect(
                selected.deep_view()[k],
                join_message_spec(
                    session_id@,
                    self_peer@,
                    (k + 1) as u16,
                    listen_addrs.deep_view(),
                ),
            ),
        ),
{
    let mut r: Vec<Action> = Vec::new();
    let mut k: usize = 0;
    while k < selected.len()
        invariant
            0 <= k <= selected@.len(),
            selected@.len() <= u16::MAX,
            r@.len() == k,
            forall|j: int|
                0 <= j < k ==> (#[trigger] r@[j])@ == ActionV::SendDirect(
                    selected.deep_view()[j],
                    join_message_spec(
                        session_id@,
                        self_peer@,
                        (j + 1) as u16,
                        listen_addrs.deep_view(),
                    ),
                ),
        decreases selected@.len() - k,
    {
        let inv = JoinInvitation {
            session_id: copy_bytes(session_id),
            inviter: copy_bytes(self_peer),
            index: (k + 1) as u16,
            addresses: copy_bytes_vec(listen_addrs),
        };
        let msg = encode_join_message(&inv);
        let peer = copy_bytes(&selected[k]);
        let ghost pre = r@;
        r.push(Action::SendDirect(peer, msg));
        proof {
            assert(selected.deep_view()[k as int] == selected@[k as int]@);
            assert forall|j: int|
                0 <= j < k + 1 implies (#[trigger] r@[j])@ == ActionV::SendDirect(
                selected.deep_view()[j],
                join_message_spec(
                    session_id@,
                    self_peer@,
                    (j + 1) as u16,
                    listen_addrs.deep_view(),
                ),
            ) by {
                if j < k as int {
                    assert(r@[j] == pre[j]);
                }
            }
        }
        k = k + 1;
    }
    proof {
        assert(acts_view(r@) =~= Seq::new(
            selected.deep_view().len(),
            |k: int| ActionV::SendDirect(
                selected.deep_view()[k],
                join_message_spec(
                    session_id@,
                    self_peer@,
                    (k + 1) as u16,
                    listen_addrs.deep_view(),
                ),
            ),
        ));
    }
    r
}

/// What handling a peer-lookup result guarantees whatever the randomness:
/// the session awaiting the query id either fails for want of enough
/// distinct peers, or moves to the join barrier with a participant set of
/// exactly `max_signers` distinct peers drawn from the result, the
/// subscription standing before every invitation.
pub open spec fn lookup_post(
    og: Seq<GenSession>,
    ng: Seq<GenSession>,
    qid: Seq<u8>,
    peers: Seq<Seq<u8>>,
    selfp: Seq<u8>,
    addrs: Seq<Seq<u8>>,
    now: u64,
    avs: Seq<ActionV>,
) -> bool {
    &&& (!gen_lookup_match(og, qid) ==> ng == og && avs.len() == 0)
    &&& forall|i: int|
        0 <= i < og.len() && (#[trigger] og[i]).query_id@ == qid && og[i].phase
            == GenPhase::LookingUpPeers ==> ({
            let g = og[i];
            let cands = dedup_spec(peers);
            if cands.len() < g.config.max_signers {
                &&& ng == og.remove(i)
                &&& avs == seq![ActionV::ResolveGen(
                    g.session_id@,
                    Err(SwarmError::GenerationError),
                )]
            } else {
                &&& ng == og.update(i, ng[i])
                &&& ({
                    let g2 = ng[i];
                    g2.session_id@ == g.session_id@ && g2.query_id@ == g.query_id@ && g2.config
                        == g.config && g2.phase == GenPhase::AwaitingJoinResponses
                        && g2.selected@.len() == g.config.max_signers
                        && g2.selected.deep_view().no_duplicates() && (forall|p: int|
                        0 <= p < g2.selected.deep_view().len() ==> cands.contains(
                            #[trigger] g2.selected.deep_view()[p],
                        )) && g2.deadline == sat_add64(now, JOIN_WAIT)
                })
                &&& ({
                    let g2 = ng[i];
                    avs.len() == 1 + g2.selected.deep_view().len() && avs[0]
                        == ActionV::Subscribe(g.session_id@) && forall|k: int|
                        1 <= k < avs.len() ==> #[trigger] avs[k] == ActionV::SendDirect(
                            g2.selected.deep_view()[k - 1],
                            join_message_spec(g.session_id@, selfp, k as u16, addrs),
                        )
                })
            }
        })
}

/// What handling a subscription confirmation guarantees: a foreign
/// responder fails the session with `InvalidPeer` and no round is started;
/// full valid participation broadcasts the round-one start and begins key
/// derivation; a partial valid set keeps waiting.
pub open spec fn subscribed_post(
    og: Seq<GenSession>,
    ng: Seq<GenSession>,
    topic: Seq<u8>,
    resp: Seq<Seq<u8>>,
    avs: Seq<ActionV>,
) -> bool {
    &&& (!gen_await_match(og, topic) ==> ng == og && avs.len() == 0)
    &&& forall|i: int|
        0 <= i < og.len() && (#[trigger] og[i]).session_id@ == topic && og[i].phase
            == GenPhase::AwaitingJoinResponses ==> ({
            let g = og[i];
            if !all_members(resp, g.selected.deep_view()) {
                &&& ng == og.remove(i)
                &&& avs == seq![ActionV::ResolveGen(topic, Err(SwarmError::InvalidPeer))]
            } else if all_members(g.selected.deep_view(), resp) {
                &&& ng == og.update(i, ng[i])
                &&& ({
                    let g2 = ng[i];
                    g2.session_id@ == g.session_id@ && g2.query_id@ == g.query_id@ && g2.config
                        == g.config && g2.phase == GenPhase::Running && g2.selected.deep_view()
                        == g.selected.deep_view() && g2.deadline == u64::MAX
                })
                &&& avs == seq![
                    ActionV::Publish(topic, gen_round_one_spec()),
                    ActionV::DeriveKey(topic, g.config.min_signers, g.config.max_signers),
                ]
            } else {
                &&& ng == og
                &&& avs.len() == 0
            }
        })
}

/// What routing a broadcast payload guarantees: it is delivered to the
/// session whose id names the topic, and to no other; a payload for an
/// unknown or expired id is dropped.
pub open spec fn route_post(
    gens: Seq<GenSession>,
    signs: Seq<SignSession>,
    topic: Seq<u8>,
    payload: Seq<u8>,
    avs: Seq<ActionV>,
) -> bool {
    &&& (gen_has_id(gens, topic) ==> avs == seq![ActionV::DeliverGenRound(topic, payload)])
    &&& (!gen_has_id(gens, topic) && sign_has_id(signs, topic) ==> avs == seq![
        ActionV::DeliverSignRound(topic, payload),
    ])
    &&& (!gen_has_id(gens, topic) && !sign_has_id(signs, topic) ==> avs.len() == 0)
}

/// What a clock tick guarantees: exactly the sessions whose deadline has
/// passed are failed with their protocol's timeout error and released;
/// every surviving session stood in the registry and is still within its
/// deadline.
pub open spec fn tick_post(
    og: Seq<GenSession>,
    osg: Seq<SignSession>,
    ng: Seq<GenSession>,
    nsg: Seq<SignSession>,
    now: u64,
    avs: Seq<ActionV>,
) -> bool {
    &&& ng == live_gens(og, now)
    &&& nsg == live_signs(osg, now)
    &&& avs == expired_gen_acts(og, now) + expired_sign_acts(osg, now)
    &&& forall|p: int|
        0 <= p < ng.len() ==> og.contains(#[trigger] ng[p]) && ng[p].deadline > now
    &&& forall|p: int|
        0 <= p < nsg.len() ==> osg.contains(#[trigger] nsg[p]) && nsg[p].deadline > now
}

/// What delivering a derived group key guarantees: the running session's
/// pending call is resolved with the key and the session is retired.
pub open spec fn key_ready_post(
    og: Seq<GenSession>,
    ng: Seq<GenSession>,
    sid: Seq<u8>,
    key: Seq<u8>,
    avs: Seq<ActionV>,
) -> bool {
    &&& (!gen_run_match(og, sid) ==> ng == og && avs.len() == 0)
    &&& forall|i: int|
        0 <= i < og.len() && (#[trigger] og[i]).session_id@ == sid && og[i].phase
            == GenPhase::Running ==> ({
            &&& ng == og.remove(i)
            &&& avs == seq![ActionV::ResolveGen(sid, Ok(key))]
        })
}

/// What delivering a combined signature guarantees: the signature is
/// handed back only if it verifies against the session's group key and
/// message; otherwise the call fails with `InvalidSignature`. The session
/// is retired either way.
pub open spec fn sig_ready_post(
    osg: Seq<SignSession>,
    nsg: Seq<SignSession>,
    sid: Seq<u8>,
    sig: Seq<u8>,
    avs: Seq<ActionV>,
) -> bool {
    &&& (!sign_has_id(osg, sid) ==> nsg == osg && avs.len() == 0)
    &&& forall|i: int|
        0 <= i < osg.len() && (#[trigger] osg[i]).session_id@ == sid ==> ({
            let s = osg[i];
            &&& nsg == osg.remove(i)
            &&& (sig_valid(s.group_key@, s.message@, sig) ==> avs == seq![ActionV::ResolveSign(
                sid,
                Ok(sig),
            )])
            &&& (!sig_valid(s.group_key@, s.message@, sig) ==> avs == seq![ActionV::ResolveSign(
                sid,
                Err(SwarmError::InvalidSignature),
            )])
        })
}

/// A generation run may begin exactly when its thresholds are well-formed,
/// both identifiers are well-formed, and neither is in use.
pub open spec fn begin_gen_ok(
    gens: Seq<GenSession>,
    signs: Seq<SignSession>,
    config: SignerConfig,
    sid: Seq<u8>,
    qid: Seq<u8>,
) -> bool {
    config.wf() && valid_id(sid) && valid_id(qid) && !gen_has_id(gens, sid) && !sign_has_id(
        signs,
        sid,
    ) && !gen_has_query(gens, qid)
}

impl Registry {
    /// Starts a distributed key generation run: registers the session and
    /// asks the network for a peer lookup bounded by the lookup deadline.
    /// A malformed or conflicting request is rejected by resolving the
    /// pending call with `GenerationError`.
    pub fn begin_generation(
        &mut self,
        config: SignerConfig,
        session_id: Vec<u8>,
        query_id: Vec<u8>,
        now: u64,
    ) -> (r: Vec<Action>)
        requires
            old(self).wf(),
        ensures
            final(self).wf(),
            begin_gen_ok(old(self).gens@, old(self).signs@, config, session_id@, query_id@)
                ==> ({
                &&& final(self).signs@ == old(self).signs@
                &&& final(self).gens@ == old(self).gens@.push(final(self).gens@.last())
                &&& ({
                    let g = final(self).gens@.last();
                    g.session_id@ == session_id@ && g.query_id@ == query_id@ && g.config == config
                        && g.phase == GenPhase::LookingUpPeers && g.selected@.len() == 0
                        && g.deadline == sat_add64(now, LOOKUP_WAIT)
                })
                &&& acts_view(r@) == seq![ActionV::StartLookup(query_id@)]
            }),
            !begin_gen_ok(old(self).gens@, old(self).signs@, config, session_id@, query_id@)
                ==> ({
                &&& final(self).gens@ == old(self).gens@
                &&& final(self).signs@ == old(self).signs@
                &&& acts_view(r@) == seq![ActionV::ResolveGen(
                    session_id@,
                    Err(SwarmError::GenerationError),
                )]
            }),
    {
        let ok = config.check() && check_id(&session_id) && check_id(&query_id)
            && self.find_gen_by_id(&session_id).is_none()
            && self.find_sign_by_id(&session_id).is_none()
            && self.find_gen_by_query(&query_id).is_none();
        if ok {
            let deadline = deadline_after(now, LOOKUP_WAIT);
            let lookup = Action::StartLookup(copy_bytes(&query_id));
            let g = GenSession {
                session_id,
                query_id,
                config,
                phase: GenPhase::LookingUpPeers,
                selected: Vec::new(),
                deadline,
            };
            let ghost pre_gens = self.gens@;
            self.gens.push(g);
            let mut r: Vec<Action> = Vec::new();
            r.push(lookup);
            proof {
                assert(forall|i: int|
                    0 <= i < pre_gens.len() ==> #[trigger] self.gens@[i] == pre_gens[i]);
                assert(self.gens@.last() == g);
                assert(acts_view(r@) =~= seq![ActionV::StartLookup(query_id@)]);
            }
            r
        } else {
            let mut r: Vec<Action> = Vec::new();
            r.push(Action::ResolveGen(session_id, Err(SwarmError::GenerationError)));
            proof {
                assert(acts_view(r@) =~= seq![ActionV::ResolveGen(
                    session_id@,
                    Err(SwarmError::GenerationError),
                )]);
            }
            r
        }
    }
}

/// A signing run may begin exactly when its session id is well-formed and
/// not in use.
pub open spec fn begin_sign_ok(gens: Seq<GenSession>, signs: Seq<SignSession>, sid: Seq<u8>) -> bool {
    valid_id(sid) && !gen_has_id(gens, sid) && !sign_has_id(signs, sid)
}

impl Registry {
    /// Starts a signing run over an established group: registers the
    /// session, subscribes to its topic, and broadcasts the round-one
    /// request on the group's channel — in that order, so no response can
    /// be missed. A malformed or conflicting request is rejected by
    /// resolving the pending call with `SigningError`.
    pub fn begin_signing(
        &mut self,
        session_id: Vec<u8>,
        group_key: Vec<u8>,
        message: Vec<u8>,
        now: u64,
    ) -> (r: Vec<Action>)
        requires
            old(self).wf(),
        ensures
            final(self).wf(),
            final(self).gens@ == old(self).gens@,
            begin_sign_ok(old(self).gens@, old(self).signs@, session_id@) ==> ({
                &&& final(self).signs@ == old(self).signs@.push(final(self).signs@.last())
                &&& ({
                    let s = final(self).signs@.last();
                    s.session_id@ == session_id@ && s.group_key@ == group_key@ && s.message@
                        == message@ && s.deadline == sat_add64(now, JOIN_WAIT)
                })
                &&& acts_view(r@) == seq![
                    ActionV::Subscribe(session_id@),
                    ActionV::Publish(
                        group_key@,
                        sign_message_spec(session_id@, group_key@, message@),
                    ),
                ]
            }),
            !begin_sign_ok(old(self).gens@, old(self).signs@, session_id@) ==> ({
                &&& final(self).signs@ == old(self).signs@
                &&& acts_view(r@) == seq![ActionV::ResolveSign(
                    session_id@,
                    Err(SwarmError::SigningError),
                )]
            }),
    {
        let ok = check_id(&session_id) && self.find_gen_by_id(&session_id).is_none()
            && self.find_sign_by_id(&session_id).is_none();
        if ok {
            let req = SignRequest {
                session_id: copy_bytes(&session_id),
                group_key: copy_bytes(&group_key),
                message: copy_bytes(&message),
            };
            let wire_msg = encode_sign_message(&req);
            let mut r: Vec<Action> = Vec::new();
            r.push(Action::Subscribe(copy_bytes(&session_id)));
            r.push(Action::Publish(copy_bytes(&group_key), wire_msg));
            let deadline = deadline_after(now, JOIN_WAIT);
            let s = SignSession { session_id, group_key, message, deadline };
            let ghost pre_signs = self.signs@;
            self.signs.push(s);
            proof {
                assert(forall|i: int|
                    0 <= i < pre_signs.len() ==> #[trigger] self.signs@[i] == pre_signs[i]);
                assert(self.signs@.last() == s);
                assert(acts_view(r@) =~= seq![
                    ActionV::Subscribe(session_id@),
                    ActionV::Publish(
                        group_key@,
                        sign_message_spec(session_id@, group_key@, message@),
                    ),
                ]);
            }
            r
        } else {
            let mut r: Vec<Action> = Vec::new();
            r.push(Action::ResolveSign(session_id, Err(SwarmError::SigningError)));
            proof {
                assert(acts_view(r@) =~= seq![ActionV::ResolveSign(
                    session_id@,
                    Err(SwarmError::SigningError),
                )]);
            }
            r
        }
    }

    /// Handles a peer-lookup result for the session awaiting it: draws the
    /// participant set from the distinct peers found (selection order fixes
    /// each peer's 1-based protocol index), subscribes to the session topic
    /// and only then sends one invitation per selected peer, so no response
    /// can be missed. Too few distinct peers fail the session; a result no
    /// session awaits is ignored.
    pub fn on_closest_peers(
        &mut self,
        query_id: &Vec<u8>,
        peers: Vec<Vec<u8>>,
        picks: &Vec<usize>,
        self_peer: &Vec<u8>,
        listen_addrs: &Vec<Vec<u8>>,
        now: u64,
    ) -> (r: Vec<Action>)
        requires
            old(self).wf(),
            picks_fit(old(self).gens@, query_id@, peers.deep_view(), picks@),
        ensures
            final(self).wf(),
            final(self).signs@ == old(self).signs@,
            !gen_lookup_match(old(self).gens@, query_id@) ==> final(self).gens@
                == old(self).gens@ && r@.len() == 0,
            forall|i: int|
                0 <= i < old(self).gens@.len() && (#[trigger] old(self).gens@[i]).query_id@
                    == query_id@ && old(self).gens@[i].phase == GenPhase::LookingUpPeers ==> ({
                    let g = old(self).gens@[i];
                    let cands = dedup_spec(peers.deep_view());
                    if cands.len() < g.config.max_signers {
                        &&& final(self).gens@ == old(self).gens@.remove(i)
                        &&& acts_view(r@) == seq![ActionV::ResolveGen(
                            g.session_id@,
                            Err(SwarmError::GenerationError),
                        )]
                    } else {
                        let sel = select_spec(cands, picks@);
                        &&& final(self).gens@ == old(self).gens@.update(i, final(self).gens@[i])
                        &&& ({
                            let g2 = final(self).gens@[i];
                            g2.session_id@ == g.session_id@ && g2.query_id@ == g.query_id@
                                && g2.config == g.config && g2.phase
                                == GenPhase::AwaitingJoinResponses && g2.selected.deep_view()
                                == sel && g2.deadline == sat_add64(now, JOIN_WAIT)
                        })
                        &&& acts_view(r@) == seq![ActionV::Subscribe(g.session_id@)] + Seq::new(
                            sel.len(),
                            |k: int| ActionV::SendDirect(
                                sel[k],
                                join_message_spec(
                                    g.session_id@,
                                    self_peer@,
                                    (k + 1) as u16,
                                    listen_addrs.deep_view(),
                                ),
                            ),
                        )
                    }
                }),
    {
        let found = self.find_gen_by_query(query_id);
        match found {
            None => Vec::new(),
            Some(fi) => {
                let is_looking = match self.gens[fi].phase {
                    GenPhase::LookingUpPeers => true,
                    _ => false,
                };
                proof {
                    assert forall|i: int|
                        0 <= i < self.gens@.len() && (#[trigger] self.gens@[i]).query_id@
                            == query_id@ implies i == fi as int by {
                        if i != fi as int {
                            assert(self.gens@[i].query_id@ != self.gens@[fi as int].query_id@);
                        }
                    }
                }
                if !is_looking {
                    return Vec::new();
                }
                let ghost pre = self.gens@;
                let g = self.gens.remove(fi);
                let cands = dedup_peers(peers);
                let maxs = g.config.max_signers as usize;
                if cands.len() < maxs {
                    let mut r: Vec<Action> = Vec::new();
                    r.push(Action::ResolveGen(g.session_id, Err(SwarmError::GenerationError)));
                    proof {
                        lemma_wf_remove_gen(pre, self.signs@, fi as int);
                        assert(acts_view(r@) =~= seq![ActionV::ResolveGen(
                            pre[fi as int].session_id@,
                            Err(SwarmError::GenerationError),
                        )]);
                    }
                    r
                } else {
                    proof {
                        assert(picks@.len() == pre[fi as int].config.max_signers);
                        assert(picks_in_range(
                            picks@,
                            dedup_spec(peers.deep_view()).len() as int,
                        ));
                        lemma_select_spec(dedup_spec(peers.deep_view()), picks@);
                    }
                    let sel = select_participants(cands, picks);
                    let mut r: Vec<Action> = Vec::new();
                    r.push(Action::Subscribe(copy_bytes(&g.session_id)));
                    let mut invs = build_invitations(&g.session_id, self_peer, listen_addrs, &sel);
                    r.append(&mut invs);
                    let deadline = deadline_after(now, JOIN_WAIT);
                    let g2 = GenSession {
                        session_id: g.session_id,
                        query_id: g.query_id,
                        config: g.config,
                        phase: GenPhase::AwaitingJoinResponses,
                        selected: sel,
                        deadline,
                    };
                    self.gens.insert(fi, g2);
                    proof {
                        let ghost sels = select_spec(dedup_spec(peers.deep_view()), picks@);
                        assert(self.gens@ =~= pre.update(fi as int, g2));
                        assert(g2.wf());
                        lemma_wf_update_gen(pre, self.signs@, fi as int, g2);
                        assert(acts_view(r@) =~= seq![ActionV::Subscribe(
                            pre[fi as int].session_id@,
                        )] + Seq::new(
                            sels.len(),
                            |k: int| ActionV::SendDirect(
                                sels[k],
                                join_message_spec(
                                    pre[fi as int].session_id@,
                                    self_peer@,
                                    (k + 1) as u16,
                                    listen_addrs.deep_view(),
                                ),
                            ),
                        ));
                    }
                    r
                }
            },
        }
    }

    /// Handles a peer-lookup result, drawing the selection uniformly at
    /// random without replacement: whatever the randomness, the resulting
    /// participant set holds exactly `max_signers` distinct peers from the
    /// lookup result, and the subscription precedes every invitation.
    pub fn on_closest_peers_random(
        &mut self,
        query_id: &Vec<u8>,
        peers: Vec<Vec<u8>>,
        self_peer: &Vec<u8>,
        listen_addrs: &Vec<Vec<u8>>,
        now: u64,
    ) -> (r: Vec<Action>)
        requires
            old(self).wf(),
        ensures
            final(self).wf(),
            final(self).signs@ == old(self).signs@,
            lookup_post(
                old(self).gens@,
                final(self).gens@,
                query_id@,
                peers.deep_view(),
                self_peer@,
                listen_addrs.deep_view(),
                now,
                acts_view(r@),
            ),
    {
        let preview = dedup_peers(copy_bytes_vec(&peers));
        let found = self.find_gen_by_query(query_id);
        let mut picks: Vec<usize> = Vec::new();
        match found {
            None => {},
            Some(fi) => {
                let is_looking = match self.gens[fi].phase {
                    GenPhase::LookingUpPeers => true,
                    _ => false,
                };
                let maxs = self.gens[fi].config.max_signers as usize;
                if is_looking && preview.len() >= maxs {
                    picks = draw_picks(maxs, preview.len());
                }
                proof {
                    assert forall|i: int|
                        0 <= i < self.gens@.len() && (#[trigger] self.gens@[i]).query_id@
                            == query_id@ implies i == fi as int by {
                        if i != fi as int {
                            assert(self.gens@[i].query_id@ != self.gens@[fi as int].query_id@);
                        }
                    }
                }
            },
        }
        assert(picks_fit(self.gens@, query_id@, peers.deep_view(), picks@));
        let ghost pre = self.gens@;
        let r = self.on_closest_peers(query_id, peers, &picks, self_peer, listen_addrs, now);
        proof {
            assert forall|i: int|
                0 <= i < pre.len() && (#[trigger] pre[i]).query_id@ == query_id@ && pre[i].phase
                    == GenPhase::LookingUpPeers
                    && dedup_spec(peers.deep_view()).len() >= pre[i].config.max_signers implies ({
                let sel = select_spec(dedup_spec(peers.deep_view()), picks@);
                sel.no_duplicates() && sel.len() == pre[i].config.max_signers && (forall|p: int|
                    0 <= p < sel.len() ==> dedup_spec(peers.deep_view()).contains(
                        #[trigger] sel[p],
                    ))
            }) by {
                lemma_dedup_spec(peers.deep_view());
                lemma_select_spec(dedup_spec(peers.deep_view()), picks@);
            }
        }
        r
    }

    /// Handles a subscription confirmation on a session topic carrying the
    /// peers joined to it: a foreign responder fails the session with
    /// `InvalidPeer` before any cryptographic round; full valid
    /// participation broadcasts the round-one start and begins key
    /// derivation; a partial valid set keeps waiting for its deadline. An
    /// event for no waiting session is ignored.
    pub fn on_subscribed(&mut self, topic: &Vec<u8>, responders: &Vec<Vec<u8>>) -> (r: Vec<Action>)
        requires
            old(self).wf(),
        ensures
            final(self).wf(),
            final(self).signs@ == old(self).signs@,
            subscribed_post(
                old(self).gens@,
                final(self).gens@,
                topic@,
                responders.deep_view(),
                acts_view(r@),
            ),
    {
        let found = self.find_gen_by_id(topic);
        match found {
            None => Vec::new(),
            Some(fi) => {
                let is_awaiting = match self.gens[fi].phase {
                    GenPhase::AwaitingJoinResponses => true,
                    _ => false,
                };
                if !is_awaiting {
                    proof {
                        assert forall|i: int|
                            0 <= i < self.gens@.len() && (#[trigger] self.gens@[i]).session_id@
                                == topic@ implies self.gens@[i].phase
                            != GenPhase::AwaitingJoinResponses by {
                            if i != fi {
                                assert(self.gens@[i].session_id@ != self.gens@[fi as int].session_id@);
                            }
                        }
                    }
                    return Vec::new();
                }
                let ghost pre = self.gens@;
                let g = self.gens.remove(fi);
                let foreign = !validate_responders(responders, &g.selected);
                proof {
                    assert forall|i: int|
                        0 <= i < pre.len() && (#[trigger] pre[i]).session_id@ == topic@ implies i
                        == fi as int by {
                        if i != fi as int {
                            assert(pre[i].session_id@ != pre[fi as int].session_id@);
                        }
                    }
                }
                if foreign {
                    let mut r: Vec<Action> = Vec::new();
                    r.push(Action::ResolveGen(copy_bytes(topic), Err(SwarmError::InvalidPeer)));
                    proof {
                        lemma_wf_remove_gen(pre, self.signs@, fi as int);
                        assert(acts_view(r@) =~= seq![ActionV::ResolveGen(
                            topic@,
                            Err(SwarmError::InvalidPeer),
                        )]);
                    }
                    r
                } else {
                    let full = validate_responders(&g.selected, responders);
                    if full {
                        let mut r: Vec<Action> = Vec::new();
                        r.push(Action::Publish(copy_bytes(topic), gen_round_one_message()));
                        r.push(
                            Action::DeriveKey(
                                copy_bytes(topic),
                                g.config.min_signers,
                                g.config.max_signers,
                            ),
                        );
                        let ghost gv = g;
                        let g2 = GenSession {
                            session_id: g.session_id,
                            query_id: g.query_id,
                            config: g.config,
                            phase: GenPhase::Running,
                            selected: g.selected,
                            deadline: u64::MAX,
                        };
                        self.gens.insert(fi, g2);
                        proof {
                            assert(self.gens@ =~= pre.update(fi as int, g2));
                            assert(g2.wf());
                            lemma_wf_update_gen(pre, self.signs@, fi as int, g2);
                            assert(acts_view(r@) =~= seq![
                                ActionV::Publish(topic@, gen_round_one_spec()),
                                ActionV::DeriveKey(
                                    topic@,
                                    gv.config.min_signers,
                                    gv.config.max_signers,
                                ),
                            ]);
                        }
                        r
                    } else {
                        self.gens.insert(fi, g);
                        proof {
                            assert(self.gens@ =~= pre);
                        }
                        Vec::new()
                    }
                }
            },
        }
    }

    /// Routes a broadcast payload to the session whose id names the topic
    /// it arrived on; a payload for an unknown or expired session id is
    /// silently dropped, which is the expected fate of late stragglers.
    pub fn route_message(&self, topic: &Vec<u8>, payload: &Vec<u8>) -> (r: Vec<Action>)
        ensures
            route_post(self.gens@, self.signs@, topic@, payload@, acts_view(r@)),
    {
        if self.find_gen_by_id(topic).is_some() {
            let mut r: Vec<Action> = Vec::new();
            r.push(Action::DeliverGenRound(copy_bytes(topic), copy_bytes(payload)));
            proof {
                assert(acts_view(r@) =~= seq![ActionV::DeliverGenRound(topic@, payload@)]);
            }
            r
        } else if self.find_sign_by_id(topic).is_some() {
            let mut r: Vec<Action> = Vec::new();
            r.push(Action::DeliverSignRound(copy_bytes(topic), copy_bytes(payload)));
            proof {
                assert(acts_view(r@) =~= seq![ActionV::DeliverSignRound(topic@, payload@)]);
            }
            r
        } else {
            Vec::new()
        }
    }

    /// Delivers the group verifying key derived for a generation session:
    /// resolves the session's pending call with it and retires the session.
    pub fn on_key_ready(&mut self, session_id: &Vec<u8>, key: Vec<u8>) -> (r: Vec<Action>)
        requires
            old(self).wf(),
        ensures
            final(self).wf(),
            final(self).signs@ == old(self).signs@,
            key_ready_post(
                old(self).gens@,
                final(self).gens@,
                session_id@,
                key@,
                acts_view(r@),
            ),
    {
        let found = self.find_gen_by_id(session_id);
        match found {
            None => Vec::new(),
            Some(fi) => {
                let is_running = match self.gens[fi].phase {
                    GenPhase::Running => true,
                    _ => false,
                };
                proof {
                    assert forall|i: int|
                        0 <= i < self.gens@.len() && (#[trigger] self.gens@[i]).session_id@
                            == session_id@ implies i == fi as int by {
                        if i != fi as int {
                            assert(self.gens@[i].session_id@ != self.gens@[fi as int].session_id@);
                        }
                    }
                }
                if !is_running {
                    return Vec::new();
                }
                let ghost pre = self.gens@;
                let _g = self.gens.remove(fi);
                let mut r: Vec<Action> = Vec::new();
                r.push(Action::ResolveGen(copy_bytes(session_id), Ok(key)));
                proof {
                    lemma_wf_remove_gen(pre, self.signs@, fi as int);
                    assert(acts_view(r@) =~= seq![ActionV::ResolveGen(session_id@, Ok(key@))]);
                }
                r
            },
        }
    }

    /// Delivers a combined signature for a signing session: verifies it
    /// against the session's group key and message, resolves the pending
    /// call with the signature only if it verifies (`InvalidSignature`
    /// otherwise), and retires the session either way.
    pub fn on_sig_ready(&mut self, session_id: &Vec<u8>, sig: Vec<u8>) -> (r: Vec<Action>)
        requires
            old(self).wf(),
        ensures
            final(self).wf(),
            final(self).gens@ == old(self).gens@,
            sig_ready_post(
                old(self).signs@,
                final(self).signs@,
                session_id@,
                sig@,
                acts_view(r@),
            ),
    {
        let found = self.find_sign_by_id(session_id);
        match found {
            None => Vec::new(),
            Some(fi) => {
                proof {
                    assert forall|i: int|
                        0 <= i < self.signs@.len() && (#[trigger] self.signs@[i]).session_id@
                            == session_id@ implies i == fi as int by {
                        if i != fi as int {
                            assert(self.signs@[i].session_id@
                                != self.signs@[fi as int].session_id@);
                        }
                    }
                }
                let ghost pre = self.signs@;
                let s = self.signs.remove(fi);
                let valid = verify_signature(&s.group_key, &s.message, &sig);
                let ghost sigv = sig@;
                let outcome = settle_signature(valid, sig);
                let mut r: Vec<Action> = Vec::new();
                r.push(Action::ResolveSign(copy_bytes(session_id), outcome));
                proof {
                    lemma_wf_remove_sign(self.gens@, pre, fi as int);
                    if sig_valid(s.group_key@, s.message@, sigv) {
                        assert(acts_view(r@) =~= seq![ActionV::ResolveSign(
                            session_id@,
                            Ok(sigv),
                        )]);
                    } else {
                        assert(acts_view(r@) =~= seq![ActionV::ResolveSign(
                            session_id@,
                            Err(SwarmError::InvalidSignature),
                        )]);
                    }
                }
                r
            },
        }
    }

    /// Expires every session whose deadline has passed: each expired
    /// session is failed with its protocol's timeout error and its id is
    /// released from the registry, so late messages for it are dropped.
    pub fn on_tick(&mut self, now: u64) -> (r: Vec<Action>)
        requires
            old(self).wf(),
        ensures
            final(self).wf(),
            tick_post(
                old(self).gens@,
                old(self).signs@,
                final(self).gens@,
                final(self).signs@,
                now,
                acts_view(r@),
            ),
    {
        let ghost ag = self.gens@;
        let ghost asg = self.signs@;
        let mut kept: Vec<GenSession> = Vec::new();
        let mut r: Vec<Action> = Vec::new();
        let ghost mut k: int = 0;
        while self.gens.len() > 0
            invariant
                0 <= k,
                k + self.gens@.len() == ag.len(),
                self.gens@ =~= ag.skip(k),
                self.signs@ == asg,
                kept@ == live_gens(ag.take(k), now),
                acts_view(r@) == expired_gen_acts(ag.take(k), now),
                forall|p: int|
                    0 <= p < kept@.len() ==> ag.take(k).contains(#[trigger] kept@[p])
                        && kept@[p].deadline > now,
                forall|p: int, q: int|
                    #![trigger kept@[p], kept@[q]]
                    0 <= p < q < kept@.len() ==> kept@[p].session_id@ != kept@[q].session_id@
                        && kept@[p].query_id@ != kept@[q].query_id@,
                wf_sessions(ag, asg),
            decreases self.gens@.len(),
        {
            let g = self.gens.remove(0);
            proof {
                assert(g == ag[k]);
                assert(self.gens@ =~= ag.skip(k + 1));
                assert(ag.take(k + 1).drop_last() =~= ag.take(k));
                assert(ag.take(k + 1).last() == ag[k]);
            }
            if g.deadline > now {
                let ghost pre_kept = kept@;
                kept.push(g);
                proof {
                    assert(kept@ =~= pre_kept.push(ag[k]));
                    assert(kept@ == live_gens(ag.take(k + 1), now));
                    assert forall|p: int|
                        0 <= p < kept@.len() implies ag.take(k + 1).contains(#[trigger] kept@[p])
                        && kept@[p].deadline > now by {
                        if p < kept@.len() - 1 {
                            assert(kept@[p] == pre_kept[p]);
                            let j = choose|j: int| 0 <= j < k && ag.take(k)[j] == pre_kept[p];
                            assert(ag.take(k + 1)[j] == pre_kept[p]);
                        } else {
                            assert(kept@[p] == ag[k]);
                            assert(ag.take(k + 1)[k] == ag[k]);
                        }
                    }
                    assert forall|p: int, q: int|
                        #![trigger kept@[p], kept@[q]]
                        0 <= p < q < kept@.len() implies kept@[p].session_id@
                        != kept@[q].session_id@ && kept@[p].query_id@ != kept@[q].query_id@ by {
                        if q == kept@.len() - 1 {
                            assert(kept@[p] == pre_kept[p]);
                            let j = choose|j: int| 0 <= j < k && ag.take(k)[j] == pre_kept[p];
                            assert(ag[j] == kept@[p]);
                            assert(kept@[q] == ag[k]);
                        } else {
                            assert(kept@[p] == pre_kept[p] && kept@[q] == pre_kept[q]);
                        }
                    }
                }
            } else {
                let ghost pre_r = r@;
                let a = Action::ResolveGen(g.session_id, Err(SwarmError::GenerationError));
                r.push(a);
                proof {
                    assert(acts_view(r@) =~= acts_view(pre_r).push(
                        ActionV::ResolveGen(ag[k].session_id@, Err(SwarmError::GenerationError)),
                    ));
                    assert(acts_view(r@) == expired_gen_acts(ag.take(k + 1), now));
                }
            }
            proof {
                k = k + 1;
            }
        }
        proof {
            assert(ag.take(k) =~= ag);
        }
        self.gens = kept;
        let ghost fg = self.gens@;
        let mut kept_s: Vec<SignSession> = Vec::new();
        let ghost mut k2: int = 0;
        while self.signs.len() > 0
            invariant
                0 <= k2,
                k2 + self.signs@.len() == asg.len(),
                self.signs@ =~= asg.skip(k2),
                self.gens@ == fg,
                kept_s@ == live_signs(asg.take(k2), now),
                acts_view(r@) == expired_gen_acts(ag, now) + expired_sign_acts(
                    asg.take(k2),
                    now,
                ),
                forall|p: int|
                    0 <= p < kept_s@.len() ==> asg.take(k2).contains(#[trigger] kept_s@[p])
                        && kept_s@[p].deadline > now,
                forall|p: int, q: int|
                    #![trigger kept_s@[p], kept_s@[q]]
                    0 <= p < q < kept_s@.len() ==> kept_s@[p].session_id@
                        != kept_s@[q].session_id@,
                wf_sessions(ag, asg),
            decreases self.signs@.len(),
        {
            let s = self.signs.remove(0);
            proof {
                assert(s == asg[k2]);
                assert(self.signs@ =~= asg.skip(k2 + 1));
                assert(asg.take(k2 + 1).drop_last() =~= asg.take(k2));
                assert(asg.take(k2 + 1).last() == asg[k2]);
            }
            if s.deadline > now {
                let ghost pre_kept = kept_s@;
                kept_s.push(s);
                proof {
                    assert(kept_s@ =~= pre_kept.push(asg[k2]));
                    assert(kept_s@ == live_signs(asg.take(k2 + 1), now));
                    assert forall|p: int|
                        0 <= p < kept_s@.len() implies asg.take(k2 + 1).contains(
                        #[trigger] kept_s@[p],
                    ) && kept_s@[p].deadline > now by {
                        if p < kept_s@.len() - 1 {
                            assert(kept_s@[p] == pre_kept[p]);
                            let j = choose|j: int| 0 <= j < k2 && asg.take(k2)[j] == pre_kept[p];
                            assert(asg.take(k2 + 1)[j] == pre_kept[p]);
                        } else {
                            assert(kept_s@[p] == asg[k2]);
                            assert(asg.take(k2 + 1)[k2] == asg[k2]);
                        }
                    }
                    assert forall|p: int, q: int|
                        #![trigger kept_s@[p], kept_s@[q]]
                        0 <= p < q < kept_s@.len() implies kept_s@[p].session_id@
                        != kept_s@[q].session_id@ by {
                        if q == kept_s@.len() - 1 {
                            assert(kept_s@[p] == pre_kept[p]);
                            let j = choose|j: int| 0 <= j < k2 && asg.take(k2)[j] == pre_kept[p];
                            assert(asg[j] == kept_s@[p]);
                            assert(kept_s@[q] == asg[k2]);
                        } else {
                            assert(kept_s@[p] == pre_kept[p] && kept_s@[q] == pre_kept[q]);
                        }
                    }
                }
            } else {
                let ghost pre_r = r@;
                let a = Action::ResolveSign(s.session_id, Err(SwarmError::SigningError));
                r.push(a);
                proof {
                    assert(acts_view(r@) =~= acts_view(pre_r).push(
                        ActionV::ResolveSign(asg[k2].session_id@, Err(SwarmError::SigningError)),
                    ));
                    assert(acts_view(r@) == expired_gen_acts(ag, now) + expired_sign_acts(
                        asg.take(k2 + 1),
                        now,
                    ));
                }
            }
            proof {
                k2 = k2 + 1;
            }
        }
        proof {
            assert(asg.take(k2) =~= asg);
        }
        self.signs = kept_s;
        proof {
            assert forall|p: int|
                0 <= p < self.gens@.len() implies ag.contains(#[trigger] self.gens@[p])
                && self.gens@[p].deadline > now by {
                let j = choose|j: int| 0 <= j < k && ag.take(k)[j] == self.gens@[p];
                assert(ag[j] == self.gens@[p]);
            }
            assert forall|p: int|
                0 <= p < self.signs@.len() implies asg.contains(#[trigger] self.signs@[p])
                && self.signs@[p].deadline > now by {
                let j = choose|j: int| 0 <= j < k2 && asg.take(k2)[j] == self.signs@[p];
                assert(asg[j] == self.signs@[p]);
            }
            assert forall|i: int|
                0 <= i < self.gens@.len() implies (#[trigger] self.gens@[i]).wf() by {
                let j = choose|j: int| 0 <= j < ag.len() && ag[j] == self.gens@[i];
            }
            assert forall|i: int|
                0 <= i < self.signs@.len() implies (#[trigger] self.signs@[i]).wf() by {
                let j = choose|j: int| 0 <= j < asg.len() && asg[j] == self.signs@[i];
            }
            assert forall|i: int, j: int|
                #![trigger self.gens@[i], self.signs@[j]]
                0 <= i < self.gens@.len() && 0 <= j < self.signs@.len() implies self.gens@[i].session_id@
                != self.signs@[j].session_id@ by {
                let a = choose|a: int| 0 <= a < ag.len() && ag[a] == self.gens@[i];
                let b = choose|b: int| 0 <= b < asg.len() && asg[b] == self.signs@[j];
            }
        }
        r
    }

    /// One step of the event dispatch loop: routes the event by its
    /// correlator to the matching session handler; what handling each
    /// event guarantees is stated by the corresponding post predicate.
    pub fn dispatch(
        &mut self,
        event: NetEvent,
        self_peer: &Vec<u8>,
        listen_addrs: &Vec<Vec<u8>>,
        now: u64,
    ) -> (r: Vec<Action>)
        requires
            old(self).wf(),
        ensures
            final(self).wf(),
            event matches NetEvent::ClosestPeers(qid, peers) ==> final(self).signs@
                == old(self).signs@ && lookup_post(
                old(self).gens@,
                final(self).gens@,
                qid@,
                peers.deep_view(),
                self_peer@,
                listen_addrs.deep_view(),
                now,
                acts_view(r@),
            ),
            event matches NetEvent::Subscribed(t, resp) ==> final(self).signs@
                == old(self).signs@ && subscribed_post(
                old(self).gens@,
                final(self).gens@,
                t@,
                resp.deep_view(),
                acts_view(r@),
            ),
            event matches NetEvent::TopicMessage(t, p) ==> final(self).gens@ == old(self).gens@
                && final(self).signs@ == old(self).signs@ && route_post(
                old(self).gens@,
                old(self).signs@,
                t@,
                p@,
                acts_view(r@),
            ),
            event matches NetEvent::Tick(t) ==> tick_post(
                old(self).gens@,
                old(self).signs@,
                final(self).gens@,
                final(self).signs@,
                t,
                acts_view(r@),
            ),
            event matches NetEvent::KeyReady(sid, key) ==> final(self).signs@
                == old(self).signs@ && key_ready_post(
                old(self).gens@,
                final(self).gens@,
                sid@,
                key@,
                acts_view(r@),
            ),
            event matches NetEvent::SigReady(sid, sig) ==> final(self).gens@ == old(self).gens@
                && sig_ready_post(
                old(self).signs@,
                final(self).signs@,
                sid@,
                sig@,
                acts_view(r@),
            ),
    {
        match event {
            NetEvent::ClosestPeers(qid, peers) => self.on_closest_peers_random(
                &qid,
                peers,
                self_peer,
                listen_addrs,
                now,
            ),
            NetEvent::Subscribed(t, resp) => self.on_subscribed(&t, &resp),
            NetEvent::TopicMessage(t, p) => self.route_message(&t, &p),
            NetEvent::Tick(t) => self.on_tick(t),
            NetEvent::KeyReady(sid, key) => self.on_key_ready(&sid, key),
            NetEvent::SigReady(sid, sig) => self.on_sig_ready(&sid, sig),
        }
    }
}

/// An action that hands a round payload to the session named by `sid`.
pub open spec fn delivers_to(a: ActionV, sid: Seq<u8>) -> bool {
    ||| (a matches ActionV::DeliverGenRound(s, m) && s == sid)
    ||| (a matches ActionV::DeliverSignRound(s, m) && s == sid)
}

/// Every participant set fixed by a handled lookup result holds exactly
/// `max_signers` distinct peers, each identified by a unique 1-based
/// index: its position in the selection order.
pub proof fn lemma_participant_set(
    og: Seq<GenSession>,
    ng: Seq<GenSession>,
    qid: Seq<u8>,
    peers: Seq<Seq<u8>>,
    selfp: Seq<u8>,
    addrs: Seq<Seq<u8>>,
    now: u64,
    avs: Seq<ActionV>,
    i: int,
)
    requires
        lookup_post(og, ng, qid, peers, selfp, addrs, now, avs),
        0 <= i < og.len(),
        og[i].query_id@ == qid,
        og[i].phase == GenPhase::LookingUpPeers,
        dedup_spec(peers).len() >= og[i].config.max_signers,
    ensures
        ng[i].selected@.len() == og[i].config.max_signers,
        ng[i].selected.deep_view().no_duplicates(),
        forall|p: int|
            0 <= p < ng[i].selected.deep_view().len() ==> peers.contains(
                #[trigger] ng[i].selected.deep_view()[p],
            ),
{
    lemma_dedup_spec(peers);
}

/// Subscription to a session's topic always completes before any
/// invitation for that session is sent: in the actions of a handled
/// lookup result, the subscribe action stands before every invitation.
pub proof fn lemma_subscribe_before_invitations(
    og: Seq<GenSession>,
    ng: Seq<GenSession>,
    qid: Seq<u8>,
    peers: Seq<Seq<u8>>,
    selfp: Seq<u8>,
    addrs: Seq<Seq<u8>>,
    now: u64,
    avs: Seq<ActionV>,
    i: int,
)
    requires
        lookup_post(og, ng, qid, peers, selfp, addrs, now, avs),
        0 <= i < og.len(),
        og[i].query_id@ == qid,
        og[i].phase == GenPhase::LookingUpPeers,
        dedup_spec(peers).len() >= og[i].config.max_signers,
    ensures
        avs[0] == ActionV::Subscribe(og[i].session_id@),
        forall|a: int, b: int|
            0 <= a < avs.len() && 0 <= b < avs.len() && (#[trigger] avs[a]) is Subscribe && (
            #[trigger] avs[b]) is SendDirect ==> a < b,
{
    assert forall|a: int, b: int|
        0 <= a < avs.len() && 0 <= b < avs.len() && (#[trigger] avs[a]) is Subscribe && (
        #[trigger] avs[b]) is SendDirect implies a < b by {
        if a >= 1 {
            assert(avs[a] is SendDirect);
        }
        if b == 0 {
            assert(avs[b] is Subscribe);
        }
    }
}

/// If any peer responding to a join invitation is not in the original
/// participant set, the session fails with `InvalidPeer`: the pending call
/// is resolved with that error alone, no round starts, no key is derived,
/// and the session id is released.
pub proof fn lemma_foreign_responder_fails(
    og: Seq<GenSession>,
    osg: Seq<SignSession>,
    ng: Seq<GenSession>,
    topic: Seq<u8>,
    resp: Seq<Seq<u8>>,
    avs: Seq<ActionV>,
    i: int,
)
    requires
        wf_sessions(og, osg),
        subscribed_post(og, ng, topic, resp, avs),
        0 <= i < og.len(),
        og[i].session_id@ == topic,
        og[i].phase == GenPhase::AwaitingJoinResponses,
        !all_members(resp, og[i].selected.deep_view()),
    ensures
        avs == seq![ActionV::ResolveGen(topic, Err(SwarmError::InvalidPeer))],
        !gen_has_id(ng, topic),
{
    assert(ng == og.remove(i));
    og.remove_ensures(i);
    assert forall|j: int| 0 <= j < ng.len() implies (#[trigger] ng[j]).session_id@ != topic by {
        if j < i {
            assert(ng[j] == og[j]);
        } else {
            assert(ng[j] == og[j + 1]);
        }
    }
}

/// A wait that exceeds its deadline fails the session with a timeout
/// error and releases its id from the registry: the tick's actions hold
/// the timeout resolution, no session under that id survives, and a late
/// message for that id is dropped rather than delivered.
pub proof fn lemma_timeout_releases(
    og: Seq<GenSession>,
    osg: Seq<SignSession>,
    ng: Seq<GenSession>,
    nsg: Seq<SignSession>,
    now: u64,
    avs: Seq<ActionV>,
    i: int,
    payload: Seq<u8>,
    route_avs: Seq<ActionV>,
)
    requires
        wf_sessions(og, osg),
        tick_post(og, osg, ng, nsg, now, avs),
        0 <= i < og.len(),
        og[i].deadline <= now,
        route_post(ng, nsg, og[i].session_id@, payload, route_avs),
    ensures
        avs.contains(
            ActionV::ResolveGen(og[i].session_id@, Err(SwarmError::GenerationError)),
        ),
        !gen_has_id(ng, og[i].session_id@),
        route_avs.len() == 0,
{
    let sid = og[i].session_id@;
    lemma_expired_gen_act(og, now, i);
    let a = ActionV::ResolveGen(sid, Err(SwarmError::GenerationError));
    let ega = expired_gen_acts(og, now);
    let j = choose|j: int| 0 <= j < ega.len() && ega[j] == a;
    assert(avs[j] == a);
    assert forall|p: int| 0 <= p < ng.len() implies (#[trigger] ng[p]).session_id@ != sid by {
        let q = choose|q: int| 0 <= q < og.len() && og[q] == ng[p];
        assert(og[q].deadline > now);
        assert(q != i);
    }
    assert forall|p: int| 0 <= p < nsg.len() implies (#[trigger] nsg[p]).session_id@ != sid by {
        let q = choose|q: int| 0 <= q < osg.len() && osg[q] == nsg[p];
        assert(osg[q].session_id@ != og[i].session_id@);
    }
    assert(!gen_has_id(ng, sid));
    assert(!sign_has_id(nsg, sid));
}

/// Two sessions with different ids never cross-deliver: every delivery in
/// the routing of a message under one session id names that id, so a
/// session under any other id receives nothing.
pub proof fn lemma_no_cross_delivery(
    gens: Seq<GenSession>,
    signs: Seq<SignSession>,
    topic: Seq<u8>,
    other: Seq<u8>,
    payload: Seq<u8>,
    avs: Seq<ActionV>,
)
    requires
        route_post(gens, signs, topic, payload, avs),
        other != topic,
    ensures
        forall|a: int| 0 <= a < avs.len() ==> delivers_to(#[trigger] avs[a], topic),
        forall|a: int| 0 <= a < avs.len() ==> !delivers_to(#[trigger] avs[a], other),
{
    if gen_has_id(gens, topic) {
        assert(avs[0] == ActionV::DeliverGenRound(topic, payload));
    } else if sign_has_id(signs, topic) {
        assert(avs[0] == ActionV::DeliverSignRound(topic, payload));
    }
}

} // verus!
