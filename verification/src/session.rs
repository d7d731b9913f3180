//! Session state and the vocabulary of the event dispatch loop.
//!
//! A protocol run is driven step by step: the network hands the loop an
//! event, the loop consults the session registry and answers with a list of
//! actions for the network to perform. Sessions, events and actions are all
//! plain values, so every transition is a pure, verified function.

use vstd::prelude::*;
use crate::SwarmError;
use crate::ids::valid_id;
use crate::select::SignerConfig;

verus! {

/// Bounded wait, in time units, for a peer-lookup result.
pub const LOOKUP_WAIT: u64 = 30;

/// Bounded wait, in time units, for the join responses of a session.
pub const JOIN_WAIT: u64 = 120;

/// Addition on deadlines that pins at the largest representable instant.
pub open spec fn sat_add64(a: u64, b: u64) -> u64 {
    if a + b <= u64::MAX {
        (a + b) as u64
    } else {
        u64::MAX
    }
}

/// Computes the deadline `wait` time units after `now`, saturating.
pub fn deadline_after(now: u64, wait: u64) -> (r: u64)
    ensures
        r == sat_add64(now, wait),
{
    if now <= u64::MAX - wait {
        now + wait
    } else {
        u64::MAX
    }
}

/// The live phases of a generation session. Completion and failure are
/// terminal: they resolve the caller's pending call and release the session
/// id from the registry, so no terminal session is ever stored.
#[derive(Clone, Copy, Debug, PartialEq, Eq, Structural)]
pub enum GenPhase {
    /// Waiting for the result of the peer lookup.
    LookingUpPeers,
    /// Invitations sent; waiting for the join barrier on the session topic.
    AwaitingJoinResponses,
    /// Join barrier passed; cryptographic rounds in flight.
    Running,
}

/// One in-flight distributed key generation run.
pub struct GenSession {
    pub session_id: Vec<u8>,
    pub query_id: Vec<u8>,
    pub config: SignerConfig,
    pub phase: GenPhase,
    pub selected: Vec<Vec<u8>>,
    pub deadline: u64,
}

impl GenSession {
    /// Well-formedness: valid identifiers, valid thresholds, and a
    /// participant set that is empty until selection and afterwards holds
    /// exactly `max_signers` distinct peers.
    pub open spec fn wf(self) -> bool {
        &&& valid_id(self.session_id@)
        &&& valid_id(self.query_id@)
        &&& self.config.wf()
        &&& (self.phase == GenPhase::LookingUpPeers ==> self.selected@.len() == 0)
        &&& (self.phase != GenPhase::LookingUpPeers ==> self.selected@.len()
            == self.config.max_signers && self.selected.deep_view().no_duplicates())
    }
}

/// One in-flight signing run over an already-established group.
pub struct SignSession {
    pub session_id: Vec<u8>,
    pub group_key: Vec<u8>,
    pub message: Vec<u8>,
    pub deadline: u64,
}

impl SignSession {
    /// Well-formedness: a valid session identifier.
    pub open spec fn wf(self) -> bool {
        valid_id(self.session_id@)
    }
}

/// An application-level network event handed to the dispatch loop: the
/// facade's own event streams and the completions of the out-of-scope
/// cryptographic capability, reduced to plain values.
pub enum NetEvent {
    /// A peer lookup finished: its query id and the peers found.
    ClosestPeers(Vec<u8>, Vec<Vec<u8>>),
    /// A subscription on a topic was confirmed, with the peers joined to it.
    Subscribed(Vec<u8>, Vec<Vec<u8>>),
    /// A broadcast message arrived on a topic.
    TopicMessage(Vec<u8>, Vec<u8>),
    /// The clock advanced to the given instant.
    Tick(u64),
    /// The cryptographic layer derived the group verifying key of a session.
    KeyReady(Vec<u8>, Vec<u8>),
    /// The cryptographic layer combined a signature for a session.
    SigReady(Vec<u8>, Vec<u8>),
}

/// An instruction the dispatch loop hands back to the network layer.
pub enum Action {
    /// Subscribe to the topic named by the bytes.
    Subscribe(Vec<u8>),
    /// Publish the payload on the topic.
    Publish(Vec<u8>, Vec<u8>),
    /// Send the payload directly to the peer.
    SendDirect(Vec<u8>, Vec<u8>),
    /// Issue a peer lookup correlated by the query id.
    StartLookup(Vec<u8>),
    /// Hand a generation round payload to the session's cryptographic layer.
    DeliverGenRound(Vec<u8>, Vec<u8>),
    /// Hand a signing round payload to the session's cryptographic layer.
    DeliverSignRound(Vec<u8>, Vec<u8>),
    /// Start key derivation for the session with the given thresholds.
    DeriveKey(Vec<u8>, u16, u16),
    /// Resolve the pending generation call of the session.
    ResolveGen(Vec<u8>, Result<Vec<u8>, SwarmError>),
    /// Resolve the pending signing call of the session.
    ResolveSign(Vec<u8>, Result<Vec<u8>, SwarmError>),
}

/// The mathematical image of an `Action`.
pub enum ActionV {
    Subscribe(Seq<u8>),
    Publish(Seq<u8>, Seq<u8>),
    SendDirect(Seq<u8>, Seq<u8>),
    StartLookup(Seq<u8>),
    DeliverGenRound(Seq<u8>, Seq<u8>),
    DeliverSignRound(Seq<u8>, Seq<u8>),
    DeriveKey(Seq<u8>, u16, u16),
    ResolveGen(Seq<u8>, Result<Seq<u8>, SwarmError>),
    ResolveSign(Seq<u8>, Result<Seq<u8>, SwarmError>),
}

impl View for Action {
    type V = ActionV;

    open spec fn view(&self) -> ActionV {
        match self {
            Action::Subscribe(t) => ActionV::Subscribe(t@),
            Action::Publish(t, m) => ActionV::Publish(t@, m@),
            Action::SendDirect(p, m) => ActionV::SendDirect(p@, m@),
            Action::StartLookup(q) => ActionV::StartLookup(q@),
            Action::DeliverGenRound(s, m) => ActionV::DeliverGenRound(s@, m@),
            Action::DeliverSignRound(s, m) => ActionV::DeliverSignRound(s@, m@),
            Action::DeriveKey(s, mn, mx) => ActionV::DeriveKey(s@, *mn, *mx),
            Action::ResolveGen(s, res) => ActionV::ResolveGen(
                s@,
                match res {
                    Ok(k) => Ok(k@),
                    Err(e) => Err(*e),
                },
            ),
            Action::ResolveSign(s, res) => ActionV::ResolveSign(
                s@,
                match res {
                    Ok(g) => Ok(g@),
                    Err(e) => Err(*e),
                },
            ),
        }
    }
}

/// The mathematical image of a list of actions.
pub open spec fn acts_view(acts: Seq<Action>) -> Seq<ActionV> {
    acts.map_values(|a: Action| a@)
}

} // verus!
