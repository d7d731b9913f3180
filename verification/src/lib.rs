//! Peer-coordination layer for a threshold-signing swarm.
//!
//! The crate models the coordination logic itself: session identifiers,
//! the wire envelope codec, participant selection and validation, and the
//! per-session state machines that the event dispatch loop drives. Network
//! transport and the asynchronous runtime live outside the library and feed
//! it plain values (peer ids, topics, payloads, clock ticks).

use vstd::prelude::*;

pub mod ids;
pub mod registry;
pub mod select;
pub mod session;
pub mod signing;
pub mod wire;

verus! {

/// Errors surfaced by the swarm coordination layer.
#[derive(Clone, Copy, Debug, PartialEq, Eq, Structural)]
pub enum SwarmError {
    GenerationError,
    SigningError,
    InvalidSignature,
    ConfigurationError,
    MessageProcessingError,
    DatabaseError,
    InvalidPeer,
}

impl SwarmError {
    /// A short human-readable description of the error.
    pub fn message(&self) -> String {
        match self {
            SwarmError::GenerationError => "Generation Error".to_string(),
            SwarmError::SigningError => "Signing Error".to_string(),
            SwarmError::InvalidSignature => "Produced a signature that is invalid".to_string(),
            SwarmError::ConfigurationError => "Configuration error".to_string(),
            SwarmError::MessageProcessingError => "Message processing error".to_string(),
            SwarmError::DatabaseError => "Database error".to_string(),
            SwarmError::InvalidPeer => "Invalid peer responded".to_string(),
        }
    }
}

/// Compares two byte strings for element-wise equality.
pub fn bytes_eq(a: &Vec<u8>, b: &Vec<u8>) -> (r: bool)
    ensures
        r == (a@ == b@),
{
    if a.len() != b.len() {
        assert(a@ != b@);
        return false;
    }
    let mut i: usize = 0;
    while i < a.len()
        invariant
            0 <= i <= a@.len(),
            a@.len() == b@.len(),
            forall|j: int| 0 <= j < i ==> a@[j] == b@[j],
        decreases a@.len() - i,
    {
        if a[i] != b[i] {
            return false;
        }
        i = i + 1;
    }
    assert(a@ =~= b@);
    true
}

/// Copies a byte string.
pub fn copy_bytes(v: &Vec<u8>) -> (r: Vec<u8>)
    ensures
        r@ == v@,
{
    let mut r: Vec<u8> = Vec::new();
    let mut i: usize = 0;
    while i < v.len()
        invariant
            0 <= i <= v@.len(),
            r@ =~= v@.subrange(0, i as int),
        decreases v@.len() - i,
    {
        r.push(v[i]);
        assert(r@ =~= v@.subrange(0, i as int + 1));
        i = i + 1;
    }
    assert(r@ =~= v@);
    r
}

/// Copies a list of byte strings.
pub fn copy_bytes_vec(v: &Vec<Vec<u8>>) -> (r: Vec<Vec<u8>>)
    ensures
        r.deep_view() == v.deep_view(),
{
    let mut r: Vec<Vec<u8>> = Vec::new();
    let mut i: usize = 0;
    while i < v.len()
        invariant
            0 <= i <= v@.len(),
            r@.len() == i,
            forall|j: int| 0 <= j < i ==> #[trigger] r.deep_view()[j] == v.deep_view()[j],
        decreases v@.len() - i,
    {
        let ghost pre = r;
        let b = copy_bytes(&v[i]);
        r.push(b);
        proof {
            assert forall|j: int| 0 <= j < i + 1 implies #[trigger] r.deep_view()[j]
                == v.deep_view()[j] by {
                assert(r.deep_view()[j] == r@[j]@);
                if j < i as int {
                    assert(pre.deep_view()[j] == v.deep_view()[j]);
                    assert(pre.deep_view()[j] == pre@[j]@);
                    assert(r@[j] == pre@[j]);
                } else {
                    assert(r@[j] == b);
                }
            }
        }
        i = i + 1;
    }
    assert(r.deep_view() =~= v.deep_view());
    r
}

/// True when the list of byte strings holds the given byte string.
pub fn contains_bytes(hay: &Vec<Vec<u8>>, needle: &Vec<u8>) -> (r: bool)
    ensures
        r == hay.deep_view().contains(needle@),
{
    let mut i: usize = 0;
    while i < hay.len()
        invariant
            0 <= i <= hay@.len(),
            forall|j: int| 0 <= j < i ==> hay.deep_view()[j] != needle@,
        decreases hay@.len() - i,
    {
        let here = bytes_eq(&hay[i], needle);
        assert(hay.deep_view()[i as int] == hay@[i as int]@);
        if here {
            return true;
        }
        i = i + 1;
    }
    assert(forall|j: int| 0 <= j < hay.deep_view().len() ==> hay.deep_view()[j] != needle@);
    false
}

} // verus!
