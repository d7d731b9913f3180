//! Session and query identifiers.
//!
//! A protocol run is correlated by a random identifier of 32 ASCII
//! alphanumeric bytes; a peer-lookup request is correlated the same way.

use vstd::prelude::*;
use rand::Rng;

verus! {

/// True of the byte values that may appear in an identifier: ASCII letters
/// and digits.
pub open spec fn is_alnum_byte(b: u8) -> bool {
    (65 <= b <= 90) || (97 <= b <= 122) || (48 <= b <= 57)
}

/// A well-formed session or query identifier: exactly 32 ASCII alphanumeric
/// bytes.
pub open spec fn valid_id(s: Seq<u8>) -> bool {
    s.len() == 32 && forall|i: int| 0 <= i < s.len() ==> is_alnum_byte(#[trigger] s[i])
}

/// Relies on rand's `Alphanumeric` distribution: every sampled byte is drawn
/// from the set "A-Z a-z 0-9".
#[verifier::external_body]
pub fn random_id() -> (r: Vec<u8>)
    ensures
        valid_id(r@),
{
    rand::thread_rng().sample_iter(&rand::distributions::Alphanumeric).take(32).collect()
}

/// Relies on rand's `Rng::gen_range`: the result lies inside the given
/// half-open range, which must not be empty.
#[verifier::external_body]
pub fn random_below(n: usize) -> (r: usize)
    requires
        n > 0,
    ensures
        r < n,
{
    rand::thread_rng().gen_range(0..n)
}

/// Checks that a byte string is a well-formed identifier.
pub fn check_id(s: &Vec<u8>) -> (r: bool)
    ensures
        r == valid_id(s@),
{
    if s.len() != 32 {
        return false;
    }
    let mut i: usize = 0;
    while i < s.len()
        invariant
            0 <= i <= s@.len(),
            s@.len() == 32,
            forall|j: int| 0 <= j < i ==> is_alnum_byte(#[trigger] s@[j]),
        decreases s@.len() - i,
    {
        let b = s[i];
        if !((65 <= b && b <= 90) || (97 <= b && b <= 122) || (48 <= b && b <= 57)) {
            return false;
        }
        i = i + 1;
    }
    true
}

/// Draws `n` selection indices for removal without replacement from a pool
/// of `m` candidates: the k-th pick indexes the pool after k removals.
pub fn draw_picks(n: usize, m: usize) -> (r: Vec<usize>)
    requires
        n <= m,
    ensures
        r@.len() == n,
        forall|k: int| 0 <= k < n ==> r@[k] < m - k,
{
    let mut r: Vec<usize> = Vec::new();
    let mut k: usize = 0;
    while k < n
        invariant
            k <= n,
            n <= m,
            r@.len() == k,
            forall|j: int| 0 <= j < k ==> r@[j] < m - j,
        decreases n - k,
    {
        let p = random_below(m - k);
        r.push(p);
        k = k + 1;
    }
    r
}

} // verus!
