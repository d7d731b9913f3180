//! Threshold parameters, participant selection and responder validation.

use vstd::prelude::*;
use crate::bytes_eq;
use crate::contains_bytes;

verus! {

/// Threshold parameters for a generation run: both positive, and no more
/// signers are required than exist.
#[derive(Clone, Copy, Debug, PartialEq, Eq, Structural)]
pub struct SignerConfig {
    pub min_signers: u16,
    pub max_signers: u16,
}

impl SignerConfig {
    /// Well-formedness: `0 < min_signers <= max_signers`.
    pub open spec fn wf(self) -> bool {
        0 < self.min_signers <= self.max_signers
    }

    /// Checks the threshold parameters.
    pub fn check(&self) -> (r: bool)
        ensures
            r == self.wf(),
    {
        0 < self.min_signers && self.min_signers <= self.max_signers
    }
}

/// The candidate list with every repeated peer dropped, first occurrence
/// kept.
pub open spec fn dedup_spec(s: Seq<Seq<u8>>) -> Seq<Seq<u8>>
    decreases s.len(),
{
    if s.len() == 0 {
        Seq::empty()
    } else {
        let rest = dedup_spec(s.drop_last());
        if s.drop_last().contains(s.last()) {
            rest
        } else {
            rest.push(s.last())
        }
    }
}

/// Deduplication keeps exactly the distinct members of its input.
pub proof fn lemma_dedup_spec(s: Seq<Seq<u8>>)
    ensures
        dedup_spec(s).no_duplicates(),
        forall|x: Seq<u8>| dedup_spec(s).contains(x) <==> s.contains(x),
        dedup_spec(s).len() <= s.len(),
    decreases s.len(),
{
    if s.len() > 0 {
        let prefix = s.drop_last();
        lemma_dedup_spec(prefix);
        assert(forall|i: int| 0 <= i < prefix.len() ==> #[trigger] prefix[i] == s[i]);
        assert forall|x: Seq<u8>| s.contains(x) implies dedup_spec(s).contains(x) by {
            let i = choose|i: int| 0 <= i < s.len() && s[i] == x;
            if i < s.len() - 1 {
                assert(prefix[i] == x);
                assert(prefix.contains(x));
                assert(dedup_spec(prefix).contains(x));
                if !prefix.contains(s.last()) {
                    let j = choose|j: int|
                        0 <= j < dedup_spec(prefix).len() && dedup_spec(prefix)[j] == x;
                    assert(dedup_spec(s)[j] == x);
                }
            } else {
                assert(x == s.last());
                if prefix.contains(s.last()) {
                    assert(dedup_spec(prefix).contains(x));
                } else {
                    assert(dedup_spec(s).last() == x);
                }
            }
        }
        assert forall|x: Seq<u8>| dedup_spec(s).contains(x) implies s.contains(x) by {
            if dedup_spec(prefix).contains(x) {
                assert(prefix.contains(x));
                let i = choose|i: int| 0 <= i < prefix.len() && prefix[i] == x;
                assert(s[i] == x);
            } else {
                assert(x == s.last());
                assert(s[s.len() - 1] == x);
            }
        }
        if !prefix.contains(s.last()) {
            assert(!dedup_spec(prefix).contains(s.last()));
        }
    }
}

/// Drops repeated peers from a candidate list, keeping first occurrences.
pub fn dedup_peers(peers: Vec<Vec<u8>>) -> (r: Vec<Vec<u8>>)
    ensures
        r.deep_view() == dedup_spec(peers.deep_view()),
        r.deep_view().no_duplicates(),
{
    let ghost all = peers.deep_view();
    let mut pool = peers;
    let mut out: Vec<Vec<u8>> = Vec::new();
    let ghost mut k: int = 0;
    while pool.len() > 0
        invariant
            k + pool@.len() == all.len(),
            0 <= k,
            pool.deep_view() =~= all.skip(k),
            out.deep_view() == dedup_spec(all.take(k)),
        decreases pool@.len(),
    {
        let ghost pre_pool = pool.deep_view();
        let ghost pre_vec = pool@;
        let p = pool.remove(0);
        proof {
            assert(p@ == pre_pool[0]);
            assert(p@ == all[k]);
            assert(forall|j: int| 0 <= j < pool@.len() ==> #[trigger] pool@[j] == pre_vec[j + 1]);
            assert forall|j: int| 0 <= j < pool@.len() implies #[trigger] pool.deep_view()[j]
                == all[k + 1 + j] by {
                assert(pool.deep_view()[j] == pool@[j]@);
                assert(pre_pool[j + 1] == pre_vec[j + 1]@);
                assert(pre_pool[j + 1] == all.skip(k)[j + 1]);
            }
            assert(pool.deep_view() =~= all.skip(k + 1));
            lemma_dedup_spec(all.take(k));
        }
        let dup = contains_bytes(&out, &p);
        proof {
            assert(dup == all.take(k).contains(p@));
            assert(all.take(k + 1).drop_last() =~= all.take(k));
            assert(all.take(k + 1).last() == all[k]);
        }
        if !dup {
            out.push(p);
            assert(out.deep_view() =~= dedup_spec(all.take(k + 1)));
        } else {
            assert(out.deep_view() =~= dedup_spec(all.take(k + 1)));
        }
        proof {
            k = k + 1;
        }
    }
    proof {
        assert(all.take(k) =~= all);
        lemma_dedup_spec(all);
    }
    out
}

/// Removal-without-replacement selection: the k-th selected peer is the one
/// the k-th pick indexes in what remains of the candidate pool.
pub open spec fn select_spec(cands: Seq<Seq<u8>>, picks: Seq<usize>) -> Seq<Seq<u8>>
    decreases picks.len(),
{
    if picks.len() == 0 {
        Seq::empty()
    } else {
        seq![cands[picks[0] as int]] + select_spec(
            cands.remove(picks[0] as int),
            picks.drop_first(),
        )
    }
}

/// True when each pick indexes the candidate pool left after the picks
/// before it.
pub open spec fn picks_in_range(picks: Seq<usize>, pool_len: int) -> bool {
    picks.len() <= pool_len && forall|k: int| 0 <= k < picks.len() ==> picks[k] < pool_len - k
}

/// Selection draws exactly one peer per pick, each a member of the candidate
/// pool, and never draws the same pool entry twice: with distinct candidates
/// the selected peers are pairwise distinct.
pub proof fn lemma_select_spec(cands: Seq<Seq<u8>>, picks: Seq<usize>)
    requires
        picks_in_range(picks, cands.len() as int),
    ensures
        select_spec(cands, picks).len() == picks.len(),
        forall|k: int|
            0 <= k < picks.len() ==> cands.contains(#[trigger] select_spec(cands, picks)[k]),
        cands.no_duplicates() ==> select_spec(cands, picks).no_duplicates(),
    decreases picks.len(),
{
    if picks.len() > 0 {
        let p0 = picks[0] as int;
        let rest_cands = cands.remove(p0);
        let rest_picks = picks.drop_first();
        assert(picks_in_range(rest_picks, rest_cands.len() as int));
        lemma_select_spec(rest_cands, rest_picks);
        let sel = select_spec(cands, picks);
        cands.remove_ensures(p0);
        assert forall|x: Seq<u8>| rest_cands.contains(x) implies cands.contains(x) by {
            let i = choose|i: int| 0 <= i < rest_cands.len() && rest_cands[i] == x;
            if i < p0 {
                assert(cands[i] == x);
            } else {
                assert(cands[i + 1] == x);
            }
        }
        assert(sel[0] == cands[p0]);
        assert forall|k: int| 0 <= k < picks.len() implies cands.contains(#[trigger] sel[k]) by {
            if k == 0 {
                assert(cands.contains(sel[0]));
            } else {
                assert(sel[k] == select_spec(rest_cands, rest_picks)[k - 1]);
            }
        }
        if cands.no_duplicates() {
            assert(rest_cands.no_duplicates());
            assert(!rest_cands.contains(cands[p0])) by {
                if rest_cands.contains(cands[p0]) {
                    let i = choose|i: int| 0 <= i < rest_cands.len() && rest_cands[i] == cands[p0];
                    if i < p0 {
                        assert(cands[i] == cands[p0]);
                    } else {
                        assert(cands[i + 1] == cands[p0]);
                    }
                }
            }
            assert forall|i: int, j: int|
                0 <= i < sel.len() && 0 <= j < sel.len() && i != j implies sel[i] != sel[j] by {
                let rest_sel = select_spec(rest_cands, rest_picks);
                if i == 0 {
                    assert(sel[j] == rest_sel[j - 1]);
                    assert(rest_cands.contains(rest_sel[j - 1]));
                } else if j == 0 {
                    assert(sel[i] == rest_sel[i - 1]);
                    assert(rest_cands.contains(rest_sel[i - 1]));
                } else {
                    assert(sel[i] == rest_sel[i - 1] && sel[j] == rest_sel[j - 1]);
                }
            }
        }
    }
}

/// Draws peers from the candidate pool, removing each selected peer so no
/// pool entry is ever selected twice. Selection order fixes each peer's
/// 1-based protocol index.
pub fn select_participants(candidates: Vec<Vec<u8>>, picks: &Vec<usize>) -> (r: Vec<Vec<u8>>)
    requires
        picks_in_range(picks@, candidates.deep_view().len() as int),
    ensures
        r.deep_view() == select_spec(candidates.deep_view(), picks@),
        r@.len() == picks@.len(),
{
    let ghost all = candidates.deep_view();
    let mut pool = candidates;
    let mut out: Vec<Vec<u8>> = Vec::new();
    let mut k: usize = 0;
    proof {
        assert(picks@.skip(0) =~= picks@);
        assert(out.deep_view() + select_spec(pool.deep_view(), picks@) =~= select_spec(
            all,
            picks@,
        ));
    }
    while k < picks.len()
        invariant
            0 <= k <= picks@.len(),
            pool.deep_view().len() == all.len() - k,
            out.deep_view().len() == k,
            picks_in_range(picks@.skip(k as int), pool.deep_view().len() as int),
            out.deep_view() + select_spec(pool.deep_view(), picks@.skip(k as int))
                =~= select_spec(all, picks@),
        decreases picks@.len() - k,
    {
        let ghost pre_pool = pool.deep_view();
        let ghost pre_out = out.deep_view();
        let idx = picks[k];
        assert(picks@.skip(k as int)[0] == picks@[k as int]);
        let p = pool.remove(idx);
        let ghost x = p@;
        proof {
            assert(pool.deep_view() =~= pre_pool.remove(idx as int));
            assert(x == pre_pool[idx as int]);
            assert(picks@.skip(k as int).drop_first() =~= picks@.skip(k as int + 1));
            assert(select_spec(pre_pool, picks@.skip(k as int)) =~= seq![x] + select_spec(
                pool.deep_view(),
                picks@.skip(k as int + 1),
            ));
        }
        out.push(p);
        proof {
            assert(out.deep_view() =~= pre_out.push(x));
            assert(out.deep_view() + select_spec(pool.deep_view(), picks@.skip(k as int + 1))
                =~= pre_out + select_spec(pre_pool, picks@.skip(k as int)));
        }
        k = k + 1;
    }
    proof {
        assert(picks@.skip(picks@.len() as int) =~= Seq::<usize>::empty());
        assert(out.deep_view() + Seq::<Seq<u8>>::empty() =~= out.deep_view());
    }
    out
}

/// True when every responder is a member of the selected participant set.
pub open spec fn all_members(responders: Seq<Seq<u8>>, selected: Seq<Seq<u8>>) -> bool {
    forall|i: int| 0 <= i < responders.len() ==> selected.contains(#[trigger] responders[i])
}

/// Validates a set of responding peers against the originally selected
/// participant set: accepts exactly when no foreign peer responded.
pub fn validate_responders(responders: &Vec<Vec<u8>>, selected: &Vec<Vec<u8>>) -> (r: bool)
    ensures
        r == all_members(responders.deep_view(), selected.deep_view()),
{
    let mut i: usize = 0;
    while i < responders.len()
        invariant
            0 <= i <= responders@.len(),
            forall|j: int|
                0 <= j < i ==> selected.deep_view().contains(
                    #[trigger] responders.deep_view()[j],
                ),
        decreases responders@.len() - i,
    {
        let inside = contains_bytes(selected, &responders[i]);
        assert(responders.deep_view()[i as int] == responders@[i as int]@);
        if !inside {
            return false;
        }
        i = i + 1;
    }
    true
}

} // verus!
