//! Staleness filter for parachain-head submissions: an external reader of
//! tracked head state that rejects transactions carrying obsolete bridged
//! parachain heads, so honest relayers do not waste funds re-submitting
//! known information.

use vstd::prelude::*;
use crate::ids::ParaId;

verus! {

/// Best known head of one bridged parachain.
#[derive(Clone, PartialEq, Eq, Debug)]
pub struct BestParaHead {
    /// Number of the relay block where this head was last updated.
    pub at_relay_block_number: u32,
    /// Hash of the parachain head.
    pub head_hash: Vec<u8>,
    /// Position for the next imported hash.
    pub next_imported_hash_position: u32,
}

/// The best known head of `para` among `entries`: the most recently
/// inserted one, if any.
pub open spec fn spec_lookup(entries: Seq<(ParaId, BestParaHead)>, para: ParaId) -> Option<
    BestParaHead,
>
    decreases entries.len(),
{
    if entries.len() == 0 {
        None
    } else if entries.last().0 == para {
        Some(entries.last().1)
    } else {
        spec_lookup(entries.drop_last(), para)
    }
}

/// Whether a submission at relay block `at_relay_block_number` for
/// `parachains` passes the filter. Only single-parachain submissions are
/// examined; one is rejected exactly when the tracked head of that
/// parachain is at the same or a later relay block, or repeats the exact
/// known head hash.
pub open spec fn spec_validate(
    entries: Seq<(ParaId, BestParaHead)>,
    at_relay_block_number: u32,
    parachains: Seq<(ParaId, Vec<u8>)>,
) -> bool {
    if parachains.len() != 1 {
        true
    } else {
        match spec_lookup(entries, parachains[0].0) {
            None => true,
            Some(best) => if best.at_relay_block_number >= at_relay_block_number {
                false
            } else if best.head_hash@ == parachains[0].1@ {
                false
            } else {
                true
            },
        }
    }
}

/// Byte-wise equality of two hashes.
fn eq_bytes(a: &Vec<u8>, b: &Vec<u8>) -> (r: bool)
    ensures
        r == (a@ == b@),
{
    if a.len() != b.len() {
        return false;
    }
    let mut i: usize = 0;
    while i < a.len()
        invariant
            i <= a@.len(),
            a@.len() == b@.len(),
            forall|j: int| 0 <= j < i ==> a@[j] == b@[j],
        decreases a@.len() - i,
    {
        if a[i] != b[i] {
            return false;
        }
        i += 1;
    }
    proof {
        assert(a@ =~= b@);
    }
    true
}

/// The tracked best heads of the bridged parachains.
pub struct BestParaHeads {
    /// Insertion-ordered records; the latest record for a parachain wins.
    pub entries: Vec<(ParaId, BestParaHead)>,
}

impl BestParaHeads {
    /// An empty store: no head is tracked yet.
    pub fn new() -> (r: BestParaHeads)
        ensures
            r.entries@ == Seq::<(ParaId, BestParaHead)>::empty(),
    {
        BestParaHeads { entries: Vec::new() }
    }

    /// Record `head` as the best known head of `para`.
    pub fn insert(&mut self, para: ParaId, head: BestParaHead)
        ensures
            final(self).entries@ == old(self).entries@.push((para, head)),
    {
        self.entries.push((para, head));
    }

    /// Decide a parachain-heads submission bundled at relay block
    /// `at_relay_block_number`: `true` means the transaction is valid.
    /// Submissions updating more than one parachain, or an untracked one,
    /// pass unexamined; a single-parachain submission is rejected as stale
    /// when the tracked head is at the same or a later relay block, or
    /// repeats the exact known head hash.
    pub fn validate_submit_parachain_heads(
        &self,
        at_relay_block_number: u32,
        parachains: &Vec<(ParaId, Vec<u8>)>,
    ) -> (r: bool)
        ensures
            r == spec_validate(self.entries@, at_relay_block_number, parachains@),
    {
        if parachains.len() != 1 {
            return true;
        }
        let first = &parachains[0];
        let para = first.0;
        let mut i: usize = self.entries.len();
        proof {
            assert(self.entries@.take(i as int) =~= self.entries@);
        }
        while i > 0
            invariant
                i <= self.entries@.len(),
                parachains@.len() == 1,
                *first == parachains@[0],
                para == parachains@[0].0,
                spec_lookup(self.entries@, para) == spec_lookup(
                    self.entries@.take(i as int),
                    para,
                ),
            decreases i,
        {
            let candidate = &self.entries[i - 1];
            proof {
                assert(self.entries@.take(i as int).last() == self.entries@[i - 1]);
                assert(self.entries@.take(i as int).drop_last() =~= self.entries@.take(i - 1));
            }
            if candidate.0 == para {
                let best = &candidate.1;
                proof {
                    assert(spec_lookup(self.entries@, para) == Some(*best));
                }
                if best.at_relay_block_number >= at_relay_block_number {
                    return false;
                }
                if eq_bytes(&best.head_hash, &first.1) {
                    return false;
                }
                return true;
            }
            i = i - 1;
        }
        true
    }
}

} // verus!
