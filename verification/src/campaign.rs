//! Campaigns: per-advertiser budget sub-ledgers with nested ad-variant
//! records. A campaign's budget is carved out of, and tracked alongside, the
//! owning advertiser's budget; variants are upserted by id.

use vstd::prelude::*;

verus! {

/// One creative variant of a campaign, keyed by `variant_id` within it.
#[derive(Clone, Debug, PartialEq, Eq)]
pub struct AdVariant {
    pub variant_id: String,
    pub headline: String,
    pub status: String,
    pub ctr_bps: u64,
    pub last_mutation_slot: u64,
}

/// A campaign: a budget sub-ledger owned (by id) by one advertiser.
#[derive(Clone, Debug, PartialEq, Eq)]
pub struct Campaign {
    pub id: String,
    pub advertiser_id: String,
    pub budget: u128,
    pub budget_remaining: u128,
    pub floor_cpm_micros: u64,
    pub ad_variants: Vec<AdVariant>,
    pub impressions_served: u64,
}

impl Campaign {
    /// No two variants carry the same id.
    pub open spec fn variant_ids_unique(self) -> bool {
        forall|i: int, j: int|
            0 <= i < j < self.ad_variants@.len()
                ==> self.ad_variants@[i].variant_id@ != self.ad_variants@[j].variant_id@
    }

    /// The books are consistent: what remains was once budgeted, and variant
    /// ids are unique.
    pub open spec fn wf(self) -> bool {
        &&& self.budget_remaining <= self.budget
        &&& self.variant_ids_unique()
    }

    /// Decides the campaign's well-formedness.
    pub fn is_wf(&self) -> (r: bool)
        ensures
            r == self.wf(),
    {
        if self.budget_remaining > self.budget {
            return false;
        }
        let n = self.ad_variants.len();
        for i in 0..n
            invariant
                n == self.ad_variants@.len(),
                self.budget_remaining <= self.budget,
                forall|a: int, b: int|
                    0 <= a < b < self.ad_variants@.len() && a < i
                        ==> self.ad_variants@[a].variant_id@ != self.ad_variants@[b].variant_id@,
        {
            for j in (i + 1)..n
                invariant
                    n == self.ad_variants@.len(),
                    self.budget_remaining <= self.budget,
                    i < n,
                    i < j <= n,
                    forall|a: int, b: int|
                        0 <= a < b < self.ad_variants@.len() && a < i
                            ==> self.ad_variants@[a].variant_id@ != self.ad_variants@[b].variant_id@,
                    forall|b: int|
                        i < b < j ==> self.ad_variants@[i as int].variant_id@
                            != self.ad_variants@[b].variant_id@,
            {
                if self.ad_variants[i].variant_id == self.ad_variants[j].variant_id {
                    proof {
                        if self.variant_ids_unique() {
                            assert(self.ad_variants@[i as int].variant_id@
                                != self.ad_variants@[j as int].variant_id@);
                        }
                    }
                    return false;
                }
            }
        }
        true
    }

    /// Finds the variant carrying `variant_id`, if any, by a linear scan.
    fn find_variant(&self, variant_id: &String) -> (r: Option<usize>)
        ensures
            match r {
                Some(i) => i < self.ad_variants@.len()
                    && self.ad_variants@[i as int].variant_id@ == variant_id@,
                None => forall|j: int|
                    0 <= j < self.ad_variants@.len()
                        ==> self.ad_variants@[j].variant_id@ != variant_id@,
            },
    {
        let n = self.ad_variants.len();
        for i in 0..n
            invariant
                n == self.ad_variants@.len(),
                forall|j: int| 0 <= j < i ==> self.ad_variants@[j].variant_id@ != variant_id@,
        {
            if self.ad_variants[i].variant_id == *variant_id {
                return Some(i);
            }
        }
        None
    }

    /// Whether some variant carries `variant_id`.
    pub open spec fn has_variant(self, variant_id: Seq<char>) -> bool {
        exists|i: int|
            0 <= i < self.ad_variants@.len() && self.ad_variants@[i].variant_id@ == variant_id
    }

    /// The index of the variant carrying `variant_id`.
    pub open spec fn variant_index(self, variant_id: Seq<char>) -> int {
        choose|i: int|
            0 <= i < self.ad_variants@.len() && self.ad_variants@[i].variant_id@ == variant_id
    }

    /// Upserts a variant by id: an existing variant has its headline and
    /// status overwritten and its mutation slot stamped; a new id is appended
    /// with a zero click-through rate.
    pub fn upsert_variant(&mut self, variant_id: String, headline: String, status: String, slot: u64)
        requires
            old(self).variant_ids_unique(),
        ensures
            *final(self) == (Campaign { ad_variants: final(self).ad_variants, ..*old(self) }),
            final(self).variant_ids_unique(),
            old(self).has_variant(variant_id@) ==> ({
                let j = old(self).variant_index(variant_id@);
                final(self).ad_variants@ == old(self).ad_variants@.update(
                    j,
                    (AdVariant {
                        variant_id: old(self).ad_variants@[j].variant_id,
                        headline,
                        status,
                        ctr_bps: old(self).ad_variants@[j].ctr_bps,
                        last_mutation_slot: slot,
                    }),
                )
            }),
            !old(self).has_variant(variant_id@) ==> final(self).ad_variants@ == old(
                self,
            ).ad_variants@.push(
                (AdVariant { variant_id, headline, status, ctr_bps: 0, last_mutation_slot: slot }),
            ),
    {
        match self.find_variant(&variant_id) {
            Some(i) => {
                proof {
                    let j = old(self).variant_index(variant_id@);
                    assert(old(self).has_variant(variant_id@));
                    assert(j == i);
                }
                self.ad_variants[i].headline = headline;
                self.ad_variants[i].status = status;
                self.ad_variants[i].last_mutation_slot = slot;
                proof {
                    let v0 = old(self).ad_variants@;
                    let v1 = self.ad_variants@;
                    assert(forall|k: int|
                        0 <= k < v1.len() ==> v1[k].variant_id == v0[k].variant_id);
                }
            },
            None => {
                assert(!old(self).has_variant(variant_id@));
                self.ad_variants.push(
                    AdVariant { variant_id, headline, status, ctr_bps: 0, last_mutation_slot: slot },
                );
                proof {
                    let v0 = old(self).ad_variants@;
                    let v1 = self.ad_variants@;
                    assert(forall|k: int| 0 <= k < v0.len() ==> v1[k] == v0[k]);
                }
            },
        }
    }
}

} // verus!
