//! The read-only query surface of the ledger: per-id lookups, the
//! outstanding-credit total, the attention-score leaderboard and the most
//! recent events. Queries never change the books.

use crate::accounts::{lemma_credit_limit_monotone, AdvertiserAccount, CreatorAccount, ViewerAccount};
use crate::campaign::Campaign;
use crate::ledger::AdloomLedger;
use crate::logs::AttentionEvent;
use crate::ledger::VAULT_APY_BPS;
use crate::logs::{MAX_EVENT_HISTORY, MAX_INSTRUCTION_HISTORY};
use crate::registry::{find_key, keys_unique_check, lemma_map_of_contains, lemma_map_of_index};
use crate::text::{lemma_lex_le_transitive, lemma_lex_lt_connected, lex_le, str_le};
use crate::vault::{AfiLoan, CreatorVault};
use vstd::prelude::*;
use vstd::string::StringExecFns;

verus! {

/// An upper bound on every derivable credit limit: the limit derived from
/// the largest possible attention score.
pub const CREDIT_LIMIT_CEILING: u128 = 3_689_348_814_741_910_328;

impl AdloomLedger {
    /// Looks up a viewer by id.
    pub fn get_viewer(&self, viewer_id: &str) -> (r: Option<&ViewerAccount>)
        requires
            self.well_formed(),
        ensures
            match r {
                Some(v) => self.viewers_map().contains_key(viewer_id@) && *v
                    == self.viewers_map()[viewer_id@],
                None => !self.viewers_map().contains_key(viewer_id@),
            },
    {
        let key = String::from_str(viewer_id);
        match find_key(&self.viewers, &key) {
            Some(i) => {
                proof {
                    lemma_map_of_index(self.viewers@, i as int);
                }
                Some(&self.viewers[i].1)
            },
            None => {
                proof {
                    lemma_map_of_contains(self.viewers@, viewer_id@);
                }
                None
            },
        }
    }

    /// Looks up a creator by id.
    pub fn get_creator(&self, creator_id: &str) -> (r: Option<&CreatorAccount>)
        requires
            self.well_formed(),
        ensures
            match r {
                Some(c) => self.creators_map().contains_key(creator_id@) && *c
                    == self.creators_map()[creator_id@],
                None => !self.creators_map().contains_key(creator_id@),
            },
    {
        let key = String::from_str(creator_id);
        match find_key(&self.creators, &key) {
            Some(i) => {
                proof {
                    lemma_map_of_index(self.creators@, i as int);
                }
                Some(&self.creators[i].1)
            },
            None => {
                proof {
                    lemma_map_of_contains(self.creators@, creator_id@);
                }
                None
            },
        }
    }

    /// Looks up an advertiser by id.
    pub fn get_advertiser(&self, advertiser_id: &str) -> (r: Option<&AdvertiserAccount>)
        requires
            self.well_formed(),
        ensures
            match r {
                Some(a) => self.advertisers_map().contains_key(advertiser_id@) && *a
                    == self.advertisers_map()[advertiser_id@],
                None => !self.advertisers_map().contains_key(advertiser_id@),
            },
    {
        let key = String::from_str(advertiser_id);
        match find_key(&self.advertisers, &key) {
            Some(i) => {
                proof {
                    lemma_map_of_index(self.advertisers@, i as int);
                }
                Some(&self.advertisers[i].1)
            },
            None => {
                proof {
                    lemma_map_of_contains(self.advertisers@, advertiser_id@);
                }
                None
            },
        }
    }

    /// Looks up a campaign by id.
    pub fn get_campaign(&self, campaign_id: &str) -> (r: Option<&Campaign>)
        requires
            self.well_formed(),
        ensures
            match r {
                Some(c) => self.campaigns_map().contains_key(campaign_id@) && *c
                    == self.campaigns_map()[campaign_id@],
                None => !self.campaigns_map().contains_key(campaign_id@),
            },
    {
        let key = String::from_str(campaign_id);
        match find_key(&self.campaigns, &key) {
            Some(i) => {
                proof {
                    lemma_map_of_index(self.campaigns@, i as int);
                }
                Some(&self.campaigns[i].1)
            },
            None => {
                proof {
                    lemma_map_of_contains(self.campaigns@, campaign_id@);
                }
                None
            },
        }
    }

    /// Looks up a creator's vault by creator id.
    pub fn get_vault(&self, creator_id: &str) -> (r: Option<&CreatorVault>)
        requires
            self.well_formed(),
        ensures
            match r {
                Some(v) => self.vaults_map().contains_key(creator_id@) && *v
                    == self.vaults_map()[creator_id@],
                None => !self.vaults_map().contains_key(creator_id@),
            },
    {
        let key = String::from_str(creator_id);
        match find_key(&self.creator_vaults, &key) {
            Some(i) => {
                proof {
                    lemma_map_of_index(self.creator_vaults@, i as int);
                }
                Some(&self.creator_vaults[i].1)
            },
            None => {
                proof {
                    lemma_map_of_contains(self.creator_vaults@, creator_id@);
                }
                None
            },
        }
    }

    /// Looks up a viewer's loan by viewer id.
    pub fn get_loan(&self, viewer_id: &str) -> (r: Option<&AfiLoan>)
        requires
            self.well_formed(),
        ensures
            match r {
                Some(l) => self.loans_map().contains_key(viewer_id@) && *l
                    == self.loans_map()[viewer_id@],
                None => !self.loans_map().contains_key(viewer_id@),
            },
    {
        let key = String::from_str(viewer_id);
        match find_key(&self.viewer_loans, &key) {
            Some(i) => {
                proof {
                    lemma_map_of_index(self.viewer_loans@, i as int);
                }
                Some(&self.viewer_loans[i].1)
            },
            None => {
                proof {
                    lemma_map_of_contains(self.viewer_loans@, viewer_id@);
                }
                None
            },
        }
    }


    /// Decides whether every viewer account in the registry is well-formed.
    fn viewers_all_wf(entries: &Vec<(String, ViewerAccount)>) -> (r: bool)
        ensures
            r == (forall|i: int| 0 <= i < entries@.len() ==> (#[trigger] entries@[i]).1.wf()),
    {
        let n = entries.len();
        for i in 0..n
            invariant
                n == entries@.len(),
                forall|a: int| 0 <= a < i ==> (#[trigger] entries@[a]).1.wf(),
        {
            if !entries[i].1.is_wf() {
                proof {
                    assert(!(entries@[i as int]).1.wf());
                }
                return false;
            }
        }
        true
    }

    /// Decides whether every advertiser account in the registry is
    /// well-formed.
    fn advertisers_all_wf(entries: &Vec<(String, AdvertiserAccount)>) -> (r: bool)
        ensures
            r == (forall|i: int| 0 <= i < entries@.len() ==> (#[trigger] entries@[i]).1.wf()),
    {
        let n = entries.len();
        for i in 0..n
            invariant
                n == entries@.len(),
                forall|a: int| 0 <= a < i ==> (#[trigger] entries@[a]).1.wf(),
        {
            if !entries[i].1.is_wf() {
                proof {
                    assert(!(entries@[i as int]).1.wf());
                }
                return false;
            }
        }
        true
    }

    /// Decides whether every campaign is well-formed and stored under its
    /// own id.
    fn campaigns_all_wf(entries: &Vec<(String, Campaign)>) -> (r: bool)
        ensures
            r == (forall|i: int|
                0 <= i < entries@.len() ==> (#[trigger] entries@[i]).1.wf() && entries@[i].1.id@
                    == entries@[i].0@),
    {
        let n = entries.len();
        for i in 0..n
            invariant
                n == entries@.len(),
                forall|a: int|
                    0 <= a < i ==> (#[trigger] entries@[a]).1.wf() && entries@[a].1.id@
                        == entries@[a].0@,
        {
            if !entries[i].1.is_wf() || !(entries[i].1.id == entries[i].0) {
                proof {
                    assert(!((entries@[i as int]).1.wf() && entries@[i as int].1.id@
                        == entries@[i as int].0@));
                }
                return false;
            }
        }
        true
    }

    /// Decides whether every vault carries the fixed yield rate.
    fn vaults_all_fixed_rate(entries: &Vec<(String, CreatorVault)>) -> (r: bool)
        ensures
            r == (forall|i: int|
                0 <= i < entries@.len() ==> (#[trigger] entries@[i]).1.apy_bps == VAULT_APY_BPS),
    {
        let n = entries.len();
        for i in 0..n
            invariant
                n == entries@.len(),
                forall|a: int| 0 <= a < i ==> (#[trigger] entries@[a]).1.apy_bps == VAULT_APY_BPS,
        {
            if entries[i].1.apy_bps != VAULT_APY_BPS {
                proof {
                    assert((entries@[i as int]).1.apy_bps != VAULT_APY_BPS);
                }
                return false;
            }
        }
        true
    }

    /// Decides whether every loan in the registry is well-formed.
    fn loans_all_wf(entries: &Vec<(String, AfiLoan)>) -> (r: bool)
        ensures
            r == (forall|i: int| 0 <= i < entries@.len() ==> (#[trigger] entries@[i]).1.wf()),
    {
        let n = entries.len();
        for i in 0..n
            invariant
                n == entries@.len(),
                forall|a: int| 0 <= a < i ==> (#[trigger] entries@[a]).1.wf(),
        {
            if !entries[i].1.is_wf() {
                proof {
                    assert(!(entries@[i as int]).1.wf());
                }
                return false;
            }
        }
        true
    }

    /// Decides whether every logged event splits its reward exactly.
    fn events_all_exact(events: &Vec<AttentionEvent>) -> (r: bool)
        ensures
            r == (forall|i: int| 0 <= i < events@.len() ==> (#[trigger] events@[i]).split_exact()),
    {
        let n = events.len();
        for i in 0..n
            invariant
                n == events@.len(),
                forall|a: int| 0 <= a < i ==> (#[trigger] events@[a]).split_exact(),
        {
            if !events[i].is_split_exact() {
                proof {
                    assert(!(events@[i as int]).split_exact());
                }
                return false;
            }
        }
        true
    }

    /// Decides the ledger's well-formedness, clause by clause, so that an
    /// unverified caller can validate a state loaded from storage before
    /// operating on it.
    pub fn is_well_formed(&self) -> (b: bool)
        ensures
            b == self.well_formed(),
    {
        keys_unique_check(&self.viewers) && keys_unique_check(&self.creators)
            && keys_unique_check(&self.advertisers) && keys_unique_check(&self.campaigns)
            && keys_unique_check(&self.creator_vaults) && keys_unique_check(&self.viewer_loans)
            && Self::viewers_all_wf(&self.viewers) && Self::advertisers_all_wf(&self.advertisers)
            && Self::campaigns_all_wf(&self.campaigns) && Self::vaults_all_fixed_rate(
            &self.creator_vaults,
        ) && Self::loans_all_wf(&self.viewer_loans) && self.attention_events.len()
            <= MAX_EVENT_HISTORY && self.brand_instructions.len() <= MAX_INSTRUCTION_HISTORY
            && Self::events_all_exact(&self.attention_events)
    }

    /// Whether the viewer at registry index `x` ranks at least as high as
    /// the one at `y`: a strictly higher attention score, or an equal score
    /// and an id that does not come after `y`'s (ties break by ascending
    /// id).
    pub open spec fn ranks_at_least(s: Seq<(String, ViewerAccount)>, x: int, y: int) -> bool {
        s[x].1.attention_score > s[y].1.attention_score || (s[x].1.attention_score
            == s[y].1.attention_score && lex_le(s[x].0@, s[y].0@))
    }

    /// Any two viewers are ranked one way or the other.
    proof fn lemma_ranks_total(s: Seq<(String, ViewerAccount)>, x: int, y: int)
        requires
            0 <= x < s.len(),
            0 <= y < s.len(),
        ensures
            Self::ranks_at_least(s, x, y) || Self::ranks_at_least(s, y, x),
    {
        if s[x].1.attention_score == s[y].1.attention_score && s[x].0@ != s[y].0@ {
            lemma_lex_lt_connected(s[x].0@, s[y].0@);
        }
    }

    /// The ranking is transitive.
    proof fn lemma_ranks_transitive(s: Seq<(String, ViewerAccount)>, x: int, y: int, z: int)
        requires
            0 <= x < s.len(),
            0 <= y < s.len(),
            0 <= z < s.len(),
            Self::ranks_at_least(s, x, y),
            Self::ranks_at_least(s, y, z),
        ensures
            Self::ranks_at_least(s, x, z),
    {
        if s[x].1.attention_score == s[y].1.attention_score && s[y].1.attention_score
            == s[z].1.attention_score {
            lemma_lex_le_transitive(s[x].0@, s[y].0@, s[z].0@);
        }
    }

    /// Decides the ranking between the viewers at two registry indices.
    fn ranked_before(v: &Vec<(String, ViewerAccount)>, x: usize, y: usize) -> (r: bool)
        requires
            x < v@.len(),
            y < v@.len(),
        ensures
            r == Self::ranks_at_least(v@, x as int, y as int),
    {
        let sx = v[x].1.attention_score;
        let sy = v[y].1.attention_score;
        if sx > sy {
            true
        } else if sx < sy {
            false
        } else {
            str_le(v[x].0.as_str(), v[y].0.as_str())
        }
    }

    /// The top viewers by descending attention score, as indices into the
    /// viewer registry: sorted best first, pairwise distinct, and every
    /// viewer left out ranks no higher than any viewer listed.
    pub fn leaderboard(&self, limit: usize) -> (r: Vec<usize>)
        ensures
            r@.len() == if limit <= self.viewers@.len() {
                limit as int
            } else {
                self.viewers@.len() as int
            },
            forall|a: int| 0 <= a < r@.len() ==> (#[trigger] r@[a]) < self.viewers@.len(),
            forall|a: int, b: int|
                0 <= a < b < r@.len() ==> Self::ranks_at_least(
                    self.viewers@,
                    #[trigger] r@[a] as int,
                    #[trigger] r@[b] as int,
                ) && r@[a] != r@[b],
            forall|a: int, j: int|
                #![trigger r@[a], r@.contains(j as usize)]
                0 <= a < r@.len() && 0 <= j < self.viewers@.len() && !r@.contains(j as usize)
                    ==> Self::ranks_at_least(self.viewers@, r@[a] as int, j),
    {
        let v = &self.viewers;
        let n = v.len();
        let mut idx: Vec<usize> = Vec::new();
        for i in 0..n
            invariant
                n == v@.len(),
                idx@.len() == i,
                forall|a: int| 0 <= a < i ==> (#[trigger] idx@[a]) < i,
                forall|t: usize| t < i ==> #[trigger] idx@.contains(t),
                forall|a: int, b: int|
                    0 <= a < b < i ==> Self::ranks_at_least(
                        v@,
                        #[trigger] idx@[a] as int,
                        #[trigger] idx@[b] as int,
                    ) && idx@[a] != idx@[b],
        {
            let ghost pre = idx@;
            let mut p: usize = 0;
            while p < idx.len() && Self::ranked_before(v, idx[p], i)
                invariant
                    n == v@.len(),
                    i < n,
                    idx@ == pre,
                    idx@.len() == i,
                    p <= i,
                    forall|a: int| 0 <= a < i ==> (#[trigger] idx@[a]) < i,
                    forall|a: int|
                        0 <= a < p ==> Self::ranks_at_least(
                            v@,
                            #[trigger] idx@[a] as int,
                            i as int,
                        ),
                decreases idx@.len() - p,
            {
                p += 1;
            }
            proof {
                pre.insert_ensures(p as int, i);
                // The scan stopped either at the end or at the first entry
                // the new viewer outranks.
                if p < pre.len() {
                    Self::lemma_ranks_total(v@, i as int, pre[p as int] as int);
                    assert(Self::ranks_at_least(v@, i as int, pre[p as int] as int));
                }
            }
            idx.insert(p, i);
            proof {
                let cur = idx@;
                assert(cur == pre.insert(p as int, i as usize));
                assert(cur[p as int] == i as usize);
                assert forall|t: usize| t < i + 1 implies #[trigger] cur.contains(t) by {
                    if t == i {
                        assert(cur[p as int] == t);
                    } else {
                        assert(pre.contains(t));
                        let a0 = choose|a: int| 0 <= a < pre.len() && pre[a] == t;
                        if a0 < p {
                            assert(cur[a0] == t);
                        } else {
                            assert(cur[a0 + 1] == t);
                        }
                    }
                }
                assert forall|a: int, b: int| 0 <= a < b < i + 1 implies Self::ranks_at_least(
                    v@,
                    cur[a] as int,
                    cur[b] as int,
                ) && cur[a] != cur[b] by {
                    if b < p {
                        assert(cur[a] == pre[a] && cur[b] == pre[b]);
                    } else if a < p && b == p {
                        assert(cur[a] == pre[a] && cur[b] == i as usize);
                        assert(Self::ranks_at_least(v@, pre[a] as int, i as int));
                        assert(pre[a] < i);
                    } else if a < p && b > p {
                        assert(cur[a] == pre[a] && cur[b] == pre[b - 1] && pre[b - 1] < i);
                        assert(Self::ranks_at_least(v@, pre[a] as int, pre[b - 1] as int));
                    } else if a == p {
                        assert(cur[a] == i as usize);
                        assert(cur[b] == pre[b - 1] && pre[b - 1] < i);
                        assert(Self::ranks_at_least(v@, i as int, pre[p as int] as int));
                        if p < b - 1 {
                            assert(Self::ranks_at_least(v@, pre[p as int] as int, pre[b - 1] as int));
                            Self::lemma_ranks_transitive(
                                v@,
                                i as int,
                                pre[p as int] as int,
                                pre[b - 1] as int,
                            );
                        }
                    } else {
                        assert(cur[a] == pre[a - 1] && cur[b] == pre[b - 1]);
                        assert(Self::ranks_at_least(v@, pre[a - 1] as int, pre[b - 1] as int));
                    }
                }
            }
        }
        let take = if limit <= n {
            limit
        } else {
            n
        };
        let ghost full = idx@;
        idx.truncate(take);
        proof {
            assert forall|a: int, b: int|
                0 <= a < b < idx@.len() implies Self::ranks_at_least(
                self.viewers@,
                idx@[a] as int,
                idx@[b] as int,
            ) && idx@[a] != idx@[b] by {
                assert(idx@[a] == full[a]);
                assert(idx@[b] == full[b]);
            }
            assert forall|a: int, j: int|
                0 <= a < idx@.len() && 0 <= j < n && !idx@.contains(
                j as usize,
            ) implies Self::ranks_at_least(self.viewers@, idx@[a] as int, j) by {
                assert(full.contains(j as usize));
                let q = choose|q: int| 0 <= q < full.len() && full[q] == j as usize;
                assert(full[q] == j as usize);
                if q < take {
                    assert(idx@[q] == j as usize);
                    assert(idx@.contains(j as usize));
                }
                assert(idx@[a] == full[a]);
                assert(Self::ranks_at_least(self.viewers@, full[a] as int, full[q] as int));
            }
        }
        idx
    }

    /// The most recent `limit` events, newest first.
    pub fn recent_events(&self, limit: usize) -> (r: Vec<&AttentionEvent>)
        ensures
            r@.len() == if limit <= self.attention_events@.len() {
                limit as int
            } else {
                self.attention_events@.len() as int
            },
            forall|k: int|
                0 <= k < r@.len() ==> *(#[trigger] r@[k]) == self.attention_events@[self.attention_events@.len()
                    - 1 - k],
    {
        let n = self.attention_events.len();
        let take = if limit <= n {
            limit
        } else {
            n
        };
        let mut out: Vec<&AttentionEvent> = Vec::new();
        for k in 0..take
            invariant
                n == self.attention_events@.len(),
                take <= n,
                out@.len() == k,
                forall|j: int|
                    0 <= j < k ==> *(#[trigger] out@[j]) == self.attention_events@[n - 1 - j],
        {
            out.push(&self.attention_events[n - 1 - k]);
        }
        out
    }

    /// The sum of every viewer's outstanding credit, over the registry in
    /// order.
    pub open spec fn spec_outstanding_total(s: Seq<(String, ViewerAccount)>) -> int
        decreases s.len(),
    {
        if s.len() == 0 {
            0
        } else {
            Self::spec_outstanding_total(s.drop_last()) + s.last().1.outstanding_credit
        }
    }

    /// Sums the outstanding credit of every viewer. Each term is bounded by
    /// the largest derivable credit limit, so the 128-bit sum cannot
    /// overflow.
    pub fn outstanding_credit_total(&self) -> (r: u128)
        requires
            self.well_formed(),
        ensures
            r == Self::spec_outstanding_total(self.viewers@),
    {
        let n = self.viewers.len();
        let mut total: u128 = 0;
        for i in 0..n
            invariant
                self.well_formed(),
                n == self.viewers@.len(),
                total == Self::spec_outstanding_total(self.viewers@.take(i as int)),
                total <= i as int * CREDIT_LIMIT_CEILING,
        {
            proof {
                assert(self.viewers@[i as int].1.wf());
                lemma_credit_limit_monotone(self.viewers@[i as int].1.attention_score, u64::MAX);
                assert(self.viewers@[i as int].1.outstanding_credit <= CREDIT_LIMIT_CEILING);
                assert(i as int * CREDIT_LIMIT_CEILING + CREDIT_LIMIT_CEILING == (i + 1) as int
                    * CREDIT_LIMIT_CEILING) by (nonlinear_arith);
                assert(i as int * CREDIT_LIMIT_CEILING <= u64::MAX as int * CREDIT_LIMIT_CEILING)
                    by (nonlinear_arith)
                    requires
                        0 <= i as int <= u64::MAX as int,
                ;
                assert(self.viewers@.take(i as int + 1).drop_last() =~= self.viewers@.take(
                    i as int,
                ));
                assert(self.viewers@.take(i as int + 1).last() == self.viewers@[i as int]);
            }
            total = total + self.viewers[i].1.outstanding_credit;
        }
        proof {
            assert(self.viewers@.take(n as int) =~= self.viewers@);
        }
        total
    }
}

} // verus!
