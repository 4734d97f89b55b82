//! Bounded audit trails: the attention-event log and the brand-instruction
//! log. Both are append-only with ring-buffer semantics: once a log reaches
//! its cap, appending evicts the oldest entry.

use vstd::prelude::*;

verus! {

/// The event log keeps at most this many entries.
pub const MAX_EVENT_HISTORY: usize = 120;

/// The instruction log keeps at most this many entries.
pub const MAX_INSTRUCTION_HISTORY: usize = 60;

/// Appending to a bounded log: the entry goes to the back, and if that takes
/// the log past its cap, the oldest entry (the front) is evicted.
pub open spec fn log_push<T>(log: Seq<T>, entry: T, cap: nat) -> Seq<T> {
    let appended = log.push(entry);
    if appended.len() > cap {
        appended.drop_first()
    } else {
        appended
    }
}

/// One advertiser instruction, stamped with the sequence id current when it
/// was submitted.
#[derive(Clone, Debug, PartialEq, Eq)]
pub struct BrandInstruction {
    pub id: u64,
    pub advertiser_id: String,
    pub instruction: String,
}

/// One recorded reward distribution: who was involved, how many attention
/// units were asserted, and how the reward was split.
#[derive(Clone, Debug, PartialEq, Eq)]
pub struct AttentionEvent {
    pub id: u64,
    pub campaign_id: Option<String>,
    pub viewer_id: String,
    pub creator_id: String,
    pub advertiser_id: String,
    pub attn_units: u64,
    pub reward: u128,
    pub viewer_share: u128,
    pub creator_share: u128,
    pub protocol_share: u128,
}

impl AttentionEvent {
    /// The split is exact: the three shares sum to the reward, with no
    /// rounding loss.
    pub open spec fn split_exact(self) -> bool {
        self.viewer_share + self.creator_share + self.protocol_share == self.reward
    }

    /// Decides whether the shares sum exactly to the reward.
    pub fn is_split_exact(&self) -> (r: bool)
        ensures
            r == self.split_exact(),
    {
        match self.viewer_share.checked_add(self.creator_share) {
            Some(partial) => match partial.checked_add(self.protocol_share) {
                Some(total) => total == self.reward,
                None => false,
            },
            None => false,
        }
    }
}

} // verus!
