//! Reputation tiers, loyalty tiers, and the pure progression rules.

use vstd::prelude::*;

verus! {

/// Ordered reputation tiers.  Comparison goes by the numeric rank, never by
/// declaration order.
#[derive(Clone, Copy, Debug, PartialEq, Eq, Structural)]
pub enum ReputationTier {
    /// Before any credential is earned.
    Unranked,
    /// First credential tier.
    Verified,
    /// Second credential tier.
    Professional,
    /// Highest credential tier.
    Elite,
}

impl ReputationTier {
    /// Numeric rank used for ordering and never-downgrade checks.
    pub open spec fn rank_spec(self) -> int {
        match self {
            ReputationTier::Unranked => 0,
            ReputationTier::Verified => 1,
            ReputationTier::Professional => 2,
            ReputationTier::Elite => 3,
        }
    }

    /// Numeric rank of this tier.
    pub fn rank(&self) -> (r: u8)
        ensures
            r as int == self.rank_spec(),
    {
        match self {
            ReputationTier::Unranked => 0,
            ReputationTier::Verified => 1,
            ReputationTier::Professional => 2,
            ReputationTier::Elite => 3,
        }
    }
}

/// Loyalty tiers reached by the remittance transaction counter.
#[derive(Clone, Copy, Debug, PartialEq, Eq, Structural)]
pub enum LoyaltyTier {
    /// Reached at the first milestone count.
    Novice,
    /// Reached at the second milestone count.
    Expert,
    /// Reached at the third milestone count.
    Elite,
}

/// Tier boundaries are configuration, not constants: a tier engine is built
/// over one of these.  `verified_min` is the least completion count of the
/// `Verified` tier, and so on upward.
#[derive(Clone, Copy, Debug, PartialEq, Eq, Structural)]
pub struct TierConfig {
    /// Least completed count for `Verified`.
    pub verified_min: u32,
    /// Least completed count for `Professional`.
    pub professional_min: u32,
    /// Least completed count for `Elite`.
    pub elite_min: u32,
}

impl TierConfig {
    /// Boundaries must be positive and ordered, so each tier has a
    /// non-empty range and the mapping is monotone.
    pub open spec fn wf(self) -> bool {
        &&& 1 <= self.verified_min
        &&& self.verified_min <= self.professional_min
        &&& self.professional_min <= self.elite_min
    }

    /// The tier a completion count maps to.
    pub open spec fn tier_for_spec(self, count: u32) -> ReputationTier {
        if count < self.verified_min {
            ReputationTier::Unranked
        } else if count < self.professional_min {
            ReputationTier::Verified
        } else if count < self.elite_min {
            ReputationTier::Professional
        } else {
            ReputationTier::Elite
        }
    }

    /// Compute the tier a completion count maps to.
    pub fn tier_for(&self, count: u32) -> (t: ReputationTier)
        ensures
            t == self.tier_for_spec(count),
    {
        if count < self.verified_min {
            ReputationTier::Unranked
        } else if count < self.professional_min {
            ReputationTier::Verified
        } else if count < self.elite_min {
            ReputationTier::Professional
        } else {
            ReputationTier::Elite
        }
    }
}

impl Default for TierConfig {
    /// The standard boundaries: three completions for `Verified`, ten for
    /// `Professional`, twenty-five for `Elite`.
    fn default() -> (r: TierConfig)
        ensures
            r == (TierConfig { verified_min: 3, professional_min: 10, elite_min: 25 }),
            r.wf(),
    {
        TierConfig { verified_min: 3, professional_min: 10, elite_min: 25 }
    }
}

/// The loyalty milestone reached exactly at a transaction count, if any.
/// Milestone counts are fixed at 3, 10 and 25.
pub open spec fn loyalty_milestone_spec(count: u64) -> Option<LoyaltyTier> {
    if count == 3 {
        Some(LoyaltyTier::Novice)
    } else if count == 10 {
        Some(LoyaltyTier::Expert)
    } else if count == 25 {
        Some(LoyaltyTier::Elite)
    } else {
        None
    }
}

/// Compute the loyalty milestone reached exactly at a transaction count.
pub fn loyalty_milestone(count: u64) -> (m: Option<LoyaltyTier>)
    ensures
        m == loyalty_milestone_spec(count),
{
    if count == 3 {
        Some(LoyaltyTier::Novice)
    } else if count == 10 {
        Some(LoyaltyTier::Expert)
    } else if count == 25 {
        Some(LoyaltyTier::Elite)
    } else {
        None
    }
}

} // verus!
