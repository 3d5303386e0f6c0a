//! The records the engine owns, their keys, and their well-formedness.

use vstd::prelude::*;
use crate::error::BondrError;
use crate::store::Keyed;
use crate::tier::ReputationTier;
use crate::MAX_MULTISIG_MEMBERS;
use crate::MAX_REFERENCE_SEED;
use crate::MAX_TRANSFER_AMOUNT;

verus! {

/// Composite storage key of a sender/receiver record: the pair of parties
/// plus a small seed disambiguating concurrent records of the same pair.
#[derive(Clone, Copy, Debug, PartialEq, Eq, Structural)]
pub struct PairKey {
    /// Funding party.
    pub sender: u64,
    /// Beneficiary.
    pub receiver: u64,
    /// Seed in `1..=MAX_REFERENCE_SEED`.
    pub reference_seed: u8,
}

/// A custodied-funds record: funds pulled from `sender` sit in the record's
/// vault until `is_released` is set and the `receiver` claims them, which
/// destroys the record.
#[derive(Clone, Copy, Debug, PartialEq, Eq)]
pub struct Escrow {
    /// Funding party; the only identity that may release directly.
    pub sender: u64,
    /// Beneficiary; the only identity that may claim.
    pub receiver: u64,
    /// Amount in custody, fixed at creation.
    pub amount: u64,
    /// Flips false to true exactly once.
    pub is_released: bool,
    /// Seed disambiguating concurrent escrows of the same pair.
    pub reference_seed: u8,
    /// When the escrow is multisig-gated: the client whose multisig
    /// configuration drives release.
    pub client_multisig: Option<u64>,
}

impl Keyed for Escrow {
    type Key = PairKey;

    open spec fn key(self) -> PairKey {
        PairKey { sender: self.sender, receiver: self.receiver, reference_seed: self.reference_seed }
    }
}

impl Escrow {
    /// Validation invariants fixed at creation.
    pub open spec fn wf(self) -> bool {
        &&& 0 < self.amount <= MAX_TRANSFER_AMOUNT
        &&& self.sender != self.receiver
        &&& 1 <= self.reference_seed <= MAX_REFERENCE_SEED
    }
}

/// An M-of-N release-authorization configuration, one per client.
#[derive(Debug, PartialEq, Eq)]
pub struct ClientMultisig {
    /// The creating client; the configuration's identity.
    pub client: u64,
    /// Fixed-capacity member list; the first `member_count` slots are active.
    pub members: Vec<u64>,
    /// How many leading entries of `members` are active.
    pub member_count: u8,
    /// Distinct approvals required to drive a release.
    pub threshold: u8,
    /// Approval flags, parallel to `members`; each flips false to true at
    /// most once per pending escrow.
    pub approvals: Vec<bool>,
    /// The one escrow this configuration currently gates, if any.
    pub pending_escrow: Option<PairKey>,
}

impl Keyed for ClientMultisig {
    type Key = u64;

    open spec fn key(self) -> u64 {
        self.client
    }
}

/// How many of the first `n` flags of `s` are set.
pub open spec fn count_set(s: Seq<bool>, n: int) -> int
    decreases n,
{
    if n <= 0 {
        0
    } else {
        count_set(s, n - 1) + if s[n - 1] {
            1int
        } else {
            0int
        }
    }
}

impl ClientMultisig {
    /// Configuration invariants: full-capacity slot vectors, bounds on the
    /// active count and the threshold, distinct active members, and the
    /// client among them.
    pub open spec fn wf(self) -> bool {
        &&& self.members@.len() == MAX_MULTISIG_MEMBERS as int
        &&& self.approvals@.len() == MAX_MULTISIG_MEMBERS as int
        &&& 1 <= self.member_count as int <= MAX_MULTISIG_MEMBERS as int
        &&& 1 <= self.threshold <= self.member_count
        &&& forall|i: int, j: int|
            0 <= i < j < self.member_count as int ==> self.members@[i] != self.members@[j]
        &&& self.is_active_member(self.client)
    }

    /// Same configuration (identity, membership, threshold) as `o`: only the
    /// approval bookkeeping and the pending link may differ.
    pub open spec fn same_config(self, o: ClientMultisig) -> bool {
        &&& self.client == o.client
        &&& self.members == o.members
        &&& self.member_count == o.member_count
        &&& self.threshold == o.threshold
    }

    /// Whether `id` occupies an active member slot.
    pub open spec fn is_active_member(self, id: u64) -> bool {
        exists|i: int| 0 <= i < self.member_count as int && self.members@[i] == id
    }

    /// The active slot `id` occupies; meaningful only for active members.
    pub open spec fn member_index(self, id: u64) -> int {
        choose|i: int| 0 <= i < self.member_count as int && self.members@[i] == id
    }

    /// How many active members have approved.
    pub open spec fn approved_count(self) -> int {
        count_set(self.approvals@, self.member_count as int)
    }

    /// Find the active slot of `id`, if any.
    pub fn find_member(&self, id: u64) -> (r: Option<usize>)
        requires
            self.wf(),
        ensures
            match r {
                Some(i) => {
                    &&& (i as int) < self.member_count as int
                    &&& self.members@[i as int] == id
                    &&& self.is_active_member(id)
                    &&& self.member_index(id) == i as int
                },
                None => !self.is_active_member(id),
            },
    {
        let active = self.member_count as usize;
        let mut i: usize = 0;
        while i < active
            invariant
                self.wf(),
                active == self.member_count as usize,
                i <= active,
                forall|j: int| 0 <= j < i as int ==> self.members@[j] != id,
            decreases active - i,
        {
            if self.members[i] == id {
                proof {
                    let w = self.member_index(id);
                    assert(0 <= w < self.member_count as int && self.members@[w] == id);
                    if w < i as int {
                        assert(self.members@[w] != id);
                    } else if (i as int) < w {
                        assert(self.members@[i as int] != self.members@[w]);
                    }
                }
                return Some(i);
            }
            i += 1;
        }
        None
    }

    /// Count the approvals among active slots.
    pub fn count_approvals(&self) -> (r: u8)
        requires
            self.wf(),
        ensures
            r as int == self.approved_count(),
    {
        let active = self.member_count as usize;
        let mut i: usize = 0;
        let mut count: u8 = 0;
        while i < active
            invariant
                self.wf(),
                active == self.member_count as usize,
                i <= active,
                count as int == count_set(self.approvals@, i as int),
                count as int <= i as int,
            decreases active - i,
        {
            if self.approvals[i] {
                count += 1;
            }
            i += 1;
        }
        count
    }
}

/// Setting one clear flag inside the counted prefix raises the count by one.
pub proof fn lemma_count_set_update(s: Seq<bool>, n: int, j: int)
    requires
        0 <= j < n <= s.len(),
        !s[j],
    ensures
        count_set(s.update(j, true), n) == count_set(s, n) + 1,
    decreases n,
{
    let t = s.update(j, true);
    if j == n - 1 {
        assert(count_set(t, n - 1) == count_set(s, n - 1)) by {
            lemma_count_set_prefix_eq(s, t, n - 1);
        }
    } else {
        lemma_count_set_update(s, n - 1, j);
        assert(t[n - 1] == s[n - 1]);
    }
}

/// Counting looks only at the first `n` flags.
pub proof fn lemma_count_set_prefix_eq(s: Seq<bool>, t: Seq<bool>, n: int)
    requires
        forall|i: int| 0 <= i < n ==> s[i] == t[i],
    ensures
        count_set(s, n) == count_set(t, n),
    decreases n,
{
    if n > 0 {
        lemma_count_set_prefix_eq(s, t, n - 1);
    }
}

/// The set of positions below `n` whose flag is set.
pub open spec fn approving_slots(s: Seq<bool>, n: int) -> Set<int> {
    Set::new(|i: int| 0 <= i < n && s[i])
}

/// Counting the set flags of a prefix counts the set of their positions:
/// the count depends on which positions are set, never on any order of
/// setting them.
pub proof fn lemma_count_set_is_cardinality(s: Seq<bool>, n: int)
    requires
        0 <= n,
    ensures
        approving_slots(s, n).finite(),
        count_set(s, n) == approving_slots(s, n).len(),
    decreases n,
{
    if n == 0 {
        assert(approving_slots(s, 0) =~= Set::empty());
    } else {
        lemma_count_set_is_cardinality(s, n - 1);
        if s[n - 1] {
            assert(approving_slots(s, n) =~= approving_slots(s, n - 1).insert(n - 1));
            assert(!approving_slots(s, n - 1).contains(n - 1));
        } else {
            assert(approving_slots(s, n) =~= approving_slots(s, n - 1));
        }
    }
}

/// A prefix with no set flags counts to zero.
pub proof fn lemma_count_set_zero(s: Seq<bool>, n: int)
    requires
        forall|i: int| 0 <= i < n ==> !s[i],
    ensures
        count_set(s, n) == 0,
    decreases n,
{
    if n > 0 {
        lemma_count_set_zero(s, n - 1);
    }
}

/// Per-identity completion counter advanced by successful claims.
#[derive(Clone, Copy, Debug, PartialEq, Eq, Structural)]
pub struct UserStats {
    /// The tracked identity.
    pub user: u64,
    /// Escrows completed as beneficiary.
    pub completed_escrows: u32,
}

impl Keyed for UserStats {
    type Key = u64;

    open spec fn key(self) -> u64 {
        self.user
    }
}

/// A freelancer's reputation record: counters feeding the next mint
/// decision, and the tier already credentialed.
#[derive(Clone, Copy, Debug, PartialEq, Eq)]
pub struct FreelancerBadge {
    /// The minted tier; never decreases.
    pub tier: ReputationTier,
    /// Completed engagements counted toward the next tier.
    pub completed_escrows: u32,
    /// Total value across completed engagements.
    pub total_value_completed: u64,
    /// The credentialed identity.
    pub freelancer: u64,
}

impl Keyed for FreelancerBadge {
    type Key = u64;

    open spec fn key(self) -> u64 {
        self.freelancer
    }
}

/// A plain value-transfer record of the loyalty flavor: no custody vault,
/// destroyed when the transfer is performed.
#[derive(Clone, Copy, Debug, PartialEq, Eq)]
pub struct Remittance {
    /// Paying party.
    pub sender: u64,
    /// Beneficiary.
    pub receiver: u64,
    /// Amount to transfer.
    pub amount: u64,
    /// Seed disambiguating concurrent records of the same pair.
    pub reference_seed: u8,
}

impl Keyed for Remittance {
    type Key = PairKey;

    open spec fn key(self) -> PairKey {
        PairKey { sender: self.sender, receiver: self.receiver, reference_seed: self.reference_seed }
    }
}

impl Remittance {
    /// Validation invariants fixed at creation.
    pub open spec fn wf(self) -> bool {
        &&& 0 < self.amount <= MAX_TRANSFER_AMOUNT
        &&& self.sender != self.receiver
        &&& 1 <= self.reference_seed <= MAX_REFERENCE_SEED
    }
}

/// Per-sender counters of the loyalty flavor.
#[derive(Clone, Copy, Debug, PartialEq, Eq, Structural)]
pub struct RemitStats {
    /// The tracked sender.
    pub user: u64,
    /// Total value sent.
    pub total_sent: u64,
    /// Transactions initiated; drives the loyalty milestones.
    pub tx_count: u64,
}

impl Keyed for RemitStats {
    type Key = u64;

    open spec fn key(self) -> u64 {
        self.user
    }
}

/// One account's balance on the engine's ledger.
#[derive(Clone, Copy, Debug, PartialEq, Eq, Structural)]
pub struct AccountEntry {
    /// The account holder.
    pub owner: u64,
    /// The held balance.
    pub balance: u64,
}

impl Keyed for AccountEntry {
    type Key = u64;

    open spec fn key(self) -> u64 {
        self.owner
    }
}

/// Reject a candidate member list whose active slots hold any identity
/// twice.
pub fn validate_unique_members(
    members: &[u64; MAX_MULTISIG_MEMBERS],
    member_count: u8,
) -> (r: Result<(), BondrError>)
    requires
        member_count as int <= MAX_MULTISIG_MEMBERS as int,
    ensures
        match r {
            Ok(()) => forall|i: int, j: int|
                0 <= i < j < member_count as int ==> members@[i] != members@[j],
            Err(e) => {
                &&& e == BondrError::DuplicateMember
                &&& exists|i: int, j: int|
                    0 <= i < j < member_count as int && members@[i] == members@[j]
            },
        },
{
    let active = member_count as usize;
    let mut i: usize = 0;
    while i < active
        invariant
            active == member_count as usize,
            active <= MAX_MULTISIG_MEMBERS,
            i <= active,
            forall|p: int, q: int| 0 <= p < q < active as int && p < i as int ==> members@[p]
                != members@[q],
        decreases active - i,
    {
        let mut j: usize = i + 1;
        while j < active
            invariant
                active == member_count as usize,
                active <= MAX_MULTISIG_MEMBERS,
                i < active,
                i < j,
                j <= active,
                forall|q: int|
                    (i as int) < q && q < (j as int) ==> members@[i as int] != members@[q],
            decreases active - j,
        {
            if members[i] == members[j] {
                return Err(BondrError::DuplicateMember);
            }
            j += 1;
        }
        i += 1;
    }
    Ok(())
}

/// Exact presence check for the optional token-rail handles of a token
/// transfer: the rail needs its program handle and all three token accounts.
pub fn validate_token_accounts(
    has_token_program: bool,
    has_from_token_account: bool,
    has_to_token_account: bool,
    has_mint: bool,
) -> (r: Result<(), BondrError>)
    ensures
        match r {
            Ok(()) => has_token_program && has_from_token_account && has_to_token_account
                && has_mint,
            Err(e) => {
                &&& !(has_token_program && has_from_token_account && has_to_token_account
                    && has_mint)
                &&& e == if !has_token_program {
                    BondrError::MissingTokenProgram
                } else {
                    BondrError::MissingTokenAccounts
                }
            },
        },
{
    if !has_token_program {
        return Err(BondrError::MissingTokenProgram);
    }
    if !has_from_token_account {
        return Err(BondrError::MissingTokenAccounts);
    }
    if !has_to_token_account {
        return Err(BondrError::MissingTokenAccounts);
    }
    if !has_mint {
        return Err(BondrError::MissingTokenAccounts);
    }
    Ok(())
}

} // verus!
