//! The engine: single owner of every record and the only way to mutate one.
//!
//! Operations are atomic: every check runs before the first write, so a
//! failing call returns its terminal error with the state untouched.  Each
//! operation's contract names the exact error for every rejected input via a
//! `*_check` spec function, and describes every record the success path
//! touches; all other records are unchanged.

use vstd::prelude::*;
use crate::error::BondrError;
use crate::event::ClientMultisigCreated;
use crate::event::EscrowCreateEvent;
use crate::event::LoyaltyMilestoneEvent;
use crate::event::ReputationMilestoneEvent;
use crate::state::AccountEntry;
use crate::state::ClientMultisig;
use crate::state::Escrow;
use crate::state::FreelancerBadge;
use crate::state::PairKey;
use crate::state::RemitStats;
use crate::state::Remittance;
use crate::state::UserStats;
use crate::state::lemma_count_set_update;
use crate::state::lemma_count_set_zero;
use crate::store::Keyed;
use crate::store::keys_unique;
use crate::store::lemma_index_of;
use crate::store::lemma_store_push;
use crate::store::lemma_store_remove;
use crate::store::lemma_store_update;
use crate::store::seq_get;
use crate::store::seq_has;
use crate::store::seq_index_of;
use crate::tier::ReputationTier;
use crate::tier::TierConfig;
use crate::tier::loyalty_milestone;
use crate::tier::loyalty_milestone_spec;
use crate::MAX_MULTISIG_MEMBERS;
use crate::MAX_REFERENCE_SEED;
use crate::MAX_TRANSFER_AMOUNT;

verus! {

/// The custodied-funds engine: a ledger of account balances plus every
/// escrow, multisig, statistics, badge and remittance record.
pub struct Engine {
    /// Reputation tier boundaries, fixed at construction.
    pub tiers: TierConfig,
    /// Account balances; absent accounts hold zero.
    pub accounts: Vec<AccountEntry>,
    /// Live escrow records, each with its custody vault.
    pub escrows: Vec<Escrow>,
    /// Multisig configurations, one per client.
    pub multisigs: Vec<ClientMultisig>,
    /// Completion counters advanced by successful claims.
    pub user_stats: Vec<UserStats>,
    /// Reputation badges.
    pub badges: Vec<FreelancerBadge>,
    /// Live remittance records.
    pub remittances: Vec<Remittance>,
    /// Loyalty counters advanced by remittances.
    pub remit_stats: Vec<RemitStats>,
}

impl Engine {
    /// Engine invariant: distinct keys in every store, every stored record
    /// well-formed, and the multisig links consistent.
    pub open spec fn wf(self) -> bool {
        &&& self.tiers.wf()
        &&& keys_unique(self.accounts@)
        &&& keys_unique(self.escrows@)
        &&& keys_unique(self.multisigs@)
        &&& keys_unique(self.user_stats@)
        &&& keys_unique(self.badges@)
        &&& keys_unique(self.remittances@)
        &&& keys_unique(self.remit_stats@)
        &&& forall|i: int| 0 <= i < self.escrows@.len() ==> (#[trigger] self.escrows@[i]).wf()
        &&& forall|i: int| 0 <= i < self.multisigs@.len() ==> (#[trigger] self.multisigs@[i]).wf()
        &&& forall|i: int|
            0 <= i < self.remittances@.len() ==> (#[trigger] self.remittances@[i]).wf()
        &&& self.links_consistent()
    }

    /// A multisig is `Idle` (nothing pending) or `Pending` on exactly the
    /// one live escrow that names it back: a configuration's pending escrow
    /// exists, was funded by the configuration's own client, and carries the
    /// reverse link; a multisig-gated escrow names its funder's
    /// configuration, which exists and is pending on exactly that escrow.
    pub open spec fn links_consistent(self) -> bool {
        &&& forall|i: int|
            0 <= i < self.multisigs@.len() ==> ((#[trigger] self.multisigs@[i]).pending_escrow
                matches Some(k) ==> {
                &&& k.sender == self.multisigs@[i].client
                &&& self.has_escrow(k)
                &&& self.escrow_of(k).client_multisig == Some(self.multisigs@[i].client)
            })
        &&& forall|i: int|
            0 <= i < self.escrows@.len() ==> ((#[trigger] self.escrows@[i]).client_multisig
                matches Some(c) ==> {
                &&& c == self.escrows@[i].sender
                &&& self.has_multisig(c)
                &&& self.multisig_of(c).pending_escrow == Some(self.escrows@[i].key())
            })
    }

    /// Whether an escrow record lives at `k`.
    pub open spec fn has_escrow(self, k: PairKey) -> bool {
        seq_has(self.escrows@, k)
    }

    /// The escrow record at `k`; meaningful only when `has_escrow(k)`.
    pub open spec fn escrow_of(self, k: PairKey) -> Escrow {
        seq_get(self.escrows@, k)
    }

    /// Whether `client` has a multisig configuration.
    pub open spec fn has_multisig(self, client: u64) -> bool {
        seq_has(self.multisigs@, client)
    }

    /// The multisig configuration of `client`; meaningful only when present.
    pub open spec fn multisig_of(self, client: u64) -> ClientMultisig {
        seq_get(self.multisigs@, client)
    }

    /// Whether `user` has a completion-statistics record.
    pub open spec fn has_stats(self, user: u64) -> bool {
        seq_has(self.user_stats@, user)
    }

    /// The completion statistics of `user`; meaningful only when present.
    pub open spec fn stats_of(self, user: u64) -> UserStats {
        seq_get(self.user_stats@, user)
    }

    /// Whether `user` has a reputation badge.
    pub open spec fn has_badge(self, user: u64) -> bool {
        seq_has(self.badges@, user)
    }

    /// The badge of `user`; meaningful only when present.
    pub open spec fn badge_of(self, user: u64) -> FreelancerBadge {
        seq_get(self.badges@, user)
    }

    /// Whether a remittance record lives at `k`.
    pub open spec fn has_remittance(self, k: PairKey) -> bool {
        seq_has(self.remittances@, k)
    }

    /// The remittance record at `k`; meaningful only when present.
    pub open spec fn remittance_of(self, k: PairKey) -> Remittance {
        seq_get(self.remittances@, k)
    }

    /// Whether `user` has a loyalty-statistics record.
    pub open spec fn has_remit_stats(self, user: u64) -> bool {
        seq_has(self.remit_stats@, user)
    }

    /// The loyalty statistics of `user`; meaningful only when present.
    pub open spec fn remit_stats_of(self, user: u64) -> RemitStats {
        seq_get(self.remit_stats@, user)
    }

    /// The ledger balance of `owner`; absent accounts hold zero.
    pub open spec fn balance(self, owner: u64) -> u64 {
        if seq_has(self.accounts@, owner) {
            seq_get(self.accounts@, owner).balance
        } else {
            0
        }
    }

    /// What the custody vault of `k` holds: the escrowed amount until the
    /// record is claimed and destroyed, zero afterwards.
    pub open spec fn vault_balance_spec(self, k: PairKey) -> u64 {
        if self.has_escrow(k) {
            self.escrow_of(k).amount
        } else {
            0
        }
    }

    /// All value on the ledger: free balances plus custodied vaults.  No
    /// operation creates or destroys value — each success ensures this sum
    /// is untouched — except `airdrop`, which feeds value in.
    pub open spec fn total_value(self) -> int {
        sum_balances(self.accounts@) + sum_vaults(self.escrows@)
    }

    /// Every escrow but `k` is as in `pre`.
    pub open spec fn same_escrows_except(self, pre: Engine, k: PairKey) -> bool {
        &&& forall|k2: PairKey| k2 != k ==> #[trigger] self.has_escrow(k2) == pre.has_escrow(k2)
        &&& forall|k2: PairKey|
            k2 != k && pre.has_escrow(k2) ==> #[trigger] self.escrow_of(k2) == pre.escrow_of(k2)
    }

    /// Every multisig but `client`'s is as in `pre`.
    pub open spec fn same_multisigs_except(self, pre: Engine, client: u64) -> bool {
        &&& forall|c: u64| c != client ==> #[trigger] self.has_multisig(c) == pre.has_multisig(c)
        &&& forall|c: u64|
            c != client && pre.has_multisig(c) ==> #[trigger] self.multisig_of(c)
                == pre.multisig_of(c)
    }

    /// Every completion-statistics record but `user`'s is as in `pre`.
    pub open spec fn same_stats_except(self, pre: Engine, user: u64) -> bool {
        &&& forall|u: u64| u != user ==> #[trigger] self.has_stats(u) == pre.has_stats(u)
        &&& forall|u: u64|
            u != user && pre.has_stats(u) ==> #[trigger] self.stats_of(u) == pre.stats_of(u)
    }

    /// Every badge but `user`'s is as in `pre`.
    pub open spec fn same_badges_except(self, pre: Engine, user: u64) -> bool {
        &&& forall|u: u64| u != user ==> #[trigger] self.has_badge(u) == pre.has_badge(u)
        &&& forall|u: u64|
            u != user && pre.has_badge(u) ==> #[trigger] self.badge_of(u) == pre.badge_of(u)
    }

    /// Every remittance but `k` is as in `pre`.
    pub open spec fn same_remittances_except(self, pre: Engine, k: PairKey) -> bool {
        &&& forall|k2: PairKey|
            k2 != k ==> #[trigger] self.has_remittance(k2) == pre.has_remittance(k2)
        &&& forall|k2: PairKey|
            k2 != k && pre.has_remittance(k2) ==> #[trigger] self.remittance_of(k2)
                == pre.remittance_of(k2)
    }

    /// Every loyalty-statistics record but `user`'s is as in `pre`.
    pub open spec fn same_remit_stats_except(self, pre: Engine, user: u64) -> bool {
        &&& forall|u: u64| u != user ==> #[trigger] self.has_remit_stats(u) == pre.has_remit_stats(
            u,
        )
        &&& forall|u: u64|
            u != user && pre.has_remit_stats(u) ==> #[trigger] self.remit_stats_of(u)
                == pre.remit_stats_of(u)
    }

    /// Every balance but `owner`'s is as in `pre`.
    pub open spec fn same_balances_except(self, pre: Engine, owner: u64) -> bool {
        forall|id: u64| id != owner ==> #[trigger] self.balance(id) == pre.balance(id)
    }

    /// A fresh engine over the given tier boundaries: no accounts, no
    /// records.
    pub fn new(tiers: TierConfig) -> (e: Engine)
        requires
            tiers.wf(),
        ensures
            e.wf(),
            e.tiers == tiers,
            e.accounts@.len() == 0,
            e.escrows@.len() == 0,
            e.multisigs@.len() == 0,
            e.user_stats@.len() == 0,
            e.badges@.len() == 0,
            e.remittances@.len() == 0,
            e.remit_stats@.len() == 0,
    {
        Engine {
            tiers,
            accounts: Vec::new(),
            escrows: Vec::new(),
            multisigs: Vec::new(),
            user_stats: Vec::new(),
            badges: Vec::new(),
            remittances: Vec::new(),
            remit_stats: Vec::new(),
        }
    }

    /// Find the position of the account entry of `owner`.
    fn find_account(&self, owner: u64) -> (r: Option<usize>)
        requires
            keys_unique(self.accounts@),
        ensures
            match r {
                Some(i) => {
                    &&& (i as int) < self.accounts@.len()
                    &&& self.accounts@[i as int].key() == owner
                    &&& seq_has(self.accounts@, owner)
                    &&& seq_index_of(self.accounts@, owner) == i as int
                    &&& seq_get(self.accounts@, owner) == self.accounts@[i as int]
                },
                None => !seq_has(self.accounts@, owner),
            },
    {
        let n = self.accounts.len();
        let mut i: usize = 0;
        while i < n
            invariant
                keys_unique(self.accounts@),
                n == self.accounts@.len(),
                i <= n,
                forall|j: int| 0 <= j < i as int ==> (#[trigger] self.accounts@[j]).key() != owner,
            decreases n - i,
        {
            if self.accounts[i].owner == owner {
                proof {
                    lemma_index_of(self.accounts@, owner, i as int);
                }
                return Some(i);
            }
            i += 1;
        }
        None
    }

    /// Find the position of the escrow record at `k`.
    fn find_escrow(&self, k: &PairKey) -> (r: Option<usize>)
        requires
            keys_unique(self.escrows@),
        ensures
            match r {
                Some(i) => {
                    &&& (i as int) < self.escrows@.len()
                    &&& self.escrows@[i as int].key() == *k
                    &&& seq_has(self.escrows@, *k)
                    &&& seq_index_of(self.escrows@, *k) == i as int
                    &&& seq_get(self.escrows@, *k) == self.escrows@[i as int]
                },
                None => !seq_has(self.escrows@, *k),
            },
    {
        let n = self.escrows.len();
        let mut i: usize = 0;
        while i < n
            invariant
                keys_unique(self.escrows@),
                n == self.escrows@.len(),
                i <= n,
                forall|j: int| 0 <= j < i as int ==> (#[trigger] self.escrows@[j]).key() != *k,
            decreases n - i,
        {
            let e = &self.escrows[i];
            if e.sender == k.sender && e.receiver == k.receiver && e.reference_seed
                == k.reference_seed {
                proof {
                    lemma_index_of(self.escrows@, *k, i as int);
                }
                return Some(i);
            }
            i += 1;
        }
        None
    }

    /// Find the position of the multisig configuration of `client`.
    fn find_multisig(&self, client: u64) -> (r: Option<usize>)
        requires
            keys_unique(self.multisigs@),
        ensures
            match r {
                Some(i) => {
                    &&& (i as int) < self.multisigs@.len()
                    &&& self.multisigs@[i as int].key() == client
                    &&& seq_has(self.multisigs@, client)
                    &&& seq_index_of(self.multisigs@, client) == i as int
                    &&& seq_get(self.multisigs@, client) == self.multisigs@[i as int]
                },
                None => !seq_has(self.multisigs@, client),
            },
    {
        let n = self.multisigs.len();
        let mut i: usize = 0;
        while i < n
            invariant
                keys_unique(self.multisigs@),
                n == self.multisigs@.len(),
                i <= n,
                forall|j: int|
                    0 <= j < i as int ==> (#[trigger] self.multisigs@[j]).key() != client,
            decreases n - i,
        {
            if self.multisigs[i].client == client {
                proof {
                    lemma_index_of(self.multisigs@, client, i as int);
                }
                return Some(i);
            }
            i += 1;
        }
        None
    }

    /// Find the position of the completion statistics of `user`.
    fn find_stats(&self, user: u64) -> (r: Option<usize>)
        requires
            keys_unique(self.user_stats@),
        ensures
            match r {
                Some(i) => {
                    &&& (i as int) < self.user_stats@.len()
                    &&& self.user_stats@[i as int].key() == user
                    &&& seq_has(self.user_stats@, user)
                    &&& seq_index_of(self.user_stats@, user) == i as int
                    &&& seq_get(self.user_stats@, user) == self.user_stats@[i as int]
                },
                None => !seq_has(self.user_stats@, user),
            },
    {
        let n = self.user_stats.len();
        let mut i: usize = 0;
        while i < n
            invariant
                keys_unique(self.user_stats@),
                n == self.user_stats@.len(),
                i <= n,
                forall|j: int| 0 <= j < i as int ==> (#[trigger] self.user_stats@[j]).key() != user,
            decreases n - i,
        {
            if self.user_stats[i].user == user {
                proof {
                    lemma_index_of(self.user_stats@, user, i as int);
                }
                return Some(i);
            }
            i += 1;
        }
        None
    }

    /// Find the position of the badge of `user`.
    fn find_badge(&self, user: u64) -> (r: Option<usize>)
        requires
            keys_unique(self.badges@),
        ensures
            match r {
                Some(i) => {
                    &&& (i as int) < self.badges@.len()
                    &&& self.badges@[i as int].key() == user
                    &&& seq_has(self.badges@, user)
                    &&& seq_index_of(self.badges@, user) == i as int
                    &&& seq_get(self.badges@, user) == self.badges@[i as int]
                },
                None => !seq_has(self.badges@, user),
            },
    {
        let n = self.badges.len();
        let mut i: usize = 0;
        while i < n
            invariant
                keys_unique(self.badges@),
                n == self.badges@.len(),
                i <= n,
                forall|j: int| 0 <= j < i as int ==> (#[trigger] self.badges@[j]).key() != user,
            decreases n - i,
        {
            if self.badges[i].freelancer == user {
                proof {
                    lemma_index_of(self.badges@, user, i as int);
                }
                return Some(i);
            }
            i += 1;
        }
        None
    }

    /// Find the position of the remittance record at `k`.
    fn find_remittance(&self, k: &PairKey) -> (r: Option<usize>)
        requires
            keys_unique(self.remittances@),
        ensures
            match r {
                Some(i) => {
                    &&& (i as int) < self.remittances@.len()
                    &&& self.remittances@[i as int].key() == *k
                    &&& seq_has(self.remittances@, *k)
                    &&& seq_index_of(self.remittances@, *k) == i as int
                    &&& seq_get(self.remittances@, *k) == self.remittances@[i as int]
                },
                None => !seq_has(self.remittances@, *k),
            },
    {
        let n = self.remittances.len();
        let mut i: usize = 0;
        while i < n
            invariant
                keys_unique(self.remittances@),
                n == self.remittances@.len(),
                i <= n,
                forall|j: int| 0 <= j < i as int ==> (#[trigger] self.remittances@[j]).key() != *k,
            decreases n - i,
        {
            let e = &self.remittances[i];
            if e.sender == k.sender && e.receiver == k.receiver && e.reference_seed
                == k.reference_seed {
                proof {
                    lemma_index_of(self.remittances@, *k, i as int);
                }
                return Some(i);
            }
            i += 1;
        }
        None
    }

    /// Find the position of the loyalty statistics of `user`.
    fn find_remit_stats(&self, user: u64) -> (r: Option<usize>)
        requires
            keys_unique(self.remit_stats@),
        ensures
            match r {
                Some(i) => {
                    &&& (i as int) < self.remit_stats@.len()
                    &&& self.remit_stats@[i as int].key() == user
                    &&& seq_has(self.remit_stats@, user)
                    &&& seq_index_of(self.remit_stats@, user) == i as int
                    &&& seq_get(self.remit_stats@, user) == self.remit_stats@[i as int]
                },
                None => !seq_has(self.remit_stats@, user),
            },
    {
        let n = self.remit_stats.len();
        let mut i: usize = 0;
        while i < n
            invariant
                keys_unique(self.remit_stats@),
                n == self.remit_stats@.len(),
                i <= n,
                forall|j: int|
                    0 <= j < i as int ==> (#[trigger] self.remit_stats@[j]).key() != user,
            decreases n - i,
        {
            if self.remit_stats[i].user == user {
                proof {
                    lemma_index_of(self.remit_stats@, user, i as int);
                }
                return Some(i);
            }
            i += 1;
        }
        None
    }

    /// Credit `amount` to `owner` out of thin air; the way value enters the
    /// model ledger.
    pub fn airdrop(&mut self, owner: u64, amount: u64)
        requires
            old(self).wf(),
            old(self).balance(owner) + amount <= u64::MAX,
        ensures
            final(self).wf(),
            final(self).tiers == old(self).tiers,
            final(self).balance(owner) == old(self).balance(owner) + amount,
            final(self).same_balances_except(*old(self), owner),
            final(self).total_value() == old(self).total_value() + amount,
            final(self).escrows@ == old(self).escrows@,
            final(self).multisigs@ == old(self).multisigs@,
            final(self).user_stats@ == old(self).user_stats@,
            final(self).badges@ == old(self).badges@,
            final(self).remittances@ == old(self).remittances@,
            final(self).remit_stats@ == old(self).remit_stats@,
    {
        match self.find_account(owner) {
            Some(i) => {
                let bal = self.accounts[i].balance;
                self.accounts.set(i, AccountEntry { owner, balance: bal + amount });
                proof {
                    lemma_store_update(
                        old(self).accounts@,
                        i as int,
                        AccountEntry { owner, balance: (bal + amount) as u64 },
                    );
                    lemma_sum_balances_update(
                        old(self).accounts@,
                        i as int,
                        AccountEntry { owner, balance: (bal + amount) as u64 },
                    );
                }
            },
            None => {
                self.accounts.push(AccountEntry { owner, balance: amount });
                proof {
                    lemma_store_push(old(self).accounts@, AccountEntry { owner, balance: amount });
                    lemma_sum_balances_push(
                        old(self).accounts@,
                        AccountEntry { owner, balance: amount },
                    );
                }
            },
        }
    }

    /// The ledger balance of `owner`.
    pub fn balance_of(&self, owner: u64) -> (r: u64)
        requires
            self.wf(),
        ensures
            r == self.balance(owner),
    {
        match self.find_account(owner) {
            Some(i) => self.accounts[i].balance,
            None => 0,
        }
    }

    /// Look up the escrow record at the derived identity.
    pub fn get_escrow(&self, sender: u64, receiver: u64, reference_seed: u8) -> (r: Option<Escrow>)
        requires
            self.wf(),
        ensures
            ({
                let k = PairKey { sender, receiver, reference_seed };
                match r {
                    Some(e) => self.has_escrow(k) && e == self.escrow_of(k),
                    None => !self.has_escrow(k),
                }
            }),
    {
        let k = PairKey { sender, receiver, reference_seed };
        match self.find_escrow(&k) {
            Some(i) => Some(self.escrows[i]),
            None => None,
        }
    }

    /// What the custody vault of the derived identity holds.
    pub fn vault_balance(&self, sender: u64, receiver: u64, reference_seed: u8) -> (r: u64)
        requires
            self.wf(),
        ensures
            r == self.vault_balance_spec(PairKey { sender, receiver, reference_seed }),
    {
        let k = PairKey { sender, receiver, reference_seed };
        match self.find_escrow(&k) {
            Some(i) => self.escrows[i].amount,
            None => 0,
        }
    }

    /// Look up the multisig configuration of `client`.
    pub fn get_multisig(&self, client: u64) -> (r: Option<&ClientMultisig>)
        requires
            self.wf(),
        ensures
            match r {
                Some(m) => self.has_multisig(client) && *m == self.multisig_of(client),
                None => !self.has_multisig(client),
            },
    {
        match self.find_multisig(client) {
            Some(i) => Some(&self.multisigs[i]),
            None => None,
        }
    }

    /// Look up the completion statistics of `user`.
    pub fn get_user_stats(&self, user: u64) -> (r: Option<UserStats>)
        requires
            self.wf(),
        ensures
            match r {
                Some(s) => self.has_stats(user) && s == self.stats_of(user),
                None => !self.has_stats(user),
            },
    {
        match self.find_stats(user) {
            Some(i) => Some(self.user_stats[i]),
            None => None,
        }
    }

    /// Look up the badge of `user`.
    pub fn get_badge(&self, user: u64) -> (r: Option<FreelancerBadge>)
        requires
            self.wf(),
        ensures
            match r {
                Some(b) => self.has_badge(user) && b == self.badge_of(user),
                None => !self.has_badge(user),
            },
    {
        match self.find_badge(user) {
            Some(i) => Some(self.badges[i]),
            None => None,
        }
    }

    /// Look up the remittance record at the derived identity.
    pub fn get_remittance(&self, sender: u64, receiver: u64, reference_seed: u8) -> (r: Option<
        Remittance,
    >)
        requires
            self.wf(),
        ensures
            ({
                let k = PairKey { sender, receiver, reference_seed };
                match r {
                    Some(e) => self.has_remittance(k) && e == self.remittance_of(k),
                    None => !self.has_remittance(k),
                }
            }),
    {
        let k = PairKey { sender, receiver, reference_seed };
        match self.find_remittance(&k) {
            Some(i) => Some(self.remittances[i]),
            None => None,
        }
    }

    /// Look up the loyalty statistics of `user`.
    pub fn get_remit_stats(&self, user: u64) -> (r: Option<RemitStats>)
        requires
            self.wf(),
        ensures
            match r {
                Some(s) => self.has_remit_stats(user) && s == self.remit_stats_of(user),
                None => !self.has_remit_stats(user),
            },
    {
        match self.find_remit_stats(user) {
            Some(i) => Some(self.remit_stats[i]),
            None => None,
        }
    }
}

/// The sum of the balances held by the account entries of `s`.
pub open spec fn sum_balances(s: Seq<AccountEntry>) -> int
    decreases s.len(),
{
    if s.len() == 0 {
        0
    } else {
        sum_balances(s.drop_last()) + s.last().balance
    }
}

/// The sum of the amounts custodied by the escrow records of `s`.
pub open spec fn sum_vaults(s: Seq<Escrow>) -> int
    decreases s.len(),
{
    if s.len() == 0 {
        0
    } else {
        sum_vaults(s.drop_last()) + s.last().amount
    }
}

/// Appending an entry adds its balance to the sum.
pub proof fn lemma_sum_balances_push(s: Seq<AccountEntry>, e: AccountEntry)
    ensures
        sum_balances(s.push(e)) == sum_balances(s) + e.balance,
{
    assert(s.push(e).drop_last() =~= s);
    assert(s.push(e).last() == e);
}

/// Replacing an entry moves the sum by the balance difference.
pub proof fn lemma_sum_balances_update(s: Seq<AccountEntry>, i: int, e: AccountEntry)
    requires
        0 <= i < s.len(),
    ensures
        sum_balances(s.update(i, e)) == sum_balances(s) - s[i].balance + e.balance,
    decreases s.len(),
{
    let t = s.update(i, e);
    if i == s.len() - 1 {
        assert(t.drop_last() =~= s.drop_last());
        assert(t.last() == e);
    } else {
        assert(t.drop_last() =~= s.drop_last().update(i, e));
        assert(t.last() == s.last());
        lemma_sum_balances_update(s.drop_last(), i, e);
    }
}

/// Appending a record adds its amount to the sum.
pub proof fn lemma_sum_vaults_push(s: Seq<Escrow>, e: Escrow)
    ensures
        sum_vaults(s.push(e)) == sum_vaults(s) + e.amount,
{
    assert(s.push(e).drop_last() =~= s);
    assert(s.push(e).last() == e);
}

/// Replacing a record moves the sum by the amount difference.
pub proof fn lemma_sum_vaults_update(s: Seq<Escrow>, i: int, e: Escrow)
    requires
        0 <= i < s.len(),
    ensures
        sum_vaults(s.update(i, e)) == sum_vaults(s) - s[i].amount + e.amount,
    decreases s.len(),
{
    let t = s.update(i, e);
    if i == s.len() - 1 {
        assert(t.drop_last() =~= s.drop_last());
        assert(t.last() == e);
    } else {
        assert(t.drop_last() =~= s.drop_last().update(i, e));
        assert(t.last() == s.last());
        lemma_sum_vaults_update(s.drop_last(), i, e);
    }
}

/// Removing a record takes its amount out of the sum.
pub proof fn lemma_sum_vaults_remove(s: Seq<Escrow>, i: int)
    requires
        0 <= i < s.len(),
    ensures
        sum_vaults(s.remove(i)) == sum_vaults(s) - s[i].amount,
    decreases s.len(),
{
    let t = s.remove(i);
    if i == s.len() - 1 {
        assert(t =~= s.drop_last());
    } else {
        assert(t.drop_last() =~= s.drop_last().remove(i));
        assert(t.last() == s.last());
        lemma_sum_vaults_remove(s.drop_last(), i);
    }
}

impl Engine {
    /// The exact error a multisig-creation call returns, or `None` when it
    /// succeeds: a collision at the client's derived identity, out-of-bounds
    /// member count or threshold, a creator missing from the active members,
    /// or a duplicated active member — in that order.
    pub open spec fn multisig_config_check(
        self,
        client: u64,
        members: Seq<u64>,
        member_count: u8,
        threshold: u8,
    ) -> Option<BondrError> {
        if self.has_multisig(client) {
            Some(BondrError::AccountAlreadyInUse)
        } else if !(0 < member_count as int <= MAX_MULTISIG_MEMBERS as int) {
            Some(BondrError::InvalidMultisigConfig)
        } else if !(0 < threshold && threshold <= member_count) {
            Some(BondrError::InvalidMultisigConfig)
        } else if !(exists|i: int|
            0 <= i < member_count as int && (#[trigger] members[i]) == client) {
            Some(BondrError::InvalidMultisigConfig)
        } else if exists|i: int, j: int|
            #![trigger members[i], members[j]]
            0 <= i < j < member_count as int && members[i] == members[j] {
            Some(BondrError::DuplicateMember)
        } else {
            None
        }
    }

    /// Create the multisig configuration of `client`: the first
    /// `member_count` slots of `members` are the active members, `threshold`
    /// of whom must approve to drive a release.  All approval flags start
    /// clear and no escrow is pending.
    pub fn initialize_multisig_client(
        &mut self,
        client: u64,
        members: [u64; MAX_MULTISIG_MEMBERS],
        member_count: u8,
        threshold: u8,
    ) -> (r: Result<ClientMultisigCreated, BondrError>)
        requires
            old(self).wf(),
        ensures
            final(self).wf(),
            match r {
                Err(e) => {
                    &&& old(self).multisig_config_check(client, members@, member_count, threshold)
                        == Some(e)
                    &&& *final(self) == *old(self)
                },
                Ok(ev) => {
                    &&& old(self).multisig_config_check(client, members@, member_count, threshold)
                        is None
                    &&& ev == (ClientMultisigCreated {
                        client,
                        multisig: client,
                        member_count,
                        threshold,
                    })
                    &&& final(self).has_multisig(client)
                    &&& ({
                        let m = final(self).multisig_of(client);
                        &&& m.client == client
                        &&& m.members@ == members@
                        &&& m.member_count == member_count
                        &&& m.threshold == threshold
                        &&& m.pending_escrow is None
                        &&& forall|i: int|
                            0 <= i < m.approvals@.len() ==> !(#[trigger] m.approvals@[i])
                        &&& m.approved_count() == 0
                        &&& m.wf()
                    })
                    &&& final(self).same_multisigs_except(*old(self), client)
                    &&& final(self).accounts@ == old(self).accounts@
                    &&& final(self).escrows@ == old(self).escrows@
                    &&& final(self).user_stats@ == old(self).user_stats@
                    &&& final(self).badges@ == old(self).badges@
                    &&& final(self).remittances@ == old(self).remittances@
                    &&& final(self).remit_stats@ == old(self).remit_stats@
                    &&& final(self).tiers == old(self).tiers
                },
            },
    {
        if self.find_multisig(client).is_some() {
            return Err(BondrError::AccountAlreadyInUse);
        }
        if member_count == 0 || member_count as usize > MAX_MULTISIG_MEMBERS {
            return Err(BondrError::InvalidMultisigConfig);
        }
        if threshold == 0 || threshold > member_count {
            return Err(BondrError::InvalidMultisigConfig);
        }
        let active = member_count as usize;
        let mut found = false;
        let mut i: usize = 0;
        while i < active
            invariant
                active == member_count as usize,
                active <= MAX_MULTISIG_MEMBERS,
                i <= active,
                found <==> exists|j: int| 0 <= j < i as int && (#[trigger] members@[j]) == client,
            decreases active - i,
        {
            if members[i] == client {
                found = true;
            }
            i += 1;
        }
        if !found {
            return Err(BondrError::InvalidMultisigConfig);
        }
        match crate::state::validate_unique_members(&members, member_count) {
            Err(e) => {
                return Err(e);
            },
            Ok(()) => {},
        }
        let mut members_v: Vec<u64> = Vec::new();
        let mut idx: usize = 0;
        while idx < MAX_MULTISIG_MEMBERS
            invariant
                idx <= MAX_MULTISIG_MEMBERS,
                members_v@.len() == idx as int,
                forall|p: int| 0 <= p < idx as int ==> members_v@[p] == members@[p],
            decreases MAX_MULTISIG_MEMBERS - idx,
        {
            members_v.push(members[idx]);
            idx += 1;
        }
        let mut approvals_v: Vec<bool> = Vec::new();
        let mut adx: usize = 0;
        while adx < MAX_MULTISIG_MEMBERS
            invariant
                adx <= MAX_MULTISIG_MEMBERS,
                approvals_v@.len() == adx as int,
                forall|p: int| 0 <= p < adx as int ==> !(#[trigger] approvals_v@[p]),
            decreases MAX_MULTISIG_MEMBERS - adx,
        {
            approvals_v.push(false);
            adx += 1;
        }
        proof {
            assert(members_v@ =~= members@);
        }
        let m = ClientMultisig {
            client,
            members: members_v,
            member_count,
            threshold,
            approvals: approvals_v,
            pending_escrow: None,
        };
        proof {
            assert(m.members@ =~= members@);
            let w = choose|j: int|
                0 <= j < member_count as int && (#[trigger] members@[j]) == client;
            assert(m.members@[w] == client);
            assert(m.is_active_member(client));
            assert(m.wf());
            lemma_count_set_zero(m.approvals@, m.member_count as int);
            lemma_store_push(old(self).multisigs@, m);
        }
        self.multisigs.push(m);
        proof {
            assert forall|p: int| 0 <= p < self.multisigs@.len() implies (
            #[trigger] self.multisigs@[p]).wf() by {
                if p < old(self).multisigs@.len() {
                    assert(self.multisigs@[p] == old(self).multisigs@[p]);
                }
            }
        }
        Ok(ClientMultisigCreated { client, multisig: client, member_count, threshold })
    }

    /// The exact error an escrow-creation call returns, or `None` when it
    /// succeeds: a collision at the derived identity, a zero or oversized
    /// amount, a self transfer, an out-of-range seed, a missing multisig
    /// configuration when one is requested, a funder balance below the
    /// amount, a busy multisig, or a funder outside the multisig's members —
    /// in that order.
    pub open spec fn create_escrow_check(
        self,
        sender: u64,
        receiver: u64,
        amount: u64,
        reference_seed: u8,
        is_multisig: bool,
    ) -> Option<BondrError> {
        let k = PairKey { sender, receiver, reference_seed };
        if self.has_escrow(k) {
            Some(BondrError::AccountAlreadyInUse)
        } else if amount == 0 {
            Some(BondrError::InvalidAmountZero)
        } else if amount > MAX_TRANSFER_AMOUNT {
            Some(BondrError::AmountTooLarge)
        } else if sender == receiver {
            Some(BondrError::SelfTransfer)
        } else if reference_seed == 0 || reference_seed > MAX_REFERENCE_SEED {
            Some(BondrError::InvalidReferenceSeed)
        } else if is_multisig && !self.has_multisig(sender) {
            Some(BondrError::InvalidMultisigConfig)
        } else if self.balance(sender) < amount {
            Some(BondrError::InsufficientBalance)
        } else if is_multisig && self.multisig_of(sender).pending_escrow is Some {
            Some(BondrError::MultisigBusy)
        } else if is_multisig && !self.multisig_of(sender).is_active_member(sender) {
            Some(BondrError::InvalidMultisigConfig)
        } else {
            None
        }
    }

    /// Create and fund an escrow: pull `amount` from `sender` into the new
    /// record's custody vault, link the sender's multisig when requested,
    /// and make sure the sender has a statistics record.
    /// `is_token_transfer` selects the transfer rail and is carried on the
    /// returned event; both rails custody the same ledger value here.
    pub fn initialize_escrow(
        &mut self,
        sender: u64,
        receiver: u64,
        amount: u64,
        reference_seed: u8,
        is_token_transfer: bool,
        is_multisig: bool,
    ) -> (r: Result<EscrowCreateEvent, BondrError>)
        requires
            old(self).wf(),
        ensures
            final(self).wf(),
            ({
                let k = PairKey { sender, receiver, reference_seed };
                match r {
                    Err(e) => {
                        &&& old(self).create_escrow_check(
                            sender,
                            receiver,
                            amount,
                            reference_seed,
                            is_multisig,
                        ) == Some(e)
                        &&& *final(self) == *old(self)
                    },
                    Ok(ev) => {
                        &&& old(self).create_escrow_check(
                            sender,
                            receiver,
                            amount,
                            reference_seed,
                            is_multisig,
                        ) is None
                        &&& ev == (EscrowCreateEvent {
                            sender,
                            receiver,
                            amount,
                            reference_seed,
                            is_token_transfer,
                        })
                        &&& final(self).has_escrow(k)
                        &&& final(self).escrow_of(k) == (Escrow {
                            sender,
                            receiver,
                            amount,
                            is_released: false,
                            reference_seed,
                            client_multisig: if is_multisig {
                                Some(sender)
                            } else {
                                None
                            },
                        })
                        &&& final(self).vault_balance_spec(k) == amount
                        &&& final(self).same_escrows_except(*old(self), k)
                        &&& final(self).balance(sender) == old(self).balance(sender) - amount
                        &&& final(self).same_balances_except(*old(self), sender)
                        &&& final(self).total_value() == old(self).total_value()
                        &&& final(self).has_stats(sender)
                        &&& final(self).stats_of(sender) == if old(self).has_stats(sender) {
                            old(self).stats_of(sender)
                        } else {
                            UserStats { user: sender, completed_escrows: 0 }
                        }
                        &&& final(self).same_stats_except(*old(self), sender)
                        &&& if is_multisig {
                            ({
                                let m0 = old(self).multisig_of(sender);
                                let m1 = final(self).multisig_of(sender);
                                &&& final(self).has_multisig(sender)
                                &&& m1.same_config(m0)
                                &&& m1.approvals == m0.approvals
                                &&& m1.pending_escrow == Some(k)
                                &&& final(self).same_multisigs_except(*old(self), sender)
                            })
                        } else {
                            final(self).multisigs@ == old(self).multisigs@
                        }
                        &&& final(self).badges@ == old(self).badges@
                        &&& final(self).remittances@ == old(self).remittances@
                        &&& final(self).remit_stats@ == old(self).remit_stats@
                        &&& final(self).tiers == old(self).tiers
                    },
                }
            }),
    {
        let k = PairKey { sender, receiver, reference_seed };
        if self.find_escrow(&k).is_some() {
            return Err(BondrError::AccountAlreadyInUse);
        }
        if amount == 0 {
            return Err(BondrError::InvalidAmountZero);
        }
        if amount > MAX_TRANSFER_AMOUNT {
            return Err(BondrError::AmountTooLarge);
        }
        if sender == receiver {
            return Err(BondrError::SelfTransfer);
        }
        if reference_seed == 0 || reference_seed > MAX_REFERENCE_SEED {
            return Err(BondrError::InvalidReferenceSeed);
        }
        let mut ms_idx: usize = 0;
        if is_multisig {
            match self.find_multisig(sender) {
                Some(i) => {
                    ms_idx = i;
                },
                None => {
                    return Err(BondrError::InvalidMultisigConfig);
                },
            }
        }
        let acct = self.find_account(sender);
        let acct_idx: usize;
        let bal: u64;
        match acct {
            Some(i) => {
                acct_idx = i;
                bal = self.accounts[i].balance;
            },
            None => {
                return Err(BondrError::InsufficientBalance);
            },
        }
        if bal < amount {
            return Err(BondrError::InsufficientBalance);
        }
        if is_multisig {
            if self.multisigs[ms_idx].pending_escrow.is_some() {
                return Err(BondrError::MultisigBusy);
            }
            if self.multisigs[ms_idx].find_member(sender).is_none() {
                return Err(BondrError::InvalidMultisigConfig);
            }
        }
        // every check has passed: apply all effects
        self.accounts.set(acct_idx, AccountEntry { owner: sender, balance: bal - amount });
        proof {
            lemma_store_update(
                old(self).accounts@,
                acct_idx as int,
                AccountEntry { owner: sender, balance: (bal - amount) as u64 },
            );
            lemma_sum_balances_update(
                old(self).accounts@,
                acct_idx as int,
                AccountEntry { owner: sender, balance: (bal - amount) as u64 },
            );
        }
        let e = Escrow {
            sender,
            receiver,
            amount,
            is_released: false,
            reference_seed,
            client_multisig: if is_multisig {
                Some(sender)
            } else {
                None
            },
        };
        proof {
            lemma_store_push(old(self).escrows@, e);
            lemma_sum_vaults_push(old(self).escrows@, e);
        }
        self.escrows.push(e);
        proof {
            assert forall|p: int| 0 <= p < self.escrows@.len() implies (
            #[trigger] self.escrows@[p]).wf() by {
                if p < old(self).escrows@.len() {
                    assert(self.escrows@[p] == old(self).escrows@[p]);
                }
            }
        }
        if is_multisig {
            let ghost ms0 = self.multisigs@;
            let mut m = self.multisigs.remove(ms_idx);
            proof {
                lemma_store_remove(ms0, ms_idx as int);
            }
            m.pending_escrow = Some(k);
            let ghost m_new = m;
            proof {
                assert(ms0[ms_idx as int].wf());
                assert(m_new.is_active_member(m_new.client)) by {
                    let m0 = ms0[ms_idx as int];
                    let w = choose|i: int|
                        0 <= i < m0.member_count as int && (#[trigger] m0.members@[i]) == m0.client;
                    assert(m_new.members@[w] == m_new.client);
                }
                assert(m_new.wf());
                lemma_store_push(ms0.remove(ms_idx as int), m);
            }
            self.multisigs.push(m);
            proof {
                assert forall|p: int| 0 <= p < self.multisigs@.len() implies (
                #[trigger] self.multisigs@[p]).wf() by {
                    let t = ms0.remove(ms_idx as int);
                    if p < t.len() {
                        assert(self.multisigs@[p] == t[p]);
                    } else {
                        assert(self.multisigs@[p] == m_new);
                        assert(ms0[ms_idx as int].wf());
                    }
                }
                assert(self.multisig_of(sender) == m_new);
            }
        }
        match self.find_stats(sender) {
            Some(_) => {},
            None => {
                proof {
                    lemma_store_push(
                        self.user_stats@,
                        UserStats { user: sender, completed_escrows: 0 },
                    );
                }
                self.user_stats.push(UserStats { user: sender, completed_escrows: 0 });
            },
        }
        Ok(EscrowCreateEvent { sender, receiver, amount, reference_seed, is_token_transfer })
    }

    /// The exact error a direct release returns, or `None` when it
    /// succeeds: no record at the identity, a caller other than the funder,
    /// a multisig-gated escrow (direct release is bypassed; only the
    /// multisig reaching threshold releases it), or a release flag already
    /// set — in that order.
    pub open spec fn release_check(self, caller: u64, k: PairKey) -> Option<BondrError> {
        if !self.has_escrow(k) {
            Some(BondrError::AccountNotFound)
        } else if caller != self.escrow_of(k).sender {
            Some(BondrError::UnauthorizedSender)
        } else if self.escrow_of(k).client_multisig is Some {
            Some(BondrError::UnauthorizedSender)
        } else if self.escrow_of(k).is_released {
            Some(BondrError::AlreadyReleased)
        } else {
            None
        }
    }

    /// Direct release by the funder: set the release flag of the escrow at
    /// the derived identity.  Moves no funds.
    pub fn release_payment(
        &mut self,
        caller: u64,
        sender: u64,
        receiver: u64,
        reference_seed: u8,
    ) -> (r: Result<(), BondrError>)
        requires
            old(self).wf(),
        ensures
            final(self).wf(),
            ({
                let k = PairKey { sender, receiver, reference_seed };
                match r {
                    Err(e) => {
                        &&& old(self).release_check(caller, k) == Some(e)
                        &&& *final(self) == *old(self)
                    },
                    Ok(()) => {
                        &&& old(self).release_check(caller, k) is None
                        &&& final(self).has_escrow(k)
                        &&& final(self).escrow_of(k) == (Escrow {
                            is_released: true,
                            ..old(self).escrow_of(k)
                        })
                        &&& final(self).same_escrows_except(*old(self), k)
                        &&& final(self).total_value() == old(self).total_value()
                        &&& final(self).accounts@ == old(self).accounts@
                        &&& final(self).multisigs@ == old(self).multisigs@
                        &&& final(self).user_stats@ == old(self).user_stats@
                        &&& final(self).badges@ == old(self).badges@
                        &&& final(self).remittances@ == old(self).remittances@
                        &&& final(self).remit_stats@ == old(self).remit_stats@
                        &&& final(self).tiers == old(self).tiers
                    },
                }
            }),
    {
        let k = PairKey { sender, receiver, reference_seed };
        let idx: usize;
        match self.find_escrow(&k) {
            Some(i) => {
                idx = i;
            },
            None => {
                return Err(BondrError::AccountNotFound);
            },
        }
        let e = self.escrows[idx];
        if caller != e.sender {
            return Err(BondrError::UnauthorizedSender);
        }
        if e.client_multisig.is_some() {
            return Err(BondrError::UnauthorizedSender);
        }
        if e.is_released {
            return Err(BondrError::AlreadyReleased);
        }
        let e2 = Escrow { is_released: true, ..e };
        self.escrows.set(idx, e2);
        proof {
            lemma_store_update(old(self).escrows@, idx as int, e2);
            lemma_sum_vaults_update(old(self).escrows@, idx as int, e2);
            assert forall|p: int| 0 <= p < self.escrows@.len() implies (
            #[trigger] self.escrows@[p]).wf() by {
                if p != idx as int {
                    assert(self.escrows@[p] == old(self).escrows@[p]);
                }
            }
        }
        Ok(())
    }

    /// The exact error an approval returns, or `None` when it succeeds: no
    /// escrow at the identity, no multisig for the escrow's funder, an
    /// escrow that is not the multisig's pending one, an approver outside
    /// the active members, or an approval flag already set — in that order.
    pub open spec fn approve_check(self, member: u64, k: PairKey) -> Option<BondrError> {
        if !self.has_escrow(k) {
            Some(BondrError::AccountNotFound)
        } else if !self.has_multisig(k.sender) {
            Some(BondrError::AccountNotFound)
        } else if self.multisig_of(k.sender).pending_escrow != Some(k) {
            Some(BondrError::MultisigPendingEscrowMismatch)
        } else if !self.multisig_of(k.sender).is_active_member(member) {
            Some(BondrError::NotMultisigMember)
        } else if self.multisig_of(k.sender).approvals@[self.multisig_of(
            k.sender,
        ).member_index(member)] {
            Some(BondrError::AlreadyApproved)
        } else {
            None
        }
    }

    /// Record `member`'s approval on the multisig gating the escrow at the
    /// derived identity.  Approvals are monotonic: each member's flag flips
    /// at most once.  When the count of approvals among active members
    /// reaches the threshold, the escrow's release flag is set; the return
    /// value says whether that happened on this call.  Moves no funds.
    pub fn approve_multisig_release(
        &mut self,
        member: u64,
        sender: u64,
        receiver: u64,
        reference_seed: u8,
    ) -> (r: Result<bool, BondrError>)
        requires
            old(self).wf(),
        ensures
            final(self).wf(),
            ({
                let k = PairKey { sender, receiver, reference_seed };
                match r {
                    Err(e) => {
                        &&& old(self).approve_check(member, k) == Some(e)
                        &&& *final(self) == *old(self)
                    },
                    Ok(reached) => {
                        let m0 = old(self).multisig_of(sender);
                        let m1 = final(self).multisig_of(sender);
                        &&& old(self).approve_check(member, k) is None
                        &&& final(self).has_multisig(sender)
                        &&& m1.same_config(m0)
                        &&& m1.pending_escrow == m0.pending_escrow
                        &&& m1.approvals@ == m0.approvals@.update(m0.member_index(member), true)
                        &&& m1.approved_count() == m0.approved_count() + 1
                        &&& reached == (m1.approved_count() >= m0.threshold as int)
                        &&& final(self).same_multisigs_except(*old(self), sender)
                        &&& final(self).has_escrow(k)
                        &&& final(self).escrow_of(k) == (Escrow {
                            is_released: old(self).escrow_of(k).is_released || reached,
                            ..old(self).escrow_of(k)
                        })
                        &&& final(self).same_escrows_except(*old(self), k)
                        &&& final(self).total_value() == old(self).total_value()
                        &&& final(self).accounts@ == old(self).accounts@
                        &&& final(self).user_stats@ == old(self).user_stats@
                        &&& final(self).badges@ == old(self).badges@
                        &&& final(self).remittances@ == old(self).remittances@
                        &&& final(self).remit_stats@ == old(self).remit_stats@
                        &&& final(self).tiers == old(self).tiers
                    },
                }
            }),
    {
        let k = PairKey { sender, receiver, reference_seed };
        let eidx: usize;
        match self.find_escrow(&k) {
            Some(i) => {
                eidx = i;
            },
            None => {
                return Err(BondrError::AccountNotFound);
            },
        }
        let midx: usize;
        match self.find_multisig(sender) {
            Some(i) => {
                midx = i;
            },
            None => {
                return Err(BondrError::AccountNotFound);
            },
        }
        let pending_matches: bool = match &self.multisigs[midx].pending_escrow {
            Some(p) => p.sender == k.sender && p.receiver == k.receiver && p.reference_seed
                == k.reference_seed,
            None => false,
        };
        if !pending_matches {
            return Err(BondrError::MultisigPendingEscrowMismatch);
        }
        let slot: usize;
        match self.multisigs[midx].find_member(member) {
            Some(j) => {
                slot = j;
            },
            None => {
                return Err(BondrError::NotMultisigMember);
            },
        }
        if self.multisigs[midx].approvals[slot] {
            return Err(BondrError::AlreadyApproved);
        }
        // every check has passed: apply all effects
        let ghost ms0 = self.multisigs@;
        let mut mrec = self.multisigs.remove(midx);
        proof {
            lemma_store_remove(ms0, midx as int);
        }
        mrec.approvals.set(slot, true);
        proof {
            lemma_count_set_update(
                ms0[midx as int].approvals@,
                mrec.member_count as int,
                slot as int,
            );
            assert(ms0[midx as int].wf());
            assert(mrec.is_active_member(mrec.client)) by {
                let m0 = ms0[midx as int];
                let w = choose|i: int|
                    0 <= i < m0.member_count as int && (#[trigger] m0.members@[i]) == m0.client;
                assert(mrec.members@[w] == mrec.client);
            }
            assert(mrec.wf());
        }
        let count = mrec.count_approvals();
        let reached = count >= mrec.threshold;
        if reached {
            let e = self.escrows[eidx];
            let e2 = Escrow { is_released: true, ..e };
            self.escrows.set(eidx, e2);
            proof {
                lemma_store_update(old(self).escrows@, eidx as int, e2);
                lemma_sum_vaults_update(old(self).escrows@, eidx as int, e2);
                assert forall|p: int| 0 <= p < self.escrows@.len() implies (
                #[trigger] self.escrows@[p]).wf() by {
                    if p != eidx as int {
                        assert(self.escrows@[p] == old(self).escrows@[p]);
                    }
                }
            }
        }
        let ghost m_new = mrec;
        proof {
            lemma_store_push(ms0.remove(midx as int), mrec);
        }
        self.multisigs.push(mrec);
        proof {
            assert forall|p: int| 0 <= p < self.multisigs@.len() implies (
            #[trigger] self.multisigs@[p]).wf() by {
                let t = ms0.remove(midx as int);
                if p < t.len() {
                    assert(self.multisigs@[p] == t[p]);
                } else {
                    assert(self.multisigs@[p] == m_new);
                    assert(ms0[midx as int].wf());
                }
            }
            assert(self.multisig_of(sender) == m_new);
            assert(old(self).multisig_of(sender).member_index(member) == slot as int);
        }
        Ok(reached)
    }

    /// The exact error a claim returns, or `None` when it succeeds: no
    /// record at the identity, a caller other than the beneficiary, or a
    /// release flag not yet set — in that order.
    pub open spec fn claim_check(self, caller: u64, k: PairKey) -> Option<BondrError> {
        if !self.has_escrow(k) {
            Some(BondrError::AccountNotFound)
        } else if caller != self.escrow_of(k).receiver {
            Some(BondrError::UnauthorizedSender)
        } else if !self.escrow_of(k).is_released {
            Some(BondrError::NotReleased)
        } else {
            None
        }
    }

    /// Claim a released escrow: move the custodied amount from the vault to
    /// the beneficiary, destroy the escrow record (claim is exactly once:
    /// any later operation at the identity fails with `AccountNotFound`),
    /// advance the beneficiary's completion counter by one (creating the
    /// record at one if absent), and return the linked multisig, if any, to
    /// idle with all approval flags clear.
    pub fn claim_payment(
        &mut self,
        caller: u64,
        sender: u64,
        receiver: u64,
        reference_seed: u8,
    ) -> (r: Result<(), BondrError>)
        requires
            old(self).wf(),
            ({
                let k = PairKey { sender, receiver, reference_seed };
                old(self).claim_check(caller, k) is None ==> {
                    &&& old(self).balance(caller) + old(self).escrow_of(k).amount <= u64::MAX
                    &&& (old(self).has_stats(caller) ==> old(self).stats_of(
                        caller,
                    ).completed_escrows < u32::MAX)
                }
            }),
        ensures
            final(self).wf(),
            ({
                let k = PairKey { sender, receiver, reference_seed };
                match r {
                    Err(e) => {
                        &&& old(self).claim_check(caller, k) == Some(e)
                        &&& *final(self) == *old(self)
                    },
                    Ok(()) => {
                        &&& old(self).claim_check(caller, k) is None
                        &&& !final(self).has_escrow(k)
                        &&& final(self).vault_balance_spec(k) == 0
                        &&& final(self).total_value() == old(self).total_value()
                        &&& final(self).same_escrows_except(*old(self), k)
                        &&& final(self).balance(caller) == old(self).balance(caller) + old(
                            self,
                        ).escrow_of(k).amount
                        &&& final(self).same_balances_except(*old(self), caller)
                        &&& final(self).has_stats(caller)
                        &&& final(self).stats_of(caller) == (UserStats {
                            user: caller,
                            completed_escrows: ((if old(self).has_stats(caller) {
                                old(self).stats_of(caller).completed_escrows as int
                            } else {
                                0
                            }) + 1) as u32,
                        })
                        &&& final(self).same_stats_except(*old(self), caller)
                        &&& ({
                            let link = old(self).escrow_of(k).client_multisig;
                            if link matches Some(c) && old(self).has_multisig(c) && old(
                                self,
                            ).multisig_of(c).pending_escrow == Some(k) {
                                let c = link->0;
                                let m0 = old(self).multisig_of(c);
                                let m1 = final(self).multisig_of(c);
                                &&& final(self).has_multisig(c)
                                &&& m1.same_config(m0)
                                &&& m1.pending_escrow is None
                                &&& forall|i: int|
                                    0 <= i < m1.approvals@.len() ==> !(#[trigger] m1.approvals@[i])
                                &&& m1.approved_count() == 0
                                &&& final(self).same_multisigs_except(*old(self), c)
                            } else {
                                final(self).multisigs@ == old(self).multisigs@
                            }
                        })
                        &&& final(self).badges@ == old(self).badges@
                        &&& final(self).remittances@ == old(self).remittances@
                        &&& final(self).remit_stats@ == old(self).remit_stats@
                        &&& final(self).tiers == old(self).tiers
                    },
                }
            }),
    {
        let k = PairKey { sender, receiver, reference_seed };
        let eidx: usize;
        match self.find_escrow(&k) {
            Some(i) => {
                eidx = i;
            },
            None => {
                return Err(BondrError::AccountNotFound);
            },
        }
        let e = self.escrows[eidx];
        if caller != e.receiver {
            return Err(BondrError::UnauthorizedSender);
        }
        if !e.is_released {
            return Err(BondrError::NotReleased);
        }
        // every check has passed: apply all effects
        let ghost es0 = self.escrows@;
        self.escrows.remove(eidx);
        proof {
            lemma_store_remove(es0, eidx as int);
            lemma_sum_vaults_remove(es0, eidx as int);
            assert forall|p: int| 0 <= p < self.escrows@.len() implies (
            #[trigger] self.escrows@[p]).wf() by {
                assert(self.escrows@[p] == if p < eidx as int {
                    es0[p]
                } else {
                    es0[p + 1]
                });
            }
        }
        // the vault's capability moves the amount to the beneficiary
        match self.find_account(caller) {
            Some(ai) => {
                let b = self.accounts[ai].balance;
                self.accounts.set(ai, AccountEntry { owner: caller, balance: b + e.amount });
                proof {
                    lemma_store_update(
                        old(self).accounts@,
                        ai as int,
                        AccountEntry { owner: caller, balance: (b + e.amount) as u64 },
                    );
                    lemma_sum_balances_update(
                        old(self).accounts@,
                        ai as int,
                        AccountEntry { owner: caller, balance: (b + e.amount) as u64 },
                    );
                }
            },
            None => {
                self.accounts.push(AccountEntry { owner: caller, balance: e.amount });
                proof {
                    lemma_store_push(
                        old(self).accounts@,
                        AccountEntry { owner: caller, balance: e.amount },
                    );
                    lemma_sum_balances_push(
                        old(self).accounts@,
                        AccountEntry { owner: caller, balance: e.amount },
                    );
                }
            },
        }
        // advance the beneficiary's completion counter
        match self.find_stats(caller) {
            Some(si) => {
                let s = self.user_stats[si];
                self.user_stats.set(
                    si,
                    UserStats { user: caller, completed_escrows: s.completed_escrows + 1 },
                );
                proof {
                    lemma_store_update(
                        old(self).user_stats@,
                        si as int,
                        UserStats {
                            user: caller,
                            completed_escrows: (s.completed_escrows + 1) as u32,
                        },
                    );
                }
            },
            None => {
                self.user_stats.push(UserStats { user: caller, completed_escrows: 1 });
                proof {
                    lemma_store_push(
                        old(self).user_stats@,
                        UserStats { user: caller, completed_escrows: 1 },
                    );
                }
            },
        }
        // return the linked multisig, if any, to idle
        match e.client_multisig {
            Some(c) => {
                match self.find_multisig(c) {
                    Some(mi) => {
                        let pending_matches: bool = match &self.multisigs[mi].pending_escrow {
                            Some(p) => p.sender == k.sender && p.receiver == k.receiver
                                && p.reference_seed == k.reference_seed,
                            None => false,
                        };
                        if pending_matches {
                            let ghost ms0 = self.multisigs@;
                            let mut mrec = self.multisigs.remove(mi);
                            proof {
                                lemma_store_remove(ms0, mi as int);
                            }
                            mrec.pending_escrow = None;
                            let mut fresh: Vec<bool> = Vec::new();
                            let mut adx: usize = 0;
                            while adx < MAX_MULTISIG_MEMBERS
                                invariant
                                    adx <= MAX_MULTISIG_MEMBERS,
                                    fresh@.len() == adx as int,
                                    forall|p: int| 0 <= p < adx as int ==> !(#[trigger] fresh@[p]),
                                decreases MAX_MULTISIG_MEMBERS - adx,
                            {
                                fresh.push(false);
                                adx += 1;
                            }
                            mrec.approvals = fresh;
                            let ghost m_new = mrec;
                            proof {
                                lemma_count_set_zero(mrec.approvals@, mrec.member_count as int);
                                assert(ms0[mi as int].wf());
                                assert(mrec.is_active_member(mrec.client)) by {
                                    let m0 = ms0[mi as int];
                                    let w = choose|i: int|
                                        0 <= i < m0.member_count as int && (
                                        #[trigger] m0.members@[i]) == m0.client;
                                    assert(mrec.members@[w] == mrec.client);
                                }
                                assert(mrec.wf());
                                lemma_store_push(ms0.remove(mi as int), mrec);
                            }
                            self.multisigs.push(mrec);
                            proof {
                                assert forall|p: int| 0 <= p < self.multisigs@.len() implies (
                                #[trigger] self.multisigs@[p]).wf() by {
                                    let t = ms0.remove(mi as int);
                                    if p < t.len() {
                                        assert(self.multisigs@[p] == t[p]);
                                    } else {
                                        assert(self.multisigs@[p] == m_new);
                                        assert(ms0[mi as int].wf());
                                    }
                                }
                                assert(self.multisig_of(c) == m_new);
                            }
                        }
                    },
                    None => {},
                }
            },
            None => {},
        }
        Ok(())
    }

    /// The exact error a remittance creation returns, or `None` when it
    /// succeeds: a collision at the derived identity, a zero or oversized
    /// amount, a self transfer, or an out-of-range seed — in that order.
    pub open spec fn remittance_check(
        self,
        sender: u64,
        receiver: u64,
        amount: u64,
        reference_seed: u8,
    ) -> Option<BondrError> {
        let k = PairKey { sender, receiver, reference_seed };
        if self.has_remittance(k) {
            Some(BondrError::AccountAlreadyInUse)
        } else if amount == 0 {
            Some(BondrError::InvalidAmountZero)
        } else if amount > MAX_TRANSFER_AMOUNT {
            Some(BondrError::AmountTooLarge)
        } else if sender == receiver {
            Some(BondrError::SelfTransfer)
        } else if reference_seed == 0 || reference_seed > MAX_REFERENCE_SEED {
            Some(BondrError::InvalidReferenceSeed)
        } else {
            None
        }
    }

    /// The sender's running total before a remittance is recorded.
    pub open spec fn prior_total_sent(self, user: u64) -> u64 {
        if self.has_remit_stats(user) {
            self.remit_stats_of(user).total_sent
        } else {
            0
        }
    }

    /// The sender's transaction count before a remittance is recorded.
    pub open spec fn prior_tx_count(self, user: u64) -> u64 {
        if self.has_remit_stats(user) {
            self.remit_stats_of(user).tx_count
        } else {
            0
        }
    }

    /// Record a remittance: persist the record, advance the sender's
    /// loyalty counters, and report the loyalty milestone when the new
    /// transaction count lands exactly on one.  Funds move when the record
    /// is claimed, not here.
    pub fn init_remittance(
        &mut self,
        sender: u64,
        receiver: u64,
        amount: u64,
        reference_seed: u8,
    ) -> (r: Result<Option<LoyaltyMilestoneEvent>, BondrError>)
        requires
            old(self).wf(),
            old(self).remittance_check(sender, receiver, amount, reference_seed) is None ==> {
                &&& old(self).prior_total_sent(sender) + amount <= u64::MAX
                &&& old(self).prior_tx_count(sender) < u64::MAX
            },
        ensures
            final(self).wf(),
            ({
                let k = PairKey { sender, receiver, reference_seed };
                match r {
                    Err(e) => {
                        &&& old(self).remittance_check(sender, receiver, amount, reference_seed)
                            == Some(e)
                        &&& *final(self) == *old(self)
                    },
                    Ok(milestone) => {
                        let new_count = (old(self).prior_tx_count(sender) + 1) as u64;
                        &&& old(self).remittance_check(sender, receiver, amount, reference_seed)
                            is None
                        &&& final(self).has_remittance(k)
                        &&& final(self).remittance_of(k) == (Remittance {
                            sender,
                            receiver,
                            amount,
                            reference_seed,
                        })
                        &&& final(self).same_remittances_except(*old(self), k)
                        &&& final(self).has_remit_stats(sender)
                        &&& final(self).remit_stats_of(sender) == (RemitStats {
                            user: sender,
                            total_sent: (old(self).prior_total_sent(sender) + amount) as u64,
                            tx_count: new_count,
                        })
                        &&& final(self).same_remit_stats_except(*old(self), sender)
                        &&& milestone == match loyalty_milestone_spec(new_count) {
                            Some(t) => Some(LoyaltyMilestoneEvent { user: sender, tier: t }),
                            None => None,
                        }
                        &&& final(self).accounts@ == old(self).accounts@
                        &&& final(self).escrows@ == old(self).escrows@
                        &&& final(self).multisigs@ == old(self).multisigs@
                        &&& final(self).user_stats@ == old(self).user_stats@
                        &&& final(self).badges@ == old(self).badges@
                        &&& final(self).tiers == old(self).tiers
                    },
                }
            }),
    {
        let k = PairKey { sender, receiver, reference_seed };
        if self.find_remittance(&k).is_some() {
            return Err(BondrError::AccountAlreadyInUse);
        }
        if amount == 0 {
            return Err(BondrError::InvalidAmountZero);
        }
        if amount > MAX_TRANSFER_AMOUNT {
            return Err(BondrError::AmountTooLarge);
        }
        if sender == receiver {
            return Err(BondrError::SelfTransfer);
        }
        if reference_seed == 0 || reference_seed > MAX_REFERENCE_SEED {
            return Err(BondrError::InvalidReferenceSeed);
        }
        // every check has passed: apply all effects
        let rec = Remittance { sender, receiver, amount, reference_seed };
        proof {
            lemma_store_push(old(self).remittances@, rec);
        }
        self.remittances.push(rec);
        proof {
            assert forall|p: int| 0 <= p < self.remittances@.len() implies (
            #[trigger] self.remittances@[p]).wf() by {
                if p < old(self).remittances@.len() {
                    assert(self.remittances@[p] == old(self).remittances@[p]);
                }
            }
        }
        let new_count: u64;
        match self.find_remit_stats(sender) {
            Some(si) => {
                let s = self.remit_stats[si];
                new_count = s.tx_count + 1;
                self.remit_stats.set(
                    si,
                    RemitStats { user: sender, total_sent: s.total_sent + amount, tx_count: new_count },
                );
                proof {
                    lemma_store_update(
                        old(self).remit_stats@,
                        si as int,
                        RemitStats {
                            user: sender,
                            total_sent: (s.total_sent + amount) as u64,
                            tx_count: new_count,
                        },
                    );
                }
            },
            None => {
                new_count = 1;
                self.remit_stats.push(
                    RemitStats { user: sender, total_sent: amount, tx_count: 1 },
                );
                proof {
                    lemma_store_push(
                        old(self).remit_stats@,
                        RemitStats { user: sender, total_sent: amount, tx_count: 1 },
                    );
                }
            },
        }
        match loyalty_milestone(new_count) {
            Some(t) => Ok(Some(LoyaltyMilestoneEvent { user: sender, tier: t })),
            None => Ok(None),
        }
    }

    /// The exact error a remittance claim returns, or `None` when it
    /// succeeds: no record at the identity, or a sender balance below the
    /// recorded amount — in that order.
    pub open spec fn claim_remittance_check(self, k: PairKey) -> Option<BondrError> {
        if !self.has_remittance(k) {
            Some(BondrError::AccountNotFound)
        } else if self.balance(k.sender) < self.remittance_of(k).amount {
            Some(BondrError::InsufficientBalance)
        } else {
            None
        }
    }

    /// Perform a recorded remittance: move the recorded amount from the
    /// sender to the receiver and destroy the record.
    pub fn claim(&mut self, sender: u64, receiver: u64, reference_seed: u8) -> (r: Result<
        (),
        BondrError,
    >)
        requires
            old(self).wf(),
            ({
                let k = PairKey { sender, receiver, reference_seed };
                old(self).claim_remittance_check(k) is None ==> old(self).balance(receiver) + old(
                    self,
                ).remittance_of(k).amount <= u64::MAX
            }),
        ensures
            final(self).wf(),
            ({
                let k = PairKey { sender, receiver, reference_seed };
                match r {
                    Err(e) => {
                        &&& old(self).claim_remittance_check(k) == Some(e)
                        &&& *final(self) == *old(self)
                    },
                    Ok(()) => {
                        let amount = old(self).remittance_of(k).amount;
                        &&& old(self).claim_remittance_check(k) is None
                        &&& !final(self).has_remittance(k)
                        &&& final(self).same_remittances_except(*old(self), k)
                        &&& final(self).balance(sender) == old(self).balance(sender) - amount
                        &&& final(self).balance(receiver) == old(self).balance(receiver) + amount
                        &&& forall|id: u64|
                            id != sender && id != receiver ==> #[trigger] final(self).balance(id)
                                == old(self).balance(id)
                        &&& final(self).total_value() == old(self).total_value()
                        &&& final(self).escrows@ == old(self).escrows@
                        &&& final(self).multisigs@ == old(self).multisigs@
                        &&& final(self).user_stats@ == old(self).user_stats@
                        &&& final(self).badges@ == old(self).badges@
                        &&& final(self).remit_stats@ == old(self).remit_stats@
                        &&& final(self).tiers == old(self).tiers
                    },
                }
            }),
    {
        let k = PairKey { sender, receiver, reference_seed };
        let ridx: usize;
        match self.find_remittance(&k) {
            Some(i) => {
                ridx = i;
            },
            None => {
                return Err(BondrError::AccountNotFound);
            },
        }
        let rec = self.remittances[ridx];
        let sidx: usize;
        let sbal: u64;
        match self.find_account(sender) {
            Some(i) => {
                sidx = i;
                sbal = self.accounts[i].balance;
            },
            None => {
                return Err(BondrError::InsufficientBalance);
            },
        }
        if sbal < rec.amount {
            return Err(BondrError::InsufficientBalance);
        }
        // every check has passed: apply all effects
        let ghost rs0 = self.remittances@;
        self.remittances.remove(ridx);
        proof {
            lemma_store_remove(rs0, ridx as int);
            assert forall|p: int| 0 <= p < self.remittances@.len() implies (
            #[trigger] self.remittances@[p]).wf() by {
                assert(self.remittances@[p] == if p < ridx as int {
                    rs0[p]
                } else {
                    rs0[p + 1]
                });
            }
        }
        self.accounts.set(sidx, AccountEntry { owner: sender, balance: sbal - rec.amount });
        proof {
            lemma_store_update(
                old(self).accounts@,
                sidx as int,
                AccountEntry { owner: sender, balance: (sbal - rec.amount) as u64 },
            );
            lemma_sum_balances_update(
                old(self).accounts@,
                sidx as int,
                AccountEntry { owner: sender, balance: (sbal - rec.amount) as u64 },
            );
        }
        let ghost ac1 = self.accounts@;
        match self.find_account(receiver) {
            Some(ai) => {
                let b = self.accounts[ai].balance;
                self.accounts.set(ai, AccountEntry { owner: receiver, balance: b + rec.amount });
                proof {
                    lemma_store_update(
                        ac1,
                        ai as int,
                        AccountEntry { owner: receiver, balance: (b + rec.amount) as u64 },
                    );
                    lemma_sum_balances_update(
                        ac1,
                        ai as int,
                        AccountEntry { owner: receiver, balance: (b + rec.amount) as u64 },
                    );
                }
            },
            None => {
                self.accounts.push(AccountEntry { owner: receiver, balance: rec.amount });
                proof {
                    lemma_store_push(ac1, AccountEntry { owner: receiver, balance: rec.amount });
                    lemma_sum_balances_push(
                        ac1,
                        AccountEntry { owner: receiver, balance: rec.amount },
                    );
                }
            },
        }
        Ok(())
    }

    /// Create `freelancer`'s reputation badge, starting unranked with zero
    /// counters.
    pub fn initialize_freelancer_badge(&mut self, freelancer: u64) -> (r: Result<(), BondrError>)
        requires
            old(self).wf(),
        ensures
            final(self).wf(),
            match r {
                Err(e) => {
                    &&& e == BondrError::AccountAlreadyInUse
                    &&& old(self).has_badge(freelancer)
                    &&& *final(self) == *old(self)
                },
                Ok(()) => {
                    &&& !old(self).has_badge(freelancer)
                    &&& final(self).has_badge(freelancer)
                    &&& final(self).badge_of(freelancer) == (FreelancerBadge {
                        tier: ReputationTier::Unranked,
                        completed_escrows: 0,
                        total_value_completed: 0,
                        freelancer,
                    })
                    &&& final(self).same_badges_except(*old(self), freelancer)
                    &&& final(self).accounts@ == old(self).accounts@
                    &&& final(self).escrows@ == old(self).escrows@
                    &&& final(self).multisigs@ == old(self).multisigs@
                    &&& final(self).user_stats@ == old(self).user_stats@
                    &&& final(self).remittances@ == old(self).remittances@
                    &&& final(self).remit_stats@ == old(self).remit_stats@
                    &&& final(self).tiers == old(self).tiers
                },
            },
    {
        if self.find_badge(freelancer).is_some() {
            return Err(BondrError::AccountAlreadyInUse);
        }
        let b = FreelancerBadge {
            tier: ReputationTier::Unranked,
            completed_escrows: 0,
            total_value_completed: 0,
            freelancer,
        };
        proof {
            lemma_store_push(old(self).badges@, b);
        }
        self.badges.push(b);
        Ok(())
    }

    /// The exact error a badge update returns, or `None` when it succeeds:
    /// no badge for the caller, or a zero value — in that order.
    pub open spec fn update_badge_check(self, freelancer: u64, value: u64) -> Option<BondrError> {
        if !self.has_badge(freelancer) {
            Some(BondrError::AccountNotFound)
        } else if value == 0 {
            Some(BondrError::InvalidAmountZero)
        } else {
            None
        }
    }

    /// Advance `freelancer`'s badge counters by one completed engagement of
    /// the given value.  The minted tier is untouched: counters only feed
    /// the next mint decision.
    pub fn update_freelancer_badge(&mut self, freelancer: u64, value: u64) -> (r: Result<
        (),
        BondrError,
    >)
        requires
            old(self).wf(),
            old(self).update_badge_check(freelancer, value) is None ==> {
                &&& old(self).badge_of(freelancer).completed_escrows < u32::MAX
                &&& old(self).badge_of(freelancer).total_value_completed + value <= u64::MAX
            },
        ensures
            final(self).wf(),
            match r {
                Err(e) => {
                    &&& old(self).update_badge_check(freelancer, value) == Some(e)
                    &&& *final(self) == *old(self)
                },
                Ok(()) => {
                    let b0 = old(self).badge_of(freelancer);
                    let b1 = final(self).badge_of(freelancer);
                    &&& old(self).update_badge_check(freelancer, value) is None
                    &&& final(self).has_badge(freelancer)
                    &&& b1 == (FreelancerBadge {
                        tier: b0.tier,
                        completed_escrows: (b0.completed_escrows + 1) as u32,
                        total_value_completed: (b0.total_value_completed + value) as u64,
                        freelancer,
                    })
                    &&& final(self).same_badges_except(*old(self), freelancer)
                    &&& final(self).accounts@ == old(self).accounts@
                    &&& final(self).escrows@ == old(self).escrows@
                    &&& final(self).multisigs@ == old(self).multisigs@
                    &&& final(self).user_stats@ == old(self).user_stats@
                    &&& final(self).remittances@ == old(self).remittances@
                    &&& final(self).remit_stats@ == old(self).remit_stats@
                    &&& final(self).tiers == old(self).tiers
                },
            },
    {
        let bidx: usize;
        match self.find_badge(freelancer) {
            Some(i) => {
                bidx = i;
            },
            None => {
                return Err(BondrError::AccountNotFound);
            },
        }
        if value == 0 {
            return Err(BondrError::InvalidAmountZero);
        }
        let b = self.badges[bidx];
        let b2 = FreelancerBadge {
            tier: b.tier,
            completed_escrows: b.completed_escrows + 1,
            total_value_completed: b.total_value_completed + value,
            freelancer,
        };
        self.badges.set(bidx, b2);
        proof {
            lemma_store_update(old(self).badges@, bidx as int, b2);
        }
        Ok(())
    }

    /// The exact error a mint returns, or `None` when it succeeds: no badge
    /// for the caller, a completion count still below the first credential
    /// tier, or a stored tier already at or above the target — in that
    /// order.
    pub open spec fn mint_check(self, freelancer: u64) -> Option<BondrError> {
        if !self.has_badge(freelancer) {
            Some(BondrError::AccountNotFound)
        } else if self.tiers.tier_for_spec(self.badge_of(freelancer).completed_escrows)
            is Unranked {
            Some(BondrError::InsufficientEscrows)
        } else if self.badge_of(freelancer).tier.rank_spec() >= self.tiers.tier_for_spec(
            self.badge_of(freelancer).completed_escrows,
        ).rank_spec() {
            Some(BondrError::NFTAlreadyMinted)
        } else {
            None
        }
    }

    /// Decide and record a credential mint for `freelancer`: compute the
    /// target tier from the completion count, refuse an unranked target or
    /// one at or below the stored tier, and otherwise advance the stored
    /// tier — strictly upward, never downward.  The returned event carries
    /// what the external credential minter needs.
    pub fn mint_reputation_nft(&mut self, freelancer: u64) -> (r: Result<
        ReputationMilestoneEvent,
        BondrError,
    >)
        requires
            old(self).wf(),
        ensures
            final(self).wf(),
            match r {
                Err(e) => {
                    &&& old(self).mint_check(freelancer) == Some(e)
                    &&& *final(self) == *old(self)
                },
                Ok(ev) => {
                    let b0 = old(self).badge_of(freelancer);
                    let b1 = final(self).badge_of(freelancer);
                    let target = old(self).tiers.tier_for_spec(b0.completed_escrows);
                    &&& old(self).mint_check(freelancer) is None
                    &&& ev == (ReputationMilestoneEvent { user: freelancer, tier: target })
                    &&& final(self).has_badge(freelancer)
                    &&& b1 == (FreelancerBadge {
                        tier: target,
                        completed_escrows: b0.completed_escrows,
                        total_value_completed: b0.total_value_completed,
                        freelancer,
                    })
                    &&& b1.tier.rank_spec() > b0.tier.rank_spec()
                    &&& final(self).same_badges_except(*old(self), freelancer)
                    &&& final(self).accounts@ == old(self).accounts@
                    &&& final(self).escrows@ == old(self).escrows@
                    &&& final(self).multisigs@ == old(self).multisigs@
                    &&& final(self).user_stats@ == old(self).user_stats@
                    &&& final(self).remittances@ == old(self).remittances@
                    &&& final(self).remit_stats@ == old(self).remit_stats@
                    &&& final(self).tiers == old(self).tiers
                },
            },
    {
        let bidx: usize;
        match self.find_badge(freelancer) {
            Some(i) => {
                bidx = i;
            },
            None => {
                return Err(BondrError::AccountNotFound);
            },
        }
        let b = self.badges[bidx];
        let target = self.tiers.tier_for(b.completed_escrows);
        if target.rank() == 0 {
            return Err(BondrError::InsufficientEscrows);
        }
        if b.tier.rank() >= target.rank() {
            return Err(BondrError::NFTAlreadyMinted);
        }
        let b2 = FreelancerBadge {
            tier: target,
            completed_escrows: b.completed_escrows,
            total_value_completed: b.total_value_completed,
            freelancer,
        };
        self.badges.set(bidx, b2);
        proof {
            lemma_store_update(old(self).badges@, bidx as int, b2);
        }
        Ok(ReputationMilestoneEvent { user: freelancer, tier: target })
    }
}

} // verus!
