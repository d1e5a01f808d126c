//! Membership registry.
//!
//! Owns the member records and the rank-to-vote-weight mapping. Members are
//! registered at rank 0, promoted one rank at a time once a minimum duration
//! at the current rank has elapsed, demoted by an admin, and activated or
//! deactivated without losing their record. A running total of the vote
//! weights of all active members is kept alongside the records and stays
//! exactly consistent with the sum over the registry on every mutation.

use vstd::prelude::*;

use crate::rank::spec_vote_weight;
use crate::rank::calculate_vote_weight_for_rank;
use crate::rank::lemma_vote_weight_bounded;
use crate::rank::MAX_RANK;

verus! {

/// Account identifier supplied by the host environment.
pub type AccountId = u64;

/// Hard cap on how many members the registry can hold.
pub const MAX_MEMBERS: usize = 1000;

/// A member record: rank, join time, last promotion time and activity flag.
#[derive(Clone, Copy, PartialEq, Eq, Structural, Debug)]
pub struct Member {
    /// Current rank, 0 through `MAX_RANK`.
    pub rank: u8,
    /// Time the member joined.
    pub joined_at: u64,
    /// Time of the last promotion (the join time if never promoted).
    pub last_promoted_at: u64,
    /// Whether the member currently counts towards voting.
    pub active: bool,
}

/// Why a membership operation was rejected. Every rejection leaves the
/// registry unchanged.
#[derive(Clone, Copy, PartialEq, Eq, Structural, Debug)]
pub enum MembershipError {
    /// Caller is not allowed to perform this operation.
    Unauthorized,
    /// Rank argument is larger than `MAX_RANK`.
    InvalidRank,
    /// The account already has a member record.
    AlreadyMember,
    /// The account has no member record.
    NotMember,
    /// The member is deactivated.
    MemberInactive,
    /// The member's rank is below the required minimum.
    RankTooLow,
    /// The member is already at `MAX_RANK`.
    AlreadyMaxRank,
    /// The member is already at rank 0.
    AlreadyMinRank,
    /// The minimum duration at the current rank has not elapsed.
    MinDurationNotMet,
    /// The registry already holds `MAX_MEMBERS` members.
    MaxMembersReached,
    /// The member is already active.
    MemberAlreadyActive,
    /// The member is already inactive.
    MemberNotActive,
}

/// A member rose one rank.
#[derive(Clone, Copy, PartialEq, Eq, Structural, Debug)]
pub struct MemberPromoted {
    pub member: AccountId,
    pub old_rank: u8,
    pub new_rank: u8,
}

/// A member fell one rank.
#[derive(Clone, Copy, PartialEq, Eq, Structural, Debug)]
pub struct MemberDemoted {
    pub member: AccountId,
    pub old_rank: u8,
    pub new_rank: u8,
}

/// A member record was deleted.
#[derive(Clone, Copy, PartialEq, Eq, Structural, Debug)]
pub struct MemberRemoved {
    pub member: AccountId,
}

/// A suspended member was reactivated.
#[derive(Clone, Copy, PartialEq, Eq, Structural, Debug)]
pub struct MemberActivated {
    pub member: AccountId,
}

/// An active member was suspended.
#[derive(Clone, Copy, PartialEq, Eq, Structural, Debug)]
pub struct MemberDeactivated {
    pub member: AccountId,
}

/// No two entries share an account.
pub open spec fn keys_unique(s: Seq<(AccountId, Member)>) -> bool {
    forall|i: int, j: int|
        0 <= i < j < s.len() ==> (#[trigger] s[i]).0 != (#[trigger] s[j]).0
}

/// Some entry holds this account.
pub open spec fn has_key(s: Seq<(AccountId, Member)>, who: AccountId) -> bool {
    exists|i: int| 0 <= i < s.len() && (#[trigger] s[i]).0 == who
}

/// Position of the entry holding this account (meaningful only when
/// `has_key` holds and the keys are unique).
pub open spec fn key_index(s: Seq<(AccountId, Member)>, who: AccountId) -> int {
    choose|i: int| 0 <= i < s.len() && (#[trigger] s[i]).0 == who
}

/// The record stored for this account (meaningful only when `has_key`
/// holds).
pub open spec fn record_of(s: Seq<(AccountId, Member)>, who: AccountId) -> Member {
    s[key_index(s, who)].1
}

/// What one entry contributes to the total vote weight at a rank floor:
/// the member's triangular weight if it is active and at or above the
/// floor, and 0 otherwise.
pub open spec fn weight_contrib(e: (AccountId, Member), min_rank: u8) -> nat {
    if e.1.active && e.1.rank >= min_rank {
        spec_vote_weight(e.1.rank)
    } else {
        0
    }
}

/// Sum of the vote weights of all active entries with rank at least
/// `min_rank`.
pub open spec fn sum_weights(s: Seq<(AccountId, Member)>, min_rank: u8) -> nat
    decreases s.len(),
{
    if s.len() == 0 {
        0
    } else {
        weight_contrib(s[0], min_rank) + sum_weights(s.drop_first(), min_rank)
    }
}

/// Appending an entry adds exactly its contribution to the sum.
pub proof fn lemma_sum_push(s: Seq<(AccountId, Member)>, e: (AccountId, Member), min_rank: u8)
    ensures
        sum_weights(s.push(e), min_rank) == sum_weights(s, min_rank) + weight_contrib(e, min_rank),
    decreases s.len(),
{
    if s.len() == 0 {
        assert(s.push(e)[0] == e);
        assert(s.push(e).drop_first() =~= Seq::<(AccountId, Member)>::empty());
        assert(sum_weights(s.push(e), min_rank) == weight_contrib(e, min_rank) + sum_weights(
            s.push(e).drop_first(),
            min_rank,
        ));
        assert(sum_weights(s.push(e).drop_first(), min_rank) == 0);
    } else {
        assert(s.push(e)[0] == s[0]);
        assert(s.push(e).drop_first() =~= s.drop_first().push(e));
        lemma_sum_push(s.drop_first(), e, min_rank);
        assert(sum_weights(s.push(e), min_rank) == weight_contrib(s[0], min_rank) + sum_weights(
            s.drop_first().push(e),
            min_rank,
        ));
        assert(sum_weights(s, min_rank) == weight_contrib(s[0], min_rank) + sum_weights(
            s.drop_first(),
            min_rank,
        ));
    }
}

/// Replacing the entry at `i` changes the sum by the difference of the
/// two contributions.
pub proof fn lemma_sum_update(
    s: Seq<(AccountId, Member)>,
    i: int,
    e: (AccountId, Member),
    min_rank: u8,
)
    requires
        0 <= i < s.len(),
    ensures
        sum_weights(s.update(i, e), min_rank) == sum_weights(s, min_rank) - weight_contrib(
            s[i],
            min_rank,
        ) + weight_contrib(e, min_rank),
    decreases s.len(),
{
    if i == 0 {
        assert(s.update(0, e).drop_first() =~= s.drop_first());
    } else {
        assert(s.update(i, e).drop_first() =~= s.drop_first().update(i - 1, e));
        lemma_sum_update(s.drop_first(), i - 1, e, min_rank);
    }
}

/// Deleting the entry at `i` removes exactly its contribution from the sum.
pub proof fn lemma_sum_remove(s: Seq<(AccountId, Member)>, i: int, min_rank: u8)
    requires
        0 <= i < s.len(),
    ensures
        sum_weights(s.remove(i), min_rank) == sum_weights(s, min_rank) - weight_contrib(
            s[i],
            min_rank,
        ),
    decreases s.len(),
{
    if i == 0 {
        assert(s.remove(0) =~= s.drop_first());
    } else {
        assert(s.remove(i).drop_first() =~= s.drop_first().remove(i - 1));
        lemma_sum_remove(s.drop_first(), i - 1, min_rank);
    }
}

/// The sum is bounded by ten weight units per entry.
pub proof fn lemma_sum_bounded(s: Seq<(AccountId, Member)>, min_rank: u8)
    ensures
        sum_weights(s, min_rank) <= 10 * s.len(),
    decreases s.len(),
{
    if s.len() > 0 {
        lemma_vote_weight_bounded(s[0].1.rank);
        lemma_sum_bounded(s.drop_first(), min_rank);
    }
}

/// No single entry contributes more than the whole sum.
pub proof fn lemma_sum_at_least_contrib(s: Seq<(AccountId, Member)>, i: int, min_rank: u8)
    requires
        0 <= i < s.len(),
    ensures
        sum_weights(s, min_rank) >= weight_contrib(s[i], min_rank),
    decreases s.len(),
{
    if i > 0 {
        lemma_sum_at_least_contrib(s.drop_first(), i - 1, min_rank);
    }
}


/// The membership registry: admin accounts, member records, the cached
/// total of active vote weights, and the per-rank minimum promotion
/// durations.
pub struct MembershipRegistry {
    /// Account allowed to demote and remove members and to hand over roles.
    pub admin: AccountId,
    /// Account allowed to add, promote, activate and deactivate members.
    pub member_manager: AccountId,
    /// Member records, one entry per account.
    pub members: Vec<(AccountId, Member)>,
    /// Cached sum of the vote weights of all active members.
    pub total_voting_weight: u64,
    /// Minimum time a member must spend at rank `r - 1` before being
    /// promoted to rank `r`; entry 0 is unused padding for rank 0.
    pub min_rank_duration: [u64; 5],
}

impl MembershipRegistry {
    /// The registry's internal consistency: unique accounts, valid ranks,
    /// the member cap, and a total-weight cache that equals the sum over
    /// all active members.
    pub open spec fn wf(self) -> bool {
        &&& keys_unique(self.members@)
        &&& forall|i: int|
            0 <= i < self.members@.len() ==> (#[trigger] self.members@[i]).1.rank <= MAX_RANK
        &&& self.members@.len() <= MAX_MEMBERS
        &&& self.total_voting_weight == sum_weights(self.members@, 0)
    }

    /// Whether the account has a member record.
    pub open spec fn contains_spec(self, who: AccountId) -> bool {
        has_key(self.members@, who)
    }

    /// The record stored for the account (meaningful only when
    /// `contains_spec` holds).
    pub open spec fn member_spec(self, who: AccountId) -> Member {
        record_of(self.members@, who)
    }

    /// The vote weight the account carries: 0 when unknown or inactive,
    /// and the triangular weight of its rank otherwise.
    pub open spec fn vote_weight_spec(self, who: AccountId) -> nat {
        if self.contains_spec(who) && self.member_spec(who).active {
            spec_vote_weight(self.member_spec(who).rank)
        } else {
            0
        }
    }

    /// Sum of the vote weights of all active members with rank at least
    /// `min_rank`.
    pub open spec fn total_weight_spec(self, min_rank: u8) -> nat {
        sum_weights(self.members@, min_rank)
    }

    /// A fresh registry: the creator holds both roles, no members, zero
    /// cached weight, and the default promotion durations (90, 180, 365
    /// and 547 days, in seconds).
    pub fn new(creator: AccountId) -> (r: Self)
        ensures
            r.wf(),
            r.admin == creator,
            r.member_manager == creator,
            r.members@.len() == 0,
            r.total_voting_weight == 0,
            r.min_rank_duration@ =~= seq![0u64, 7_776_000u64, 15_552_000u64, 31_536_000u64, 47_260_800u64],
    {
        Self::with_durations(creator, [0, 7_776_000, 15_552_000, 31_536_000, 47_260_800])
    }

    /// A fresh registry with a caller-chosen promotion-duration table,
    /// which must not decrease with rank.
    pub fn with_durations(creator: AccountId, min_rank_duration: [u64; 5]) -> (r: Self)
        requires
            forall|i: int, j: int|
                0 <= i <= j < 5 ==> min_rank_duration@[i] <= min_rank_duration@[j],
        ensures
            r.wf(),
            r.admin == creator,
            r.member_manager == creator,
            r.members@.len() == 0,
            r.total_voting_weight == 0,
            r.min_rank_duration == min_rank_duration,
    {
        MembershipRegistry {
            admin: creator,
            member_manager: creator,
            members: Vec::new(),
            total_voting_weight: 0,
            min_rank_duration,
        }
    }

    /// Index of the entry holding this account, if any.
    fn find_index(&self, who: AccountId) -> (r: Option<usize>)
        ensures
            match r {
                Some(i) => i < self.members@.len() && self.members@[i as int].0 == who,
                None => !has_key(self.members@, who),
            },
    {
        let mut i: usize = 0;
        while i < self.members.len()
            invariant
                i <= self.members@.len(),
                forall|j: int| 0 <= j < i ==> (#[trigger] self.members@[j]).0 != who,
            decreases self.members@.len() - i,
        {
            if self.members[i].0 == who {
                return Some(i);
            }
            i += 1;
        }
        None
    }

    /// Whether the account has a member record.
    pub fn is_member(&self, who: AccountId) -> (r: bool)
        ensures
            r == self.contains_spec(who),
    {
        match self.find_index(who) {
            Some(i) => {
                proof {
                    assert(has_key(self.members@, who));
                }
                true
            },
            None => false,
        }
    }

    /// The member record for the account, or `NotMember`.
    pub fn get_member_info(&self, who: AccountId) -> (r: Result<Member, MembershipError>)
        requires
            self.wf(),
        ensures
            match r {
                Ok(m) => self.contains_spec(who) && m == self.member_spec(who),
                Err(e) => e == MembershipError::NotMember && !self.contains_spec(who),
            },
    {
        match self.find_index(who) {
            Some(i) => {
                proof {
                    lemma_key_index(self.members@, who, i as int);
                }
                Ok(self.members[i].1)
            },
            None => Err(MembershipError::NotMember),
        }
    }

    /// The vote weight the account carries: 0 when unknown or inactive,
    /// the triangular weight of its rank otherwise.
    pub fn get_vote_weight(&self, who: AccountId) -> (r: u64)
        requires
            self.wf(),
        ensures
            r == self.vote_weight_spec(who),
    {
        match self.find_index(who) {
            Some(i) => {
                proof {
                    lemma_key_index(self.members@, who, i as int);
                }
                let m = self.members[i].1;
                if m.active {
                    calculate_vote_weight_for_rank(m.rank)
                } else {
                    0
                }
            },
            None => 0,
        }
    }

    /// The vote weight of a member that must exist, be active, and hold at
    /// least `min_rank`; the matching error otherwise.
    pub fn calculate_vote_weight(&self, who: AccountId, min_rank: u8) -> (r: Result<
        u64,
        MembershipError,
    >)
        requires
            self.wf(),
        ensures
            match r {
                Ok(w) => {
                    &&& self.contains_spec(who)
                    &&& self.member_spec(who).active
                    &&& self.member_spec(who).rank >= min_rank
                    &&& w == spec_vote_weight(self.member_spec(who).rank)
                },
                Err(e) => {
                    &&& (e == MembershipError::NotMember || e == MembershipError::MemberInactive
                        || e == MembershipError::RankTooLow)
                    &&& (e == MembershipError::NotMember <==> !self.contains_spec(who))
                    &&& (e == MembershipError::MemberInactive <==> self.contains_spec(who)
                        && !self.member_spec(who).active)
                    &&& (e == MembershipError::RankTooLow <==> self.contains_spec(who)
                        && self.member_spec(who).active && self.member_spec(who).rank < min_rank)
                },
            },
    {
        match self.find_index(who) {
            Some(i) => {
                proof {
                    lemma_key_index(self.members@, who, i as int);
                }
                let m = self.members[i].1;
                if !m.active {
                    Err(MembershipError::MemberInactive)
                } else if m.rank < min_rank {
                    Err(MembershipError::RankTooLow)
                } else {
                    Ok(calculate_vote_weight_for_rank(m.rank))
                }
            },
            None => Err(MembershipError::NotMember),
        }
    }

    /// How many member records the registry holds.
    pub fn get_member_count(&self) -> (r: usize)
        ensures
            r == self.members@.len(),
    {
        self.members.len()
    }

    /// Add a member at a chosen rank. Member-manager only; the account must
    /// be new, the rank valid and the cap not reached. The record starts
    /// active with both timestamps set to `now`, and the cached total grows
    /// by the rank's weight.
    pub fn add_member(&mut self, caller: AccountId, who: AccountId, rank: u8, now: u64) -> (r:
        Result<(), MembershipError>)
        requires
            old(self).wf(),
        ensures
            final(self).wf(),
            final(self).admin == old(self).admin,
            final(self).member_manager == old(self).member_manager,
            final(self).min_rank_duration == old(self).min_rank_duration,
            match r {
                Ok(()) => {
                    &&& caller == old(self).member_manager
                    &&& rank <= MAX_RANK
                    &&& !old(self).contains_spec(who)
                    &&& old(self).members@.len() < MAX_MEMBERS
                    &&& final(self).members@ == old(self).members@.push(
                        (who, Member { rank, joined_at: now, last_promoted_at: now, active: true }),
                    )
                    &&& final(self).contains_spec(who)
                    &&& final(self).member_spec(who) == (Member {
                        rank,
                        joined_at: now,
                        last_promoted_at: now,
                        active: true,
                    })
                    &&& forall|x: AccountId|
                        x != who ==> final(self).contains_spec(x) == old(self).contains_spec(x)
                    &&& forall|x: AccountId|
                        x != who && old(self).contains_spec(x) ==> final(self).member_spec(x)
                            == old(self).member_spec(x)
                    &&& final(self).total_voting_weight == old(self).total_voting_weight
                        + spec_vote_weight(rank)
                },
                Err(e) => {
                    &&& *final(self) == *old(self)
                    &&& (e == MembershipError::Unauthorized || e == MembershipError::InvalidRank
                        || e == MembershipError::AlreadyMember || e
                        == MembershipError::MaxMembersReached)
                    &&& (e == MembershipError::Unauthorized <==> caller != old(
                        self,
                    ).member_manager)
                    &&& (e == MembershipError::InvalidRank <==> caller == old(self).member_manager
                        && rank > MAX_RANK)
                    &&& (e == MembershipError::AlreadyMember <==> caller == old(
                        self,
                    ).member_manager && rank <= MAX_RANK && old(self).contains_spec(who))
                    &&& (e == MembershipError::MaxMembersReached <==> caller == old(
                        self,
                    ).member_manager && rank <= MAX_RANK && !old(self).contains_spec(who) && old(
                        self,
                    ).members@.len() >= MAX_MEMBERS)
                },
            },
    {
        if caller != self.member_manager {
            return Err(MembershipError::Unauthorized);
        }
        if rank > MAX_RANK {
            return Err(MembershipError::InvalidRank);
        }
        if self.is_member(who) {
            return Err(MembershipError::AlreadyMember);
        }
        if self.members.len() >= MAX_MEMBERS {
            return Err(MembershipError::MaxMembersReached);
        }
        let m = Member { rank, joined_at: now, last_promoted_at: now, active: true };
        let w = calculate_vote_weight_for_rank(rank);
        proof {
            lemma_record_push(self.members@, who, m);
            lemma_sum_push(self.members@, (who, m), 0);
            lemma_sum_bounded(self.members@, 0);
            lemma_vote_weight_bounded(rank);
            assert(self.total_voting_weight + w <= 10 * MAX_MEMBERS);
        }
        self.members.push((who, m));
        self.total_voting_weight = self.total_voting_weight + w;
        Ok(())
    }

    /// Register a new member at rank 0. Member-manager only; same rules as
    /// `add_member` with the lowest rank.
    pub fn register_member(&mut self, caller: AccountId, who: AccountId, now: u64) -> (r: Result<
        (),
        MembershipError,
    >)
        requires
            old(self).wf(),
        ensures
            final(self).wf(),
            final(self).admin == old(self).admin,
            final(self).member_manager == old(self).member_manager,
            final(self).min_rank_duration == old(self).min_rank_duration,
            match r {
                Ok(()) => {
                    &&& caller == old(self).member_manager
                    &&& !old(self).contains_spec(who)
                    &&& old(self).members@.len() < MAX_MEMBERS
                    &&& final(self).members@ == old(self).members@.push(
                        (
                            who,
                            Member {
                                rank: 0,
                                joined_at: now,
                                last_promoted_at: now,
                                active: true,
                            },
                        ),
                    )
                    &&& final(self).contains_spec(who)
                    &&& final(self).member_spec(who) == (Member {
                        rank: 0,
                        joined_at: now,
                        last_promoted_at: now,
                        active: true,
                    })
                    &&& final(self).total_voting_weight == old(self).total_voting_weight
                },
                Err(e) => {
                    &&& *final(self) == *old(self)
                    &&& (e == MembershipError::Unauthorized || e == MembershipError::AlreadyMember
                        || e == MembershipError::MaxMembersReached)
                    &&& (e == MembershipError::Unauthorized <==> caller != old(
                        self,
                    ).member_manager)
                    &&& (e == MembershipError::AlreadyMember <==> caller == old(
                        self,
                    ).member_manager && old(self).contains_spec(who))
                    &&& (e == MembershipError::MaxMembersReached <==> caller == old(
                        self,
                    ).member_manager && !old(self).contains_spec(who) && old(
                        self,
                    ).members@.len() >= MAX_MEMBERS)
                },
            },
    {
        self.add_member(caller, who, 0, now)
    }

    /// Every account other than `who` keeps its presence and its record.
    pub open spec fn others_unchanged(pre: Self, post: Self, who: AccountId) -> bool {
        &&& forall|x: AccountId| x != who ==> post.contains_spec(x) == pre.contains_spec(x)
        &&& forall|x: AccountId|
            x != who && pre.contains_spec(x) ==> post.member_spec(x) == pre.member_spec(x)
    }

    /// The admin, the member manager and the duration table are unchanged.
    pub open spec fn config_unchanged(pre: Self, post: Self) -> bool {
        &&& post.admin == pre.admin
        &&& post.member_manager == pre.member_manager
        &&& post.min_rank_duration == pre.min_rank_duration
    }

    /// Whether the member has sat at its current rank long enough to rise
    /// to the next one.
    pub open spec fn promotion_due(self, m: Member, now: u64) -> bool {
        now - m.last_promoted_at >= self.min_rank_duration@[m.rank + 1]
    }

    /// Promote a member one rank. Member-manager only; the member must
    /// exist, sit below `MAX_RANK`, and have spent the required minimum
    /// duration at its current rank. The promotion timestamp resets to
    /// `now`; an active member's weight gain flows into the cached total
    /// in the same call.
    pub fn promote_member(&mut self, caller: AccountId, who: AccountId, now: u64) -> (r: Result<
        MemberPromoted,
        MembershipError,
    >)
        requires
            old(self).wf(),
        ensures
            final(self).wf(),
            Self::config_unchanged(*old(self), *final(self)),
            match r {
                Ok(ev) => {
                    &&& caller == old(self).member_manager
                    &&& old(self).contains_spec(who)
                    &&& old(self).member_spec(who).rank < MAX_RANK
                    &&& old(self).promotion_due(old(self).member_spec(who), now)
                    &&& ev == (MemberPromoted {
                        member: who,
                        old_rank: old(self).member_spec(who).rank,
                        new_rank: (old(self).member_spec(who).rank + 1) as u8,
                    })
                    &&& final(self).contains_spec(who)
                    &&& final(self).member_spec(who) == (Member {
                        rank: (old(self).member_spec(who).rank + 1) as u8,
                        joined_at: old(self).member_spec(who).joined_at,
                        last_promoted_at: now,
                        active: old(self).member_spec(who).active,
                    })
                    &&& Self::others_unchanged(*old(self), *final(self), who)
                    &&& final(self).members@.len() == old(self).members@.len()
                    &&& final(self).total_voting_weight == old(self).total_voting_weight - (
                    if old(self).member_spec(who).active {
                        spec_vote_weight(old(self).member_spec(who).rank)
                    } else {
                        0
                    }) + (
                    if old(self).member_spec(who).active {
                        spec_vote_weight((old(self).member_spec(who).rank + 1) as u8)
                    } else {
                        0
                    })
                },
                Err(e) => {
                    &&& *final(self) == *old(self)
                    &&& (e == MembershipError::Unauthorized || e == MembershipError::NotMember
                        || e == MembershipError::AlreadyMaxRank || e
                        == MembershipError::MinDurationNotMet)
                    &&& (e == MembershipError::Unauthorized <==> caller != old(
                        self,
                    ).member_manager)
                    &&& (e == MembershipError::NotMember <==> caller == old(self).member_manager
                        && !old(self).contains_spec(who))
                    &&& (e == MembershipError::AlreadyMaxRank <==> caller == old(
                        self,
                    ).member_manager && old(self).contains_spec(who) && old(self).member_spec(
                        who,
                    ).rank >= MAX_RANK)
                    &&& (e == MembershipError::MinDurationNotMet <==> caller == old(
                        self,
                    ).member_manager && old(self).contains_spec(who) && old(self).member_spec(
                        who,
                    ).rank < MAX_RANK && !old(self).promotion_due(old(self).member_spec(who), now))
                },
            },
    {
        if caller != self.member_manager {
            return Err(MembershipError::Unauthorized);
        }
        let idx = match self.find_index(who) {
            None => {
                return Err(MembershipError::NotMember);
            },
            Some(i) => i,
        };
        proof {
            lemma_key_index(self.members@, who, idx as int);
        }
        let m = self.members[idx].1;
        if m.rank >= MAX_RANK {
            return Err(MembershipError::AlreadyMaxRank);
        }
        let next_rank = m.rank + 1;
        let needed = self.min_rank_duration[next_rank as usize];
        if now < m.last_promoted_at || now - m.last_promoted_at < needed {
            return Err(MembershipError::MinDurationNotMet);
        }
        let new_m = Member {
            rank: next_rank,
            joined_at: m.joined_at,
            last_promoted_at: now,
            active: m.active,
        };
        let w_old = calculate_vote_weight_for_rank(m.rank);
        let w_new = calculate_vote_weight_for_rank(next_rank);
        proof {
            lemma_record_update(self.members@, idx as int, new_m);
            lemma_sum_update(self.members@, idx as int, (who, new_m), 0);
            lemma_sum_at_least_contrib(self.members@, idx as int, 0);
            lemma_sum_bounded(self.members@.update(idx as int, (who, new_m)), 0);
            lemma_vote_weight_bounded(next_rank);
        }
        self.members.set(idx, (who, new_m));
        if m.active {
            self.total_voting_weight = self.total_voting_weight - w_old + w_new;
        }
        Ok(MemberPromoted { member: who, old_rank: m.rank, new_rank: next_rank })
    }

    /// Demote a member one rank. Admin only; the member must exist and sit
    /// above rank 0. The promotion timestamp is left alone; an active
    /// member's weight loss flows into the cached total in the same call,
    /// so its vote weight immediately equals the weight of the lower rank.
    pub fn demote_member(&mut self, caller: AccountId, who: AccountId) -> (r: Result<
        MemberDemoted,
        MembershipError,
    >)
        requires
            old(self).wf(),
        ensures
            final(self).wf(),
            Self::config_unchanged(*old(self), *final(self)),
            match r {
                Ok(ev) => {
                    &&& caller == old(self).admin
                    &&& old(self).contains_spec(who)
                    &&& old(self).member_spec(who).rank > 0
                    &&& ev == (MemberDemoted {
                        member: who,
                        old_rank: old(self).member_spec(who).rank,
                        new_rank: (old(self).member_spec(who).rank - 1) as u8,
                    })
                    &&& final(self).contains_spec(who)
                    &&& final(self).member_spec(who) == (Member {
                        rank: (old(self).member_spec(who).rank - 1) as u8,
                        joined_at: old(self).member_spec(who).joined_at,
                        last_promoted_at: old(self).member_spec(who).last_promoted_at,
                        active: old(self).member_spec(who).active,
                    })
                    &&& final(self).vote_weight_spec(who) == (
                    if old(self).member_spec(who).active {
                        spec_vote_weight((old(self).member_spec(who).rank - 1) as u8)
                    } else {
                        0
                    })
                    &&& Self::others_unchanged(*old(self), *final(self), who)
                    &&& final(self).members@.len() == old(self).members@.len()
                    &&& final(self).total_voting_weight == old(self).total_voting_weight - (
                    if old(self).member_spec(who).active {
                        spec_vote_weight(old(self).member_spec(who).rank)
                    } else {
                        0
                    }) + (
                    if old(self).member_spec(who).active {
                        spec_vote_weight((old(self).member_spec(who).rank - 1) as u8)
                    } else {
                        0
                    })
                },
                Err(e) => {
                    &&& *final(self) == *old(self)
                    &&& (e == MembershipError::Unauthorized || e == MembershipError::NotMember
                        || e == MembershipError::AlreadyMinRank)
                    &&& (e == MembershipError::Unauthorized <==> caller != old(self).admin)
                    &&& (e == MembershipError::NotMember <==> caller == old(self).admin && !old(
                        self,
                    ).contains_spec(who))
                    &&& (e == MembershipError::AlreadyMinRank <==> caller == old(self).admin
                        && old(self).contains_spec(who) && old(self).member_spec(who).rank == 0)
                },
            },
    {
        if caller != self.admin {
            return Err(MembershipError::Unauthorized);
        }
        let idx = match self.find_index(who) {
            None => {
                return Err(MembershipError::NotMember);
            },
            Some(i) => i,
        };
        proof {
            lemma_key_index(self.members@, who, idx as int);
        }
        let m = self.members[idx].1;
        if m.rank == 0 {
            return Err(MembershipError::AlreadyMinRank);
        }
        let prev_rank = m.rank - 1;
        let new_m = Member {
            rank: prev_rank,
            joined_at: m.joined_at,
            last_promoted_at: m.last_promoted_at,
            active: m.active,
        };
        let w_old = calculate_vote_weight_for_rank(m.rank);
        let w_new = calculate_vote_weight_for_rank(prev_rank);
        proof {
            lemma_record_update(self.members@, idx as int, new_m);
            lemma_sum_update(self.members@, idx as int, (who, new_m), 0);
            lemma_sum_at_least_contrib(self.members@, idx as int, 0);
            lemma_sum_bounded(self.members@.update(idx as int, (who, new_m)), 0);
            lemma_vote_weight_bounded(prev_rank);
        }
        self.members.set(idx, (who, new_m));
        if m.active {
            self.total_voting_weight = self.total_voting_weight - w_old + w_new;
        }
        Ok(MemberDemoted { member: who, old_rank: m.rank, new_rank: prev_rank })
    }

    /// Delete a member record. Admin only; an active member's weight leaves
    /// the cached total in the same call.
    pub fn remove_member(&mut self, caller: AccountId, who: AccountId) -> (r: Result<
        MemberRemoved,
        MembershipError,
    >)
        requires
            old(self).wf(),
        ensures
            final(self).wf(),
            Self::config_unchanged(*old(self), *final(self)),
            match r {
                Ok(ev) => {
                    &&& caller == old(self).admin
                    &&& old(self).contains_spec(who)
                    &&& ev == (MemberRemoved { member: who })
                    &&& !final(self).contains_spec(who)
                    &&& Self::others_unchanged(*old(self), *final(self), who)
                    &&& final(self).members@.len() == old(self).members@.len() - 1
                    &&& final(self).total_voting_weight == old(self).total_voting_weight - (
                    if old(self).member_spec(who).active {
                        spec_vote_weight(old(self).member_spec(who).rank)
                    } else {
                        0
                    })
                },
                Err(e) => {
                    &&& *final(self) == *old(self)
                    &&& (e == MembershipError::Unauthorized || e == MembershipError::NotMember)
                    &&& (e == MembershipError::Unauthorized <==> caller != old(self).admin)
                    &&& (e == MembershipError::NotMember <==> caller == old(self).admin && !old(
                        self,
                    ).contains_spec(who))
                },
            },
    {
        if caller != self.admin {
            return Err(MembershipError::Unauthorized);
        }
        let idx = match self.find_index(who) {
            None => {
                return Err(MembershipError::NotMember);
            },
            Some(i) => i,
        };
        proof {
            lemma_key_index(self.members@, who, idx as int);
        }
        let m = self.members[idx].1;
        let w = calculate_vote_weight_for_rank(m.rank);
        proof {
            lemma_record_remove(self.members@, idx as int);
            lemma_sum_remove(self.members@, idx as int, 0);
            lemma_sum_at_least_contrib(self.members@, idx as int, 0);
        }
        let _ = self.members.remove(idx);
        if m.active {
            self.total_voting_weight = self.total_voting_weight - w;
        }
        Ok(MemberRemoved { member: who })
    }

    /// Set a member's activity flag. Member-manager only; the cached total
    /// gains or loses the member's weight exactly when the flag flips.
    pub fn set_member_active(&mut self, caller: AccountId, who: AccountId, active: bool) -> (r:
        Result<(), MembershipError>)
        requires
            old(self).wf(),
        ensures
            final(self).wf(),
            Self::config_unchanged(*old(self), *final(self)),
            match r {
                Ok(()) => {
                    &&& caller == old(self).member_manager
                    &&& old(self).contains_spec(who)
                    &&& final(self).contains_spec(who)
                    &&& final(self).member_spec(who) == (Member {
                        rank: old(self).member_spec(who).rank,
                        joined_at: old(self).member_spec(who).joined_at,
                        last_promoted_at: old(self).member_spec(who).last_promoted_at,
                        active,
                    })
                    &&& Self::others_unchanged(*old(self), *final(self), who)
                    &&& final(self).members@.len() == old(self).members@.len()
                    &&& final(self).total_voting_weight == old(self).total_voting_weight - (
                    if old(self).member_spec(who).active {
                        spec_vote_weight(old(self).member_spec(who).rank)
                    } else {
                        0
                    }) + (
                    if active {
                        spec_vote_weight(old(self).member_spec(who).rank)
                    } else {
                        0
                    })
                },
                Err(e) => {
                    &&& *final(self) == *old(self)
                    &&& (e == MembershipError::Unauthorized || e == MembershipError::NotMember)
                    &&& (e == MembershipError::Unauthorized <==> caller != old(
                        self,
                    ).member_manager)
                    &&& (e == MembershipError::NotMember <==> caller == old(self).member_manager
                        && !old(self).contains_spec(who))
                },
            },
    {
        if caller != self.member_manager {
            return Err(MembershipError::Unauthorized);
        }
        let idx = match self.find_index(who) {
            None => {
                return Err(MembershipError::NotMember);
            },
            Some(i) => i,
        };
        proof {
            lemma_key_index(self.members@, who, idx as int);
        }
        let m = self.members[idx].1;
        let new_m = Member {
            rank: m.rank,
            joined_at: m.joined_at,
            last_promoted_at: m.last_promoted_at,
            active,
        };
        let w = calculate_vote_weight_for_rank(m.rank);
        proof {
            lemma_record_update(self.members@, idx as int, new_m);
            lemma_sum_update(self.members@, idx as int, (who, new_m), 0);
            lemma_sum_at_least_contrib(self.members@, idx as int, 0);
            lemma_sum_bounded(self.members@.update(idx as int, (who, new_m)), 0);
        }
        self.members.set(idx, (who, new_m));
        if m.active && !active {
            self.total_voting_weight = self.total_voting_weight - w;
        } else if !m.active && active {
            self.total_voting_weight = self.total_voting_weight + w;
        }
        Ok(())
    }

    /// Suspend an active member. Admin only; fails `MemberNotActive` when
    /// the member is already suspended.
    pub fn suspend_member(&mut self, caller: AccountId, who: AccountId) -> (r: Result<
        MemberDeactivated,
        MembershipError,
    >)
        requires
            old(self).wf(),
        ensures
            final(self).wf(),
            Self::config_unchanged(*old(self), *final(self)),
            match r {
                Ok(ev) => {
                    &&& caller == old(self).admin
                    &&& old(self).contains_spec(who)
                    &&& old(self).member_spec(who).active
                    &&& ev == (MemberDeactivated { member: who })
                    &&& final(self).contains_spec(who)
                    &&& final(self).member_spec(who) == (Member {
                        rank: old(self).member_spec(who).rank,
                        joined_at: old(self).member_spec(who).joined_at,
                        last_promoted_at: old(self).member_spec(who).last_promoted_at,
                        active: false,
                    })
                    &&& final(self).vote_weight_spec(who) == 0
                    &&& Self::others_unchanged(*old(self), *final(self), who)
                    &&& final(self).members@.len() == old(self).members@.len()
                    &&& final(self).total_voting_weight == old(self).total_voting_weight
                        - spec_vote_weight(old(self).member_spec(who).rank)
                },
                Err(e) => {
                    &&& *final(self) == *old(self)
                    &&& (e == MembershipError::Unauthorized || e == MembershipError::NotMember
                        || e == MembershipError::MemberNotActive)
                    &&& (e == MembershipError::Unauthorized <==> caller != old(self).admin)
                    &&& (e == MembershipError::NotMember <==> caller == old(self).admin && !old(
                        self,
                    ).contains_spec(who))
                    &&& (e == MembershipError::MemberNotActive <==> caller == old(self).admin
                        && old(self).contains_spec(who) && !old(self).member_spec(who).active)
                },
            },
    {
        if caller != self.admin {
            return Err(MembershipError::Unauthorized);
        }
        let idx = match self.find_index(who) {
            None => {
                return Err(MembershipError::NotMember);
            },
            Some(i) => i,
        };
        proof {
            lemma_key_index(self.members@, who, idx as int);
        }
        let m = self.members[idx].1;
        if !m.active {
            return Err(MembershipError::MemberNotActive);
        }
        let new_m = Member {
            rank: m.rank,
            joined_at: m.joined_at,
            last_promoted_at: m.last_promoted_at,
            active: false,
        };
        let w = calculate_vote_weight_for_rank(m.rank);
        proof {
            lemma_record_update(self.members@, idx as int, new_m);
            lemma_sum_update(self.members@, idx as int, (who, new_m), 0);
            lemma_sum_at_least_contrib(self.members@, idx as int, 0);
        }
        self.members.set(idx, (who, new_m));
        self.total_voting_weight = self.total_voting_weight - w;
        Ok(MemberDeactivated { member: who })
    }

    /// Reactivate a suspended member. Admin only; fails
    /// `MemberAlreadyActive` when the member is not suspended.
    pub fn reactivate_member(&mut self, caller: AccountId, who: AccountId) -> (r: Result<
        MemberActivated,
        MembershipError,
    >)
        requires
            old(self).wf(),
        ensures
            final(self).wf(),
            Self::config_unchanged(*old(self), *final(self)),
            match r {
                Ok(ev) => {
                    &&& caller == old(self).admin
                    &&& old(self).contains_spec(who)
                    &&& !old(self).member_spec(who).active
                    &&& ev == (MemberActivated { member: who })
                    &&& final(self).contains_spec(who)
                    &&& final(self).member_spec(who) == (Member {
                        rank: old(self).member_spec(who).rank,
                        joined_at: old(self).member_spec(who).joined_at,
                        last_promoted_at: old(self).member_spec(who).last_promoted_at,
                        active: true,
                    })
                    &&& final(self).vote_weight_spec(who) == spec_vote_weight(
                        old(self).member_spec(who).rank,
                    )
                    &&& Self::others_unchanged(*old(self), *final(self), who)
                    &&& final(self).members@.len() == old(self).members@.len()
                    &&& final(self).total_voting_weight == old(self).total_voting_weight
                        + spec_vote_weight(old(self).member_spec(who).rank)
                },
                Err(e) => {
                    &&& *final(self) == *old(self)
                    &&& (e == MembershipError::Unauthorized || e == MembershipError::NotMember
                        || e == MembershipError::MemberAlreadyActive)
                    &&& (e == MembershipError::Unauthorized <==> caller != old(self).admin)
                    &&& (e == MembershipError::NotMember <==> caller == old(self).admin && !old(
                        self,
                    ).contains_spec(who))
                    &&& (e == MembershipError::MemberAlreadyActive <==> caller == old(self).admin
                        && old(self).contains_spec(who) && old(self).member_spec(who).active)
                },
            },
    {
        if caller != self.admin {
            return Err(MembershipError::Unauthorized);
        }
        let idx = match self.find_index(who) {
            None => {
                return Err(MembershipError::NotMember);
            },
            Some(i) => i,
        };
        proof {
            lemma_key_index(self.members@, who, idx as int);
        }
        let m = self.members[idx].1;
        if m.active {
            return Err(MembershipError::MemberAlreadyActive);
        }
        let new_m = Member {
            rank: m.rank,
            joined_at: m.joined_at,
            last_promoted_at: m.last_promoted_at,
            active: true,
        };
        let w = calculate_vote_weight_for_rank(m.rank);
        proof {
            lemma_record_update(self.members@, idx as int, new_m);
            lemma_sum_update(self.members@, idx as int, (who, new_m), 0);
            lemma_sum_bounded(self.members@.update(idx as int, (who, new_m)), 0);
        }
        self.members.set(idx, (who, new_m));
        self.total_voting_weight = self.total_voting_weight + w;
        Ok(MemberActivated { member: who })
    }

    /// Hand the member-manager role to another account. Admin only.
    pub fn set_member_manager(&mut self, caller: AccountId, new_manager: AccountId) -> (r: Result<
        (),
        MembershipError,
    >)
        requires
            old(self).wf(),
        ensures
            final(self).wf(),
            final(self).members@ == old(self).members@,
            final(self).total_voting_weight == old(self).total_voting_weight,
            final(self).admin == old(self).admin,
            final(self).min_rank_duration == old(self).min_rank_duration,
            match r {
                Ok(()) => caller == old(self).admin && final(self).member_manager == new_manager,
                Err(e) => {
                    &&& *final(self) == *old(self)
                    &&& e == MembershipError::Unauthorized
                    &&& caller != old(self).admin
                },
            },
    {
        if caller != self.admin {
            return Err(MembershipError::Unauthorized);
        }
        self.member_manager = new_manager;
        Ok(())
    }

    /// The admin account.
    pub fn get_admin(&self) -> (r: AccountId)
        ensures
            r == self.admin,
    {
        self.admin
    }

    /// The member-manager account.
    pub fn get_member_manager(&self) -> (r: AccountId)
        ensures
            r == self.member_manager,
    {
        self.member_manager
    }

    /// Sum of the vote weights of all active members with rank at least
    /// `min_rank`. This is the quorum denominator.
    pub fn calculate_total_vote_weight(&self, min_rank: u8) -> (r: u64)
        requires
            self.wf(),
        ensures
            r == self.total_weight_spec(min_rank),
    {
        let s = Ghost(self.members@);
        let mut total: u64 = 0;
        let mut i: usize = 0;
        proof {
            assert(s@.take(0) =~= Seq::<(AccountId, Member)>::empty());
        }
        while i < self.members.len()
            invariant
                self.wf(),
                s@ == self.members@,
                i <= s@.len(),
                total == sum_weights(s@.take(i as int), min_rank),
            decreases s@.len() - i,
        {
            let (_, m) = self.members[i];
            let part: u64 = if m.active && m.rank >= min_rank {
                calculate_vote_weight_for_rank(m.rank)
            } else {
                0
            };
            proof {
                assert(s@.take(i + 1) =~= s@.take(i as int).push(s@[i as int]));
                lemma_sum_push(s@.take(i as int), s@[i as int], min_rank);
                lemma_sum_bounded(s@.take(i + 1), min_rank);
            }
            total = total + part;
            i = i + 1;
        }
        proof {
            assert(s@.take(s@.len() as int) =~= s@);
        }
        total
    }

    /// Same sum, under the name the governance engine uses.
    pub fn calculate_total_vote_weight_with_min_rank(&self, min_rank: u8) -> (r: u64)
        requires
            self.wf(),
        ensures
            r == self.total_weight_spec(min_rank),
    {
        self.calculate_total_vote_weight(min_rank)
    }

    /// All member accounts, in registry order.
    pub fn get_all_members(&self) -> (r: Vec<AccountId>)
        ensures
            r@.len() == self.members@.len(),
            forall|k: int| 0 <= k < r@.len() ==> r@[k] == (#[trigger] self.members@[k]).0,
    {
        let mut out: Vec<AccountId> = Vec::new();
        let mut i: usize = 0;
        while i < self.members.len()
            invariant
                i <= self.members@.len(),
                out@.len() == i,
                forall|k: int| 0 <= k < i ==> out@[k] == (#[trigger] self.members@[k]).0,
            decreases self.members@.len() - i,
        {
            let (acc, _) = self.members[i];
            out.push(acc);
            i = i + 1;
        }
        out
    }

    /// The accounts of all active members holding exactly this rank. Every
    /// listed account is such a member, every such member is listed, and no
    /// account is listed twice.
    pub fn get_active_members_by_rank(&self, rank: u8) -> (r: Result<
        Vec<AccountId>,
        MembershipError,
    >)
        requires
            self.wf(),
        ensures
            match r {
                Ok(v) => {
                    &&& rank <= MAX_RANK
                    &&& forall|k: int|
                        0 <= k < v@.len() ==> self.contains_spec(#[trigger] v@[k])
                            && self.member_spec(v@[k]).active && self.member_spec(v@[k]).rank
                            == rank
                    &&& forall|x: AccountId|
                        self.contains_spec(x) && self.member_spec(x).active && self.member_spec(
                            x,
                        ).rank == rank ==> v@.contains(x)
                    &&& forall|k1: int, k2: int| 0 <= k1 < k2 < v@.len() ==> v@[k1] != v@[k2]
                },
                Err(e) => e == MembershipError::InvalidRank && rank > MAX_RANK,
            },
    {
        if rank > MAX_RANK {
            return Err(MembershipError::InvalidRank);
        }
        let s = Ghost(self.members@);
        let mut out: Vec<AccountId> = Vec::new();
        let mut i: usize = 0;
        while i < self.members.len()
            invariant
                self.wf(),
                s@ == self.members@,
                i <= s@.len(),
                forall|k: int|
                    0 <= k < out@.len() ==> exists|j: int|
                        0 <= j < i && (#[trigger] out@[k]) == (#[trigger] s@[j]).0,
                forall|k: int|
                    0 <= k < out@.len() ==> self.contains_spec(#[trigger] out@[k])
                        && self.member_spec(out@[k]).active && self.member_spec(out@[k]).rank
                        == rank,
                forall|j: int|
                    0 <= j < i && (#[trigger] s@[j]).1.active && s@[j].1.rank == rank
                        ==> out@.contains(s@[j].0),
                forall|k1: int, k2: int| 0 <= k1 < k2 < out@.len() ==> out@[k1] != out@[k2],
            decreases s@.len() - i,
        {
            let (acc, m) = self.members[i];
            if m.active && m.rank == rank {
                proof {
                    lemma_key_index(s@, acc, i as int);
                    assert forall|k: int| 0 <= k < out@.len() implies out@[k] != acc by {
                        let j = choose|j: int|
                            0 <= j < i && (#[trigger] out@[k]) == (#[trigger] s@[j]).0;
                        assert(s@[j].0 != s@[i as int].0);
                    }
                }
                let ghost pre = out@;
                out.push(acc);
                proof {
                    assert(out@ == pre.push(acc));
                    assert forall|j: int|
                        0 <= j <= i && (#[trigger] s@[j]).1.active && s@[j].1.rank
                            == rank implies out@.contains(s@[j].0) by {
                        if j == i {
                            assert(out@[out@.len() - 1] == acc);
                        } else {
                            assert(pre.contains(s@[j].0));
                            let k = choose|k: int| 0 <= k < pre.len() && pre[k] == s@[j].0;
                            assert(out@[k] == s@[j].0);
                        }
                    }
                }
            }
            i = i + 1;
        }
        proof {
            assert forall|x: AccountId|
                self.contains_spec(x) && self.member_spec(x).active && self.member_spec(x).rank
                    == rank implies out@.contains(x) by {
                let j = choose|j: int| 0 <= j < s@.len() && (#[trigger] s@[j]).0 == x;
                lemma_key_index(s@, x, j);
            }
        }
        Ok(out)
    }

    /// The account, rank and vote weight of every active member with rank
    /// at least `min_rank`: the pool of eligible voters and jurors. Every
    /// listed entry is such a member, every such member is listed, and no
    /// account is listed twice.
    pub fn get_eligible_voters(&self, min_rank: u8) -> (r: Vec<(AccountId, u8, u64)>)
        requires
            self.wf(),
        ensures
            forall|k: int|
                0 <= k < r@.len() ==> {
                    &&& self.contains_spec((#[trigger] r@[k]).0)
                    &&& self.member_spec(r@[k].0).active
                    &&& self.member_spec(r@[k].0).rank >= min_rank
                    &&& r@[k].1 == self.member_spec(r@[k].0).rank
                    &&& r@[k].2 == spec_vote_weight(self.member_spec(r@[k].0).rank)
                },
            forall|x: AccountId|
                self.contains_spec(x) && self.member_spec(x).active && self.member_spec(x).rank
                    >= min_rank ==> exists|k: int|
                    0 <= k < r@.len() && (#[trigger] r@[k]).0 == x,
            forall|k1: int, k2: int| 0 <= k1 < k2 < r@.len() ==> r@[k1].0 != r@[k2].0,
    {
        let s = Ghost(self.members@);
        let mut out: Vec<(AccountId, u8, u64)> = Vec::new();
        let mut i: usize = 0;
        while i < self.members.len()
            invariant
                self.wf(),
                s@ == self.members@,
                i <= s@.len(),
                forall|k: int|
                    0 <= k < out@.len() ==> exists|j: int|
                        0 <= j < i && ((#[trigger] out@[k]).0) == ((#[trigger] s@[j]).0),
                forall|k: int|
                    0 <= k < out@.len() ==> {
                        &&& self.contains_spec((#[trigger] out@[k]).0)
                        &&& self.member_spec(out@[k].0).active
                        &&& self.member_spec(out@[k].0).rank >= min_rank
                        &&& out@[k].1 == self.member_spec(out@[k].0).rank
                        &&& out@[k].2 == spec_vote_weight(self.member_spec(out@[k].0).rank)
                    },
                forall|j: int|
                    0 <= j < i && (#[trigger] s@[j]).1.active && s@[j].1.rank >= min_rank
                        ==> exists|k: int| 0 <= k < out@.len() && (#[trigger] out@[k]).0 == s@[j].0,
                forall|k1: int, k2: int| 0 <= k1 < k2 < out@.len() ==> out@[k1].0 != out@[k2].0,
            decreases s@.len() - i,
        {
            let (acc, m) = self.members[i];
            if m.active && m.rank >= min_rank {
                proof {
                    lemma_key_index(s@, acc, i as int);
                    assert forall|k: int| 0 <= k < out@.len() implies (#[trigger] out@[k]).0
                        != acc by {
                        let j = choose|j: int|
                            0 <= j < i && ((#[trigger] out@[k]).0) == ((#[trigger] s@[j]).0);
                        assert(s@[j].0 != s@[i as int].0);
                    }
                }
                let w = calculate_vote_weight_for_rank(m.rank);
                let ghost pre = out@;
                out.push((acc, m.rank, w));
                proof {
                    assert(out@ == pre.push((acc, m.rank, w)));
                    assert forall|j: int|
                        0 <= j <= i && (#[trigger] s@[j]).1.active && s@[j].1.rank
                            >= min_rank implies exists|k: int|
                        0 <= k < out@.len() && (#[trigger] out@[k]).0 == s@[j].0 by {
                        if j == i {
                            assert(out@[out@.len() - 1].0 == acc);
                        } else {
                            let k = choose|k: int|
                                0 <= k < pre.len() && (#[trigger] pre[k]).0 == s@[j].0;
                            assert(out@[k].0 == s@[j].0);
                        }
                    }
                }
            }
            i = i + 1;
        }
        proof {
            assert forall|x: AccountId|
                self.contains_spec(x) && self.member_spec(x).active && self.member_spec(x).rank
                    >= min_rank implies exists|k: int|
                0 <= k < out@.len() && (#[trigger] out@[k]).0 == x by {
                let j = choose|j: int| 0 <= j < s@.len() && (#[trigger] s@[j]).0 == x;
                lemma_key_index(s@, x, j);
            }
        }
        out
    }
}

/// The registry's cached running total always equals the true sum of the
/// vote weights of its active members: the cache cannot drift from the
/// records it summarizes.
pub proof fn lemma_total_weight_cache_consistent(r: MembershipRegistry)
    requires
        r.wf(),
    ensures
        r.total_voting_weight == r.total_weight_spec(0),
{
}

/// With unique keys, any entry holding an account is the one `key_index`
/// picks, so `record_of` returns exactly that entry's record.
pub proof fn lemma_key_index(s: Seq<(AccountId, Member)>, who: AccountId, i: int)
    requires
        keys_unique(s),
        0 <= i < s.len(),
        s[i].0 == who,
    ensures
        has_key(s, who),
        key_index(s, who) == i,
        record_of(s, who) == s[i].1,
{
    assert(has_key(s, who));
    let j = key_index(s, who);
    assert(0 <= j < s.len() && s[j].0 == who);
    if i < j {
        assert(s[i].0 != s[j].0);
    } else if j < i {
        assert(s[j].0 != s[i].0);
    }
}


/// Appending a fresh account keeps the keys unique, stores the new record
/// under that account, and leaves every other account's record unchanged.
pub proof fn lemma_record_push(s: Seq<(AccountId, Member)>, who: AccountId, m: Member)
    requires
        keys_unique(s),
        !has_key(s, who),
    ensures
        keys_unique(s.push((who, m))),
        has_key(s.push((who, m)), who),
        record_of(s.push((who, m)), who) == m,
        forall|x: AccountId|
            x != who ==> #[trigger] has_key(s.push((who, m)), x) == has_key(s, x),
        forall|x: AccountId|
            x != who && has_key(s, x) ==> #[trigger] record_of(s.push((who, m)), x) == record_of(
                s,
                x,
            ),
{
    let t = s.push((who, m));
    assert forall|i: int, j: int| 0 <= i < j < t.len() implies (#[trigger] t[i]).0 != (
    #[trigger] t[j]).0 by {
        if j < s.len() {
            assert(t[i] == s[i] && t[j] == s[j]);
        } else {
            assert(t[j] == (who, m));
            assert(t[i] == s[i]);
            if s[i].0 == who {
                assert(has_key(s, who));
            }
        }
    }
    lemma_key_index(t, who, s.len() as int);
    assert forall|x: AccountId| x != who implies #[trigger] has_key(t, x) == has_key(s, x) by {
        if has_key(s, x) {
            let i = choose|i: int| 0 <= i < s.len() && (#[trigger] s[i]).0 == x;
            assert(t[i].0 == x);
            assert(has_key(t, x));
        }
        if has_key(t, x) {
            let i = choose|i: int| 0 <= i < t.len() && (#[trigger] t[i]).0 == x;
            assert(i < s.len());
            assert(s[i].0 == x);
            assert(has_key(s, x));
        }
    }
    assert forall|x: AccountId| x != who && has_key(s, x) implies #[trigger] record_of(t, x)
        == record_of(s, x) by {
        let i = choose|i: int| 0 <= i < s.len() && (#[trigger] s[i]).0 == x;
        lemma_key_index(s, x, i);
        assert(t[i] == s[i]);
        lemma_key_index(t, x, i);
    }
}

/// Replacing the record at position `i` (same account) keeps the keys
/// unique and the key set unchanged, stores the new record under that
/// account, and leaves every other account's record unchanged.
pub proof fn lemma_record_update(s: Seq<(AccountId, Member)>, i: int, m: Member)
    requires
        keys_unique(s),
        0 <= i < s.len(),
    ensures
        keys_unique(s.update(i, (s[i].0, m))),
        forall|x: AccountId|
            #[trigger] has_key(s.update(i, (s[i].0, m)), x) == has_key(s, x),
        record_of(s.update(i, (s[i].0, m)), s[i].0) == m,
        forall|x: AccountId|
            x != s[i].0 && has_key(s, x) ==> #[trigger] record_of(s.update(i, (s[i].0, m)), x)
                == record_of(s, x),
{
    let who = s[i].0;
    let t = s.update(i, (who, m));
    assert(forall|j: int| 0 <= j < s.len() ==> (#[trigger] t[j]).0 == s[j].0);
    assert forall|a: int, b: int| 0 <= a < b < t.len() implies (#[trigger] t[a]).0 != (
    #[trigger] t[b]).0 by {
        assert(s[a].0 != s[b].0);
    }
    assert forall|x: AccountId| #[trigger] has_key(t, x) == has_key(s, x) by {
        if has_key(s, x) {
            let j = choose|j: int| 0 <= j < s.len() && (#[trigger] s[j]).0 == x;
            assert(t[j].0 == x);
            assert(has_key(t, x));
        }
        if has_key(t, x) {
            let j = choose|j: int| 0 <= j < t.len() && (#[trigger] t[j]).0 == x;
            assert(s[j].0 == x);
            assert(has_key(s, x));
        }
    }
    lemma_key_index(t, who, i);
    assert forall|x: AccountId| x != who && has_key(s, x) implies #[trigger] record_of(t, x)
        == record_of(s, x) by {
        let j = choose|j: int| 0 <= j < s.len() && (#[trigger] s[j]).0 == x;
        lemma_key_index(s, x, j);
        assert(j != i);
        assert(t[j] == s[j]);
        lemma_key_index(t, x, j);
    }
}

/// Deleting the entry at position `i` keeps the keys unique, removes that
/// account from the key set, and leaves every other account's record
/// unchanged.
pub proof fn lemma_record_remove(s: Seq<(AccountId, Member)>, i: int)
    requires
        keys_unique(s),
        0 <= i < s.len(),
    ensures
        keys_unique(s.remove(i)),
        !has_key(s.remove(i), s[i].0),
        forall|x: AccountId|
            x != s[i].0 ==> #[trigger] has_key(s.remove(i), x) == has_key(s, x),
        forall|x: AccountId|
            x != s[i].0 && has_key(s, x) ==> #[trigger] record_of(s.remove(i), x) == record_of(
                s,
                x,
            ),
{
    let who = s[i].0;
    let t = s.remove(i);
    assert(forall|j: int| 0 <= j < i ==> #[trigger] t[j] == s[j]);
    assert(forall|j: int| i <= j < t.len() ==> #[trigger] t[j] == s[j + 1]);
    assert forall|a: int, b: int| 0 <= a < b < t.len() implies (#[trigger] t[a]).0 != (
    #[trigger] t[b]).0 by {
        let sa: int = if a < i { a } else { a + 1 };
        let sb: int = if b < i { b } else { b + 1 };
        assert(t[a] == s[sa] && t[b] == s[sb]);
        assert(s[sa].0 != s[sb].0);
    }
    assert forall|j: int| 0 <= j < t.len() implies (#[trigger] t[j]).0 != who by {
        let sj: int = if j < i { j } else { j + 1 };
        assert(t[j] == s[sj]);
        assert(sj != i);
        assert(s[sj].0 != s[i].0);
    }
    assert forall|x: AccountId| x != who implies #[trigger] has_key(t, x) == has_key(s, x) by {
        if has_key(s, x) {
            let j = choose|j: int| 0 <= j < s.len() && (#[trigger] s[j]).0 == x;
            assert(j != i);
            let tj: int = if j < i { j } else { j - 1 };
            assert(t[tj] == s[j]);
            assert(has_key(t, x));
        }
        if has_key(t, x) {
            let j = choose|j: int| 0 <= j < t.len() && (#[trigger] t[j]).0 == x;
            let sj: int = if j < i { j } else { j + 1 };
            assert(s[sj].0 == x);
            assert(has_key(s, x));
        }
    }
    assert forall|x: AccountId| x != who && has_key(s, x) implies #[trigger] record_of(t, x)
        == record_of(s, x) by {
        let j = choose|j: int| 0 <= j < s.len() && (#[trigger] s[j]).0 == x;
        lemma_key_index(s, x, j);
        assert(j != i);
        let tj: int = if j < i { j } else { j - 1 };
        assert(t[tj] == s[j]);
        lemma_key_index(t, x, tj);
    }
}

} // verus!
