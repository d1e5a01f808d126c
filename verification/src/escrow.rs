//! Mission escrow and dispute engine.
//!
//! A client funds a mission for a consultant and carves it into ordered
//! milestones. Milestones are released strictly in sequence: a milestone can
//! be submitted only after its predecessor is approved, and approval (by the
//! client, or automatically after a waiting period) releases its amount into
//! the mission's running total, which never exceeds the budget. Either party
//! can contest a milestone; a five-member jury of high-ranked, uninvolved
//! members then votes within a deadline, and a strict majority — or the
//! deadline — settles the dispute.

use vstd::prelude::*;

use crate::membership::AccountId;
use crate::membership::Member;
use crate::membership::MembershipRegistry;
use crate::membership::lemma_key_index;

verus! {

/// How long a submitted milestone waits before anyone may release it.
pub const AUTO_RELEASE_DELAY: u64 = 100_800;

/// How long a dispute jury may vote.
pub const VOTING_PERIOD: u64 = 43_200;

/// How many jurors hear a dispute.
pub const JURY_SIZE: usize = 5;

/// Strict majority of the jury: enough votes on one side to settle the
/// dispute early.
pub const JURY_MAJORITY: u64 = 3;

/// Lowest rank that qualifies a member for jury duty.
pub const JURY_MIN_RANK: u8 = 3;

/// Lifecycle of a milestone.
#[derive(Clone, Copy, PartialEq, Eq, Structural, Debug)]
pub enum MilestoneStatus {
    /// Created, waiting for the consultant's submission.
    Pending,
    /// Deliverable submitted, waiting for the client.
    Submitted,
    /// Accepted; its amount has been released.
    Approved,
    /// Rejected by the client; terminal.
    Rejected,
    /// Contested; a dispute decides it.
    Disputed,
}

/// Lifecycle of a dispute.
#[derive(Clone, Copy, PartialEq, Eq, Structural, Debug)]
pub enum DisputeStatus {
    /// The jury is voting.
    Voting,
    /// Settled; the winner field records the prevailing party.
    Resolved,
}

/// One payable unit of a mission.
pub struct Milestone {
    /// Position within the mission; ordering is significant.
    pub id: u64,
    pub description: Vec<u8>,
    /// Amount released when this milestone is approved.
    pub amount: u64,
    pub deadline: u64,
    pub status: MilestoneStatus,
    /// Reference to the delivered work; empty until submission.
    pub deliverable: Vec<u8>,
    /// When the deliverable was submitted; 0 until then.
    pub submitted_at: u64,
}

/// A funded engagement between a client and a consultant.
pub struct Mission {
    /// Unique id; equals the mission's position in the engine.
    pub id: u64,
    pub client: AccountId,
    pub consultant: AccountId,
    pub total_budget: u64,
    /// Sum of the amounts of the approved milestones; never exceeds the
    /// budget.
    pub released_funds: u64,
    /// Milestone `id` equals its position here.
    pub milestones: Vec<Milestone>,
}

/// A contested milestone before a jury.
pub struct Dispute {
    pub mission_id: u64,
    pub milestone_id: u64,
    /// The party who raised the dispute.
    pub initiator: AccountId,
    pub reason: Vec<u8>,
    /// The fixed jury, chosen at creation; never the client or consultant.
    pub jurors: Vec<AccountId>,
    /// One entry per juror who voted: the juror and whether it favored the
    /// consultant.
    pub votes: Vec<(AccountId, bool)>,
    /// Votes in favor of the consultant.
    pub votes_for: u64,
    /// Votes in favor of the client.
    pub votes_against: u64,
    pub status: DisputeStatus,
    /// The prevailing party once resolved; `None` while voting and on a
    /// tie.
    pub winner: Option<AccountId>,
    pub created_at: u64,
    pub voting_deadline: u64,
}

/// Why an escrow operation was rejected. Every rejection leaves the engine
/// unchanged.
#[derive(Clone, Copy, PartialEq, Eq, Structural, Debug)]
pub enum EscrowError {
    /// No mission has this id.
    MissionNotFound,
    /// No milestone has this id within the mission.
    MilestoneNotFound,
    /// No dispute has this id.
    DisputeNotFound,
    /// Caller is not the mission's client (or, for disputes, neither
    /// party).
    UnauthorizedClient,
    /// Caller is not the mission's consultant.
    UnauthorizedConsultant,
    /// The milestone's status does not allow this operation.
    InvalidMilestoneStatus,
    /// The preceding milestone is not yet approved.
    PreviousMilestoneNotApproved,
    /// The auto-release waiting period has not elapsed.
    AutoReleaseDelayNotMet,
    /// The account already voted on this dispute.
    AlreadyVoted,
    /// The caller is not on this dispute's jury.
    NotJuror,
    /// The dispute is not open for voting.
    DisputeNotVoting,
    /// Neither a majority nor the deadline has been reached.
    VotingPeriodNotEnded,
    /// An amount or timestamp would exceed its range, or the milestones
    /// would exceed the budget.
    ArithmeticOverflow,
    /// Fewer eligible jurors exist than a jury needs.
    InsufficientEligibleJurors,
}

/// Sum of the amounts of all milestones.
pub open spec fn amount_sum(s: Seq<Milestone>) -> nat
    decreases s.len(),
{
    if s.len() == 0 {
        0
    } else {
        s[0].amount as nat + amount_sum(s.drop_first())
    }
}

/// Sum of the amounts of the approved milestones.
pub open spec fn approved_sum(s: Seq<Milestone>) -> nat
    decreases s.len(),
{
    if s.len() == 0 {
        0
    } else {
        (if s[0].status == MilestoneStatus::Approved {
            s[0].amount as nat
        } else {
            0
        }) + approved_sum(s.drop_first())
    }
}

/// Appending a milestone adds its amount to the total, and to the approved
/// sum exactly when it is approved.
pub proof fn lemma_msum_push(s: Seq<Milestone>, m: Milestone)
    ensures
        amount_sum(s.push(m)) == amount_sum(s) + m.amount,
        approved_sum(s.push(m)) == approved_sum(s) + (
        if m.status == MilestoneStatus::Approved {
            m.amount as nat
        } else {
            0
        }),
    decreases s.len(),
{
    if s.len() == 0 {
        assert(s.push(m)[0] == m);
        assert(s.push(m).drop_first() =~= Seq::<Milestone>::empty());
        assert(amount_sum(s.push(m).drop_first()) == 0);
        assert(approved_sum(s.push(m).drop_first()) == 0);
    } else {
        assert(s.push(m)[0] == s[0]);
        assert(s.push(m).drop_first() =~= s.drop_first().push(m));
        lemma_msum_push(s.drop_first(), m);
    }
}

/// Replacing the milestone at `i` shifts both sums by the difference of
/// the old and new contributions.
pub proof fn lemma_msum_update(s: Seq<Milestone>, i: int, m: Milestone)
    requires
        0 <= i < s.len(),
    ensures
        amount_sum(s.update(i, m)) == amount_sum(s) - s[i].amount + m.amount,
        approved_sum(s.update(i, m)) == approved_sum(s) - (
        if s[i].status == MilestoneStatus::Approved {
            s[i].amount as nat
        } else {
            0
        }) + (
        if m.status == MilestoneStatus::Approved {
            m.amount as nat
        } else {
            0
        }),
    decreases s.len(),
{
    if i == 0 {
        assert(s.update(0, m).drop_first() =~= s.drop_first());
    } else {
        assert(s.update(i, m).drop_first() =~= s.drop_first().update(i - 1, m));
        lemma_msum_update(s.drop_first(), i - 1, m);
    }
}

/// The approved sum never exceeds the total of all amounts.
pub proof fn lemma_approved_le_amount(s: Seq<Milestone>)
    ensures
        approved_sum(s) <= amount_sum(s),
    decreases s.len(),
{
    if s.len() > 0 {
        lemma_approved_le_amount(s.drop_first());
    }
}

/// No two entries come from the same juror.
pub open spec fn dvotes_unique(s: Seq<(AccountId, bool)>) -> bool {
    forall|i: int, j: int|
        0 <= i < j < s.len() ==> (#[trigger] s[i]).0 != (#[trigger] s[j]).0
}

/// Some entry was cast by this account.
pub open spec fn has_dvote(s: Seq<(AccountId, bool)>, who: AccountId) -> bool {
    exists|i: int| 0 <= i < s.len() && (#[trigger] s[i]).0 == who
}

/// How many entries took this side.
pub open spec fn dvote_count(s: Seq<(AccountId, bool)>, favor: bool) -> nat
    decreases s.len(),
{
    if s.len() == 0 {
        0
    } else {
        (if s[0].1 == favor {
            1nat
        } else {
            0
        }) + dvote_count(s.drop_first(), favor)
    }
}

/// Appending a vote from an account without one keeps the entries unique
/// and raises exactly the chosen side's count by one.
pub proof fn lemma_dvote_push(s: Seq<(AccountId, bool)>, e: (AccountId, bool))
    requires
        dvotes_unique(s),
        !has_dvote(s, e.0),
    ensures
        dvotes_unique(s.push(e)),
        has_dvote(s.push(e), e.0),
        forall|x: AccountId| x != e.0 ==> #[trigger] has_dvote(s.push(e), x) == has_dvote(s, x),
        dvote_count(s.push(e), true) == dvote_count(s, true) + (
        if e.1 {
            1nat
        } else {
            0
        }),
        dvote_count(s.push(e), false) == dvote_count(s, false) + (
        if e.1 {
            0nat
        } else {
            1
        }),
    decreases s.len(),
{
    let t = s.push(e);
    assert forall|i: int, j: int| 0 <= i < j < t.len() implies (#[trigger] t[i]).0 != (
    #[trigger] t[j]).0 by {
        if j < s.len() {
            assert(t[i] == s[i] && t[j] == s[j]);
        } else {
            assert(t[j] == e);
            assert(t[i] == s[i]);
            if s[i].0 == e.0 {
                assert(has_dvote(s, e.0));
            }
        }
    }
    assert(t[s.len() as int].0 == e.0);
    assert forall|x: AccountId| x != e.0 implies #[trigger] has_dvote(t, x) == has_dvote(s, x) by {
        if has_dvote(s, x) {
            let i = choose|i: int| 0 <= i < s.len() && (#[trigger] s[i]).0 == x;
            assert(t[i].0 == x);
            assert(has_dvote(t, x));
        }
        if has_dvote(t, x) {
            let i = choose|i: int| 0 <= i < t.len() && (#[trigger] t[i]).0 == x;
            assert(i < s.len());
            assert(s[i].0 == x);
            assert(has_dvote(s, x));
        }
    }
    lemma_dvote_count_push(s, e, true);
    lemma_dvote_count_push(s, e, false);
}

/// Appending any entry adds one to the count of the side it took.
proof fn lemma_dvote_count_push(s: Seq<(AccountId, bool)>, e: (AccountId, bool), favor: bool)
    ensures
        dvote_count(s.push(e), favor) == dvote_count(s, favor) + (
        if e.1 == favor {
            1nat
        } else {
            0
        }),
    decreases s.len(),
{
    if s.len() == 0 {
        assert(s.push(e)[0] == e);
        assert(s.push(e).drop_first() =~= Seq::<(AccountId, bool)>::empty());
        assert(dvote_count(s.push(e).drop_first(), favor) == 0);
    } else {
        assert(s.push(e)[0] == s[0]);
        assert(s.push(e).drop_first() =~= s.drop_first().push(e));
        lemma_dvote_count_push(s.drop_first(), e, favor);
    }
}

/// Neither side's count exceeds the number of entries.
pub proof fn lemma_dvote_count_le(s: Seq<(AccountId, bool)>, favor: bool)
    ensures
        dvote_count(s, favor) <= s.len(),
    decreases s.len(),
{
    if s.len() > 0 {
        lemma_dvote_count_le(s.drop_first(), favor);
    }
}

/// Unique votes drawn from a jury of distinct members cannot outnumber
/// the jury.
pub proof fn lemma_votes_bounded_by_jury(votes: Seq<(AccountId, bool)>, jurors: Seq<AccountId>)
    requires
        dvotes_unique(votes),
        forall|i: int|
            0 <= i < votes.len() ==> exists|j: int|
                0 <= j < jurors.len() && jurors[j] == (#[trigger] votes[i]).0,
        forall|i: int, j: int| 0 <= i < j < jurors.len() ==> jurors[i] != jurors[j],
    ensures
        votes.len() <= jurors.len(),
{
    broadcast use vstd::seq_lib::seq_to_set_is_finite;

    let voters = votes.map_values(|v: (AccountId, bool)| v.0);
    assert forall|i: int, j: int|
        0 <= i < voters.len() && 0 <= j < voters.len() && i != j implies voters[i]
        != voters[j] by {
        if i < j {
            assert(votes[i].0 != votes[j].0);
        } else {
            assert(votes[j].0 != votes[i].0);
        }
    }
    voters.unique_seq_to_set();
    assert forall|i: int, j: int|
        0 <= i < jurors.len() && 0 <= j < jurors.len() && i != j implies jurors[i]
        != jurors[j] by {
        if i < j {
        } else {
            assert(jurors[j] != jurors[i]);
        }
    }
    jurors.unique_seq_to_set();
    assert forall|x: AccountId| voters.to_set().contains(x) implies jurors.to_set().contains(
        x,
    ) by {
        let i = choose|i: int| 0 <= i < voters.len() && voters[i] == x;
        assert(votes[i].0 == x);
        let j = choose|j: int| 0 <= j < jurors.len() && jurors[j] == (#[trigger] votes[i]).0;
        assert(jurors[j] == x);
        assert(jurors.contains(x));
    }
    assert(voters.to_set().subset_of(jurors.to_set()));
    vstd::set_lib::lemma_len_subset(voters.to_set(), jurors.to_set());
}

/// The prevailing party of a settled dispute: the consultant on a strict
/// majority for, the client on a strict majority against, nobody on a tie.
pub open spec fn spec_winner(votes_for: u64, votes_against: u64, m: Mission) -> Option<AccountId> {
    if votes_for > votes_against {
        Some(m.consultant)
    } else if votes_against > votes_for {
        Some(m.client)
    } else {
        None
    }
}

/// An account qualifies for this dispute's jury: an active member at or
/// above the jury rank floor, and neither party to the mission.
pub open spec fn is_eligible_juror(
    registry: MembershipRegistry,
    who: AccountId,
    client: AccountId,
    consultant: AccountId,
) -> bool {
    &&& registry.contains_spec(who)
    &&& registry.member_spec(who).active
    &&& registry.member_spec(who).rank >= JURY_MIN_RANK
    &&& who != client
    &&& who != consultant
}

/// How many registry entries qualify for jury duty on this mission.
pub open spec fn eligible_juror_count(
    s: Seq<(AccountId, Member)>,
    client: AccountId,
    consultant: AccountId,
) -> nat
    decreases s.len(),
{
    if s.len() == 0 {
        0
    } else {
        (if s[0].1.active && s[0].1.rank >= JURY_MIN_RANK && s[0].0 != client && s[0].0
            != consultant {
            1nat
        } else {
            0
        }) + eligible_juror_count(s.drop_first(), client, consultant)
    }
}

/// Appending a registry entry raises the eligible count by one exactly
/// when the entry qualifies.
pub proof fn lemma_ejc_push(
    s: Seq<(AccountId, Member)>,
    e: (AccountId, Member),
    client: AccountId,
    consultant: AccountId,
)
    ensures
        eligible_juror_count(s.push(e), client, consultant) == eligible_juror_count(
            s,
            client,
            consultant,
        ) + (
        if e.1.active && e.1.rank >= JURY_MIN_RANK && e.0 != client && e.0 != consultant {
            1nat
        } else {
            0
        }),
    decreases s.len(),
{
    if s.len() == 0 {
        assert(s.push(e)[0] == e);
        assert(s.push(e).drop_first() =~= Seq::<(AccountId, Member)>::empty());
        assert(eligible_juror_count(s.push(e).drop_first(), client, consultant) == 0);
    } else {
        assert(s.push(e)[0] == s[0]);
        assert(s.push(e).drop_first() =~= s.drop_first().push(e));
        lemma_ejc_push(s.drop_first(), e, client, consultant);
    }
}


/// A mission's internal consistency: milestone ids equal positions, the
/// milestone amounts fit the budget, and the released total is exactly
/// the sum of the approved amounts.
pub open spec fn mission_wf(m: Mission) -> bool {
    &&& forall|i: int| 0 <= i < m.milestones@.len() ==> (#[trigger] m.milestones@[i]).id == i
    &&& amount_sum(m.milestones@) <= m.total_budget
    &&& m.released_funds == approved_sum(m.milestones@)
}

/// The milestone a dispute refers to.
pub open spec fn disputed_milestone(d: Dispute, missions: Seq<Mission>) -> Milestone {
    missions[d.mission_id as int].milestones@[d.milestone_id as int]
}

/// A dispute's internal consistency against the missions it refers into:
/// valid references, a full jury of distinct outsiders, unique per-juror
/// votes whose counts match the counters, a winner only once resolved and
/// then exactly the prevailing party, and a referenced milestone that has
/// left the normal submission flow.
pub open spec fn dispute_wf(d: Dispute, missions: Seq<Mission>) -> bool {
    &&& d.mission_id < missions.len()
    &&& d.milestone_id < missions[d.mission_id as int].milestones@.len()
    &&& d.jurors@.len() == JURY_SIZE
    &&& forall|i: int, j: int|
        0 <= i < j < d.jurors@.len() ==> d.jurors@[i] != d.jurors@[j]
    &&& forall|i: int|
        0 <= i < d.jurors@.len() ==> (#[trigger] d.jurors@[i]) != missions[
            d.mission_id as int].client && d.jurors@[i] != missions[d.mission_id as int].consultant
    &&& dvotes_unique(d.votes@)
    &&& forall|i: int|
        0 <= i < d.votes@.len() ==> exists|j: int|
            0 <= j < d.jurors@.len() && d.jurors@[j] == (#[trigger] d.votes@[i]).0
    &&& d.votes@.len() <= d.jurors@.len()
    &&& d.votes_for == dvote_count(d.votes@, true)
    &&& d.votes_against == dvote_count(d.votes@, false)
    &&& (d.status == DisputeStatus::Voting ==> d.winner.is_none() && disputed_milestone(
        d,
        missions,
    ).status == MilestoneStatus::Disputed)
    &&& (d.status == DisputeStatus::Resolved ==> d.winner == spec_winner(
        d.votes_for,
        d.votes_against,
        missions[d.mission_id as int],
    ))
    &&& disputed_milestone(d, missions).status != MilestoneStatus::Pending
    &&& disputed_milestone(d, missions).status != MilestoneStatus::Submitted
}

/// The escrow engine: missions and the disputes raised on their
/// milestones, each in creation order.
pub struct Marketplace {
    /// Mission `id` equals its position here.
    pub missions: Vec<Mission>,
    /// Dispute `id` equals its position here.
    pub disputes: Vec<Dispute>,
}

impl Marketplace {
    /// The engine's internal consistency: ids equal positions, every
    /// mission and dispute is well-formed, and no milestone carries two
    /// disputes.
    pub open spec fn wf(self) -> bool {
        &&& forall|i: int|
            0 <= i < self.missions@.len() ==> (#[trigger] self.missions@[i]).id == i && mission_wf(
                self.missions@[i],
            )
        &&& forall|i: int|
            0 <= i < self.disputes@.len() ==> dispute_wf(
                #[trigger] self.disputes@[i],
                self.missions@,
            )
        &&& forall|i: int, j: int|
            0 <= i < j < self.disputes@.len() ==> !((#[trigger] self.disputes@[i]).mission_id == (
            #[trigger] self.disputes@[j]).mission_id && self.disputes@[i].milestone_id
                == self.disputes@[j].milestone_id)
    }

    /// A fresh engine with no missions and no disputes.
    pub fn new() -> (r: Self)
        ensures
            r.wf(),
            r.missions@.len() == 0,
            r.disputes@.len() == 0,
    {
        Marketplace { missions: Vec::new(), disputes: Vec::new() }
    }

    /// How many missions exist.
    pub fn mission_count(&self) -> (r: usize)
        ensures
            r == self.missions@.len(),
    {
        self.missions.len()
    }

    /// How many disputes exist.
    pub fn dispute_count(&self) -> (r: usize)
        ensures
            r == self.disputes@.len(),
    {
        self.disputes.len()
    }

    /// The mission with this id.
    pub fn get_mission(&self, mission_id: u64) -> (r: Option<&Mission>)
        ensures
            match r {
                Some(m) => mission_id < self.missions@.len() && *m == self.missions@[
                    mission_id as int],
                None => mission_id >= self.missions@.len(),
            },
    {
        if mission_id < self.missions.len() as u64 {
            Some(&self.missions[mission_id as usize])
        } else {
            None
        }
    }

    /// The milestone with this id within a mission.
    pub fn get_milestone(&self, mission_id: u64, milestone_id: u64) -> (r: Option<&Milestone>)
        ensures
            match r {
                Some(m) => mission_id < self.missions@.len() && milestone_id < self.missions@[
                    mission_id as int].milestones@.len() && *m == self.missions@[
                    mission_id as int].milestones@[milestone_id as int],
                None => mission_id >= self.missions@.len() || (mission_id < self.missions@.len()
                    && milestone_id >= self.missions@[mission_id as int].milestones@.len()),
            },
    {
        if mission_id < self.missions.len() as u64 {
            let m = &self.missions[mission_id as usize];
            if milestone_id < m.milestones.len() as u64 {
                Some(&m.milestones[milestone_id as usize])
            } else {
                None
            }
        } else {
            None
        }
    }

    /// The dispute with this id.
    pub fn get_dispute(&self, dispute_id: u64) -> (r: Option<&Dispute>)
        ensures
            match r {
                Some(d) => dispute_id < self.disputes@.len() && *d == self.disputes@[
                    dispute_id as int],
                None => dispute_id >= self.disputes@.len(),
            },
    {
        if dispute_id < self.disputes.len() as u64 {
            Some(&self.disputes[dispute_id as usize])
        } else {
            None
        }
    }

    /// Create a mission: the caller is its client, funds start at zero
    /// released, and it has no milestones yet. Returns the new mission's
    /// id.
    pub fn create_mission(&mut self, caller: AccountId, consultant: AccountId, total_budget: u64)
        -> (r: u64)
        requires
            old(self).wf(),
        ensures
            final(self).wf(),
            r == old(self).missions@.len(),
            final(self).missions@.len() == old(self).missions@.len() + 1,
            forall|j: int|
                0 <= j < old(self).missions@.len() ==> final(self).missions@[j] == old(
                    self,
                ).missions@[j],
            final(self).missions@[r as int].id == r,
            final(self).missions@[r as int].client == caller,
            final(self).missions@[r as int].consultant == consultant,
            final(self).missions@[r as int].total_budget == total_budget,
            final(self).missions@[r as int].released_funds == 0,
            final(self).missions@[r as int].milestones@.len() == 0,
            final(self).disputes@ == old(self).disputes@,
    {
        let id = self.missions.len() as u64;
        let mission = Mission {
            id,
            client: caller,
            consultant,
            total_budget,
            released_funds: 0,
            milestones: Vec::new(),
        };
        self.missions.push(mission);
        proof {
            assert forall|i: int|
                0 <= i < self.disputes@.len() implies dispute_wf(
                #[trigger] self.disputes@[i],
                self.missions@,
            ) by {
                assert(dispute_wf(self.disputes@[i], old(self).missions@));
                assert(self.missions@[self.disputes@[i].mission_id as int] == old(
                    self,
                ).missions@[self.disputes@[i].mission_id as int]);
            }
        }
        id
    }

    /// Append a milestone to a mission. Client only; the new amount must
    /// keep the sum of all milestone amounts within the budget. The
    /// milestone starts Pending under the next id.
    pub fn add_milestone(
        &mut self,
        caller: AccountId,
        mission_id: u64,
        description: Vec<u8>,
        amount: u64,
        deadline: u64,
    ) -> (r: Result<u64, EscrowError>)
        requires
            old(self).wf(),
        ensures
            final(self).wf(),
            final(self).disputes@ == old(self).disputes@,
            final(self).missions@.len() == old(self).missions@.len(),
            match r {
                Ok(id) => {
                    &&& mission_id < old(self).missions@.len()
                    &&& caller == old(self).missions@[mission_id as int].client
                    &&& amount_sum(old(self).missions@[mission_id as int].milestones@) + amount
                        <= old(self).missions@[mission_id as int].total_budget
                    &&& id == old(self).missions@[mission_id as int].milestones@.len()
                    &&& final(self).missions@[mission_id as int].milestones@.len() == id + 1
                    &&& forall|j: int|
                        0 <= j < id ==> final(self).missions@[mission_id as int].milestones@[j]
                            == old(self).missions@[mission_id as int].milestones@[j]
                    &&& final(self).missions@[mission_id as int].milestones@[id as int].id == id
                    &&& final(self).missions@[mission_id as int].milestones@[id as int].description
                        == description
                    &&& final(self).missions@[mission_id as int].milestones@[id as int].amount
                        == amount
                    &&& final(self).missions@[mission_id as int].milestones@[id as int].deadline
                        == deadline
                    &&& final(self).missions@[mission_id as int].milestones@[id as int].status
                        == MilestoneStatus::Pending
                    &&& final(self).missions@[mission_id as int].milestones@[
                        id as int].deliverable@.len() == 0
                    &&& final(self).missions@[mission_id as int].milestones@[
                        id as int].submitted_at == 0
                    &&& final(self).missions@[mission_id as int].released_funds == old(
                        self,
                    ).missions@[mission_id as int].released_funds
                    &&& final(self).missions@[mission_id as int].client == old(
                        self,
                    ).missions@[mission_id as int].client
                    &&& final(self).missions@[mission_id as int].consultant == old(
                        self,
                    ).missions@[mission_id as int].consultant
                    &&& final(self).missions@[mission_id as int].total_budget == old(
                        self,
                    ).missions@[mission_id as int].total_budget
                    &&& final(self).missions@[mission_id as int].id == old(
                        self,
                    ).missions@[mission_id as int].id
                    &&& forall|j: int|
                        0 <= j < old(self).missions@.len() && j != mission_id ==> final(self).missions@[j] == old(self).missions@[j]
                },
                Err(e) => {
                    &&& *final(self) == *old(self)
                    &&& (e == EscrowError::MissionNotFound || e == EscrowError::UnauthorizedClient
                        || e == EscrowError::ArithmeticOverflow)
                    &&& (e == EscrowError::MissionNotFound <==> mission_id >= old(
                        self,
                    ).missions@.len())
                    &&& (e == EscrowError::UnauthorizedClient <==> mission_id < old(
                        self,
                    ).missions@.len() && caller != old(self).missions@[mission_id as int].client)
                    &&& (e == EscrowError::ArithmeticOverflow <==> mission_id < old(
                        self,
                    ).missions@.len() && caller == old(self).missions@[mission_id as int].client
                        && amount_sum(old(self).missions@[mission_id as int].milestones@) + amount
                        > old(self).missions@[mission_id as int].total_budget)
                },
            },
    {
        if mission_id >= self.missions.len() as u64 {
            return Err(EscrowError::MissionNotFound);
        }
        let idx = mission_id as usize;
        if caller != self.missions[idx].client {
            return Err(EscrowError::UnauthorizedClient);
        }
        let current_sum = self.milestone_amount_total(idx);
        let budget = self.missions[idx].total_budget;
        if amount > budget - current_sum {
            return Err(EscrowError::ArithmeticOverflow);
        }
        let id = self.missions[idx].milestones.len() as u64;
        let milestone = Milestone {
            id,
            description,
            amount,
            deadline,
            status: MilestoneStatus::Pending,
            deliverable: Vec::new(),
            submitted_at: 0,
        };
        proof {
            lemma_msum_push(self.missions@[mission_id as int].milestones@, milestone);
        }
        let m_ref = vstd::std_specs::vec::vec_index_mut(&mut self.missions, idx);
        m_ref.milestones.push(milestone);
        proof {
            assert forall|i: int|
                0 <= i < self.disputes@.len() implies dispute_wf(
                #[trigger] self.disputes@[i],
                self.missions@,
            ) by {
                let d = self.disputes@[i];
                assert(dispute_wf(d, old(self).missions@));
                if d.mission_id == mission_id {
                    assert(disputed_milestone(d, self.missions@) == disputed_milestone(
                        d,
                        old(self).missions@,
                    ));
                }
            }
        }
        Ok(id)
    }

    /// Sum of the amounts of all milestones of the mission at `idx`.
    fn milestone_amount_total(&self, idx: usize) -> (r: u64)
        requires
            self.wf(),
            idx < self.missions@.len(),
        ensures
            r == amount_sum(self.missions@[idx as int].milestones@),
            r <= self.missions@[idx as int].total_budget,
    {
        let m = &self.missions[idx];
        let s = Ghost(m.milestones@);
        let mut total: u64 = 0;
        let mut i: usize = 0;
        proof {
            assert(s@.take(0) =~= Seq::<Milestone>::empty());
            lemma_amount_sum_prefix_bound(s@, 0);
        }
        while i < m.milestones.len()
            invariant
                self.wf(),
                idx < self.missions@.len(),
                *m == self.missions@[idx as int],
                s@ == m.milestones@,
                i <= s@.len(),
                total == amount_sum(s@.take(i as int)),
                total <= amount_sum(s@),
                amount_sum(s@) <= m.total_budget,
            decreases s@.len() - i,
        {
            proof {
                assert(s@.take(i + 1) =~= s@.take(i as int).push(s@[i as int]));
                lemma_msum_push(s@.take(i as int), s@[i as int]);
                lemma_amount_sum_prefix_bound(s@, i + 1);
            }
            total = total + m.milestones[i].amount;
            i = i + 1;
        }
        proof {
            assert(s@.take(s@.len() as int) =~= s@);
        }
        total
    }

    /// Every mission other than the one at `mission_id` is unchanged, and
    /// that mission keeps its identity, parties, budget and milestone
    /// count.
    pub open spec fn mission_frame(pre: Self, post: Self, mission_id: u64) -> bool {
        &&& post.missions@.len() == pre.missions@.len()
        &&& forall|j: int|
            0 <= j < pre.missions@.len() && j != mission_id ==> post.missions@[j]
                == pre.missions@[j]
        &&& post.missions@[mission_id as int].id == pre.missions@[mission_id as int].id
        &&& post.missions@[mission_id as int].client == pre.missions@[mission_id as int].client
        &&& post.missions@[mission_id as int].consultant == pre.missions@[
            mission_id as int].consultant
        &&& post.missions@[mission_id as int].total_budget == pre.missions@[
            mission_id as int].total_budget
        &&& post.missions@[mission_id as int].milestones@.len() == pre.missions@[
            mission_id as int].milestones@.len()
    }

    /// Every milestone of the mission other than the one at
    /// `milestone_id` is unchanged.
    pub open spec fn milestone_frame(pre: Self, post: Self, mission_id: u64, milestone_id: u64)
        -> bool {
        forall|j: int|
            0 <= j < pre.missions@[mission_id as int].milestones@.len() && j != milestone_id
                ==> post.missions@[mission_id as int].milestones@[j] == pre.missions@[
                mission_id as int].milestones@[j]
    }

    /// Submit a milestone's deliverable. Consultant only; the milestone
    /// must still be Pending and its predecessor, if any, Approved —
    /// milestones release strictly in sequence. Records the deliverable
    /// and the submission time.
    pub fn submit_milestone(
        &mut self,
        caller: AccountId,
        mission_id: u64,
        milestone_id: u64,
        deliverable: Vec<u8>,
        now: u64,
    ) -> (r: Result<(), EscrowError>)
        requires
            old(self).wf(),
        ensures
            final(self).wf(),
            final(self).disputes@ == old(self).disputes@,
            match r {
                Ok(()) => {
                    &&& mission_id < old(self).missions@.len()
                    &&& caller == old(self).missions@[mission_id as int].consultant
                    &&& milestone_id < old(self).missions@[mission_id as int].milestones@.len()
                    &&& old(self).missions@[mission_id as int].milestones@[
                        milestone_id as int].status == MilestoneStatus::Pending
                    &&& (milestone_id > 0 ==> old(self).missions@[mission_id as int].milestones@[
                        milestone_id as int - 1].status == MilestoneStatus::Approved)
                    &&& Self::mission_frame(*old(self), *final(self), mission_id)
                    &&& Self::milestone_frame(*old(self), *final(self), mission_id, milestone_id)
                    &&& final(self).missions@[mission_id as int].milestones@[
                        milestone_id as int] == (Milestone {
                        status: MilestoneStatus::Submitted,
                        deliverable,
                        submitted_at: now,
                        ..old(self).missions@[mission_id as int].milestones@[milestone_id as int]
                    })
                    &&& final(self).missions@[mission_id as int].released_funds == old(
                        self,
                    ).missions@[mission_id as int].released_funds
                },
                Err(e) => {
                    &&& *final(self) == *old(self)
                    &&& (e == EscrowError::MissionNotFound || e
                        == EscrowError::UnauthorizedConsultant || e
                        == EscrowError::MilestoneNotFound || e
                        == EscrowError::InvalidMilestoneStatus || e
                        == EscrowError::PreviousMilestoneNotApproved)
                    &&& (e == EscrowError::MissionNotFound <==> mission_id >= old(
                        self,
                    ).missions@.len())
                    &&& (e == EscrowError::UnauthorizedConsultant <==> mission_id < old(
                        self,
                    ).missions@.len() && caller != old(
                        self,
                    ).missions@[mission_id as int].consultant)
                    &&& (e == EscrowError::MilestoneNotFound <==> mission_id < old(
                        self,
                    ).missions@.len() && caller == old(self).missions@[mission_id as int].consultant
                        && milestone_id >= old(self).missions@[mission_id as int].milestones@.len())
                    &&& (e == EscrowError::InvalidMilestoneStatus <==> mission_id < old(
                        self,
                    ).missions@.len() && caller == old(self).missions@[mission_id as int].consultant
                        && milestone_id < old(self).missions@[mission_id as int].milestones@.len()
                        && old(self).missions@[mission_id as int].milestones@[
                        milestone_id as int].status != MilestoneStatus::Pending)
                    &&& (e == EscrowError::PreviousMilestoneNotApproved <==> mission_id < old(
                        self,
                    ).missions@.len() && caller == old(self).missions@[mission_id as int].consultant
                        && milestone_id < old(self).missions@[mission_id as int].milestones@.len()
                        && old(self).missions@[mission_id as int].milestones@[
                        milestone_id as int].status == MilestoneStatus::Pending && milestone_id > 0
                        && old(self).missions@[mission_id as int].milestones@[
                        milestone_id as int - 1].status != MilestoneStatus::Approved)
                },
            },
    {
        if mission_id >= self.missions.len() as u64 {
            return Err(EscrowError::MissionNotFound);
        }
        let idx = mission_id as usize;
        if caller != self.missions[idx].consultant {
            return Err(EscrowError::UnauthorizedConsultant);
        }
        if milestone_id >= self.missions[idx].milestones.len() as u64 {
            return Err(EscrowError::MilestoneNotFound);
        }
        let ms_idx = milestone_id as usize;
        if !matches!(self.missions[idx].milestones[ms_idx].status, MilestoneStatus::Pending) {
            return Err(EscrowError::InvalidMilestoneStatus);
        }
        if milestone_id > 0 {
            if !matches!(
                self.missions[idx].milestones[ms_idx - 1].status,
                MilestoneStatus::Approved,
            ) {
                return Err(EscrowError::PreviousMilestoneNotApproved);
            }
        }
        let ghost old_milestones = self.missions@[mission_id as int].milestones@;
        let m_ref = vstd::std_specs::vec::vec_index_mut(&mut self.missions, idx);
        let ms_ref = vstd::std_specs::vec::vec_index_mut(&mut m_ref.milestones, ms_idx);
        ms_ref.status = MilestoneStatus::Submitted;
        ms_ref.deliverable = deliverable;
        ms_ref.submitted_at = now;
        proof {
            lemma_msum_update(
                old_milestones,
                milestone_id as int,
                self.missions@[mission_id as int].milestones@[milestone_id as int],
            );
            assert forall|i: int|
                0 <= i < self.disputes@.len() implies dispute_wf(
                #[trigger] self.disputes@[i],
                self.missions@,
            ) by {
                let d = self.disputes@[i];
                assert(dispute_wf(d, old(self).missions@));
                if d.mission_id == mission_id && d.milestone_id == milestone_id {
                    assert(disputed_milestone(d, old(self).missions@).status
                        != MilestoneStatus::Pending);
                }
                assert(disputed_milestone(d, self.missions@) == disputed_milestone(
                    d,
                    old(self).missions@,
                ));
            }
        }
        Ok(())
    }

    /// Release the Submitted milestone at the given indices: mark it
    /// Approved and add its amount to the mission's released funds. The
    /// mission's budget invariant makes the addition safe.
    fn release_milestone(&mut self, idx: usize, ms_idx: usize)
        requires
            old(self).wf(),
            idx < old(self).missions@.len(),
            ms_idx < old(self).missions@[idx as int].milestones@.len(),
            old(self).missions@[idx as int].milestones@[ms_idx as int].status
                == MilestoneStatus::Submitted,
        ensures
            final(self).wf(),
            final(self).disputes@ == old(self).disputes@,
            Self::mission_frame(*old(self), *final(self), idx as u64),
            Self::milestone_frame(*old(self), *final(self), idx as u64, ms_idx as u64),
            final(self).missions@[idx as int].milestones@[ms_idx as int] == (Milestone {
                status: MilestoneStatus::Approved,
                ..old(self).missions@[idx as int].milestones@[ms_idx as int]
            }),
            final(self).missions@[idx as int].released_funds == old(self).missions@[
                idx as int].released_funds + old(self).missions@[idx as int].milestones@[
                ms_idx as int].amount,
            final(self).missions@[idx as int].released_funds <= final(self).missions@[
                idx as int].total_budget,
    {
        let ghost old_milestones = self.missions@[idx as int].milestones@;
        let amount = self.missions[idx].milestones[ms_idx].amount;
        let released = self.missions[idx].released_funds;
        proof {
            let new_ms = Milestone {
                status: MilestoneStatus::Approved,
                ..old_milestones[ms_idx as int]
            };
            lemma_msum_update(old_milestones, ms_idx as int, new_ms);
            lemma_approved_le_amount(old_milestones.update(ms_idx as int, new_ms));
        }
        let m_ref = vstd::std_specs::vec::vec_index_mut(&mut self.missions, idx);
        let ms_ref = vstd::std_specs::vec::vec_index_mut(&mut m_ref.milestones, ms_idx);
        ms_ref.status = MilestoneStatus::Approved;
        m_ref.released_funds = released + amount;
        proof {
            lemma_msum_update(
                old_milestones,
                ms_idx as int,
                self.missions@[idx as int].milestones@[ms_idx as int],
            );
            lemma_approved_le_amount(self.missions@[idx as int].milestones@);
            assert forall|i: int|
                0 <= i < self.disputes@.len() implies dispute_wf(
                #[trigger] self.disputes@[i],
                self.missions@,
            ) by {
                let d = self.disputes@[i];
                assert(dispute_wf(d, old(self).missions@));
                if d.mission_id == idx && d.milestone_id == ms_idx {
                    assert(disputed_milestone(d, old(self).missions@).status
                        != MilestoneStatus::Submitted);
                }
                assert(disputed_milestone(d, self.missions@) == disputed_milestone(
                    d,
                    old(self).missions@,
                ));
            }
        }
    }

    /// Approve a Submitted milestone and release its amount. Client only.
    pub fn approve_milestone(&mut self, caller: AccountId, mission_id: u64, milestone_id: u64)
        -> (r: Result<(), EscrowError>)
        requires
            old(self).wf(),
        ensures
            final(self).wf(),
            final(self).disputes@ == old(self).disputes@,
            match r {
                Ok(()) => {
                    &&& mission_id < old(self).missions@.len()
                    &&& caller == old(self).missions@[mission_id as int].client
                    &&& milestone_id < old(self).missions@[mission_id as int].milestones@.len()
                    &&& old(self).missions@[mission_id as int].milestones@[
                        milestone_id as int].status == MilestoneStatus::Submitted
                    &&& Self::mission_frame(*old(self), *final(self), mission_id)
                    &&& Self::milestone_frame(*old(self), *final(self), mission_id, milestone_id)
                    &&& final(self).missions@[mission_id as int].milestones@[
                        milestone_id as int] == (Milestone {
                        status: MilestoneStatus::Approved,
                        ..old(self).missions@[mission_id as int].milestones@[milestone_id as int]
                    })
                    &&& final(self).missions@[mission_id as int].released_funds == old(
                        self,
                    ).missions@[mission_id as int].released_funds + old(
                        self,
                    ).missions@[mission_id as int].milestones@[milestone_id as int].amount
                    &&& final(self).missions@[mission_id as int].released_funds <= old(
                        self,
                    ).missions@[mission_id as int].total_budget
                },
                Err(e) => {
                    &&& *final(self) == *old(self)
                    &&& (e == EscrowError::MissionNotFound || e == EscrowError::UnauthorizedClient
                        || e == EscrowError::MilestoneNotFound || e
                        == EscrowError::InvalidMilestoneStatus)
                    &&& (e == EscrowError::MissionNotFound <==> mission_id >= old(
                        self,
                    ).missions@.len())
                    &&& (e == EscrowError::UnauthorizedClient <==> mission_id < old(
                        self,
                    ).missions@.len() && caller != old(self).missions@[mission_id as int].client)
                    &&& (e == EscrowError::MilestoneNotFound <==> mission_id < old(
                        self,
                    ).missions@.len() && caller == old(self).missions@[mission_id as int].client
                        && milestone_id >= old(self).missions@[mission_id as int].milestones@.len())
                    &&& (e == EscrowError::InvalidMilestoneStatus <==> mission_id < old(
                        self,
                    ).missions@.len() && caller == old(self).missions@[mission_id as int].client
                        && milestone_id < old(self).missions@[mission_id as int].milestones@.len()
                        && old(self).missions@[mission_id as int].milestones@[
                        milestone_id as int].status != MilestoneStatus::Submitted)
                },
            },
    {
        if mission_id >= self.missions.len() as u64 {
            return Err(EscrowError::MissionNotFound);
        }
        let idx = mission_id as usize;
        if caller != self.missions[idx].client {
            return Err(EscrowError::UnauthorizedClient);
        }
        if milestone_id >= self.missions[idx].milestones.len() as u64 {
            return Err(EscrowError::MilestoneNotFound);
        }
        let ms_idx = milestone_id as usize;
        if !matches!(self.missions[idx].milestones[ms_idx].status, MilestoneStatus::Submitted) {
            return Err(EscrowError::InvalidMilestoneStatus);
        }
        self.release_milestone(idx, ms_idx);
        Ok(())
    }

    /// Reject a Submitted milestone. Client only; rejection is terminal
    /// and releases nothing.
    pub fn reject_milestone(&mut self, caller: AccountId, mission_id: u64, milestone_id: u64)
        -> (r: Result<(), EscrowError>)
        requires
            old(self).wf(),
        ensures
            final(self).wf(),
            final(self).disputes@ == old(self).disputes@,
            match r {
                Ok(()) => {
                    &&& mission_id < old(self).missions@.len()
                    &&& caller == old(self).missions@[mission_id as int].client
                    &&& milestone_id < old(self).missions@[mission_id as int].milestones@.len()
                    &&& old(self).missions@[mission_id as int].milestones@[
                        milestone_id as int].status == MilestoneStatus::Submitted
                    &&& Self::mission_frame(*old(self), *final(self), mission_id)
                    &&& Self::milestone_frame(*old(self), *final(self), mission_id, milestone_id)
                    &&& final(self).missions@[mission_id as int].milestones@[
                        milestone_id as int] == (Milestone {
                        status: MilestoneStatus::Rejected,
                        ..old(self).missions@[mission_id as int].milestones@[milestone_id as int]
                    })
                    &&& final(self).missions@[mission_id as int].released_funds == old(
                        self,
                    ).missions@[mission_id as int].released_funds
                },
                Err(e) => {
                    &&& *final(self) == *old(self)
                    &&& (e == EscrowError::MissionNotFound || e == EscrowError::UnauthorizedClient
                        || e == EscrowError::MilestoneNotFound || e
                        == EscrowError::InvalidMilestoneStatus)
                    &&& (e == EscrowError::MissionNotFound <==> mission_id >= old(
                        self,
                    ).missions@.len())
                    &&& (e == EscrowError::UnauthorizedClient <==> mission_id < old(
                        self,
                    ).missions@.len() && caller != old(self).missions@[mission_id as int].client)
                    &&& (e == EscrowError::MilestoneNotFound <==> mission_id < old(
                        self,
                    ).missions@.len() && caller == old(self).missions@[mission_id as int].client
                        && milestone_id >= old(self).missions@[mission_id as int].milestones@.len())
                    &&& (e == EscrowError::InvalidMilestoneStatus <==> mission_id < old(
                        self,
                    ).missions@.len() && caller == old(self).missions@[mission_id as int].client
                        && milestone_id < old(self).missions@[mission_id as int].milestones@.len()
                        && old(self).missions@[mission_id as int].milestones@[
                        milestone_id as int].status != MilestoneStatus::Submitted)
                },
            },
    {
        if mission_id >= self.missions.len() as u64 {
            return Err(EscrowError::MissionNotFound);
        }
        let idx = mission_id as usize;
        if caller != self.missions[idx].client {
            return Err(EscrowError::UnauthorizedClient);
        }
        if milestone_id >= self.missions[idx].milestones.len() as u64 {
            return Err(EscrowError::MilestoneNotFound);
        }
        let ms_idx = milestone_id as usize;
        if !matches!(self.missions[idx].milestones[ms_idx].status, MilestoneStatus::Submitted) {
            return Err(EscrowError::InvalidMilestoneStatus);
        }
        let ghost old_milestones = self.missions@[mission_id as int].milestones@;
        let m_ref = vstd::std_specs::vec::vec_index_mut(&mut self.missions, idx);
        let ms_ref = vstd::std_specs::vec::vec_index_mut(&mut m_ref.milestones, ms_idx);
        ms_ref.status = MilestoneStatus::Rejected;
        proof {
            lemma_msum_update(
                old_milestones,
                milestone_id as int,
                self.missions@[mission_id as int].milestones@[milestone_id as int],
            );
            assert forall|i: int|
                0 <= i < self.disputes@.len() implies dispute_wf(
                #[trigger] self.disputes@[i],
                self.missions@,
            ) by {
                let d = self.disputes@[i];
                assert(dispute_wf(d, old(self).missions@));
                if d.mission_id == mission_id && d.milestone_id == milestone_id {
                    assert(disputed_milestone(d, old(self).missions@).status
                        != MilestoneStatus::Submitted);
                }
                assert(disputed_milestone(d, self.missions@) == disputed_milestone(
                    d,
                    old(self).missions@,
                ));
            }
        }
        Ok(())
    }

    /// Release a Submitted milestone that the client has left unanswered
    /// for the auto-release delay. Anyone may call this; it protects the
    /// consultant against an unresponsive client and behaves exactly like
    /// approval.
    pub fn auto_release_milestone(&mut self, mission_id: u64, milestone_id: u64, now: u64) -> (r:
        Result<(), EscrowError>)
        requires
            old(self).wf(),
        ensures
            final(self).wf(),
            final(self).disputes@ == old(self).disputes@,
            match r {
                Ok(()) => {
                    &&& mission_id < old(self).missions@.len()
                    &&& milestone_id < old(self).missions@[mission_id as int].milestones@.len()
                    &&& old(self).missions@[mission_id as int].milestones@[
                        milestone_id as int].status == MilestoneStatus::Submitted
                    &&& old(self).missions@[mission_id as int].milestones@[
                        milestone_id as int].submitted_at + AUTO_RELEASE_DELAY <= u64::MAX
                    &&& now >= old(self).missions@[mission_id as int].milestones@[
                        milestone_id as int].submitted_at + AUTO_RELEASE_DELAY
                    &&& Self::mission_frame(*old(self), *final(self), mission_id)
                    &&& Self::milestone_frame(*old(self), *final(self), mission_id, milestone_id)
                    &&& final(self).missions@[mission_id as int].milestones@[
                        milestone_id as int] == (Milestone {
                        status: MilestoneStatus::Approved,
                        ..old(self).missions@[mission_id as int].milestones@[milestone_id as int]
                    })
                    &&& final(self).missions@[mission_id as int].released_funds == old(
                        self,
                    ).missions@[mission_id as int].released_funds + old(
                        self,
                    ).missions@[mission_id as int].milestones@[milestone_id as int].amount
                    &&& final(self).missions@[mission_id as int].released_funds <= old(
                        self,
                    ).missions@[mission_id as int].total_budget
                },
                Err(e) => {
                    &&& *final(self) == *old(self)
                    &&& (e == EscrowError::MissionNotFound || e == EscrowError::MilestoneNotFound
                        || e == EscrowError::InvalidMilestoneStatus || e
                        == EscrowError::ArithmeticOverflow || e
                        == EscrowError::AutoReleaseDelayNotMet)
                    &&& (e == EscrowError::MissionNotFound <==> mission_id >= old(
                        self,
                    ).missions@.len())
                    &&& (e == EscrowError::MilestoneNotFound <==> mission_id < old(
                        self,
                    ).missions@.len() && milestone_id >= old(
                        self,
                    ).missions@[mission_id as int].milestones@.len())
                    &&& (e == EscrowError::InvalidMilestoneStatus <==> mission_id < old(
                        self,
                    ).missions@.len() && milestone_id < old(
                        self,
                    ).missions@[mission_id as int].milestones@.len() && old(
                        self,
                    ).missions@[mission_id as int].milestones@[milestone_id as int].status
                        != MilestoneStatus::Submitted)
                    &&& (e == EscrowError::ArithmeticOverflow <==> mission_id < old(
                        self,
                    ).missions@.len() && milestone_id < old(
                        self,
                    ).missions@[mission_id as int].milestones@.len() && old(
                        self,
                    ).missions@[mission_id as int].milestones@[milestone_id as int].status
                        == MilestoneStatus::Submitted && old(
                        self,
                    ).missions@[mission_id as int].milestones@[milestone_id as int].submitted_at
                        + AUTO_RELEASE_DELAY > u64::MAX)
                    &&& (e == EscrowError::AutoReleaseDelayNotMet <==> mission_id < old(
                        self,
                    ).missions@.len() && milestone_id < old(
                        self,
                    ).missions@[mission_id as int].milestones@.len() && old(
                        self,
                    ).missions@[mission_id as int].milestones@[milestone_id as int].status
                        == MilestoneStatus::Submitted && old(
                        self,
                    ).missions@[mission_id as int].milestones@[milestone_id as int].submitted_at
                        + AUTO_RELEASE_DELAY <= u64::MAX && now < old(
                        self,
                    ).missions@[mission_id as int].milestones@[milestone_id as int].submitted_at
                        + AUTO_RELEASE_DELAY)
                },
            },
    {
        if mission_id >= self.missions.len() as u64 {
            return Err(EscrowError::MissionNotFound);
        }
        let idx = mission_id as usize;
        if milestone_id >= self.missions[idx].milestones.len() as u64 {
            return Err(EscrowError::MilestoneNotFound);
        }
        let ms_idx = milestone_id as usize;
        if !matches!(self.missions[idx].milestones[ms_idx].status, MilestoneStatus::Submitted) {
            return Err(EscrowError::InvalidMilestoneStatus);
        }
        let release_at = match self.missions[idx].milestones[ms_idx].submitted_at.checked_add(
            AUTO_RELEASE_DELAY,
        ) {
            None => {
                return Err(EscrowError::ArithmeticOverflow);
            },
            Some(t) => t,
        };
        if now < release_at {
            return Err(EscrowError::AutoReleaseDelayNotMet);
        }
        self.release_milestone(idx, ms_idx);
        Ok(())
    }
}

/// Choose a jury for a dispute between `client` and `consultant`: exactly
/// `JURY_SIZE` distinct members, all active, at or above the jury rank
/// floor, and neither party. The seed picks which eligible members serve;
/// selection succeeds exactly when enough members qualify.
pub fn select_jury(
    registry: &MembershipRegistry,
    client: AccountId,
    consultant: AccountId,
    seed: u64,
) -> (r: Result<Vec<AccountId>, EscrowError>)
    requires
        registry.wf(),
    ensures
        match r {
            Ok(jurors) => {
                &&& eligible_juror_count(registry.members@, client, consultant) >= JURY_SIZE
                &&& jurors@.len() == JURY_SIZE
                &&& forall|i: int, j: int|
                    0 <= i < j < jurors@.len() ==> jurors@[i] != jurors@[j]
                &&& forall|i: int|
                    0 <= i < jurors@.len() ==> is_eligible_juror(
                        *registry,
                        #[trigger] jurors@[i],
                        client,
                        consultant,
                    )
            },
            Err(e) => e == EscrowError::InsufficientEligibleJurors && eligible_juror_count(
                registry.members@,
                client,
                consultant,
            ) < JURY_SIZE,
        },
{
    let s = Ghost(registry.members@);
    let mut pool: Vec<AccountId> = Vec::new();
    let mut i: usize = 0;
    proof {
        assert(s@.take(0) =~= Seq::<(AccountId, Member)>::empty());
    }
    while i < registry.members.len()
        invariant
            registry.wf(),
            s@ == registry.members@,
            i <= s@.len(),
            pool@.len() == eligible_juror_count(s@.take(i as int), client, consultant),
            forall|k: int|
                0 <= k < pool@.len() ==> exists|j: int|
                    0 <= j < i && ((#[trigger] pool@[k]) == ((#[trigger] s@[j]).0)),
            forall|k: int|
                0 <= k < pool@.len() ==> is_eligible_juror(
                    *registry,
                    #[trigger] pool@[k],
                    client,
                    consultant,
                ),
            forall|k1: int, k2: int| 0 <= k1 < k2 < pool@.len() ==> pool@[k1] != pool@[k2],
        decreases s@.len() - i,
    {
        let (acc, m) = registry.members[i];
        proof {
            assert(s@.take(i + 1) =~= s@.take(i as int).push(s@[i as int]));
            lemma_ejc_push(s@.take(i as int), s@[i as int], client, consultant);
        }
        if m.active && m.rank >= JURY_MIN_RANK && acc != client && acc != consultant {
            proof {
                lemma_key_index(s@, acc, i as int);
                assert forall|k: int| 0 <= k < pool@.len() implies (#[trigger] pool@[k])
                    != acc by {
                    let j = choose|j: int|
                        0 <= j < i && ((#[trigger] pool@[k]) == ((#[trigger] s@[j]).0));
                    assert(s@[j].0 != s@[i as int].0);
                }
            }
            let ghost pre = pool@;
            pool.push(acc);
            proof {
                assert(pool@ == pre.push(acc));
                assert forall|k: int| 0 <= k < pool@.len() implies exists|j: int|
                    0 <= j <= i && ((#[trigger] pool@[k]) == ((#[trigger] s@[j]).0)) by {
                    if k < pre.len() {
                        let j = choose|j: int|
                            0 <= j < i && ((#[trigger] pre[k]) == ((#[trigger] s@[j]).0));
                        assert(pool@[k] == s@[j].0);
                    } else {
                        assert(pool@[k] == s@[i as int].0);
                    }
                }
            }
        }
        i = i + 1;
    }
    proof {
        assert(s@.take(s@.len() as int) =~= s@);
    }
    if pool.len() < JURY_SIZE {
        return Err(EscrowError::InsufficientEligibleJurors);
    }
    let mut jurors: Vec<AccountId> = Vec::new();
    let mut draws: usize = 0;
    while draws < JURY_SIZE
        invariant
            registry.wf(),
            draws <= JURY_SIZE,
            jurors@.len() == draws,
            pool@.len() + draws >= JURY_SIZE,
            forall|k: int|
                0 <= k < pool@.len() ==> is_eligible_juror(
                    *registry,
                    #[trigger] pool@[k],
                    client,
                    consultant,
                ),
            forall|k1: int, k2: int| 0 <= k1 < k2 < pool@.len() ==> pool@[k1] != pool@[k2],
            forall|k: int|
                0 <= k < jurors@.len() ==> is_eligible_juror(
                    *registry,
                    #[trigger] jurors@[k],
                    client,
                    consultant,
                ),
            forall|k1: int, k2: int| 0 <= k1 < k2 < jurors@.len() ==> jurors@[k1] != jurors@[k2],
            forall|k1: int, k2: int|
                0 <= k1 < jurors@.len() && 0 <= k2 < pool@.len() ==> jurors@[k1] != pool@[k2],
        decreases JURY_SIZE - draws,
    {
        let pick = ((seed >> ((draws as u64) * 8)) % (pool.len() as u64)) as usize;
        let ghost pre_pool = pool@;
        let chosen = pool.swap_remove(pick);
        proof {
            assert(pool@ =~= pre_pool.update(pick as int, pre_pool.last()).drop_last());
            assert forall|k: int| 0 <= k < pool@.len() implies is_eligible_juror(
                *registry,
                #[trigger] pool@[k],
                client,
                consultant,
            ) by {
                if k == pick {
                    assert(pool@[k] == pre_pool.last());
                } else {
                    assert(pool@[k] == pre_pool[k]);
                }
            }
            assert forall|k1: int, k2: int| 0 <= k1 < k2 < pool@.len() implies pool@[k1]
                != pool@[k2] by {
                let a: int = if k1 == pick {
                    pre_pool.len() - 1
                } else {
                    k1
                };
                let b: int = if k2 == pick {
                    pre_pool.len() - 1
                } else {
                    k2
                };
                assert(pool@[k1] == pre_pool[a] && pool@[k2] == pre_pool[b]);
            }
            assert forall|k: int| 0 <= k < pool@.len() implies pool@[k] != chosen by {
                let a: int = if k == pick {
                    pre_pool.len() - 1
                } else {
                    k
                };
                assert(pool@[k] == pre_pool[a]);
                assert(chosen == pre_pool[pick as int]);
            }
        }
        let ghost pre_jurors = jurors@;
        jurors.push(chosen);
        proof {
            assert(jurors@ == pre_jurors.push(chosen));
        }
        draws = draws + 1;
    }
    Ok(jurors)
}

impl Marketplace {
    /// Contest a milestone. Either party may raise a dispute while the
    /// milestone is still Pending or Submitted; a jury is selected from
    /// the registry by the host-supplied seed, the milestone becomes
    /// Disputed, and voting opens until `now + VOTING_PERIOD`. Returns the
    /// new dispute's id.
    pub fn raise_dispute(
        &mut self,
        caller: AccountId,
        mission_id: u64,
        milestone_id: u64,
        reason: Vec<u8>,
        now: u64,
        seed: u64,
        registry: &MembershipRegistry,
    ) -> (r: Result<u64, EscrowError>)
        requires
            old(self).wf(),
            registry.wf(),
        ensures
            final(self).wf(),
            match r {
                Ok(did) => {
                    &&& mission_id < old(self).missions@.len()
                    &&& (caller == old(self).missions@[mission_id as int].client || caller == old(
                        self,
                    ).missions@[mission_id as int].consultant)
                    &&& milestone_id < old(self).missions@[mission_id as int].milestones@.len()
                    &&& (old(self).missions@[mission_id as int].milestones@[
                        milestone_id as int].status == MilestoneStatus::Pending || old(
                        self,
                    ).missions@[mission_id as int].milestones@[milestone_id as int].status
                        == MilestoneStatus::Submitted)
                    &&& eligible_juror_count(
                        registry.members@,
                        old(self).missions@[mission_id as int].client,
                        old(self).missions@[mission_id as int].consultant,
                    ) >= JURY_SIZE
                    &&& now + VOTING_PERIOD <= u64::MAX
                    &&& did == old(self).disputes@.len()
                    &&& final(self).disputes@.len() == old(self).disputes@.len() + 1
                    &&& forall|j: int|
                        0 <= j < old(self).disputes@.len() ==> final(self).disputes@[j] == old(
                            self,
                        ).disputes@[j]
                    &&& final(self).disputes@[did as int].mission_id == mission_id
                    &&& final(self).disputes@[did as int].milestone_id == milestone_id
                    &&& final(self).disputes@[did as int].initiator == caller
                    &&& final(self).disputes@[did as int].reason == reason
                    &&& final(self).disputes@[did as int].jurors@.len() == JURY_SIZE
                    &&& forall|k: int|
                        0 <= k < JURY_SIZE ==> is_eligible_juror(
                            *registry,
                            #[trigger] final(self).disputes@[did as int].jurors@[k],
                            old(self).missions@[mission_id as int].client,
                            old(self).missions@[mission_id as int].consultant,
                        )
                    &&& final(self).disputes@[did as int].votes@.len() == 0
                    &&& final(self).disputes@[did as int].votes_for == 0
                    &&& final(self).disputes@[did as int].votes_against == 0
                    &&& final(self).disputes@[did as int].status == DisputeStatus::Voting
                    &&& final(self).disputes@[did as int].winner.is_none()
                    &&& final(self).disputes@[did as int].created_at == now
                    &&& final(self).disputes@[did as int].voting_deadline == now + VOTING_PERIOD
                    &&& Self::mission_frame(*old(self), *final(self), mission_id)
                    &&& Self::milestone_frame(*old(self), *final(self), mission_id, milestone_id)
                    &&& final(self).missions@[mission_id as int].milestones@[
                        milestone_id as int] == (Milestone {
                        status: MilestoneStatus::Disputed,
                        ..old(self).missions@[mission_id as int].milestones@[milestone_id as int]
                    })
                    &&& final(self).missions@[mission_id as int].released_funds == old(
                        self,
                    ).missions@[mission_id as int].released_funds
                },
                Err(e) => {
                    &&& *final(self) == *old(self)
                    &&& (e == EscrowError::MissionNotFound || e == EscrowError::UnauthorizedClient
                        || e == EscrowError::MilestoneNotFound || e
                        == EscrowError::InvalidMilestoneStatus || e
                        == EscrowError::InsufficientEligibleJurors || e
                        == EscrowError::ArithmeticOverflow)
                    &&& (e == EscrowError::MissionNotFound <==> mission_id >= old(
                        self,
                    ).missions@.len())
                    &&& (e == EscrowError::UnauthorizedClient <==> mission_id < old(
                        self,
                    ).missions@.len() && !(caller == old(self).missions@[mission_id as int].client
                        || caller == old(self).missions@[mission_id as int].consultant))
                    &&& (e == EscrowError::MilestoneNotFound <==> mission_id < old(
                        self,
                    ).missions@.len() && (caller == old(self).missions@[mission_id as int].client
                        || caller == old(self).missions@[mission_id as int].consultant)
                        && milestone_id >= old(self).missions@[mission_id as int].milestones@.len())
                    &&& (e == EscrowError::InvalidMilestoneStatus <==> mission_id < old(
                        self,
                    ).missions@.len() && (caller == old(self).missions@[mission_id as int].client
                        || caller == old(self).missions@[mission_id as int].consultant)
                        && milestone_id < old(self).missions@[mission_id as int].milestones@.len()
                        && !(old(self).missions@[mission_id as int].milestones@[
                        milestone_id as int].status == MilestoneStatus::Pending || old(
                        self,
                    ).missions@[mission_id as int].milestones@[milestone_id as int].status
                        == MilestoneStatus::Submitted))
                    &&& (e == EscrowError::InsufficientEligibleJurors ==> eligible_juror_count(
                        registry.members@,
                        old(self).missions@[mission_id as int].client,
                        old(self).missions@[mission_id as int].consultant,
                    ) < JURY_SIZE)
                    &&& (e == EscrowError::ArithmeticOverflow <==> mission_id < old(
                        self,
                    ).missions@.len() && (caller == old(self).missions@[mission_id as int].client
                        || caller == old(self).missions@[mission_id as int].consultant)
                        && milestone_id < old(self).missions@[mission_id as int].milestones@.len()
                        && (old(self).missions@[mission_id as int].milestones@[
                        milestone_id as int].status == MilestoneStatus::Pending || old(
                        self,
                    ).missions@[mission_id as int].milestones@[milestone_id as int].status
                        == MilestoneStatus::Submitted) && eligible_juror_count(
                        registry.members@,
                        old(self).missions@[mission_id as int].client,
                        old(self).missions@[mission_id as int].consultant,
                    ) >= JURY_SIZE && now + VOTING_PERIOD > u64::MAX)
                },
            },
    {
        if mission_id >= self.missions.len() as u64 {
            return Err(EscrowError::MissionNotFound);
        }
        let idx = mission_id as usize;
        let client = self.missions[idx].client;
        let consultant = self.missions[idx].consultant;
        if caller != client && caller != consultant {
            return Err(EscrowError::UnauthorizedClient);
        }
        if milestone_id >= self.missions[idx].milestones.len() as u64 {
            return Err(EscrowError::MilestoneNotFound);
        }
        let ms_idx = milestone_id as usize;
        let status = self.missions[idx].milestones[ms_idx].status;
        if !(matches!(status, MilestoneStatus::Pending) || matches!(
            status,
            MilestoneStatus::Submitted,
        )) {
            return Err(EscrowError::InvalidMilestoneStatus);
        }
        let jurors = match select_jury(registry, client, consultant, seed) {
            Err(e) => {
                return Err(e);
            },
            Ok(j) => j,
        };
        let voting_deadline = match now.checked_add(VOTING_PERIOD) {
            None => {
                return Err(EscrowError::ArithmeticOverflow);
            },
            Some(t) => t,
        };
        let ghost old_milestones = self.missions@[mission_id as int].milestones@;
        let m_ref = vstd::std_specs::vec::vec_index_mut(&mut self.missions, idx);
        let ms_ref = vstd::std_specs::vec::vec_index_mut(&mut m_ref.milestones, ms_idx);
        ms_ref.status = MilestoneStatus::Disputed;
        let did = self.disputes.len() as u64;
        let dispute = Dispute {
            mission_id,
            milestone_id,
            initiator: caller,
            reason,
            jurors,
            votes: Vec::new(),
            votes_for: 0,
            votes_against: 0,
            status: DisputeStatus::Voting,
            winner: None,
            created_at: now,
            voting_deadline,
        };
        self.disputes.push(dispute);
        proof {
            lemma_msum_update(
                old_milestones,
                milestone_id as int,
                self.missions@[mission_id as int].milestones@[milestone_id as int],
            );
            assert forall|i: int|
                0 <= i < self.disputes@.len() implies dispute_wf(
                #[trigger] self.disputes@[i],
                self.missions@,
            ) by {
                if i < old(self).disputes@.len() {
                    let d = self.disputes@[i];
                    assert(dispute_wf(d, old(self).missions@));
                    if d.mission_id == mission_id && d.milestone_id == milestone_id {
                        assert(disputed_milestone(d, old(self).missions@).status
                            != MilestoneStatus::Pending);
                        assert(disputed_milestone(d, old(self).missions@).status
                            != MilestoneStatus::Submitted);
                    }
                    assert(disputed_milestone(d, self.missions@) == disputed_milestone(
                        d,
                        old(self).missions@,
                    ));
                }
            }
            assert forall|i: int, j: int|
                0 <= i < j < self.disputes@.len() implies !((
            #[trigger] self.disputes@[i]).mission_id == (#[trigger] self.disputes@[j]).mission_id
                && self.disputes@[i].milestone_id == self.disputes@[j].milestone_id) by {
                if j == old(self).disputes@.len() {
                    let d = self.disputes@[i];
                    assert(dispute_wf(d, old(self).missions@));
                    if d.mission_id == mission_id && d.milestone_id == milestone_id {
                        assert(disputed_milestone(d, old(self).missions@).status
                            != MilestoneStatus::Pending);
                        assert(disputed_milestone(d, old(self).missions@).status
                            != MilestoneStatus::Submitted);
                    }
                }
            }
        }
        Ok(did)
    }

    /// Settle the Voting dispute at `d_idx` from its current counters:
    /// more votes for the consultant approve the milestone and release its
    /// amount; more votes for the client reject it; a tie names no winner
    /// and moves no funds.
    fn resolve_dispute_internal(&mut self, d_idx: usize)
        requires
            old(self).wf(),
            d_idx < old(self).disputes@.len(),
            old(self).disputes@[d_idx as int].status == DisputeStatus::Voting,
        ensures
            final(self).wf(),
            final(self).disputes@.len() == old(self).disputes@.len(),
            forall|j: int|
                0 <= j < old(self).disputes@.len() && j != d_idx ==> final(self).disputes@[j]
                    == old(self).disputes@[j],
            final(self).disputes@[d_idx as int] == (Dispute {
                status: DisputeStatus::Resolved,
                winner: spec_winner(
                    old(self).disputes@[d_idx as int].votes_for,
                    old(self).disputes@[d_idx as int].votes_against,
                    old(self).missions@[old(self).disputes@[d_idx as int].mission_id as int],
                ),
                ..old(self).disputes@[d_idx as int]
            }),
            Self::mission_frame(
                *old(self),
                *final(self),
                old(self).disputes@[d_idx as int].mission_id,
            ),
            Self::milestone_frame(
                *old(self),
                *final(self),
                old(self).disputes@[d_idx as int].mission_id,
                old(self).disputes@[d_idx as int].milestone_id,
            ),
            ({
                let d = old(self).disputes@[d_idx as int];
                let mission = old(self).missions@[d.mission_id as int];
                let ms = mission.milestones@[d.milestone_id as int];
                if d.votes_for > d.votes_against {
                    &&& final(self).missions@[d.mission_id as int].milestones@[
                        d.milestone_id as int] == (Milestone {
                        status: MilestoneStatus::Approved,
                        ..ms
                    })
                    &&& final(self).missions@[d.mission_id as int].released_funds
                        == mission.released_funds + ms.amount
                    &&& final(self).missions@[d.mission_id as int].released_funds
                        <= mission.total_budget
                } else if d.votes_against > d.votes_for {
                    &&& final(self).missions@[d.mission_id as int].milestones@[
                        d.milestone_id as int] == (Milestone {
                        status: MilestoneStatus::Rejected,
                        ..ms
                    })
                    &&& final(self).missions@[d.mission_id as int].released_funds
                        == mission.released_funds
                } else {
                    final(self).missions@ == old(self).missions@
                }
            }),
    {
        let d_votes_for = self.disputes[d_idx].votes_for;
        let d_votes_against = self.disputes[d_idx].votes_against;
        let mission_id = self.disputes[d_idx].mission_id;
        let milestone_id = self.disputes[d_idx].milestone_id;
        let idx = mission_id as usize;
        let ms_idx = milestone_id as usize;
        proof {
            assert(dispute_wf(self.disputes@[d_idx as int], self.missions@));
        }
        let n = self.missions.len();
        proof {
            assert(mission_id < n as u64);
        }
        let ms_n = self.missions[idx].milestones.len();
        proof {
            assert(milestone_id < ms_n as u64);
        }
        let client = self.missions[idx].client;
        let consultant = self.missions[idx].consultant;
        let winner: Option<AccountId> = if d_votes_for > d_votes_against {
            Some(consultant)
        } else if d_votes_against > d_votes_for {
            Some(client)
        } else {
            None
        };
        let ghost old_milestones = self.missions@[mission_id as int].milestones@;
        if d_votes_for > d_votes_against {
            let amount = self.missions[idx].milestones[ms_idx].amount;
            let released = self.missions[idx].released_funds;
            proof {
                let new_ms = Milestone {
                    status: MilestoneStatus::Approved,
                    ..old_milestones[ms_idx as int]
                };
                lemma_msum_update(old_milestones, ms_idx as int, new_ms);
                lemma_approved_le_amount(old_milestones.update(ms_idx as int, new_ms));
            }
            let m_ref = vstd::std_specs::vec::vec_index_mut(&mut self.missions, idx);
            let ms_ref = vstd::std_specs::vec::vec_index_mut(&mut m_ref.milestones, ms_idx);
            ms_ref.status = MilestoneStatus::Approved;
            m_ref.released_funds = released + amount;
            proof {
                lemma_msum_update(
                    old_milestones,
                    ms_idx as int,
                    self.missions@[mission_id as int].milestones@[ms_idx as int],
                );
            }
        } else if d_votes_against > d_votes_for {
            let m_ref = vstd::std_specs::vec::vec_index_mut(&mut self.missions, idx);
            let ms_ref = vstd::std_specs::vec::vec_index_mut(&mut m_ref.milestones, ms_idx);
            ms_ref.status = MilestoneStatus::Rejected;
            proof {
                lemma_msum_update(
                    old_milestones,
                    ms_idx as int,
                    self.missions@[mission_id as int].milestones@[ms_idx as int],
                );
            }
        }
        let d_ref = vstd::std_specs::vec::vec_index_mut(&mut self.disputes, d_idx);
        d_ref.status = DisputeStatus::Resolved;
        d_ref.winner = winner;
        proof {
            assert forall|i: int|
                0 <= i < self.disputes@.len() implies dispute_wf(
                #[trigger] self.disputes@[i],
                self.missions@,
            ) by {
                let d = self.disputes@[i];
                if i == d_idx {
                    assert(dispute_wf(old(self).disputes@[d_idx as int], old(self).missions@));
                } else {
                    assert(dispute_wf(d, old(self).missions@));
                    assert(!(d.mission_id == mission_id && d.milestone_id == milestone_id));
                    if d.mission_id == mission_id {
                        assert(disputed_milestone(d, self.missions@) == disputed_milestone(
                            d,
                            old(self).missions@,
                        ));
                    } else {
                        assert(self.missions@[d.mission_id as int] == old(
                            self,
                        ).missions@[d.mission_id as int]);
                    }
                }
            }
        }
    }

    /// Cast a juror's vote on an open dispute, one vote per juror. The
    /// moment either side reaches a strict majority of the jury, the
    /// dispute resolves within the same call.
    pub fn vote_on_dispute(&mut self, caller: AccountId, dispute_id: u64, favor_consultant: bool)
        -> (r: Result<(), EscrowError>)
        requires
            old(self).wf(),
        ensures
            final(self).wf(),
            final(self).disputes@.len() == old(self).disputes@.len(),
            final(self).missions@.len() == old(self).missions@.len(),
            match r {
                Ok(()) => {
                    &&& dispute_id < old(self).disputes@.len()
                    &&& old(self).disputes@[dispute_id as int].status == DisputeStatus::Voting
                    &&& exists|j: int|
                        0 <= j < old(self).disputes@[dispute_id as int].jurors@.len() && old(
                            self,
                        ).disputes@[dispute_id as int].jurors@[j] == caller
                    &&& !has_dvote(old(self).disputes@[dispute_id as int].votes@, caller)
                    &&& forall|j: int|
                        0 <= j < old(self).disputes@.len() && j != dispute_id ==> final(self).disputes@[j] == old(self).disputes@[j]
                    &&& final(self).disputes@[dispute_id as int].votes@ == old(
                        self,
                    ).disputes@[dispute_id as int].votes@.push((caller, favor_consultant))
                    &&& ({
                        let d = old(self).disputes@[dispute_id as int];
                        let nf = d.votes_for + (
                        if favor_consultant {
                            1nat
                        } else {
                            0
                        });
                        let na = d.votes_against + (
                        if favor_consultant {
                            0nat
                        } else {
                            1
                        });
                        let mission = old(self).missions@[d.mission_id as int];
                        let ms = mission.milestones@[d.milestone_id as int];
                        &&& final(self).disputes@[dispute_id as int].votes_for == nf
                        &&& final(self).disputes@[dispute_id as int].votes_against == na
                        &&& final(self).disputes@[dispute_id as int].jurors@ == d.jurors@
                        &&& final(self).disputes@[dispute_id as int].mission_id == d.mission_id
                        &&& final(self).disputes@[dispute_id as int].milestone_id
                            == d.milestone_id
                        &&& final(self).disputes@[dispute_id as int].voting_deadline
                            == d.voting_deadline
                        &&& if nf >= JURY_MAJORITY || na >= JURY_MAJORITY {
                            &&& final(self).disputes@[dispute_id as int].status
                                == DisputeStatus::Resolved
                            &&& final(self).disputes@[dispute_id as int].winner == spec_winner(
                                nf as u64,
                                na as u64,
                                mission,
                            )
                            &&& if nf > na {
                                &&& final(self).missions@[d.mission_id as int].milestones@[
                                    d.milestone_id as int] == (Milestone {
                                    status: MilestoneStatus::Approved,
                                    ..ms
                                })
                                &&& final(self).missions@[d.mission_id as int].released_funds
                                    == mission.released_funds + ms.amount
                                &&& Self::mission_frame(*old(self), *final(self), d.mission_id)
                                &&& Self::milestone_frame(
                                    *old(self),
                                    *final(self),
                                    d.mission_id,
                                    d.milestone_id,
                                )
                            } else if na > nf {
                                &&& final(self).missions@[d.mission_id as int].milestones@[
                                    d.milestone_id as int] == (Milestone {
                                    status: MilestoneStatus::Rejected,
                                    ..ms
                                })
                                &&& final(self).missions@[d.mission_id as int].released_funds
                                    == mission.released_funds
                                &&& Self::mission_frame(*old(self), *final(self), d.mission_id)
                                &&& Self::milestone_frame(
                                    *old(self),
                                    *final(self),
                                    d.mission_id,
                                    d.milestone_id,
                                )
                            } else {
                                final(self).missions@ == old(self).missions@
                            }
                        } else {
                            &&& final(self).disputes@[dispute_id as int].status
                                == DisputeStatus::Voting
                            &&& final(self).disputes@[dispute_id as int].winner.is_none()
                            &&& final(self).missions@ == old(self).missions@
                        }
                    })
                },
                Err(e) => {
                    &&& *final(self) == *old(self)
                    &&& (e == EscrowError::DisputeNotFound || e == EscrowError::DisputeNotVoting
                        || e == EscrowError::NotJuror || e == EscrowError::AlreadyVoted || e
                        == EscrowError::ArithmeticOverflow)
                    &&& (e == EscrowError::DisputeNotFound <==> dispute_id >= old(
                        self,
                    ).disputes@.len())
                    &&& (e == EscrowError::DisputeNotVoting <==> dispute_id < old(
                        self,
                    ).disputes@.len() && old(self).disputes@[dispute_id as int].status
                        != DisputeStatus::Voting)
                    &&& (e == EscrowError::NotJuror <==> dispute_id < old(self).disputes@.len()
                        && old(self).disputes@[dispute_id as int].status == DisputeStatus::Voting
                        && !exists|j: int|
                        0 <= j < old(self).disputes@[dispute_id as int].jurors@.len() && old(
                            self,
                        ).disputes@[dispute_id as int].jurors@[j] == caller)
                    &&& (e == EscrowError::AlreadyVoted <==> dispute_id < old(
                        self,
                    ).disputes@.len() && old(self).disputes@[dispute_id as int].status
                        == DisputeStatus::Voting && (exists|j: int|
                        0 <= j < old(self).disputes@[dispute_id as int].jurors@.len() && old(
                            self,
                        ).disputes@[dispute_id as int].jurors@[j] == caller) && has_dvote(
                        old(self).disputes@[dispute_id as int].votes@,
                        caller,
                    ))
                    &&& (e == EscrowError::ArithmeticOverflow <==> dispute_id < old(
                        self,
                    ).disputes@.len() && old(self).disputes@[dispute_id as int].status
                        == DisputeStatus::Voting && (exists|j: int|
                        0 <= j < old(self).disputes@[dispute_id as int].jurors@.len() && old(
                            self,
                        ).disputes@[dispute_id as int].jurors@[j] == caller) && !has_dvote(
                        old(self).disputes@[dispute_id as int].votes@,
                        caller,
                    ) && (
                    if favor_consultant {
                        old(self).disputes@[dispute_id as int].votes_for
                    } else {
                        old(self).disputes@[dispute_id as int].votes_against
                    }) == u64::MAX)
                },
            },
    {
        if dispute_id >= self.disputes.len() as u64 {
            return Err(EscrowError::DisputeNotFound);
        }
        let d_idx = dispute_id as usize;
        if !matches!(self.disputes[d_idx].status, DisputeStatus::Voting) {
            return Err(EscrowError::DisputeNotVoting);
        }
        let d = &self.disputes[d_idx];
        let mut i: usize = 0;
        let mut found = false;
        while i < d.jurors.len()
            invariant
                i <= d.jurors@.len(),
                found <==> exists|j: int| 0 <= j < i && d.jurors@[j] == caller,
            decreases d.jurors@.len() - i,
        {
            if d.jurors[i] == caller {
                found = true;
            }
            i = i + 1;
        }
        if !found {
            return Err(EscrowError::NotJuror);
        }
        let mut k: usize = 0;
        let mut voted = false;
        while k < d.votes.len()
            invariant
                k <= d.votes@.len(),
                voted <==> exists|j: int| 0 <= j < k && (#[trigger] d.votes@[j]).0 == caller,
            decreases d.votes@.len() - k,
        {
            if d.votes[k].0 == caller {
                voted = true;
            }
            k = k + 1;
        }
        if voted {
            proof {
                assert(has_dvote(d.votes@, caller));
            }
            return Err(EscrowError::AlreadyVoted);
        }
        proof {
            assert(!has_dvote(d.votes@, caller));
        }
        let new_for: u64 = if favor_consultant {
            match d.votes_for.checked_add(1) {
                None => {
                    return Err(EscrowError::ArithmeticOverflow);
                },
                Some(v) => v,
            }
        } else {
            d.votes_for
        };
        let new_against: u64 = if favor_consultant {
            d.votes_against
        } else {
            match d.votes_against.checked_add(1) {
                None => {
                    return Err(EscrowError::ArithmeticOverflow);
                },
                Some(v) => v,
            }
        };
        proof {
            lemma_dvote_push(
                self.disputes@[dispute_id as int].votes@,
                (caller, favor_consultant),
            );
        }
        let d_ref = vstd::std_specs::vec::vec_index_mut(&mut self.disputes, d_idx);
        d_ref.votes.push((caller, favor_consultant));
        d_ref.votes_for = new_for;
        d_ref.votes_against = new_against;
        proof {
            assert forall|i2: int|
                0 <= i2 < self.disputes@.len() implies dispute_wf(
                #[trigger] self.disputes@[i2],
                self.missions@,
            ) by {
                assert(dispute_wf(old(self).disputes@[i2], old(self).missions@));
                if i2 == d_idx {
                    let dd = self.disputes@[i2];
                    let pre = old(self).disputes@[d_idx as int];
                    assert(dd.jurors@ == pre.jurors@);
                    assert forall|k2: int| 0 <= k2 < dd.votes@.len() implies exists|j: int|
                        0 <= j < dd.jurors@.len() && dd.jurors@[j] == (
                    #[trigger] dd.votes@[k2]).0 by {
                        if k2 < dd.votes@.len() - 1 {
                            assert(dd.votes@[k2] == pre.votes@[k2]);
                            let jj = choose|j: int|
                                0 <= j < pre.jurors@.len() && pre.jurors@[j] == pre.votes@[k2].0;
                            assert(dd.jurors@[jj] == dd.votes@[k2].0);
                        } else {
                            assert(dd.votes@[k2].0 == caller);
                            let jj = choose|j: int|
                                0 <= j < pre.jurors@.len() && pre.jurors@[j] == caller;
                            assert(dd.jurors@[jj] == caller);
                        }
                    }
                    lemma_votes_bounded_by_jury(dd.votes@, dd.jurors@);
                }
            }
        }
        if new_for >= JURY_MAJORITY || new_against >= JURY_MAJORITY {
            self.resolve_dispute_internal(d_idx);
        }
        Ok(())
    }

    /// Settle a dispute once either side holds a strict majority or the
    /// voting deadline has passed; before that the call is rejected with
    /// `VotingPeriodNotEnded`.
    pub fn resolve_dispute(&mut self, dispute_id: u64, now: u64) -> (r: Result<(), EscrowError>)
        requires
            old(self).wf(),
        ensures
            final(self).wf(),
            final(self).disputes@.len() == old(self).disputes@.len(),
            final(self).missions@.len() == old(self).missions@.len(),
            match r {
                Ok(()) => {
                    &&& dispute_id < old(self).disputes@.len()
                    &&& old(self).disputes@[dispute_id as int].status == DisputeStatus::Voting
                    &&& (old(self).disputes@[dispute_id as int].votes_for >= JURY_MAJORITY || old(
                        self,
                    ).disputes@[dispute_id as int].votes_against >= JURY_MAJORITY || now >= old(
                        self,
                    ).disputes@[dispute_id as int].voting_deadline)
                    &&& forall|j: int|
                        0 <= j < old(self).disputes@.len() && j != dispute_id ==> final(self).disputes@[j] == old(self).disputes@[j]
                    &&& final(self).disputes@[dispute_id as int] == (Dispute {
                        status: DisputeStatus::Resolved,
                        winner: spec_winner(
                            old(self).disputes@[dispute_id as int].votes_for,
                            old(self).disputes@[dispute_id as int].votes_against,
                            old(self).missions@[old(self).disputes@[
                                dispute_id as int].mission_id as int],
                        ),
                        ..old(self).disputes@[dispute_id as int]
                    })
                    &&& ({
                        let d = old(self).disputes@[dispute_id as int];
                        let mission = old(self).missions@[d.mission_id as int];
                        let ms = mission.milestones@[d.milestone_id as int];
                        if d.votes_for > d.votes_against {
                            &&& final(self).missions@[d.mission_id as int].milestones@[
                                d.milestone_id as int] == (Milestone {
                                status: MilestoneStatus::Approved,
                                ..ms
                            })
                            &&& final(self).missions@[d.mission_id as int].released_funds
                                == mission.released_funds + ms.amount
                            &&& Self::mission_frame(*old(self), *final(self), d.mission_id)
                            &&& Self::milestone_frame(
                                *old(self),
                                *final(self),
                                d.mission_id,
                                d.milestone_id,
                            )
                        } else if d.votes_against > d.votes_for {
                            &&& final(self).missions@[d.mission_id as int].milestones@[
                                d.milestone_id as int] == (Milestone {
                                status: MilestoneStatus::Rejected,
                                ..ms
                            })
                            &&& final(self).missions@[d.mission_id as int].released_funds
                                == mission.released_funds
                            &&& Self::mission_frame(*old(self), *final(self), d.mission_id)
                            &&& Self::milestone_frame(
                                *old(self),
                                *final(self),
                                d.mission_id,
                                d.milestone_id,
                            )
                        } else {
                            final(self).missions@ == old(self).missions@
                        }
                    })
                },
                Err(e) => {
                    &&& *final(self) == *old(self)
                    &&& (e == EscrowError::DisputeNotFound || e == EscrowError::DisputeNotVoting
                        || e == EscrowError::VotingPeriodNotEnded)
                    &&& (e == EscrowError::DisputeNotFound <==> dispute_id >= old(
                        self,
                    ).disputes@.len())
                    &&& (e == EscrowError::DisputeNotVoting <==> dispute_id < old(
                        self,
                    ).disputes@.len() && old(self).disputes@[dispute_id as int].status
                        != DisputeStatus::Voting)
                    &&& (e == EscrowError::VotingPeriodNotEnded <==> dispute_id < old(
                        self,
                    ).disputes@.len() && old(self).disputes@[dispute_id as int].status
                        == DisputeStatus::Voting && !(old(
                        self,
                    ).disputes@[dispute_id as int].votes_for >= JURY_MAJORITY || old(
                        self,
                    ).disputes@[dispute_id as int].votes_against >= JURY_MAJORITY || now >= old(
                        self,
                    ).disputes@[dispute_id as int].voting_deadline))
                },
            },
    {
        if dispute_id >= self.disputes.len() as u64 {
            return Err(EscrowError::DisputeNotFound);
        }
        let d_idx = dispute_id as usize;
        if !matches!(self.disputes[d_idx].status, DisputeStatus::Voting) {
            return Err(EscrowError::DisputeNotVoting);
        }
        let d = &self.disputes[d_idx];
        if !(d.votes_for >= JURY_MAJORITY || d.votes_against >= JURY_MAJORITY || now
            >= d.voting_deadline) {
            return Err(EscrowError::VotingPeriodNotEnded);
        }
        self.resolve_dispute_internal(d_idx);
        Ok(())
    }
}

/// A mission's released funds never exceed its total budget: what has
/// been paid out is the sum of the approved milestones' amounts, which the
/// milestone list keeps within the budget.
pub proof fn lemma_released_within_budget(mkt: Marketplace, mission_id: int)
    requires
        mkt.wf(),
        0 <= mission_id < mkt.missions@.len(),
    ensures
        mkt.missions@[mission_id].released_funds <= mkt.missions@[mission_id].total_budget,
{
    lemma_approved_le_amount(mkt.missions@[mission_id].milestones@);
}

/// A dispute never holds more votes than it has jurors, so neither
/// counter can exceed the jury size; in particular, a juror's vote can
/// never overflow a counter, and `vote_on_dispute` owes success to every
/// unvoted juror of an open dispute.
pub proof fn lemma_jury_vote_counters_bounded(mkt: Marketplace, dispute_id: int)
    requires
        mkt.wf(),
        0 <= dispute_id < mkt.disputes@.len(),
    ensures
        mkt.disputes@[dispute_id].votes_for <= JURY_SIZE,
        mkt.disputes@[dispute_id].votes_against <= JURY_SIZE,
{
    assert(dispute_wf(mkt.disputes@[dispute_id], mkt.missions@));
    lemma_dvote_count_le(mkt.disputes@[dispute_id].votes@, true);
    lemma_dvote_count_le(mkt.disputes@[dispute_id].votes@, false);
}

/// A settled dispute records as winner exactly the party that held the
/// strict majority of jury votes — the consultant on more votes for, the
/// client on more votes against — and records no winner on a tie.
pub proof fn lemma_resolved_winner(mkt: Marketplace, dispute_id: int)
    requires
        mkt.wf(),
        0 <= dispute_id < mkt.disputes@.len(),
        mkt.disputes@[dispute_id].status == DisputeStatus::Resolved,
    ensures
        mkt.disputes@[dispute_id].winner == spec_winner(
            mkt.disputes@[dispute_id].votes_for,
            mkt.disputes@[dispute_id].votes_against,
            mkt.missions@[mkt.disputes@[dispute_id].mission_id as int],
        ),
        mkt.disputes@[dispute_id].votes_for == mkt.disputes@[dispute_id].votes_against
            ==> mkt.disputes@[dispute_id].winner.is_none(),
{
    assert(dispute_wf(mkt.disputes@[dispute_id], mkt.missions@));
}


/// A prefix of the milestones never carries more amount than the whole.
pub proof fn lemma_amount_sum_prefix_bound(s: Seq<Milestone>, i: int)
    requires
        0 <= i <= s.len(),
    ensures
        amount_sum(s.take(i)) <= amount_sum(s),
    decreases s.len() - i,
{
    if i < s.len() {
        assert(s.take(i + 1) =~= s.take(i).push(s[i]));
        lemma_msum_push(s.take(i), s[i]);
        lemma_amount_sum_prefix_bound(s, i + 1);
    } else {
        assert(s.take(i) =~= s);
    }
}

} // verus!
