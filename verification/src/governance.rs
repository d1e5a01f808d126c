//! Governance engine.
//!
//! Track-based proposals with weighted voting. A proposal is created on one
//! of three tracks, each with its own rank floor, voting window and quorum
//! percentage. Members cast weighted votes exactly once per proposal; the
//! outcome is recomputed lazily from the stored tally, the track
//! configuration and the clock whenever a proposal is read or acted upon.

use vstd::prelude::*;

use crate::membership::AccountId;
use crate::membership::MembershipRegistry;
use crate::membership::lemma_sum_bounded;
use crate::membership::MAX_MEMBERS;

verus! {

/// Governance track.
#[derive(Clone, Copy, PartialEq, Eq, Structural, Debug)]
pub enum Track {
    /// Architecture, technology and security decisions.
    Technical,
    /// Budget and spending decisions.
    Treasury,
    /// Promotions, demotions and suspensions.
    Membership,
}

/// Per-track voting rules.
#[derive(Clone, Copy, PartialEq, Eq, Structural, Debug)]
pub struct TrackConfig {
    /// Minimum rank to propose or vote on this track.
    pub min_rank: u8,
    /// Delay between creation and the start of voting.
    pub voting_delay: u64,
    /// Length of the voting window.
    pub voting_period: u64,
    /// Quorum as a percentage of the eligible weight, 1 through 100.
    pub quorum_percent: u8,
}

/// Lifecycle of a proposal.
#[derive(Clone, Copy, PartialEq, Eq, Structural, Debug)]
pub enum ProposalState {
    /// Created; voting has not started.
    Pending,
    /// The voting window is open.
    Active,
    /// Cancelled by the proposer or the admin while Pending or Active.
    Cancelled,
    /// The vote failed: quorum missed, or not more for than against.
    Defeated,
    /// The vote passed; awaiting execution.
    Succeeded,
    /// Executed after succeeding.
    Executed,
}

/// A voter's choice.
#[derive(Clone, Copy, PartialEq, Eq, Structural, Debug)]
pub enum VoteType {
    For,
    Against,
    Abstain,
}

/// The write-once record of one account's vote on one proposal.
#[derive(Clone, Copy, PartialEq, Eq, Structural, Debug)]
pub struct VoteReceipt {
    pub voter: AccountId,
    pub vote: VoteType,
    pub weight: u64,
}

/// The three tally buckets of a proposal.
#[derive(Clone, Copy, PartialEq, Eq, Structural, Debug)]
pub struct VoteTally {
    pub for_votes: u64,
    pub against_votes: u64,
    pub abstain_votes: u64,
}

/// A governance proposal.
pub struct Proposal {
    /// Unique id; equals the proposal's position in the engine.
    pub id: u64,
    pub proposer: AccountId,
    pub track: Track,
    /// Free-form description bytes.
    pub description: Vec<u8>,
    /// Opaque bytes of the call to run on execution.
    pub target_call: Vec<u8>,
    pub created_at: u64,
    /// `created_at` plus the track's voting delay.
    pub voting_starts_at: u64,
    /// `voting_starts_at` plus the track's voting period.
    pub voting_ends_at: u64,
    /// Stored state; the effective state is recomputed from the clock.
    pub state: ProposalState,
    pub for_votes: u64,
    pub against_votes: u64,
    pub abstain_votes: u64,
    /// One receipt per voter, in voting order.
    pub receipts: Vec<VoteReceipt>,
}

/// Why a governance operation was rejected. Every rejection leaves the
/// engine unchanged.
#[derive(Clone, Copy, PartialEq, Eq, Structural, Debug)]
pub enum GovernanceError {
    /// Caller is neither the proposer nor the admin.
    Unauthorized,
    /// The track has no configuration.
    TrackNotConfigured,
    /// Proposer rank below the track minimum, or proposer unknown.
    InsufficientRank,
    /// Voter rank below the track minimum, or voter unknown.
    VoterInsufficientRank,
    /// The member is deactivated.
    VoterInactive,
    /// No proposal has this id.
    ProposalNotFound,
    /// The proposal is not in a state that allows this operation.
    InvalidProposalState,
    /// The voting window has not opened yet.
    VotingNotStarted,
    /// The voting window has closed.
    VotingEnded,
    /// The account already voted on this proposal.
    AlreadyVoted,
    /// The proposal did not succeed, so it cannot be executed.
    ProposalNotSucceeded,
    /// Quorum percentage outside 1 through 100.
    InvalidQuorumPercent,
    /// A tally or timestamp would exceed the integer range.
    ArithmeticOverflow,
}

/// A vote was recorded.
#[derive(Clone, Copy, PartialEq, Eq, Structural, Debug)]
pub struct VoteCast {
    pub proposal_id: u64,
    pub voter: AccountId,
    pub vote_type: VoteType,
    pub weight: u64,
}

/// A succeeded proposal was executed.
#[derive(Clone, Copy, PartialEq, Eq, Structural, Debug)]
pub struct ProposalExecuted {
    pub proposal_id: u64,
}

/// A pending or active proposal was cancelled.
#[derive(Clone, Copy, PartialEq, Eq, Structural, Debug)]
pub struct ProposalCanceled {
    pub proposal_id: u64,
}

/// No two receipts share a voter.
pub open spec fn receipts_unique(s: Seq<VoteReceipt>) -> bool {
    forall|i: int, j: int|
        0 <= i < j < s.len() ==> (#[trigger] s[i]).voter != (#[trigger] s[j]).voter
}

/// Some receipt was cast by this voter.
pub open spec fn has_receipt(s: Seq<VoteReceipt>, voter: AccountId) -> bool {
    exists|i: int| 0 <= i < s.len() && (#[trigger] s[i]).voter == voter
}

/// The receipt this voter cast (meaningful only when `has_receipt` holds
/// and the receipts are unique).
pub open spec fn receipt_of(s: Seq<VoteReceipt>, voter: AccountId) -> VoteReceipt {
    s[choose|i: int| 0 <= i < s.len() && (#[trigger] s[i]).voter == voter]
}

/// Sum of the weights of the receipts that chose `vt`.
pub open spec fn tally_sum(s: Seq<VoteReceipt>, vt: VoteType) -> nat
    decreases s.len(),
{
    if s.len() == 0 {
        0
    } else {
        (if s[0].vote == vt {
            s[0].weight as nat
        } else {
            0
        }) + tally_sum(s.drop_first(), vt)
    }
}

/// Sum of the weights of all receipts.
pub open spec fn receipt_weight_sum(s: Seq<VoteReceipt>) -> nat
    decreases s.len(),
{
    if s.len() == 0 {
        0
    } else {
        s[0].weight as nat + receipt_weight_sum(s.drop_first())
    }
}

/// Appending a receipt adds its weight to exactly the bucket it chose.
pub proof fn lemma_tally_push(s: Seq<VoteReceipt>, rec: VoteReceipt, vt: VoteType)
    ensures
        tally_sum(s.push(rec), vt) == tally_sum(s, vt) + (
        if rec.vote == vt {
            rec.weight as nat
        } else {
            0
        }),
        receipt_weight_sum(s.push(rec)) == receipt_weight_sum(s) + rec.weight,
    decreases s.len(),
{
    if s.len() == 0 {
        assert(s.push(rec)[0] == rec);
        assert(s.push(rec).drop_first() =~= Seq::<VoteReceipt>::empty());
        assert(tally_sum(s.push(rec).drop_first(), vt) == 0);
        assert(receipt_weight_sum(s.push(rec).drop_first()) == 0);
    } else {
        assert(s.push(rec)[0] == s[0]);
        assert(s.push(rec).drop_first() =~= s.drop_first().push(rec));
        lemma_tally_push(s.drop_first(), rec, vt);
    }
}

/// Appending a receipt from a voter without one keeps the receipts unique,
/// records that voter's receipt, and leaves every other voter's receipt
/// unchanged.
pub proof fn lemma_receipt_push(s: Seq<VoteReceipt>, rec: VoteReceipt)
    requires
        receipts_unique(s),
        !has_receipt(s, rec.voter),
    ensures
        receipts_unique(s.push(rec)),
        has_receipt(s.push(rec), rec.voter),
        receipt_of(s.push(rec), rec.voter) == rec,
        forall|x: AccountId|
            x != rec.voter ==> #[trigger] has_receipt(s.push(rec), x) == has_receipt(s, x),
        forall|x: AccountId|
            x != rec.voter && has_receipt(s, x) ==> #[trigger] receipt_of(s.push(rec), x)
                == receipt_of(s, x),
{
    let t = s.push(rec);
    assert forall|i: int, j: int| 0 <= i < j < t.len() implies (#[trigger] t[i]).voter != (
    #[trigger] t[j]).voter by {
        if j < s.len() {
            assert(t[i] == s[i] && t[j] == s[j]);
        } else {
            assert(t[j] == rec);
            assert(t[i] == s[i]);
            if s[i].voter == rec.voter {
                assert(has_receipt(s, rec.voter));
            }
        }
    }
    assert(t[s.len() as int].voter == rec.voter);
    assert(has_receipt(t, rec.voter));
    let j = choose|i: int| 0 <= i < t.len() && (#[trigger] t[i]).voter == rec.voter;
    if j < s.len() {
        assert(s[j].voter == rec.voter);
        assert(has_receipt(s, rec.voter));
    }
    assert(receipt_of(t, rec.voter) == rec);
    assert forall|x: AccountId| x != rec.voter implies #[trigger] has_receipt(t, x) == has_receipt(
        s,
        x,
    ) by {
        if has_receipt(s, x) {
            let i = choose|i: int| 0 <= i < s.len() && (#[trigger] s[i]).voter == x;
            assert(t[i].voter == x);
            assert(has_receipt(t, x));
        }
        if has_receipt(t, x) {
            let i = choose|i: int| 0 <= i < t.len() && (#[trigger] t[i]).voter == x;
            assert(i < s.len());
            assert(s[i].voter == x);
            assert(has_receipt(s, x));
        }
    }
    assert forall|x: AccountId| x != rec.voter && has_receipt(s, x) implies #[trigger] receipt_of(
        t,
        x,
    ) == receipt_of(s, x) by {
        let i = choose|i: int| 0 <= i < s.len() && (#[trigger] s[i]).voter == x;
        let i2 = choose|k: int| 0 <= k < s.len() && (#[trigger] s[k]).voter == x;
        if i < i2 {
            assert(s[i].voter != s[i2].voter);
        } else if i2 < i {
            assert(s[i2].voter != s[i].voter);
        }
        assert(t[i].voter == x);
        let i3 = choose|k: int| 0 <= k < t.len() && (#[trigger] t[k]).voter == x;
        if i3 < i {
            assert(t[i3].voter != t[i].voter);
        } else if i < i3 {
            if i3 < s.len() {
                assert(t[i].voter != t[i3].voter);
            }
        }
        assert(i3 == i);
        assert(t[i] == s[i]);
    }
}

/// The three tally buckets of a receipt sequence always sum to the total
/// weight of its receipts: every receipt lands in exactly one bucket.
pub proof fn lemma_tally_total(s: Seq<VoteReceipt>)
    ensures
        tally_sum(s, VoteType::For) + tally_sum(s, VoteType::Against) + tally_sum(
            s,
            VoteType::Abstain,
        ) == receipt_weight_sum(s),
    decreases s.len(),
{
    if s.len() > 0 {
        lemma_tally_total(s.drop_first());
    }
}


/// Quorum threshold per the outcome rule: the eligible weight times the
/// quorum percentage, divided by 100 (multiply before divide). Small
/// bodies (eligible weight below 20) get a lenient bar of one fifth of
/// that, with a floor of 1.
pub open spec fn spec_quorum_threshold(eligible: nat, quorum_percent: u8) -> nat {
    let base = ((eligible * quorum_percent) / 100) as nat;
    if eligible < 20 {
        if base / 5 >= 1 {
            (base / 5) as nat
        } else {
            1
        }
    } else {
        base
    }
}

/// A proposal's well-formedness: an ordered time window, one receipt per
/// voter, tally buckets that are exactly the per-choice sums over the
/// receipts, and a combined tally that fits the counter.
pub open spec fn proposal_wf(p: Proposal) -> bool {
    &&& p.created_at <= p.voting_starts_at <= p.voting_ends_at
    &&& receipts_unique(p.receipts@)
    &&& p.for_votes == tally_sum(p.receipts@, VoteType::For)
    &&& p.against_votes == tally_sum(p.receipts@, VoteType::Against)
    &&& p.abstain_votes == tally_sum(p.receipts@, VoteType::Abstain)
    &&& p.for_votes + p.against_votes + p.abstain_votes <= u64::MAX
}

/// The outcome of a closed vote: defeated when the combined tally misses
/// the quorum threshold, succeeded when it meets it and strictly more
/// weight voted for than against, defeated otherwise.
pub open spec fn spec_outcome(p: Proposal, eligible: nat, quorum_percent: u8) -> ProposalState {
    let total = p.for_votes + p.against_votes + p.abstain_votes;
    if total < spec_quorum_threshold(eligible, quorum_percent) {
        ProposalState::Defeated
    } else if p.for_votes > p.against_votes {
        ProposalState::Succeeded
    } else {
        ProposalState::Defeated
    }
}

/// Whether reading the proposal at `now` forces the outcome to be
/// computed: it is still pending or active, but the window has closed.
pub open spec fn outcome_due(p: Proposal, now: u64) -> bool {
    (p.state == ProposalState::Pending || p.state == ProposalState::Active) && now
        > p.voting_ends_at
}

/// The state a proposal is effectively in at `now`, given the eligible
/// weight and quorum percentage of its track: pending before the window,
/// active inside it, the computed outcome after it, and the stored state
/// once that is terminal.
pub open spec fn spec_effective_state(
    p: Proposal,
    now: u64,
    eligible: nat,
    quorum_percent: u8,
) -> ProposalState {
    if outcome_due(p, now) {
        spec_outcome(p, eligible, quorum_percent)
    } else if p.state == ProposalState::Pending && now >= p.voting_starts_at {
        ProposalState::Active
    } else {
        p.state
    }
}

/// The governance engine: the admin account, one optional configuration
/// per track, and the proposals in creation order.
pub struct GovernanceEngine {
    /// Account allowed to change track configurations and cancel any
    /// proposal.
    pub admin: AccountId,
    pub technical_config: Option<TrackConfig>,
    pub treasury_config: Option<TrackConfig>,
    pub membership_config: Option<TrackConfig>,
    /// Proposal `id` equals its position here.
    pub proposals: Vec<Proposal>,
}

impl GovernanceEngine {
    /// The ladder of checks a vote passes before the voter's membership is
    /// examined: the proposal exists on a configured track, `now` lies in
    /// its voting window, its stored state still admits voting, and the
    /// caller holds no receipt yet.
    pub open spec fn vote_checks_ok(self, proposal_id: u64, caller: AccountId, now: u64) -> bool {
        &&& proposal_id < self.proposals@.len()
        &&& self.track_config_spec(self.proposals@[proposal_id as int].track).is_some()
        &&& self.proposals@[proposal_id as int].voting_starts_at <= now
            <= self.proposals@[proposal_id as int].voting_ends_at
        &&& (self.proposals@[proposal_id as int].state == ProposalState::Pending
            || self.proposals@[proposal_id as int].state == ProposalState::Active)
        &&& !has_receipt(self.proposals@[proposal_id as int].receipts@, caller)
    }

    /// The stored configuration of a track, or a zeroed value for an
    /// unconfigured one (contracts read it only under `is_some`).
    pub open spec fn track_cfg(self, track: Track) -> TrackConfig {
        match self.track_config_spec(track) {
            Some(c) => c,
            None => TrackConfig { min_rank: 0, voting_delay: 0, voting_period: 0, quorum_percent: 0 },
        }
    }

    /// The stored configuration of a track.
    pub open spec fn track_config_spec(self, track: Track) -> Option<TrackConfig> {
        match track {
            Track::Technical => self.technical_config,
            Track::Treasury => self.treasury_config,
            Track::Membership => self.membership_config,
        }
    }

    /// A configuration is acceptable when its quorum percentage lies in
    /// 1 through 100.
    pub open spec fn config_valid(c: Option<TrackConfig>) -> bool {
        match c {
            Some(c) => 1 <= c.quorum_percent <= 100,
            None => true,
        }
    }

    /// The engine's internal consistency: ids equal positions, every
    /// proposal is well-formed, and every stored configuration is valid.
    pub open spec fn wf(self) -> bool {
        &&& forall|i: int|
            0 <= i < self.proposals@.len() ==> (#[trigger] self.proposals@[i]).id == i
                && proposal_wf(self.proposals@[i])
        &&& Self::config_valid(self.technical_config)
        &&& Self::config_valid(self.treasury_config)
        &&& Self::config_valid(self.membership_config)
    }

    /// The state the proposal is effectively in at `now`, reading the
    /// eligible weight from the registry through its track's
    /// configuration (the stored state when the track has none).
    pub open spec fn effective_state_spec(
        self,
        p: Proposal,
        now: u64,
        registry: MembershipRegistry,
    ) -> ProposalState {
        if outcome_due(p, now) {
            match self.track_config_spec(p.track) {
                Some(c) => spec_outcome(
                    p,
                    registry.total_weight_spec(c.min_rank),
                    c.quorum_percent,
                ),
                None => p.state,
            }
        } else if p.state == ProposalState::Pending && now >= p.voting_starts_at {
            ProposalState::Active
        } else {
            p.state
        }
    }

    /// A fresh engine with the default track configurations: Technical
    /// (rank 2, one-day delay, seven-day vote, 66%), Treasury (rank 1,
    /// one-day delay, fourteen-day vote, 51%) and Membership (rank 3,
    /// one-day delay, seven-day vote, 75%), times in seconds.
    pub fn new(admin: AccountId) -> (r: Self)
        ensures
            r.wf(),
            r.admin == admin,
            r.proposals@.len() == 0,
            r.technical_config == (Some(
                TrackConfig {
                    min_rank: 2,
                    voting_delay: 86_400,
                    voting_period: 604_800,
                    quorum_percent: 66,
                },
            )),
            r.treasury_config == (Some(
                TrackConfig {
                    min_rank: 1,
                    voting_delay: 86_400,
                    voting_period: 1_209_600,
                    quorum_percent: 51,
                },
            )),
            r.membership_config == (Some(
                TrackConfig {
                    min_rank: 3,
                    voting_delay: 86_400,
                    voting_period: 604_800,
                    quorum_percent: 75,
                },
            )),
    {
        GovernanceEngine {
            admin,
            technical_config: Some(
                TrackConfig {
                    min_rank: 2,
                    voting_delay: 86_400,
                    voting_period: 604_800,
                    quorum_percent: 66,
                },
            ),
            treasury_config: Some(
                TrackConfig {
                    min_rank: 1,
                    voting_delay: 86_400,
                    voting_period: 1_209_600,
                    quorum_percent: 51,
                },
            ),
            membership_config: Some(
                TrackConfig {
                    min_rank: 3,
                    voting_delay: 86_400,
                    voting_period: 604_800,
                    quorum_percent: 75,
                },
            ),
            proposals: Vec::new(),
        }
    }

    /// A fresh engine with no track configured: each track must be set
    /// up through `set_track_config` before proposals can be made on it.
    pub fn new_unconfigured(admin: AccountId) -> (r: Self)
        ensures
            r.wf(),
            r.admin == admin,
            r.proposals@.len() == 0,
            r.technical_config.is_none(),
            r.treasury_config.is_none(),
            r.membership_config.is_none(),
    {
        GovernanceEngine {
            admin,
            technical_config: None,
            treasury_config: None,
            membership_config: None,
            proposals: Vec::new(),
        }
    }

    /// The stored configuration of a track.
    pub fn get_track_config(&self, track: Track) -> (r: Option<TrackConfig>)
        ensures
            r == self.track_config_spec(track),
    {
        match track {
            Track::Technical => self.technical_config,
            Track::Treasury => self.treasury_config,
            Track::Membership => self.membership_config,
        }
    }

    /// Replace a track's configuration. Admin only; the quorum percentage
    /// must lie in 1 through 100.
    pub fn set_track_config(&mut self, caller: AccountId, track: Track, config: TrackConfig) -> (r:
        Result<(), GovernanceError>)
        requires
            old(self).wf(),
        ensures
            final(self).wf(),
            final(self).admin == old(self).admin,
            final(self).proposals@ == old(self).proposals@,
            match r {
                Ok(()) => {
                    &&& caller == old(self).admin
                    &&& 1 <= config.quorum_percent <= 100
                    &&& final(self).track_config_spec(track) == Some(config)
                    &&& forall|t: Track|
                        t != track ==> #[trigger] final(self).track_config_spec(t) == old(
                            self,
                        ).track_config_spec(t)
                },
                Err(e) => {
                    &&& *final(self) == *old(self)
                    &&& (e == GovernanceError::Unauthorized || e
                        == GovernanceError::InvalidQuorumPercent)
                    &&& (e == GovernanceError::Unauthorized <==> caller != old(self).admin)
                    &&& (e == GovernanceError::InvalidQuorumPercent <==> caller == old(self).admin
                        && !(1 <= config.quorum_percent <= 100))
                },
            },
    {
        if caller != self.admin {
            return Err(GovernanceError::Unauthorized);
        }
        if config.quorum_percent == 0 || config.quorum_percent > 100 {
            return Err(GovernanceError::InvalidQuorumPercent);
        }
        match track {
            Track::Technical => {
                self.technical_config = Some(config);
            },
            Track::Treasury => {
                self.treasury_config = Some(config);
            },
            Track::Membership => {
                self.membership_config = Some(config);
            },
        }
        Ok(())
    }

    /// How many proposals exist.
    pub fn proposal_count(&self) -> (r: usize)
        ensures
            r == self.proposals@.len(),
    {
        self.proposals.len()
    }

    /// Whether a proposal with this id exists.
    pub fn proposal_exists(&self, proposal_id: u64) -> (r: bool)
        ensures
            r == (proposal_id < self.proposals@.len()),
    {
        proposal_id < self.proposals.len() as u64
    }

    /// The stored proposal with this id.
    pub fn get_proposal(&self, proposal_id: u64) -> (r: Option<&Proposal>)
        requires
            self.wf(),
        ensures
            match r {
                Some(p) => proposal_id < self.proposals@.len() && *p == self.proposals@[
                    proposal_id as int],
                None => proposal_id >= self.proposals@.len(),
            },
    {
        if proposal_id < self.proposals.len() as u64 {
            Some(&self.proposals[proposal_id as usize])
        } else {
            None
        }
    }

    /// The tally of a proposal.
    pub fn get_tally(&self, proposal_id: u64) -> (r: Option<VoteTally>)
        requires
            self.wf(),
        ensures
            match r {
                Some(t) => {
                    &&& proposal_id < self.proposals@.len()
                    &&& t.for_votes == self.proposals@[proposal_id as int].for_votes
                    &&& t.against_votes == self.proposals@[proposal_id as int].against_votes
                    &&& t.abstain_votes == self.proposals@[proposal_id as int].abstain_votes
                },
                None => proposal_id >= self.proposals@.len(),
            },
    {
        if proposal_id < self.proposals.len() as u64 {
            let p = &self.proposals[proposal_id as usize];
            Some(
                VoteTally {
                    for_votes: p.for_votes,
                    against_votes: p.against_votes,
                    abstain_votes: p.abstain_votes,
                },
            )
        } else {
            None
        }
    }

    /// The receipt an account cast on a proposal, if any.
    pub fn get_vote_receipt(&self, proposal_id: u64, voter: AccountId) -> (r: Option<VoteReceipt>)
        requires
            self.wf(),
            proposal_id < self.proposals@.len(),
        ensures
            match r {
                Some(rec) => has_receipt(self.proposals@[proposal_id as int].receipts@, voter)
                    && rec == receipt_of(self.proposals@[proposal_id as int].receipts@, voter),
                None => !has_receipt(self.proposals@[proposal_id as int].receipts@, voter),
            },
    {
        let n = self.proposals.len();
        proof {
            assert(proposal_id < n as u64);
        }
        let p = &self.proposals[proposal_id as usize];
        let mut i: usize = 0;
        while i < p.receipts.len()
            invariant
                self.wf(),
                proposal_id < self.proposals@.len(),
                *p == self.proposals@[proposal_id as int],
                i <= p.receipts@.len(),
                forall|j: int| 0 <= j < i ==> (#[trigger] p.receipts@[j]).voter != voter,
            decreases p.receipts@.len() - i,
        {
            let rec = p.receipts[i];
            if rec.voter == voter {
                proof {
                    assert(has_receipt(p.receipts@, voter));
                    let j = choose|j: int|
                        0 <= j < p.receipts@.len() && (#[trigger] p.receipts@[j]).voter == voter;
                    assert(proposal_wf(self.proposals@[proposal_id as int]));
                    if j < i {
                        assert(p.receipts@[j].voter != p.receipts@[i as int].voter);
                    } else if (i as int) < j {
                        assert(p.receipts@[i as int].voter != p.receipts@[j].voter);
                    }
                }
                return Some(rec);
            }
            i += 1;
        }
        None
    }

    /// Quorum threshold for a track, from the registry's current eligible
    /// weight and the track's quorum percentage.
    pub fn calculate_quorum(&self, track: Track, registry: &MembershipRegistry) -> (r: Result<
        u64,
        GovernanceError,
    >)
        requires
            self.wf(),
            registry.wf(),
        ensures
            match r {
                Ok(q) => {
                    &&& self.track_config_spec(track).is_some()
                    &&& exists|c: TrackConfig|
                        #![auto]
                        self.track_config_spec(track) == Some(c) && q == spec_quorum_threshold(
                            registry.total_weight_spec(c.min_rank),
                            c.quorum_percent,
                        )
                },
                Err(e) => e == GovernanceError::TrackNotConfigured && self.track_config_spec(
                    track,
                ).is_none(),
            },
    {
        let config = match self.get_track_config(track) {
            None => {
                return Err(GovernanceError::TrackNotConfigured);
            },
            Some(c) => c,
        };
        let eligible = registry.calculate_total_vote_weight_with_min_rank(config.min_rank);
        proof {
            lemma_sum_bounded(registry.members@, config.min_rank);
            assert(eligible <= 10 * MAX_MEMBERS);
            assert(eligible * (config.quorum_percent as u64) <= 2_550_000) by (nonlinear_arith)
                requires
                    eligible <= 10_000,
                    config.quorum_percent as u64 <= 255,
            ;
        }
        let base = eligible * (config.quorum_percent as u64) / 100;
        if eligible < 20 {
            if base / 5 >= 1 {
                Ok(base / 5)
            } else {
                Ok(1)
            }
        } else {
            Ok(base)
        }
    }

    /// The effective state of the proposal at `now`: pending before its
    /// window, active inside it, and the computed outcome after it.
    /// Computing an outcome needs the track's configuration.
    pub fn get_proposal_state(&self, proposal_id: u64, now: u64, registry: &MembershipRegistry)
        -> (r: Result<ProposalState, GovernanceError>)
        requires
            self.wf(),
            registry.wf(),
        ensures
            match r {
                Ok(st) => {
                    &&& proposal_id < self.proposals@.len()
                    &&& st == self.effective_state_spec(
                        self.proposals@[proposal_id as int],
                        now,
                        *registry,
                    )
                    &&& (outcome_due(self.proposals@[proposal_id as int], now)
                        ==> self.track_config_spec(
                        self.proposals@[proposal_id as int].track,
                    ).is_some())
                },
                Err(e) => {
                    &&& (e == GovernanceError::ProposalNotFound || e
                        == GovernanceError::TrackNotConfigured)
                    &&& (e == GovernanceError::ProposalNotFound <==> proposal_id
                        >= self.proposals@.len())
                    &&& (e == GovernanceError::TrackNotConfigured <==> proposal_id
                        < self.proposals@.len() && outcome_due(
                        self.proposals@[proposal_id as int],
                        now,
                    ) && self.track_config_spec(
                        self.proposals@[proposal_id as int].track,
                    ).is_none())
                },
            },
    {
        if proposal_id >= self.proposals.len() as u64 {
            return Err(GovernanceError::ProposalNotFound);
        }
        let p = &self.proposals[proposal_id as usize];
        match p.state {
            ProposalState::Pending | ProposalState::Active => {
                if now > p.voting_ends_at {
                    let config = match self.get_track_config(p.track) {
                        None => {
                            return Err(GovernanceError::TrackNotConfigured);
                        },
                        Some(c) => c,
                    };
                    let eligible = registry.calculate_total_vote_weight_with_min_rank(
                        config.min_rank,
                    );
                    proof {
                        lemma_sum_bounded(registry.members@, config.min_rank);
                        assert(proposal_wf(self.proposals@[proposal_id as int]));
                        assert(eligible <= 10 * MAX_MEMBERS);
                        assert(eligible * (config.quorum_percent as u64) <= 2_550_000)
                            by (nonlinear_arith)
                            requires
                                eligible <= 10_000,
                                config.quorum_percent as u64 <= 255,
                        ;
                    }
                    let base = eligible * (config.quorum_percent as u64) / 100;
                    let threshold: u64 = if eligible < 20 {
                        if base / 5 >= 1 {
                            base / 5
                        } else {
                            1
                        }
                    } else {
                        base
                    };
                    let total = p.for_votes + p.against_votes + p.abstain_votes;
                    if total < threshold {
                        Ok(ProposalState::Defeated)
                    } else if p.for_votes > p.against_votes {
                        Ok(ProposalState::Succeeded)
                    } else {
                        Ok(ProposalState::Defeated)
                    }
                } else if matches!(p.state, ProposalState::Pending) && now >= p.voting_starts_at {
                    Ok(ProposalState::Active)
                } else {
                    Ok(p.state)
                }
            },
            _ => Ok(p.state),
        }
    }

    /// Create a proposal on a track. The track must be configured and the
    /// proposer an active member at or above the track's rank floor. The
    /// voting window is `now + delay` through `now + delay + period`; the
    /// new proposal starts Pending with an empty tally, under the next id.
    pub fn propose(
        &mut self,
        caller: AccountId,
        track: Track,
        description: Vec<u8>,
        target_call: Vec<u8>,
        now: u64,
        registry: &MembershipRegistry,
    ) -> (r: Result<u64, GovernanceError>)
        requires
            old(self).wf(),
            registry.wf(),
        ensures
            final(self).wf(),
            final(self).admin == old(self).admin,
            final(self).technical_config == old(self).technical_config,
            final(self).treasury_config == old(self).treasury_config,
            final(self).membership_config == old(self).membership_config,
            match r {
                Ok(id) => {
                    &&& old(self).track_config_spec(track) matches Some(c)
                    &&& registry.contains_spec(caller)
                    &&& registry.member_spec(caller).active
                    &&& registry.member_spec(caller).rank >= c.min_rank
                    &&& now + c.voting_delay + c.voting_period <= u64::MAX
                    &&& id == old(self).proposals@.len()
                    &&& final(self).proposals@.len() == old(self).proposals@.len() + 1
                    &&& forall|j: int|
                        0 <= j < old(self).proposals@.len() ==> final(self).proposals@[j] == old(
                            self,
                        ).proposals@[j]
                    &&& final(self).proposals@[id as int].id == id
                    &&& final(self).proposals@[id as int].proposer == caller
                    &&& final(self).proposals@[id as int].track == track
                    &&& final(self).proposals@[id as int].description == description
                    &&& final(self).proposals@[id as int].target_call == target_call
                    &&& final(self).proposals@[id as int].created_at == now
                    &&& final(self).proposals@[id as int].voting_starts_at == now + c.voting_delay
                    &&& final(self).proposals@[id as int].voting_ends_at == now + c.voting_delay
                        + c.voting_period
                    &&& final(self).proposals@[id as int].state == ProposalState::Pending
                    &&& final(self).proposals@[id as int].for_votes == 0
                    &&& final(self).proposals@[id as int].against_votes == 0
                    &&& final(self).proposals@[id as int].abstain_votes == 0
                    &&& final(self).proposals@[id as int].receipts@.len() == 0
                },
                Err(e) => {
                    &&& *final(self) == *old(self)
                    &&& (e == GovernanceError::TrackNotConfigured || e
                        == GovernanceError::InsufficientRank || e == GovernanceError::VoterInactive
                        || e == GovernanceError::ArithmeticOverflow)
                    &&& (e == GovernanceError::TrackNotConfigured <==> old(self).track_config_spec(
                        track,
                    ).is_none())
                    &&& (e == GovernanceError::InsufficientRank <==> old(self).track_config_spec(
                        track,
                    ).is_some() && (!registry.contains_spec(caller) || (
                    registry.member_spec(caller).active && registry.member_spec(caller).rank < old(
                        self,
                    ).track_cfg(track).min_rank)))
                    &&& (e == GovernanceError::VoterInactive <==> old(self).track_config_spec(
                        track,
                    ).is_some() && registry.contains_spec(caller) && !registry.member_spec(
                        caller,
                    ).active)
                    &&& (e == GovernanceError::ArithmeticOverflow <==> old(
                        self,
                    ).track_config_spec(track).is_some() && registry.contains_spec(caller)
                        && registry.member_spec(caller).active && registry.member_spec(caller).rank
                        >= old(self).track_cfg(track).min_rank && now + old(self).track_cfg(
                        track,
                    ).voting_delay + old(self).track_cfg(track).voting_period > u64::MAX)
                },
            },
    {
        let config = match self.get_track_config(track) {
            None => {
                return Err(GovernanceError::TrackNotConfigured);
            },
            Some(c) => c,
        };
        let member = match registry.get_member_info(caller) {
            Err(_) => {
                return Err(GovernanceError::InsufficientRank);
            },
            Ok(m) => m,
        };
        if !member.active {
            return Err(GovernanceError::VoterInactive);
        }
        if member.rank < config.min_rank {
            return Err(GovernanceError::InsufficientRank);
        }
        let voting_starts_at = match now.checked_add(config.voting_delay) {
            None => {
                return Err(GovernanceError::ArithmeticOverflow);
            },
            Some(t) => t,
        };
        let voting_ends_at = match voting_starts_at.checked_add(config.voting_period) {
            None => {
                return Err(GovernanceError::ArithmeticOverflow);
            },
            Some(t) => t,
        };
        let id = self.proposals.len() as u64;
        let proposal = Proposal {
            id,
            proposer: caller,
            track,
            description,
            target_call,
            created_at: now,
            voting_starts_at,
            voting_ends_at,
            state: ProposalState::Pending,
            for_votes: 0,
            against_votes: 0,
            abstain_votes: 0,
            receipts: Vec::new(),
        };
        self.proposals.push(proposal);
        Ok(id)
    }

    /// Cast a weighted vote on an active proposal. The caller must be an
    /// active member at or above the track's rank floor and must not have
    /// voted on this proposal before. The weight of the caller's rank goes
    /// into the chosen bucket and a write-once receipt records the vote.
    pub fn vote(
        &mut self,
        caller: AccountId,
        proposal_id: u64,
        vote_type: VoteType,
        now: u64,
        registry: &MembershipRegistry,
    ) -> (r: Result<VoteCast, GovernanceError>)
        requires
            old(self).wf(),
            registry.wf(),
        ensures
            final(self).wf(),
            final(self).admin == old(self).admin,
            final(self).technical_config == old(self).technical_config,
            final(self).treasury_config == old(self).treasury_config,
            final(self).membership_config == old(self).membership_config,
            final(self).proposals@.len() == old(self).proposals@.len(),
            match r {
                Ok(ev) => {
                    &&& proposal_id < old(self).proposals@.len()
                    &&& old(self).track_config_spec(
                        old(self).proposals@[proposal_id as int].track,
                    ) matches Some(c)
                    &&& old(self).proposals@[proposal_id as int].voting_starts_at <= now
                        <= old(self).proposals@[proposal_id as int].voting_ends_at
                    &&& (old(self).proposals@[proposal_id as int].state == ProposalState::Pending
                        || old(self).proposals@[proposal_id as int].state
                        == ProposalState::Active)
                    &&& !has_receipt(old(self).proposals@[proposal_id as int].receipts@, caller)
                    &&& registry.contains_spec(caller)
                    &&& registry.member_spec(caller).active
                    &&& registry.member_spec(caller).rank >= c.min_rank
                    &&& ev == (VoteCast {
                        proposal_id,
                        voter: caller,
                        vote_type,
                        weight: registry.vote_weight_spec(caller) as u64,
                    })
                    &&& final(self).proposals@[proposal_id as int].receipts@ == old(
                        self,
                    ).proposals@[proposal_id as int].receipts@.push(
                        VoteReceipt {
                            voter: caller,
                            vote: vote_type,
                            weight: registry.vote_weight_spec(caller) as u64,
                        },
                    )
                    &&& final(self).proposals@[proposal_id as int].state == ProposalState::Active
                    &&& final(self).proposals@[proposal_id as int].for_votes == old(
                        self,
                    ).proposals@[proposal_id as int].for_votes + (
                    if vote_type == VoteType::For {
                        registry.vote_weight_spec(caller)
                    } else {
                        0
                    })
                    &&& final(self).proposals@[proposal_id as int].against_votes == old(
                        self,
                    ).proposals@[proposal_id as int].against_votes + (
                    if vote_type == VoteType::Against {
                        registry.vote_weight_spec(caller)
                    } else {
                        0
                    })
                    &&& final(self).proposals@[proposal_id as int].abstain_votes == old(
                        self,
                    ).proposals@[proposal_id as int].abstain_votes + (
                    if vote_type == VoteType::Abstain {
                        registry.vote_weight_spec(caller)
                    } else {
                        0
                    })
                    &&& final(self).proposals@[proposal_id as int].id == old(
                        self,
                    ).proposals@[proposal_id as int].id
                    &&& final(self).proposals@[proposal_id as int].proposer == old(
                        self,
                    ).proposals@[proposal_id as int].proposer
                    &&& final(self).proposals@[proposal_id as int].track == old(
                        self,
                    ).proposals@[proposal_id as int].track
                    &&& final(self).proposals@[proposal_id as int].voting_starts_at == old(
                        self,
                    ).proposals@[proposal_id as int].voting_starts_at
                    &&& final(self).proposals@[proposal_id as int].voting_ends_at == old(
                        self,
                    ).proposals@[proposal_id as int].voting_ends_at
                    &&& forall|j: int|
                        0 <= j < old(self).proposals@.len() && j != proposal_id ==> final(self).proposals@[j] == old(self).proposals@[j]
                },
                Err(e) => {
                    &&& *final(self) == *old(self)
                    &&& (e == GovernanceError::ProposalNotFound <==> proposal_id >= old(
                        self,
                    ).proposals@.len())
                    &&& (e == GovernanceError::TrackNotConfigured <==> proposal_id < old(
                        self,
                    ).proposals@.len() && old(self).track_config_spec(
                        old(self).proposals@[proposal_id as int].track,
                    ).is_none())
                    &&& (e == GovernanceError::VotingNotStarted <==> proposal_id < old(
                        self,
                    ).proposals@.len() && old(self).track_config_spec(
                        old(self).proposals@[proposal_id as int].track,
                    ).is_some() && now < old(
                        self,
                    ).proposals@[proposal_id as int].voting_starts_at)
                    &&& (e == GovernanceError::VotingEnded <==> proposal_id < old(
                        self,
                    ).proposals@.len() && old(self).track_config_spec(
                        old(self).proposals@[proposal_id as int].track,
                    ).is_some() && now >= old(
                        self,
                    ).proposals@[proposal_id as int].voting_starts_at && now > old(
                        self,
                    ).proposals@[proposal_id as int].voting_ends_at)
                    &&& (e == GovernanceError::InvalidProposalState <==> proposal_id < old(
                        self,
                    ).proposals@.len() && old(self).track_config_spec(
                        old(self).proposals@[proposal_id as int].track,
                    ).is_some() && old(self).proposals@[proposal_id as int].voting_starts_at <= now
                        <= old(self).proposals@[proposal_id as int].voting_ends_at && !(old(
                        self,
                    ).proposals@[proposal_id as int].state == ProposalState::Pending || old(
                        self,
                    ).proposals@[proposal_id as int].state == ProposalState::Active))
                    &&& (e == GovernanceError::AlreadyVoted <==> proposal_id < old(
                        self,
                    ).proposals@.len() && old(self).track_config_spec(
                        old(self).proposals@[proposal_id as int].track,
                    ).is_some() && old(self).proposals@[proposal_id as int].voting_starts_at <= now
                        <= old(self).proposals@[proposal_id as int].voting_ends_at && (old(
                        self,
                    ).proposals@[proposal_id as int].state == ProposalState::Pending || old(
                        self,
                    ).proposals@[proposal_id as int].state == ProposalState::Active)
                        && has_receipt(
                        old(self).proposals@[proposal_id as int].receipts@,
                        caller,
                    ))
                    &&& (e == GovernanceError::VoterInsufficientRank <==> old(self).vote_checks_ok(
                        proposal_id,
                        caller,
                        now,
                    ) && (!registry.contains_spec(caller) || (registry.member_spec(caller).active
                        && registry.member_spec(caller).rank < old(self).track_cfg(
                        old(self).proposals@[proposal_id as int].track,
                    ).min_rank)))
                    &&& (e == GovernanceError::VoterInactive <==> old(self).vote_checks_ok(
                        proposal_id,
                        caller,
                        now,
                    ) && registry.contains_spec(caller) && !registry.member_spec(caller).active)
                    &&& (e == GovernanceError::ArithmeticOverflow <==> old(self).vote_checks_ok(
                        proposal_id,
                        caller,
                        now,
                    ) && registry.contains_spec(caller) && registry.member_spec(caller).active
                        && registry.member_spec(caller).rank >= old(self).track_cfg(
                        old(self).proposals@[proposal_id as int].track,
                    ).min_rank && old(self).proposals@[proposal_id as int].for_votes + old(
                        self,
                    ).proposals@[proposal_id as int].against_votes + old(
                        self,
                    ).proposals@[proposal_id as int].abstain_votes + registry.vote_weight_spec(
                        caller,
                    ) > u64::MAX)
                    &&& (e == GovernanceError::ProposalNotFound || e
                        == GovernanceError::TrackNotConfigured || e
                        == GovernanceError::VotingNotStarted || e == GovernanceError::VotingEnded
                        || e == GovernanceError::InvalidProposalState || e
                        == GovernanceError::AlreadyVoted || e
                        == GovernanceError::VoterInsufficientRank || e
                        == GovernanceError::VoterInactive || e
                        == GovernanceError::ArithmeticOverflow)
                },
            },
    {
        if proposal_id >= self.proposals.len() as u64 {
            return Err(GovernanceError::ProposalNotFound);
        }
        let idx = proposal_id as usize;
        let track = self.proposals[idx].track;
        let config = match self.get_track_config(track) {
            None => {
                return Err(GovernanceError::TrackNotConfigured);
            },
            Some(c) => c,
        };
        let voting_starts_at = self.proposals[idx].voting_starts_at;
        let voting_ends_at = self.proposals[idx].voting_ends_at;
        if now < voting_starts_at {
            return Err(GovernanceError::VotingNotStarted);
        }
        if now > voting_ends_at {
            return Err(GovernanceError::VotingEnded);
        }
        let stored_state = self.proposals[idx].state;
        if !(matches!(stored_state, ProposalState::Pending) || matches!(
            stored_state,
            ProposalState::Active,
        )) {
            return Err(GovernanceError::InvalidProposalState);
        }
        if self.get_vote_receipt(proposal_id, caller).is_some() {
            return Err(GovernanceError::AlreadyVoted);
        }
        let member = match registry.get_member_info(caller) {
            Err(_) => {
                return Err(GovernanceError::VoterInsufficientRank);
            },
            Ok(m) => m,
        };
        if !member.active {
            return Err(GovernanceError::VoterInactive);
        }
        if member.rank < config.min_rank {
            return Err(GovernanceError::VoterInsufficientRank);
        }
        let weight = registry.get_vote_weight(caller);
        let p = &self.proposals[idx];
        let total = match p.for_votes.checked_add(p.against_votes) {
            None => {
                return Err(GovernanceError::ArithmeticOverflow);
            },
            Some(t) => t,
        };
        let total = match total.checked_add(p.abstain_votes) {
            None => {
                return Err(GovernanceError::ArithmeticOverflow);
            },
            Some(t) => t,
        };
        if total.checked_add(weight).is_none() {
            return Err(GovernanceError::ArithmeticOverflow);
        }
        let new_for: u64 = if matches!(vote_type, VoteType::For) {
            p.for_votes + weight
        } else {
            p.for_votes
        };
        let new_against: u64 = if matches!(vote_type, VoteType::Against) {
            p.against_votes + weight
        } else {
            p.against_votes
        };
        let new_abstain: u64 = if matches!(vote_type, VoteType::Abstain) {
            p.abstain_votes + weight
        } else {
            p.abstain_votes
        };
        let rec = VoteReceipt { voter: caller, vote: vote_type, weight };
        proof {
            lemma_receipt_push(self.proposals@[proposal_id as int].receipts@, rec);
            lemma_tally_push(
                self.proposals@[proposal_id as int].receipts@,
                rec,
                VoteType::For,
            );
            lemma_tally_push(
                self.proposals@[proposal_id as int].receipts@,
                rec,
                VoteType::Against,
            );
            lemma_tally_push(
                self.proposals@[proposal_id as int].receipts@,
                rec,
                VoteType::Abstain,
            );
        }
        let p_ref = vstd::std_specs::vec::vec_index_mut(&mut self.proposals, idx);
        p_ref.state = ProposalState::Active;
        p_ref.for_votes = new_for;
        p_ref.against_votes = new_against;
        p_ref.abstain_votes = new_abstain;
        p_ref.receipts.push(rec);
        Ok(VoteCast { proposal_id, voter: caller, vote_type, weight })
    }

    /// Cancel a proposal that is still effectively Pending or Active.
    /// Only the proposer or the admin may cancel; terminal and closed
    /// proposals cannot be cancelled.
    pub fn cancel_proposal(
        &mut self,
        caller: AccountId,
        proposal_id: u64,
        now: u64,
        registry: &MembershipRegistry,
    ) -> (r: Result<ProposalCanceled, GovernanceError>)
        requires
            old(self).wf(),
            registry.wf(),
        ensures
            final(self).wf(),
            final(self).admin == old(self).admin,
            final(self).technical_config == old(self).technical_config,
            final(self).treasury_config == old(self).treasury_config,
            final(self).membership_config == old(self).membership_config,
            final(self).proposals@.len() == old(self).proposals@.len(),
            match r {
                Ok(ev) => {
                    &&& proposal_id < old(self).proposals@.len()
                    &&& (caller == old(self).proposals@[proposal_id as int].proposer || caller
                        == old(self).admin)
                    &&& {
                        let st = old(self).effective_state_spec(
                            old(self).proposals@[proposal_id as int],
                            now,
                            *registry,
                        );
                        st == ProposalState::Pending || st == ProposalState::Active
                    }
                    &&& ev == (ProposalCanceled { proposal_id })
                    &&& final(self).proposals@[proposal_id as int].state
                        == ProposalState::Cancelled
                    &&& final(self).proposals@[proposal_id as int].id == old(
                        self,
                    ).proposals@[proposal_id as int].id
                    &&& final(self).proposals@[proposal_id as int].receipts@ == old(
                        self,
                    ).proposals@[proposal_id as int].receipts@
                    &&& final(self).proposals@[proposal_id as int].for_votes == old(
                        self,
                    ).proposals@[proposal_id as int].for_votes
                    &&& final(self).proposals@[proposal_id as int].against_votes == old(
                        self,
                    ).proposals@[proposal_id as int].against_votes
                    &&& final(self).proposals@[proposal_id as int].abstain_votes == old(
                        self,
                    ).proposals@[proposal_id as int].abstain_votes
                    &&& forall|j: int|
                        0 <= j < old(self).proposals@.len() && j != proposal_id ==> final(self).proposals@[j] == old(self).proposals@[j]
                },
                Err(e) => {
                    &&& *final(self) == *old(self)
                    &&& (e == GovernanceError::ProposalNotFound || e
                        == GovernanceError::TrackNotConfigured || e
                        == GovernanceError::Unauthorized || e
                        == GovernanceError::InvalidProposalState)
                    &&& (e == GovernanceError::ProposalNotFound <==> proposal_id >= old(
                        self,
                    ).proposals@.len())
                    &&& (e == GovernanceError::TrackNotConfigured <==> proposal_id < old(
                        self,
                    ).proposals@.len() && outcome_due(
                        old(self).proposals@[proposal_id as int],
                        now,
                    ) && old(self).track_config_spec(
                        old(self).proposals@[proposal_id as int].track,
                    ).is_none())
                    &&& (e == GovernanceError::Unauthorized <==> proposal_id < old(
                        self,
                    ).proposals@.len() && !(outcome_due(
                        old(self).proposals@[proposal_id as int],
                        now,
                    ) && old(self).track_config_spec(
                        old(self).proposals@[proposal_id as int].track,
                    ).is_none()) && !(caller == old(
                        self,
                    ).proposals@[proposal_id as int].proposer || caller == old(self).admin))
                    &&& (e == GovernanceError::InvalidProposalState <==> proposal_id < old(
                        self,
                    ).proposals@.len() && !(outcome_due(
                        old(self).proposals@[proposal_id as int],
                        now,
                    ) && old(self).track_config_spec(
                        old(self).proposals@[proposal_id as int].track,
                    ).is_none()) && (caller == old(
                        self,
                    ).proposals@[proposal_id as int].proposer || caller == old(self).admin) && {
                        let st = old(self).effective_state_spec(
                            old(self).proposals@[proposal_id as int],
                            now,
                            *registry,
                        );
                        !(st == ProposalState::Pending || st == ProposalState::Active)
                    })
                },
            },
    {
        let st = match self.get_proposal_state(proposal_id, now, registry) {
            Err(e) => {
                return Err(e);
            },
            Ok(st) => st,
        };
        let n = self.proposals.len();
        proof {
            assert(proposal_id < n as u64);
        }
        let idx = proposal_id as usize;
        if caller != self.proposals[idx].proposer && caller != self.admin {
            return Err(GovernanceError::Unauthorized);
        }
        if !(matches!(st, ProposalState::Pending) || matches!(st, ProposalState::Active)) {
            return Err(GovernanceError::InvalidProposalState);
        }
        let p_ref = vstd::std_specs::vec::vec_index_mut(&mut self.proposals, idx);
        p_ref.state = ProposalState::Cancelled;
        Ok(ProposalCanceled { proposal_id })
    }

    /// Execute a proposal whose vote has closed as Succeeded: quorum met
    /// and strictly more weight for than against. The stored state becomes
    /// Executed; running the target call is the host's concern.
    pub fn execute_proposal(
        &mut self,
        proposal_id: u64,
        now: u64,
        registry: &MembershipRegistry,
    ) -> (r: Result<ProposalExecuted, GovernanceError>)
        requires
            old(self).wf(),
            registry.wf(),
        ensures
            final(self).wf(),
            final(self).admin == old(self).admin,
            final(self).technical_config == old(self).technical_config,
            final(self).treasury_config == old(self).treasury_config,
            final(self).membership_config == old(self).membership_config,
            final(self).proposals@.len() == old(self).proposals@.len(),
            match r {
                Ok(ev) => {
                    &&& proposal_id < old(self).proposals@.len()
                    &&& old(self).effective_state_spec(
                        old(self).proposals@[proposal_id as int],
                        now,
                        *registry,
                    ) == ProposalState::Succeeded
                    &&& ev == (ProposalExecuted { proposal_id })
                    &&& final(self).proposals@[proposal_id as int].state == ProposalState::Executed
                    &&& final(self).proposals@[proposal_id as int].id == old(
                        self,
                    ).proposals@[proposal_id as int].id
                    &&& final(self).proposals@[proposal_id as int].receipts@ == old(
                        self,
                    ).proposals@[proposal_id as int].receipts@
                    &&& final(self).proposals@[proposal_id as int].for_votes == old(
                        self,
                    ).proposals@[proposal_id as int].for_votes
                    &&& final(self).proposals@[proposal_id as int].against_votes == old(
                        self,
                    ).proposals@[proposal_id as int].against_votes
                    &&& final(self).proposals@[proposal_id as int].abstain_votes == old(
                        self,
                    ).proposals@[proposal_id as int].abstain_votes
                    &&& forall|j: int|
                        0 <= j < old(self).proposals@.len() && j != proposal_id ==> final(self).proposals@[j] == old(self).proposals@[j]
                },
                Err(e) => {
                    &&& *final(self) == *old(self)
                    &&& (e == GovernanceError::ProposalNotFound || e
                        == GovernanceError::TrackNotConfigured || e
                        == GovernanceError::ProposalNotSucceeded)
                    &&& (e == GovernanceError::ProposalNotFound <==> proposal_id >= old(
                        self,
                    ).proposals@.len())
                    &&& (e == GovernanceError::TrackNotConfigured <==> proposal_id < old(
                        self,
                    ).proposals@.len() && outcome_due(
                        old(self).proposals@[proposal_id as int],
                        now,
                    ) && old(self).track_config_spec(
                        old(self).proposals@[proposal_id as int].track,
                    ).is_none())
                    &&& (e == GovernanceError::ProposalNotSucceeded <==> proposal_id < old(
                        self,
                    ).proposals@.len() && !(outcome_due(
                        old(self).proposals@[proposal_id as int],
                        now,
                    ) && old(self).track_config_spec(
                        old(self).proposals@[proposal_id as int].track,
                    ).is_none()) && old(self).effective_state_spec(
                        old(self).proposals@[proposal_id as int],
                        now,
                        *registry,
                    ) != ProposalState::Succeeded)
                },
            },
    {
        let st = match self.get_proposal_state(proposal_id, now, registry) {
            Err(e) => {
                return Err(e);
            },
            Ok(st) => st,
        };
        if !matches!(st, ProposalState::Succeeded) {
            return Err(GovernanceError::ProposalNotSucceeded);
        }
        let n = self.proposals.len();
        proof {
            assert(proposal_id < n as u64);
        }
        let idx = proposal_id as usize;
        let p_ref = vstd::std_specs::vec::vec_index_mut(&mut self.proposals, idx);
        p_ref.state = ProposalState::Executed;
        Ok(ProposalExecuted { proposal_id })
    }
}

/// For any proposal of a well-formed engine, the three tally buckets sum
/// to exactly the total weight of the recorded vote receipts, and every
/// account holds at most one receipt on the proposal.
pub proof fn lemma_tally_is_receipt_sum(engine: GovernanceEngine, pid: int)
    requires
        engine.wf(),
        0 <= pid < engine.proposals@.len(),
    ensures
        engine.proposals@[pid].for_votes + engine.proposals@[pid].against_votes
            + engine.proposals@[pid].abstain_votes == receipt_weight_sum(
            engine.proposals@[pid].receipts@,
        ),
        receipts_unique(engine.proposals@[pid].receipts@),
{
    lemma_tally_total(engine.proposals@[pid].receipts@);
}


} // verus!
