use dao_core::governance::GovernanceEngine;
use dao_core::governance::GovernanceError;
use dao_core::governance::ProposalState;
use dao_core::governance::Track;
use dao_core::governance::TrackConfig;
use dao_core::governance::VoteType;
use dao_core::membership::MembershipRegistry;

const ROOT: u64 = 1;
const ALICE: u64 = 1;
const BOB: u64 = 2;
const CHARLIE: u64 = 3;

/// A registry where alice holds rank 2, enough for the Technical track.
fn registry_with_alice_senior() -> MembershipRegistry {
    let mut registry = MembershipRegistry::new(ROOT);
    registry.add_member(ROOT, ALICE, 2, 0).unwrap();
    registry
}

#[test]
fn lib_test_constructor() {
    let governor = GovernanceEngine::new(ROOT);

    assert!(governor.get_track_config(Track::Technical).is_some());
    assert!(governor.get_track_config(Track::Treasury).is_some());
    assert!(governor.get_track_config(Track::Membership).is_some());
}

#[test]
fn test_propose() {
    let registry = registry_with_alice_senior();
    let mut governor = GovernanceEngine::new(ROOT);

    let result = governor.propose(
        ALICE,
        Track::Technical,
        b"Upgrade protocol".to_vec(),
        Vec::new(),
        0,
        &registry,
    );

    assert!(result.is_ok());
}

#[test]
fn test_cast_vote() {
    let registry = registry_with_alice_senior();
    let mut governor = GovernanceEngine::new(ROOT);

    // Create proposal.
    let proposal_id = governor
        .propose(
            ALICE,
            Track::Technical,
            b"Upgrade protocol".to_vec(),
            Vec::new(),
            0,
            &registry,
        )
        .unwrap();

    // Fast forward time into the voting window (one day delay) and vote.
    let result = governor.vote(ALICE, proposal_id, VoteType::For, 86_401, &registry);

    assert!(result.is_ok());
    let cast = result.unwrap();
    assert_eq!(cast.weight, 3);
}

#[test]
fn test_track_configurations() {
    let governor = GovernanceEngine::new(ROOT);

    // Technical track.
    let tech_config = governor.get_track_config(Track::Technical).unwrap();
    assert_eq!(tech_config.min_rank, 2);
    assert_eq!(tech_config.quorum_percent, 66);
    assert_eq!(tech_config.voting_period, 604800); // 7 days

    // Treasury track.
    let treasury_config = governor.get_track_config(Track::Treasury).unwrap();
    assert_eq!(treasury_config.min_rank, 1);
    assert_eq!(treasury_config.quorum_percent, 51);
    assert_eq!(treasury_config.voting_period, 1209600); // 14 days

    // Membership track.
    let membership_config = governor.get_track_config(Track::Membership).unwrap();
    assert_eq!(membership_config.min_rank, 3);
    assert_eq!(membership_config.quorum_percent, 75);
    assert_eq!(membership_config.voting_period, 604800); // 7 days
}

#[test]
fn test_update_track_config() {
    let mut governor = GovernanceEngine::new(ROOT);

    let new_config = TrackConfig {
        min_rank: 3,
        voting_delay: 172800,  // 2 days
        voting_period: 432000, // 5 days
        quorum_percent: 80,
    };

    let result = governor.set_track_config(ROOT, Track::Technical, new_config);
    assert!(result.is_ok());

    let updated = governor.get_track_config(Track::Technical).unwrap();
    assert_eq!(updated.min_rank, 3);
    assert_eq!(updated.quorum_percent, 80);
}

#[test]
fn test_invalid_quorum() {
    let mut governor = GovernanceEngine::new(ROOT);

    let invalid_config = TrackConfig {
        min_rank: 2,
        voting_delay: 86400,
        voting_period: 604800,
        quorum_percent: 101, // Invalid > 100
    };

    let result = governor.set_track_config(ROOT, Track::Technical, invalid_config);
    assert_eq!(result, Err(GovernanceError::InvalidQuorumPercent));
}

#[test]
fn test_cancel_proposal() {
    let registry = registry_with_alice_senior();
    let mut governor = GovernanceEngine::new(ROOT);

    // Create proposal.
    let proposal_id = governor
        .propose(
            ALICE,
            Track::Technical,
            b"Test proposal".to_vec(),
            Vec::new(),
            0,
            &registry,
        )
        .unwrap();

    // Cancel proposal as the proposer.
    let result = governor.cancel_proposal(ALICE, proposal_id, 1, &registry);
    assert!(result.is_ok());

    // Verify state.
    let proposal = governor.get_proposal(proposal_id).unwrap();
    assert_eq!(proposal.state, ProposalState::Cancelled);
}

#[test]
fn test_unauthorized_cancel() {
    let registry = registry_with_alice_senior();
    let mut governor = GovernanceEngine::new(ROOT);

    // Create proposal as alice.
    let proposal_id = governor
        .propose(
            ALICE,
            Track::Technical,
            b"Test proposal".to_vec(),
            Vec::new(),
            0,
            &registry,
        )
        .unwrap();

    // Try to cancel as charlie (neither proposer nor admin).
    let result = governor.cancel_proposal(CHARLIE, proposal_id, 1, &registry);
    assert_eq!(result, Err(GovernanceError::Unauthorized));
}

#[test]
fn test_proposal_state_transitions() {
    let registry = registry_with_alice_senior();
    let mut governor = GovernanceEngine::new(ROOT);

    // Create proposal.
    let proposal_id = governor
        .propose(
            ALICE,
            Track::Technical,
            b"State test".to_vec(),
            Vec::new(),
            0,
            &registry,
        )
        .unwrap();

    // Initial state should be Pending.
    let proposal = governor.get_proposal(proposal_id).unwrap();
    assert_eq!(proposal.state, ProposalState::Pending);
}

#[test]
fn test_vote_receipt() {
    let registry = registry_with_alice_senior();
    let mut governor = GovernanceEngine::new(ROOT);

    let proposal_id = governor
        .propose(
            ALICE,
            Track::Technical,
            b"Vote test".to_vec(),
            Vec::new(),
            0,
            &registry,
        )
        .unwrap();

    // Initially no receipt.
    let receipt = governor.get_vote_receipt(proposal_id, ALICE);
    assert!(receipt.is_none());
}

#[test]
fn test_proposal_window_timing() {
    // A proposal created with voting_delay 86400 and voting_period 604800
    // is Pending just after creation, Active just after the delay, and is
    // evaluated only once the window has fully closed.
    let mut registry = MembershipRegistry::new(ROOT);
    registry.add_member(ROOT, ALICE, 2, 0).unwrap();
    let mut governor = GovernanceEngine::new(ROOT);
    let created_at = 1_000;
    let pid = governor
        .propose(
            ALICE,
            Track::Technical,
            b"timing".to_vec(),
            Vec::new(),
            created_at,
            &registry,
        )
        .unwrap();

    let state = governor.get_proposal_state(pid, created_at + 1, &registry);
    assert_eq!(state.unwrap(), ProposalState::Pending);

    let state = governor.get_proposal_state(pid, created_at + 86_401, &registry);
    assert_eq!(state.unwrap(), ProposalState::Active);

    // The window closes 86400 + 604800 = 691200 after creation; at that
    // exact moment the proposal is still Active.
    let state = governor.get_proposal_state(pid, created_at + 691_200, &registry);
    assert_eq!(state.unwrap(), ProposalState::Active);

    // One step past the window, the outcome appears: with no votes the
    // quorum is missed and the proposal is Defeated.
    let state = governor.get_proposal_state(pid, created_at + 691_201, &registry);
    assert_eq!(state.unwrap(), ProposalState::Defeated);
}

#[test]
fn test_quorum_small_body_leniency() {
    // With a total eligible weight of 10 and a 66% quorum, the effective
    // threshold is max(1, floor(10 * 66 / 100) / 5) = max(1, 6 / 5) = 1.
    let mut registry = MembershipRegistry::new(ROOT);
    registry.add_member(ROOT, BOB, 4, 0).unwrap(); // weight 10
    let mut governor = GovernanceEngine::new(ROOT);
    governor
        .set_track_config(
            ROOT,
            Track::Technical,
            TrackConfig {
                min_rank: 0,
                voting_delay: 0,
                voting_period: 1_000,
                quorum_percent: 66,
            },
        )
        .unwrap();

    let threshold = governor.calculate_quorum(Track::Technical, &registry).unwrap();
    assert_eq!(threshold, 1);
}

#[test]
fn test_quorum_large_body_no_leniency() {
    // With 20 or more weight units eligible, the threshold is the plain
    // percentage: floor(22 * 66 / 100) = 14.
    let mut registry = MembershipRegistry::new(ROOT);
    registry.add_member(ROOT, BOB, 4, 0).unwrap(); // 10
    registry.add_member(ROOT, CHARLIE, 4, 0).unwrap(); // 10
    registry.add_member(ROOT, 4, 1, 0).unwrap(); // 1
    registry.add_member(ROOT, 5, 1, 0).unwrap(); // 1
    let mut governor = GovernanceEngine::new(ROOT);
    governor
        .set_track_config(
            ROOT,
            Track::Technical,
            TrackConfig {
                min_rank: 0,
                voting_delay: 0,
                voting_period: 1_000,
                quorum_percent: 66,
            },
        )
        .unwrap();

    let threshold = governor.calculate_quorum(Track::Technical, &registry).unwrap();
    assert_eq!(threshold, 14);
}

#[test]
fn test_tally_matches_receipts() {
    // Two voters of weights 3 and 1: the buckets hold exactly the summed
    // receipt weights, and each voter holds exactly one receipt.
    let mut registry = MembershipRegistry::new(ROOT);
    registry.add_member(ROOT, BOB, 2, 0).unwrap(); // weight 3
    registry.add_member(ROOT, CHARLIE, 1, 0).unwrap(); // weight 1
    let mut governor = GovernanceEngine::new(ROOT);
    governor
        .set_track_config(
            ROOT,
            Track::Treasury,
            TrackConfig {
                min_rank: 0,
                voting_delay: 0,
                voting_period: 1_000,
                quorum_percent: 51,
            },
        )
        .unwrap();
    let pid = governor
        .propose(BOB, Track::Treasury, b"t".to_vec(), Vec::new(), 0, &registry)
        .unwrap();

    governor.vote(BOB, pid, VoteType::For, 1, &registry).unwrap();
    governor
        .vote(CHARLIE, pid, VoteType::Against, 2, &registry)
        .unwrap();

    let tally = governor.get_tally(pid).unwrap();
    assert_eq!(tally.for_votes, 3);
    assert_eq!(tally.against_votes, 1);
    assert_eq!(tally.abstain_votes, 0);

    let bob_receipt = governor.get_vote_receipt(pid, BOB).unwrap();
    assert_eq!(bob_receipt.weight, 3);
    assert_eq!(bob_receipt.vote, VoteType::For);
    let charlie_receipt = governor.get_vote_receipt(pid, CHARLIE).unwrap();
    assert_eq!(charlie_receipt.weight, 1);

    // A second vote by the same account is rejected; the receipt is
    // write-once.
    let again = governor.vote(BOB, pid, VoteType::Against, 3, &registry);
    assert_eq!(again, Err(GovernanceError::AlreadyVoted));
    let tally = governor.get_tally(pid).unwrap();
    assert_eq!(tally.for_votes, 3);
    assert_eq!(tally.against_votes, 1);
}

#[test]
fn test_vote_timing_errors() {
    let registry = registry_with_alice_senior();
    let mut governor = GovernanceEngine::new(ROOT);
    let pid = governor
        .propose(
            ALICE,
            Track::Technical,
            b"timing".to_vec(),
            Vec::new(),
            0,
            &registry,
        )
        .unwrap();

    // Before the window opens.
    let early = governor.vote(ALICE, pid, VoteType::For, 86_399, &registry);
    assert_eq!(early, Err(GovernanceError::VotingNotStarted));

    // After the window closes (86400 + 604800).
    let late = governor.vote(ALICE, pid, VoteType::For, 691_201, &registry);
    assert_eq!(late, Err(GovernanceError::VotingEnded));

    // An unknown proposal id.
    let missing = governor.vote(ALICE, 99, VoteType::For, 86_401, &registry);
    assert_eq!(missing, Err(GovernanceError::ProposalNotFound));
}

#[test]
fn test_vote_membership_errors() {
    let mut registry = registry_with_alice_senior();
    registry.add_member(ROOT, BOB, 1, 0).unwrap(); // below Technical floor
    registry.add_member(ROOT, CHARLIE, 3, 0).unwrap();
    registry.set_member_active(ROOT, CHARLIE, false).unwrap();
    let mut governor = GovernanceEngine::new(ROOT);
    let pid = governor
        .propose(
            ALICE,
            Track::Technical,
            b"member checks".to_vec(),
            Vec::new(),
            0,
            &registry,
        )
        .unwrap();

    // Rank below the track floor.
    let low = governor.vote(BOB, pid, VoteType::For, 86_401, &registry);
    assert_eq!(low, Err(GovernanceError::VoterInsufficientRank));

    // Not a member at all.
    let unknown = governor.vote(42, pid, VoteType::For, 86_401, &registry);
    assert_eq!(unknown, Err(GovernanceError::VoterInsufficientRank));

    // A deactivated member.
    let inactive = governor.vote(CHARLIE, pid, VoteType::For, 86_401, &registry);
    assert_eq!(inactive, Err(GovernanceError::VoterInactive));
}

#[test]
fn test_propose_insufficient_rank() {
    let mut registry = MembershipRegistry::new(ROOT);
    registry.add_member(ROOT, BOB, 1, 0).unwrap();
    let mut governor = GovernanceEngine::new(ROOT);

    // Technical requires rank 2.
    let result = governor.propose(
        BOB,
        Track::Technical,
        b"too low".to_vec(),
        Vec::new(),
        0,
        &registry,
    );
    assert_eq!(result, Err(GovernanceError::InsufficientRank));

    // An unknown account is equally rejected.
    let result = governor.propose(
        42,
        Track::Technical,
        b"unknown".to_vec(),
        Vec::new(),
        0,
        &registry,
    );
    assert_eq!(result, Err(GovernanceError::InsufficientRank));
}

#[test]
fn test_propose_inactive_member() {
    let mut registry = registry_with_alice_senior();
    registry.set_member_active(ROOT, ALICE, false).unwrap();
    let mut governor = GovernanceEngine::new(ROOT);

    let result = governor.propose(
        ALICE,
        Track::Technical,
        b"inactive".to_vec(),
        Vec::new(),
        0,
        &registry,
    );
    assert_eq!(result, Err(GovernanceError::VoterInactive));
}

#[test]
fn test_propose_time_overflow() {
    let registry = registry_with_alice_senior();
    let mut governor = GovernanceEngine::new(ROOT);

    let result = governor.propose(
        ALICE,
        Track::Technical,
        b"overflow".to_vec(),
        Vec::new(),
        u64::MAX - 10,
        &registry,
    );
    assert_eq!(result, Err(GovernanceError::ArithmeticOverflow));
}

#[test]
fn test_execute_requires_success() {
    let registry = registry_with_alice_senior();
    let mut governor = GovernanceEngine::new(ROOT);
    let pid = governor
        .propose(
            ALICE,
            Track::Technical,
            b"exec".to_vec(),
            Vec::new(),
            0,
            &registry,
        )
        .unwrap();

    // Still pending: cannot execute.
    let pending = governor.execute_proposal(pid, 1, &registry);
    assert_eq!(pending, Err(GovernanceError::ProposalNotSucceeded));

    // Nobody voted: after the window the proposal is Defeated, and
    // execution is still refused.
    let defeated = governor.execute_proposal(pid, 691_201, &registry);
    assert_eq!(defeated, Err(GovernanceError::ProposalNotSucceeded));
}

#[test]
fn test_cancel_after_window_rejected() {
    let registry = registry_with_alice_senior();
    let mut governor = GovernanceEngine::new(ROOT);
    let pid = governor
        .propose(
            ALICE,
            Track::Technical,
            b"late cancel".to_vec(),
            Vec::new(),
            0,
            &registry,
        )
        .unwrap();

    // Once the window has closed the proposal is no longer Pending or
    // Active, so it cannot be cancelled.
    let result = governor.cancel_proposal(ALICE, pid, 691_201, &registry);
    assert_eq!(result, Err(GovernanceError::InvalidProposalState));
}

#[test]
fn test_vote_on_cancelled_proposal() {
    let registry = registry_with_alice_senior();
    let mut governor = GovernanceEngine::new(ROOT);
    let pid = governor
        .propose(
            ALICE,
            Track::Technical,
            b"cancelled".to_vec(),
            Vec::new(),
            0,
            &registry,
        )
        .unwrap();
    governor.cancel_proposal(ALICE, pid, 1, &registry).unwrap();

    let result = governor.vote(ALICE, pid, VoteType::For, 86_401, &registry);
    assert_eq!(result, Err(GovernanceError::InvalidProposalState));
}

#[test]
fn test_unconfigured_track() {
    let registry = registry_with_alice_senior();
    let mut governor = GovernanceEngine::new_unconfigured(ROOT);

    let result = governor.propose(
        ALICE,
        Track::Technical,
        b"no config".to_vec(),
        Vec::new(),
        0,
        &registry,
    );
    assert_eq!(result, Err(GovernanceError::TrackNotConfigured));
}
