// End-to-end scenarios across the three engines, measuring time in block
// numbers (6-second blocks): membership promotion, a governance proposal
// lifecycle, and mission escrow with and without a dispute.

use dao_core::escrow::DisputeStatus;
use dao_core::escrow::Marketplace;
use dao_core::escrow::MilestoneStatus;
use dao_core::governance::GovernanceEngine;
use dao_core::governance::ProposalState;
use dao_core::governance::Track;
use dao_core::governance::TrackConfig;
use dao_core::governance::VoteType;
use dao_core::membership::MembershipError;
use dao_core::membership::MembershipRegistry;

const ROOT: u64 = 0;

/// Minimum blocks at each rank before promotion to the next: none, then
/// 90, 180, 365 and 547 days.
const BLOCK_DURATIONS: [u64; 5] = [0, 1_296_000, 2_592_000, 5_184_000, 7_862_400];

fn account(id: u8) -> u64 {
    id as u64
}

#[test]
fn test_membership_junior_to_consultant_promotion() {
    let mut registry = MembershipRegistry::with_durations(ROOT, BLOCK_DURATIONS);
    let alice = account(1);

    // Add Alice as Junior (rank 0) at block 1.
    registry.add_member(ROOT, alice, 0, 1).unwrap();

    // Verify membership.
    assert_eq!(registry.get_member_info(alice).unwrap().rank, 0);

    // Fast-forward 90 days (1_296_000 blocks at 6s/block) and promote to
    // Consultant (rank 1).
    registry.promote_member(ROOT, alice, 1_296_001).unwrap();

    // Verify promotion.
    assert_eq!(registry.get_member_info(alice).unwrap().rank, 1);

    // Vote weight should be 1 (triangular formula: 1*(1+1)/2 = 1).
    assert_eq!(registry.get_vote_weight(alice), 1);
}

#[test]
fn test_membership_premature_promotion_fails() {
    let mut registry = MembershipRegistry::with_durations(ROOT, BLOCK_DURATIONS);
    let alice = account(1);

    // Add as Junior at block 1.
    registry.add_member(ROOT, alice, 0, 1).unwrap();

    // Attempt promotion immediately (without waiting 90 days).
    let result = registry.promote_member(ROOT, alice, 10);
    assert_eq!(result.unwrap_err(), MembershipError::MinDurationNotMet);
}

#[test]
fn test_governance_technical_proposal_lifecycle() {
    let mut registry = MembershipRegistry::with_durations(ROOT, BLOCK_DURATIONS);
    let alice = account(1);
    let bob = account(2);

    // Setup: Alice and Bob as Senior (rank 2) for the Technical track.
    registry.add_member(ROOT, alice, 2, 1).unwrap();
    registry.add_member(ROOT, bob, 2, 1).unwrap();

    // Technical track measured in blocks: no delay, a 7-day voting period
    // (100_800 blocks), 66% quorum.
    let mut governance = GovernanceEngine::new(ROOT);
    governance
        .set_track_config(
            ROOT,
            Track::Technical,
            TrackConfig {
                min_rank: 2,
                voting_delay: 0,
                voting_period: 100_800,
                quorum_percent: 66,
            },
        )
        .unwrap();

    // Submit a Technical proposal (requires rank 2+).
    let proposal_id = governance
        .propose(
            alice,
            Track::Technical,
            b"Upgrade runtime to v2.0".to_vec(),
            Vec::new(),
            1,
            &registry,
        )
        .unwrap();
    assert_eq!(proposal_id, 0);

    // Vote: Alice votes Yes (weight 3: 2*(2+1)/2).
    governance
        .vote(alice, proposal_id, VoteType::For, 1, &registry)
        .unwrap();

    // Vote: Bob votes Yes (weight 3).
    governance
        .vote(bob, proposal_id, VoteType::For, 1, &registry)
        .unwrap();

    // Fast-forward past the voting period: the proposal passes (6 weight
    // units for, none against, quorum met under the 66% threshold).
    let state = governance
        .get_proposal_state(proposal_id, 100_802, &registry)
        .unwrap();
    assert_eq!(state, ProposalState::Succeeded);

    // Fast-forward an enactment period (2 days = 28_800 blocks) and
    // execute the proposal.
    governance
        .execute_proposal(proposal_id, 100_802 + 28_801, &registry)
        .unwrap();
    assert_eq!(
        governance.get_proposal(proposal_id).unwrap().state,
        ProposalState::Executed
    );
}

#[test]
fn test_marketplace_mission_lifecycle_success() {
    let mut market = Marketplace::new();
    let client = account(1);
    let provider = account(2);

    // Client creates a mission: 100k budget, 3 milestones with 7, 14 and
    // 21 day deadlines.
    let mission_id = market.create_mission(client, provider, 100_000);
    assert_eq!(mission_id, 0);
    market
        .add_milestone(client, mission_id, b"Mockups".to_vec(), 30_000, 50_400)
        .unwrap();
    market
        .add_milestone(client, mission_id, b"Components".to_vec(), 30_000, 100_800)
        .unwrap();
    market
        .add_milestone(client, mission_id, b"Deployment".to_vec(), 40_000, 151_200)
        .unwrap();

    // Verify escrow recorded.
    assert_eq!(market.get_mission(mission_id).unwrap().total_budget, 100_000);

    // Provider submits milestone 1; client approves it.
    market
        .submit_milestone(
            provider,
            mission_id,
            0,
            b"Figma mockups complete".to_vec(),
            100,
        )
        .unwrap();
    market.approve_milestone(client, mission_id, 0).unwrap();

    // Verify payment released (30k).
    assert_eq!(market.get_mission(mission_id).unwrap().released_funds, 30_000);

    // Submit + approve milestone 2.
    market
        .submit_milestone(
            provider,
            mission_id,
            1,
            b"React components implemented".to_vec(),
            200,
        )
        .unwrap();
    market.approve_milestone(client, mission_id, 1).unwrap();

    // Submit milestone 3; the client never responds.
    market
        .submit_milestone(
            provider,
            mission_id,
            2,
            b"Production deployment live".to_vec(),
            300,
        )
        .unwrap();

    // Fast-forward 7 days (100_800 blocks) and trigger the auto-release.
    market
        .auto_release_milestone(mission_id, 2, 300 + 100_801)
        .unwrap();

    // Verify the full budget released and every milestone approved.
    assert_eq!(market.get_mission(mission_id).unwrap().released_funds, 100_000);
    for milestone_id in 0..3u64 {
        assert_eq!(
            market.get_milestone(mission_id, milestone_id).unwrap().status,
            MilestoneStatus::Approved
        );
    }
}

#[test]
fn test_marketplace_dispute_resolution() {
    let mut registry = MembershipRegistry::with_durations(ROOT, BLOCK_DURATIONS);
    let client = account(1);
    let provider = account(2);

    // Setup a pool of five rank-3 members for jury duty.
    for juror in 5..10u8 {
        registry.add_member(ROOT, account(juror), 3, 1).unwrap();
    }

    // Create the mission with one 50k milestone.
    let mut market = Marketplace::new();
    let mission_id = market.create_mission(client, provider, 50_000);
    market
        .add_milestone(client, mission_id, b"Mission with dispute".to_vec(), 50_000, 50_400)
        .unwrap();

    // Provider submits the milestone; the client disputes it.
    market
        .submit_milestone(provider, mission_id, 0, b"Work complete".to_vec(), 100)
        .unwrap();
    let dispute_id = market
        .raise_dispute(
            client,
            mission_id,
            0,
            b"Quality not acceptable".to_vec(),
            100,
            42,
            &registry,
        )
        .unwrap();

    // Jurors vote: two for the provider, one for the client.
    let jurors: Vec<u64> = market.get_dispute(dispute_id).unwrap().jurors.clone();
    market.vote_on_dispute(jurors[0], dispute_id, true).unwrap();
    market.vote_on_dispute(jurors[1], dispute_id, true).unwrap();
    market.vote_on_dispute(jurors[2], dispute_id, false).unwrap();

    // Fast-forward past the voting period (72h = 43_200 blocks) and
    // resolve.
    market.resolve_dispute(dispute_id, 100 + 43_201).unwrap();

    // Verify: the provider wins 2-1 and the payment is released.
    let dispute = market.get_dispute(dispute_id).unwrap();
    assert_eq!(dispute.status, DisputeStatus::Resolved);
    assert_eq!(dispute.winner, Some(provider));
    assert_eq!(market.get_mission(mission_id).unwrap().released_funds, 50_000);
}

#[test]
fn test_e2e_dao_workflow() {
    // Step 1: Bootstrap DAO members.
    let mut registry = MembershipRegistry::with_durations(ROOT, BLOCK_DURATIONS);
    let founder = account(1);
    let dev1 = account(2);
    let dev2 = account(3);

    registry.add_member(ROOT, founder, 3, 1).unwrap();
    registry.add_member(ROOT, dev1, 2, 1).unwrap();
    registry.add_member(ROOT, dev2, 1, 1).unwrap();

    // Step 2: Founder proposes a Treasury spend for mission funding, on a
    // block-based Treasury track.
    let mut governance = GovernanceEngine::new(ROOT);
    governance
        .set_track_config(
            ROOT,
            Track::Treasury,
            TrackConfig {
                min_rank: 1,
                voting_delay: 0,
                voting_period: 100_800,
                quorum_percent: 51,
            },
        )
        .unwrap();
    let proposal_id = governance
        .propose(
            founder,
            Track::Treasury,
            b"Allocate 500k for Q1 missions".to_vec(),
            Vec::new(),
            1,
            &registry,
        )
        .unwrap();
    assert_eq!(proposal_id, 0);

    // Step 3: Vote and pass the proposal (founder weight 6, dev1 weight 3
    // of 10 total eligible weight).
    governance
        .vote(founder, proposal_id, VoteType::For, 1, &registry)
        .unwrap();
    governance
        .vote(dev1, proposal_id, VoteType::For, 1, &registry)
        .unwrap();

    let state = governance
        .get_proposal_state(proposal_id, 100_801 + 1, &registry)
        .unwrap();
    assert_eq!(state, ProposalState::Succeeded);

    governance
        .execute_proposal(proposal_id, 100_801 + 28_801, &registry)
        .unwrap();

    // Step 4: Treasury funded; create the mission.
    let client = founder;
    let provider = dev1;
    let mut market = Marketplace::new();
    let mission_id = market.create_mission(client, provider, 200_000);
    market
        .add_milestone(client, mission_id, b"Dashboard M1".to_vec(), 100_000, 50_400)
        .unwrap();
    market
        .add_milestone(client, mission_id, b"Dashboard M2".to_vec(), 100_000, 100_800)
        .unwrap();

    // Step 5: Provider completes the mission milestone by milestone.
    market
        .submit_milestone(provider, mission_id, 0, b"M1 done".to_vec(), 200)
        .unwrap();
    market.approve_milestone(client, mission_id, 0).unwrap();

    market
        .submit_milestone(provider, mission_id, 1, b"M2 done".to_vec(), 300)
        .unwrap();
    market.approve_milestone(client, mission_id, 1).unwrap();

    // Verify: mission complete, full budget released, DAO operational.
    assert_eq!(market.get_mission(mission_id).unwrap().released_funds, 200_000);
    assert_eq!(
        market.get_milestone(mission_id, 1).unwrap().status,
        MilestoneStatus::Approved
    );
}
