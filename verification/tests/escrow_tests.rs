use dao_core::escrow::DisputeStatus;
use dao_core::escrow::EscrowError;
use dao_core::escrow::Marketplace;
use dao_core::escrow::MilestoneStatus;
use dao_core::membership::MembershipRegistry;

const ROOT: u64 = 100;
const CLIENT: u64 = 1;
const PROVIDER: u64 = 2;

/// A registry holding exactly five members who qualify for jury duty.
fn registry_with_five_jurors() -> MembershipRegistry {
    let mut registry = MembershipRegistry::new(ROOT);
    for juror in 5..10u64 {
        registry.add_member(ROOT, juror, 3, 0).unwrap();
    }
    registry
}

#[test]
fn test_create_mission_and_milestones() {
    let mut market = Marketplace::new();

    let mission_id = market.create_mission(CLIENT, PROVIDER, 100_000);
    assert_eq!(mission_id, 0);

    let m0 = market
        .add_milestone(CLIENT, mission_id, b"design".to_vec(), 30_000, 50_400)
        .unwrap();
    let m1 = market
        .add_milestone(CLIENT, mission_id, b"build".to_vec(), 30_000, 100_800)
        .unwrap();
    assert_eq!(m0, 0);
    assert_eq!(m1, 1);

    let mission = market.get_mission(mission_id).unwrap();
    assert_eq!(mission.total_budget, 100_000);
    assert_eq!(mission.released_funds, 0);
    assert_eq!(mission.milestones.len(), 2);
}

#[test]
fn test_add_milestone_requires_client() {
    let mut market = Marketplace::new();
    let mission_id = market.create_mission(CLIENT, PROVIDER, 100_000);

    let result = market.add_milestone(PROVIDER, mission_id, b"m".to_vec(), 1_000, 10);
    assert_eq!(result, Err(EscrowError::UnauthorizedClient));

    let result = market.add_milestone(CLIENT, 99, b"m".to_vec(), 1_000, 10);
    assert_eq!(result, Err(EscrowError::MissionNotFound));
}

#[test]
fn test_milestones_cannot_exceed_budget() {
    let mut market = Marketplace::new();
    let mission_id = market.create_mission(CLIENT, PROVIDER, 50_000);

    market
        .add_milestone(CLIENT, mission_id, b"a".to_vec(), 30_000, 10)
        .unwrap();
    let result = market.add_milestone(CLIENT, mission_id, b"b".to_vec(), 30_000, 20);
    assert_eq!(result, Err(EscrowError::ArithmeticOverflow));
}

#[test]
fn test_sequential_milestone_submission() {
    // Milestone 1 cannot be submitted while milestone 0 is Pending or
    // Submitted; right after milestone 0 is approved it can.
    let mut market = Marketplace::new();
    let mission_id = market.create_mission(CLIENT, PROVIDER, 100_000);
    market
        .add_milestone(CLIENT, mission_id, b"first".to_vec(), 40_000, 50)
        .unwrap();
    market
        .add_milestone(CLIENT, mission_id, b"second".to_vec(), 60_000, 100)
        .unwrap();

    // Milestone 0 still Pending: submitting milestone 1 is rejected.
    let early = market.submit_milestone(PROVIDER, mission_id, 1, b"work".to_vec(), 10);
    assert_eq!(early, Err(EscrowError::PreviousMilestoneNotApproved));

    // Milestone 0 Submitted: still rejected.
    market
        .submit_milestone(PROVIDER, mission_id, 0, b"work0".to_vec(), 11)
        .unwrap();
    let still_early = market.submit_milestone(PROVIDER, mission_id, 1, b"work".to_vec(), 12);
    assert_eq!(still_early, Err(EscrowError::PreviousMilestoneNotApproved));

    // Milestone 0 Approved: submitting milestone 1 succeeds.
    market.approve_milestone(CLIENT, mission_id, 0).unwrap();
    let now_ok = market.submit_milestone(PROVIDER, mission_id, 1, b"work1".to_vec(), 13);
    assert!(now_ok.is_ok());
}

#[test]
fn test_submit_requires_consultant() {
    let mut market = Marketplace::new();
    let mission_id = market.create_mission(CLIENT, PROVIDER, 10_000);
    market
        .add_milestone(CLIENT, mission_id, b"m".to_vec(), 10_000, 10)
        .unwrap();

    let result = market.submit_milestone(CLIENT, mission_id, 0, b"w".to_vec(), 1);
    assert_eq!(result, Err(EscrowError::UnauthorizedConsultant));

    let missing = market.submit_milestone(PROVIDER, mission_id, 9, b"w".to_vec(), 1);
    assert_eq!(missing, Err(EscrowError::MilestoneNotFound));
}

#[test]
fn test_approve_releases_funds() {
    let mut market = Marketplace::new();
    let mission_id = market.create_mission(CLIENT, PROVIDER, 100_000);
    market
        .add_milestone(CLIENT, mission_id, b"m".to_vec(), 30_000, 10)
        .unwrap();
    market
        .submit_milestone(PROVIDER, mission_id, 0, b"done".to_vec(), 5)
        .unwrap();

    market.approve_milestone(CLIENT, mission_id, 0).unwrap();

    let mission = market.get_mission(mission_id).unwrap();
    assert_eq!(mission.released_funds, 30_000);
    let milestone = market.get_milestone(mission_id, 0).unwrap();
    assert_eq!(milestone.status, MilestoneStatus::Approved);

    // Approving twice is rejected: the milestone is no longer Submitted.
    let again = market.approve_milestone(CLIENT, mission_id, 0);
    assert_eq!(again, Err(EscrowError::InvalidMilestoneStatus));
}

#[test]
fn test_reject_milestone_is_terminal() {
    let mut market = Marketplace::new();
    let mission_id = market.create_mission(CLIENT, PROVIDER, 10_000);
    market
        .add_milestone(CLIENT, mission_id, b"m".to_vec(), 10_000, 10)
        .unwrap();
    market
        .submit_milestone(PROVIDER, mission_id, 0, b"done".to_vec(), 5)
        .unwrap();

    market.reject_milestone(CLIENT, mission_id, 0).unwrap();

    let milestone = market.get_milestone(mission_id, 0).unwrap();
    assert_eq!(milestone.status, MilestoneStatus::Rejected);
    let mission = market.get_mission(mission_id).unwrap();
    assert_eq!(mission.released_funds, 0);

    // No way back: the consultant cannot submit it again.
    let resubmit = market.submit_milestone(PROVIDER, mission_id, 0, b"again".to_vec(), 6);
    assert_eq!(resubmit, Err(EscrowError::InvalidMilestoneStatus));
}

#[test]
fn test_auto_release_timing() {
    let mut market = Marketplace::new();
    let mission_id = market.create_mission(CLIENT, PROVIDER, 10_000);
    market
        .add_milestone(CLIENT, mission_id, b"m".to_vec(), 10_000, 10)
        .unwrap();
    market
        .submit_milestone(PROVIDER, mission_id, 0, b"done".to_vec(), 1_000)
        .unwrap();

    // Before the waiting period has elapsed, release is refused.
    let early = market.auto_release_milestone(mission_id, 0, 1_000 + 100_799);
    assert_eq!(early, Err(EscrowError::AutoReleaseDelayNotMet));

    // At exactly submitted_at + AUTO_RELEASE_DELAY anyone may release.
    market
        .auto_release_milestone(mission_id, 0, 1_000 + 100_800)
        .unwrap();
    let mission = market.get_mission(mission_id).unwrap();
    assert_eq!(mission.released_funds, 10_000);
}

#[test]
fn test_dispute_needs_enough_jurors() {
    let mut registry = MembershipRegistry::new(ROOT);
    // Only three members qualify (rank 3 or higher).
    for juror in 5..8u64 {
        registry.add_member(ROOT, juror, 3, 0).unwrap();
    }
    let mut market = Marketplace::new();
    let mission_id = market.create_mission(CLIENT, PROVIDER, 10_000);
    market
        .add_milestone(CLIENT, mission_id, b"m".to_vec(), 10_000, 10)
        .unwrap();
    market
        .submit_milestone(PROVIDER, mission_id, 0, b"done".to_vec(), 5)
        .unwrap();

    let result = market.raise_dispute(CLIENT, mission_id, 0, b"bad".to_vec(), 10, 7, &registry);
    assert_eq!(result, Err(EscrowError::InsufficientEligibleJurors));
}

#[test]
fn test_dispute_excludes_parties_from_jury() {
    // The client and the consultant hold rank 3, but may not judge their
    // own mission; only the five outsiders qualify.
    let mut registry = registry_with_five_jurors();
    registry.add_member(ROOT, CLIENT, 3, 0).unwrap();
    registry.add_member(ROOT, PROVIDER, 3, 0).unwrap();
    let mut market = Marketplace::new();
    let mission_id = market.create_mission(CLIENT, PROVIDER, 10_000);
    market
        .add_milestone(CLIENT, mission_id, b"m".to_vec(), 10_000, 10)
        .unwrap();
    market
        .submit_milestone(PROVIDER, mission_id, 0, b"done".to_vec(), 5)
        .unwrap();

    let dispute_id = market
        .raise_dispute(CLIENT, mission_id, 0, b"bad".to_vec(), 10, 99, &registry)
        .unwrap();
    let dispute = market.get_dispute(dispute_id).unwrap();
    assert_eq!(dispute.jurors.len(), 5);
    assert!(!dispute.jurors.contains(&CLIENT));
    assert!(!dispute.jurors.contains(&PROVIDER));
    for juror in dispute.jurors.iter() {
        assert!((5u64..10u64).contains(juror));
    }
}

#[test]
fn test_dispute_early_majority_resolves_immediately() {
    // Three of five jurors voting for the consultant settle the dispute
    // at once: no waiting for the other two votes or the deadline.
    let registry = registry_with_five_jurors();
    let mut market = Marketplace::new();
    let mission_id = market.create_mission(CLIENT, PROVIDER, 10_000);
    market
        .add_milestone(CLIENT, mission_id, b"m".to_vec(), 10_000, 10)
        .unwrap();
    market
        .submit_milestone(PROVIDER, mission_id, 0, b"done".to_vec(), 5)
        .unwrap();
    let dispute_id = market
        .raise_dispute(CLIENT, mission_id, 0, b"bad".to_vec(), 10, 3, &registry)
        .unwrap();

    let jurors: Vec<u64> = market.get_dispute(dispute_id).unwrap().jurors.clone();
    market.vote_on_dispute(jurors[0], dispute_id, true).unwrap();
    market.vote_on_dispute(jurors[1], dispute_id, true).unwrap();
    assert_eq!(
        market.get_dispute(dispute_id).unwrap().status,
        DisputeStatus::Voting
    );

    market.vote_on_dispute(jurors[2], dispute_id, true).unwrap();

    let dispute = market.get_dispute(dispute_id).unwrap();
    assert_eq!(dispute.status, DisputeStatus::Resolved);
    assert_eq!(dispute.votes_for, 3);
    assert_eq!(dispute.votes_against, 0);
    assert_eq!(dispute.winner, Some(PROVIDER));

    // The consultant's win releases the milestone's funds.
    let mission = market.get_mission(mission_id).unwrap();
    assert_eq!(mission.released_funds, 10_000);

    // A late vote is rejected: the dispute is no longer voting.
    let late = market.vote_on_dispute(jurors[3], dispute_id, false);
    assert_eq!(late, Err(EscrowError::DisputeNotVoting));
}

#[test]
fn test_dispute_tie_after_deadline_no_winner() {
    // A 2-2 split cannot resolve before the deadline; after it, the
    // dispute closes with no winner and the funds unchanged.
    let registry = registry_with_five_jurors();
    let mut market = Marketplace::new();
    let mission_id = market.create_mission(CLIENT, PROVIDER, 10_000);
    market
        .add_milestone(CLIENT, mission_id, b"m".to_vec(), 10_000, 10)
        .unwrap();
    market
        .submit_milestone(PROVIDER, mission_id, 0, b"done".to_vec(), 5)
        .unwrap();
    let raised_at = 10;
    let dispute_id = market
        .raise_dispute(CLIENT, mission_id, 0, b"bad".to_vec(), raised_at, 11, &registry)
        .unwrap();

    let jurors: Vec<u64> = market.get_dispute(dispute_id).unwrap().jurors.clone();
    market.vote_on_dispute(jurors[0], dispute_id, true).unwrap();
    market.vote_on_dispute(jurors[1], dispute_id, true).unwrap();
    market.vote_on_dispute(jurors[2], dispute_id, false).unwrap();
    market.vote_on_dispute(jurors[3], dispute_id, false).unwrap();

    // Before the deadline, neither side holds a majority: not resolvable.
    let early = market.resolve_dispute(dispute_id, raised_at + 43_199);
    assert_eq!(early, Err(EscrowError::VotingPeriodNotEnded));

    // At the deadline the tie resolves to no winner; no funds move.
    market.resolve_dispute(dispute_id, raised_at + 43_200).unwrap();
    let dispute = market.get_dispute(dispute_id).unwrap();
    assert_eq!(dispute.status, DisputeStatus::Resolved);
    assert_eq!(dispute.winner, None);
    let mission = market.get_mission(mission_id).unwrap();
    assert_eq!(mission.released_funds, 0);
}

#[test]
fn test_dispute_client_majority_rejects_milestone() {
    let registry = registry_with_five_jurors();
    let mut market = Marketplace::new();
    let mission_id = market.create_mission(CLIENT, PROVIDER, 10_000);
    market
        .add_milestone(CLIENT, mission_id, b"m".to_vec(), 10_000, 10)
        .unwrap();
    market
        .submit_milestone(PROVIDER, mission_id, 0, b"done".to_vec(), 5)
        .unwrap();
    let dispute_id = market
        .raise_dispute(PROVIDER, mission_id, 0, b"unpaid".to_vec(), 10, 5, &registry)
        .unwrap();

    let jurors: Vec<u64> = market.get_dispute(dispute_id).unwrap().jurors.clone();
    market.vote_on_dispute(jurors[0], dispute_id, false).unwrap();
    market.vote_on_dispute(jurors[1], dispute_id, false).unwrap();
    market.vote_on_dispute(jurors[2], dispute_id, false).unwrap();

    let dispute = market.get_dispute(dispute_id).unwrap();
    assert_eq!(dispute.status, DisputeStatus::Resolved);
    assert_eq!(dispute.winner, Some(CLIENT));
    let milestone = market.get_milestone(mission_id, 0).unwrap();
    assert_eq!(milestone.status, MilestoneStatus::Rejected);
    let mission = market.get_mission(mission_id).unwrap();
    assert_eq!(mission.released_funds, 0);
}

#[test]
fn test_dispute_voting_errors() {
    let registry = registry_with_five_jurors();
    let mut market = Marketplace::new();
    let mission_id = market.create_mission(CLIENT, PROVIDER, 10_000);
    market
        .add_milestone(CLIENT, mission_id, b"m".to_vec(), 10_000, 10)
        .unwrap();
    market
        .submit_milestone(PROVIDER, mission_id, 0, b"done".to_vec(), 5)
        .unwrap();
    let dispute_id = market
        .raise_dispute(CLIENT, mission_id, 0, b"bad".to_vec(), 10, 17, &registry)
        .unwrap();

    // A non-juror may not vote.
    let outsider = market.vote_on_dispute(CLIENT, dispute_id, false);
    assert_eq!(outsider, Err(EscrowError::NotJuror));

    // A juror votes once only.
    let jurors: Vec<u64> = market.get_dispute(dispute_id).unwrap().jurors.clone();
    market.vote_on_dispute(jurors[0], dispute_id, true).unwrap();
    let again = market.vote_on_dispute(jurors[0], dispute_id, false);
    assert_eq!(again, Err(EscrowError::AlreadyVoted));

    // Unknown dispute ids are rejected.
    let missing = market.vote_on_dispute(jurors[1], 99, true);
    assert_eq!(missing, Err(EscrowError::DisputeNotFound));
    let missing = market.resolve_dispute(99, 0);
    assert_eq!(missing, Err(EscrowError::DisputeNotFound));
}

#[test]
fn test_dispute_requires_contestable_milestone() {
    let registry = registry_with_five_jurors();
    let mut market = Marketplace::new();
    let mission_id = market.create_mission(CLIENT, PROVIDER, 10_000);
    market
        .add_milestone(CLIENT, mission_id, b"m".to_vec(), 10_000, 10)
        .unwrap();
    market
        .submit_milestone(PROVIDER, mission_id, 0, b"done".to_vec(), 5)
        .unwrap();
    market.approve_milestone(CLIENT, mission_id, 0).unwrap();

    // An approved milestone is settled and cannot be contested.
    let result = market.raise_dispute(CLIENT, mission_id, 0, b"late".to_vec(), 10, 1, &registry);
    assert_eq!(result, Err(EscrowError::InvalidMilestoneStatus));

    // Only the two parties may contest at all.
    let outsider = market.raise_dispute(7, mission_id, 0, b"who".to_vec(), 10, 1, &registry);
    assert_eq!(outsider, Err(EscrowError::UnauthorizedClient));
}

#[test]
fn test_jury_selection_deterministic() {
    // The same registry and seed always select the same jury.
    let build = || {
        let mut registry = MembershipRegistry::new(ROOT);
        for juror in 5..15u64 {
            registry.add_member(ROOT, juror, 3, 0).unwrap();
        }
        let mut market = Marketplace::new();
        let mission_id = market.create_mission(CLIENT, PROVIDER, 10_000);
        market
            .add_milestone(CLIENT, mission_id, b"m".to_vec(), 10_000, 10)
            .unwrap();
        market
            .submit_milestone(PROVIDER, mission_id, 0, b"done".to_vec(), 5)
            .unwrap();
        let dispute_id = market
            .raise_dispute(CLIENT, mission_id, 0, b"bad".to_vec(), 10, 12345, &registry)
            .unwrap();
        market.get_dispute(dispute_id).unwrap().jurors.clone()
    };
    let first = build();
    let second = build();
    assert_eq!(first, second);
    assert_eq!(first.len(), 5);
}
