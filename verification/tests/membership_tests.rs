use dao_core::membership::MembershipError;
use dao_core::membership::MembershipRegistry;
use dao_core::rank::calculate_vote_weight_for_rank;

// The deploying account holds both the admin and member-manager roles.
const ROOT: u64 = 1;
const BOB: u64 = 2;
const CHARLIE: u64 = 3;
const DJANGO: u64 = 4;

#[test]
fn test_constructor() {
    let registry = MembershipRegistry::new(ROOT);
    assert_eq!(registry.get_member_count(), 0);
}

#[test]
fn test_add_member() {
    let mut registry = MembershipRegistry::new(ROOT);

    let result = registry.add_member(ROOT, BOB, 1, 0);

    assert!(result.is_ok());
    assert!(registry.is_member(BOB));
    assert_eq!(registry.get_member_count(), 1);
}

#[test]
fn test_calculate_vote_weight() {
    let mut registry = MembershipRegistry::new(ROOT);

    // Add member with rank 2.
    registry.add_member(ROOT, BOB, 2, 0).unwrap();

    // Weight for rank 2 should be 3 (triangular number).
    let weight = registry.calculate_vote_weight(BOB, 0).unwrap();
    assert_eq!(weight, 3);
}

#[test]
fn test_rank_too_low() {
    let mut registry = MembershipRegistry::new(ROOT);

    // Add member with rank 1.
    registry.add_member(ROOT, BOB, 1, 0).unwrap();

    // Should fail with min_rank = 2.
    let result = registry.calculate_vote_weight(BOB, 2);
    assert_eq!(result, Err(MembershipError::RankTooLow));
}

#[test]
fn test_total_vote_weight() {
    let mut registry = MembershipRegistry::new(ROOT);

    // Add members: rank 1 (weight 1), rank 2 (weight 3).
    registry.add_member(ROOT, BOB, 1, 0).unwrap();
    registry.add_member(ROOT, CHARLIE, 2, 0).unwrap();

    // Total weight should be 1 + 3 = 4.
    let total = registry.calculate_total_vote_weight(0);
    assert_eq!(total, 4);
}

#[test]
fn test_unauthorized_add_member() {
    let mut registry = MembershipRegistry::new(ROOT);

    // A caller who is not the member manager cannot add members.
    let result = registry.add_member(BOB, CHARLIE, 1, 0);

    assert_eq!(result, Err(MembershipError::Unauthorized));
}

#[test]
fn test_promote_member() {
    let mut registry = MembershipRegistry::new(ROOT);

    // Add member at rank 1.
    registry.add_member(ROOT, BOB, 1, 0).unwrap();

    // Advance time by 180 days (15_552_000 seconds) to meet the minimum
    // duration for rank 2, then promote.
    let result = registry.promote_member(ROOT, BOB, 15_552_000);
    assert!(result.is_ok());

    let member = registry.get_member_info(BOB).unwrap();
    assert_eq!(member.rank, 2);
}

#[test]
fn test_promote_max_rank() {
    let mut registry = MembershipRegistry::new(ROOT);

    // Add member at max rank.
    registry.add_member(ROOT, BOB, 4, 0).unwrap();

    // Try to promote beyond max.
    let result = registry.promote_member(ROOT, BOB, 0);
    assert_eq!(result.unwrap_err(), MembershipError::AlreadyMaxRank);
}

#[test]
fn test_demote_member() {
    let mut registry = MembershipRegistry::new(ROOT);

    // Add member at rank 2.
    registry.add_member(ROOT, BOB, 2, 0).unwrap();

    // Demote to rank 1.
    let result = registry.demote_member(ROOT, BOB);
    assert!(result.is_ok());

    let member = registry.get_member_info(BOB).unwrap();
    assert_eq!(member.rank, 1);
}

#[test]
fn test_demote_min_rank() {
    let mut registry = MembershipRegistry::new(ROOT);

    // Add member at min rank.
    registry.add_member(ROOT, BOB, 0, 0).unwrap();

    // Try to demote below min.
    let result = registry.demote_member(ROOT, BOB);
    assert_eq!(result.unwrap_err(), MembershipError::AlreadyMinRank);
}

#[test]
fn test_remove_member() {
    let mut registry = MembershipRegistry::new(ROOT);

    // Add member.
    registry.add_member(ROOT, BOB, 1, 0).unwrap();

    // Remove member.
    let result = registry.remove_member(ROOT, BOB);
    assert!(result.is_ok());

    // Verify member no longer exists.
    assert!(registry.get_member_info(BOB).is_err());
    assert_eq!(registry.get_member_count(), 0);
}

#[test]
fn test_set_member_active() {
    let mut registry = MembershipRegistry::new(ROOT);

    // Add member.
    registry.add_member(ROOT, BOB, 1, 0).unwrap();

    // Deactivate member.
    registry.set_member_active(ROOT, BOB, false).unwrap();

    let member = registry.get_member_info(BOB).unwrap();
    assert!(!member.active);

    // Reactivate member.
    registry.set_member_active(ROOT, BOB, true).unwrap();

    let member = registry.get_member_info(BOB).unwrap();
    assert!(member.active);
}

#[test]
fn test_vote_weight_calculation() {
    // Test triangular numbers: rank * (rank + 1) / 2
    // Rank 0: 0 * 1 / 2 = 0
    // Rank 1: 1 * 2 / 2 = 1
    // Rank 2: 2 * 3 / 2 = 3
    // Rank 3: 3 * 4 / 2 = 6
    // Rank 4: 4 * 5 / 2 = 10
    assert_eq!(calculate_vote_weight_for_rank(0), 0);
    assert_eq!(calculate_vote_weight_for_rank(1), 1);
    assert_eq!(calculate_vote_weight_for_rank(2), 3);
    assert_eq!(calculate_vote_weight_for_rank(3), 6);
    assert_eq!(calculate_vote_weight_for_rank(4), 10);
}

#[test]
fn test_min_rank_filtering() {
    let mut registry = MembershipRegistry::new(ROOT);

    // Add members with different ranks.
    registry.add_member(ROOT, BOB, 0, 0).unwrap();
    registry.add_member(ROOT, CHARLIE, 2, 0).unwrap();
    registry.add_member(ROOT, DJANGO, 3, 0).unwrap();

    // Calculate total weight with min_rank = 2.
    // Only charlie (rank 2, weight 3) and django (rank 3, weight 6) count.
    let total = registry.calculate_total_vote_weight(2);
    assert_eq!(total, 9); // 3 + 6
}

#[test]
fn test_get_all_members() {
    let mut registry = MembershipRegistry::new(ROOT);

    // Add multiple members.
    registry.add_member(ROOT, BOB, 1, 0).unwrap();
    registry.add_member(ROOT, CHARLIE, 2, 0).unwrap();

    let members = registry.get_all_members();
    assert_eq!(members.len(), 2);
    assert!(members.contains(&BOB));
    assert!(members.contains(&CHARLIE));
}

#[test]
fn test_role_management() {
    let mut registry = MembershipRegistry::new(ROOT);

    // Set new member manager.
    registry.set_member_manager(ROOT, BOB).unwrap();
    assert_eq!(registry.get_member_manager(), BOB);

    // New manager can add members.
    let result = registry.add_member(BOB, CHARLIE, 1, 0);
    assert!(result.is_ok());
}

#[test]
fn test_member_already_exists() {
    let mut registry = MembershipRegistry::new(ROOT);

    // Add member.
    registry.add_member(ROOT, BOB, 1, 0).unwrap();

    // Try to add same member again.
    let result = registry.add_member(ROOT, BOB, 2, 0);
    assert_eq!(result, Err(MembershipError::AlreadyMember));
}

#[test]
fn test_member_not_found() {
    let registry = MembershipRegistry::new(ROOT);

    // Try to get a non-existent member.
    let result = registry.get_member_info(BOB);
    assert_eq!(result.unwrap_err(), MembershipError::NotMember);
}

#[test]
fn test_invalid_rank() {
    let mut registry = MembershipRegistry::new(ROOT);

    // Try to add member with rank > 4.
    let result = registry.add_member(ROOT, BOB, 5, 0);
    assert_eq!(result, Err(MembershipError::InvalidRank));
}

#[test]
fn test_inactive_member_weight() {
    let mut registry = MembershipRegistry::new(ROOT);

    registry.add_member(ROOT, BOB, 3, 0).unwrap();
    assert_eq!(registry.get_vote_weight(BOB), 6);

    registry.set_member_active(ROOT, BOB, false).unwrap();

    // An inactive member carries no weight, whatever its rank.
    assert_eq!(registry.get_vote_weight(BOB), 0);
    assert_eq!(
        registry.calculate_vote_weight(BOB, 0),
        Err(MembershipError::MemberInactive)
    );
    assert_eq!(registry.calculate_total_vote_weight(0), 0);
}

#[test]
fn test_demote_updates_total_in_same_call() {
    let mut registry = MembershipRegistry::new(ROOT);

    // Rank 3 (weight 6) and rank 1 (weight 1): total 7.
    registry.add_member(ROOT, BOB, 3, 0).unwrap();
    registry.add_member(ROOT, CHARLIE, 1, 0).unwrap();
    assert_eq!(registry.total_voting_weight, 7);

    // Demoting bob from rank 3 immediately gives it the weight of rank 2,
    // and the cached registry total reflects the change in the same call.
    let event = registry.demote_member(ROOT, BOB).unwrap();
    assert_eq!(event.old_rank, 3);
    assert_eq!(event.new_rank, 2);
    assert_eq!(registry.get_vote_weight(BOB), 3);
    assert_eq!(registry.total_voting_weight, 4);
    assert_eq!(registry.calculate_total_vote_weight(0), 4);
}

#[test]
fn test_register_then_promote_after_min_duration() {
    let mut registry = MembershipRegistry::new(ROOT);

    // Register member A at rank 0.
    registry.register_member(ROOT, BOB, 0).unwrap();
    assert_eq!(registry.get_member_info(BOB).unwrap().rank, 0);
    assert_eq!(registry.get_vote_weight(BOB), 0);

    // A promotion attempt before the minimum duration (90 days) elapses
    // is rejected.
    let early = registry.promote_member(ROOT, BOB, 100);
    assert_eq!(early.unwrap_err(), MembershipError::MinDurationNotMet);

    // Past 90 days (7_776_000 seconds) the promotion succeeds: rank 1,
    // vote weight 1.
    let event = registry.promote_member(ROOT, BOB, 7_776_001).unwrap();
    assert_eq!(event.new_rank, 1);
    assert_eq!(registry.get_member_info(BOB).unwrap().rank, 1);
    assert_eq!(registry.get_vote_weight(BOB), 1);
}

#[test]
fn test_suspend_and_reactivate() {
    let mut registry = MembershipRegistry::new(ROOT);
    registry.add_member(ROOT, BOB, 2, 0).unwrap();

    let event = registry.suspend_member(ROOT, BOB).unwrap();
    assert_eq!(event.member, BOB);
    assert!(!registry.get_member_info(BOB).unwrap().active);

    // Suspending twice is rejected.
    assert_eq!(
        registry.suspend_member(ROOT, BOB),
        Err(MembershipError::MemberNotActive)
    );

    let event = registry.reactivate_member(ROOT, BOB).unwrap();
    assert_eq!(event.member, BOB);
    assert!(registry.get_member_info(BOB).unwrap().active);

    // Reactivating an active member is rejected.
    assert_eq!(
        registry.reactivate_member(ROOT, BOB),
        Err(MembershipError::MemberAlreadyActive)
    );
}

#[test]
fn test_max_members_reached() {
    let mut registry = MembershipRegistry::new(ROOT);
    for account in 0..1000u64 {
        registry.register_member(ROOT, account + 10, 0).unwrap();
    }
    let result = registry.register_member(ROOT, 5000, 0);
    assert_eq!(result, Err(MembershipError::MaxMembersReached));
}

#[test]
fn test_active_members_by_rank() {
    let mut registry = MembershipRegistry::new(ROOT);
    registry.add_member(ROOT, BOB, 2, 0).unwrap();
    registry.add_member(ROOT, CHARLIE, 2, 0).unwrap();
    registry.add_member(ROOT, DJANGO, 3, 0).unwrap();
    registry.set_member_active(ROOT, CHARLIE, false).unwrap();

    let seniors = registry.get_active_members_by_rank(2).unwrap();
    assert_eq!(seniors, vec![BOB]);

    assert_eq!(
        registry.get_active_members_by_rank(9),
        Err(MembershipError::InvalidRank)
    );
}

#[test]
fn test_eligible_voters() {
    let mut registry = MembershipRegistry::new(ROOT);
    registry.add_member(ROOT, BOB, 1, 0).unwrap();
    registry.add_member(ROOT, CHARLIE, 3, 0).unwrap();
    registry.add_member(ROOT, DJANGO, 4, 0).unwrap();

    let voters = registry.get_eligible_voters(3);
    assert_eq!(voters.len(), 2);
    assert!(voters.contains(&(CHARLIE, 3, 6)));
    assert!(voters.contains(&(DJANGO, 4, 10)));
}
