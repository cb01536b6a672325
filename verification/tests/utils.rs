use akkuea_contracts::milestone::utils::{
    apply_vote_reputation_multiplier, calculate_max_vote_weight_from_power,
    calculate_milestone_penalty, calculate_reputation_change, calculate_vote_quadratic_cost,
    calculate_voting_power, get_voting_category_threshold, validate_completion_percentage,
    validate_deadline, validate_funding_amount, validate_milestone_id, validate_project_id,
    validate_voting_active, validate_voting_ended, validate_voting_power_for_weight,
    validate_voting_reputation, validate_voting_time_range, Error,
};

#[test]
fn voting_power_formula() {
    assert_eq!(calculate_voting_power(0), 1);
    assert_eq!(calculate_voting_power(9), 1);
    assert_eq!(calculate_voting_power(50), 6);
    assert_eq!(calculate_voting_power(100), 11);
    assert_eq!(calculate_voting_power(u32::MAX), 429_496_730);
}

#[test]
fn reputation_changes() {
    assert_eq!(calculate_reputation_change(true), 10);
    assert_eq!(calculate_reputation_change(false), -5);
    assert_eq!(calculate_milestone_penalty(), -15);
}

#[test]
fn id_and_amount_validation() {
    assert_eq!(validate_milestone_id(0), Err(Error::InvalidMilestoneId));
    assert_eq!(validate_milestone_id(1), Ok(()));
    assert_eq!(validate_project_id(0), Err(Error::InvalidProjectId));
    assert_eq!(validate_project_id(42), Ok(()));
    assert_eq!(validate_funding_amount(0), Err(Error::InvalidFundingAmount));
    assert_eq!(validate_funding_amount(-1), Err(Error::InvalidFundingAmount));
    assert_eq!(validate_funding_amount(1), Ok(()));
    assert_eq!(validate_completion_percentage(100), Ok(()));
    assert_eq!(validate_completion_percentage(101), Err(Error::InvalidCompletionPercentage));
    assert_eq!(validate_deadline(10, 10), Err(Error::InvalidDeadline));
    assert_eq!(validate_deadline(11, 10), Ok(()));
}

#[test]
fn voting_time_validation() {
    assert_eq!(validate_voting_time_range(5, 5), Err(Error::InvalidTimeRange));
    assert_eq!(validate_voting_time_range(5, 6), Ok(()));
    assert_eq!(validate_voting_active(4, 5, 10), Err(Error::VotingNotStarted));
    assert_eq!(validate_voting_active(5, 5, 10), Ok(()));
    assert_eq!(validate_voting_active(10, 5, 10), Ok(()));
    assert_eq!(validate_voting_active(11, 5, 10), Err(Error::VotingEnded));
    assert_eq!(validate_voting_ended(10, 10), Err(Error::VotingStillActive));
    assert_eq!(validate_voting_ended(11, 10), Ok(()));
}

#[test]
fn quadratic_cost() {
    assert_eq!(calculate_vote_quadratic_cost(0), Ok(0));
    assert_eq!(calculate_vote_quadratic_cost(3), Ok(9));
    assert_eq!(calculate_vote_quadratic_cost(65535), Ok(4_294_836_225));
    assert_eq!(calculate_vote_quadratic_cost(65536), Err(Error::VoteCountOverflow));
}

#[test]
fn reputation_multiplier_tiers() {
    assert_eq!(apply_vote_reputation_multiplier(100, 0), 100);
    assert_eq!(apply_vote_reputation_multiplier(100, 29), 100);
    assert_eq!(apply_vote_reputation_multiplier(100, 30), 105);
    assert_eq!(apply_vote_reputation_multiplier(100, 50), 110);
    assert_eq!(apply_vote_reputation_multiplier(100, 70), 115);
    assert_eq!(apply_vote_reputation_multiplier(100, 90), 120);
    assert_eq!(apply_vote_reputation_multiplier(2, 60), 2);
    assert_eq!(apply_vote_reputation_multiplier(10, 100), 12);
    // When the product overflows, the base weight is kept.
    assert_eq!(apply_vote_reputation_multiplier(u32::MAX, 95), u32::MAX);
}

#[test]
fn reputation_and_power_checks() {
    assert_eq!(validate_voting_reputation(9), Err(Error::InsufficientReputation));
    assert_eq!(validate_voting_reputation(10), Ok(()));
    assert_eq!(validate_voting_power_for_weight(2, 4), Ok(()));
    assert_eq!(validate_voting_power_for_weight(2, 3), Err(Error::InsufficientVotingPowerForWeight));
    assert_eq!(validate_voting_power_for_weight(70_000, u32::MAX - 1), Err(Error::VoteCountOverflow));
}

#[test]
fn max_vote_weight_is_integer_square_root() {
    assert_eq!(calculate_max_vote_weight_from_power(0), 0);
    assert_eq!(calculate_max_vote_weight_from_power(1), 1);
    assert_eq!(calculate_max_vote_weight_from_power(3), 1);
    assert_eq!(calculate_max_vote_weight_from_power(4), 2);
    assert_eq!(calculate_max_vote_weight_from_power(7), 2);
    assert_eq!(calculate_max_vote_weight_from_power(99), 9);
    assert_eq!(calculate_max_vote_weight_from_power(100), 10);
    assert_eq!(calculate_max_vote_weight_from_power(u32::MAX - 1), 65535);
    for p in 1..2000u32 {
        let w = calculate_max_vote_weight_from_power(p);
        assert_eq!(validate_voting_power_for_weight(w, p), Ok(()));
        assert!(validate_voting_power_for_weight(w + 1, p).is_err());
    }
}

#[test]
fn category_names() {
    assert_eq!(get_voting_category_threshold("STEM"), 100);
    assert_eq!(get_voting_category_threshold("RESEARCH"), 120);
    assert_eq!(get_voting_category_threshold("ARTS"), 80);
    assert_eq!(get_voting_category_threshold("COMMUNITY"), 50);
    assert_eq!(get_voting_category_threshold("stem"), 50);
    assert_eq!(get_voting_category_threshold(""), 50);
}

#[test]
fn error_codes() {
    assert_eq!(Error::UserNotFound.code(), 1);
    assert_eq!(Error::InvalidProjectId.code(), 12);
    assert_eq!(Error::InvalidDeadline.code(), 34);
    assert_eq!(Error::ReputationOverflow.code(), 44);
    assert_eq!(Error::InsufficientVotingPowerForWeight.code(), 59);
    assert_eq!(Error::Unauthorized.code(), 71);
}
