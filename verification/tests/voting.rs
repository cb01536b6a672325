use akkuea_contracts::milestone::utils::{calculate_voting_power, Error};
use akkuea_contracts::milestone::voting::{
    get_category_threshold, get_max_vote_weight, ProjectCategory, VotingBook,
};

// Reputation scores as the reputation registry keeps them: a new user
// starts at 50, a success adds 10 (capped at 100) and a failure removes 5.
const NEW_USER_SCORE: u32 = 50;

fn score_after(successes: u32, failures: u32) -> u32 {
    let up = NEW_USER_SCORE + 10 * successes;
    let capped = if up > 100 { 100 } else { up };
    capped - 5 * failures
}

fn vote(book: &mut VotingBook, voter: &str, project_id: u64, weight: u32, now: u64, score: u32) -> Result<u32, Error> {
    book.cast_vote(
        String::from(voter),
        project_id,
        weight,
        now,
        calculate_voting_power(score),
        score,
    )
}

#[test]
fn test_get_voting_power() {
    assert_eq!(calculate_voting_power(score_after(0, 0)), 6);
    assert_eq!(calculate_voting_power(score_after(1, 0)), 7);
}

#[test]
fn test_create_voting_period_stem() {
    let mut book = VotingBook::new();
    let now = 0u64;
    let project_id = 1u64;
    let start_time = now + 100;
    let end_time = now + 1000;

    book.create_voting_period(project_id, start_time, end_time, ProjectCategory::STEM)
        .unwrap();

    let period = book.get_voting_period(project_id).unwrap();
    assert_eq!(period.project_id, project_id);
    assert_eq!(period.start_time, start_time);
    assert_eq!(period.end_time, end_time);
    assert_eq!(period.threshold, 100);
    assert_eq!(period.category, ProjectCategory::STEM);
}

#[test]
fn test_create_voting_period_all_categories() {
    let mut book = VotingBook::new();
    let start_time = 100;
    let end_time = 1000;

    book.create_voting_period(1, start_time, end_time, ProjectCategory::STEM).unwrap();
    assert_eq!(book.get_voting_period(1).unwrap().threshold, 100);

    book.create_voting_period(2, start_time, end_time, ProjectCategory::ARTS).unwrap();
    assert_eq!(book.get_voting_period(2).unwrap().threshold, 80);

    book.create_voting_period(3, start_time, end_time, ProjectCategory::COMMUNITY).unwrap();
    assert_eq!(book.get_voting_period(3).unwrap().threshold, 50);

    book.create_voting_period(4, start_time, end_time, ProjectCategory::RESEARCH).unwrap();
    assert_eq!(book.get_voting_period(4).unwrap().threshold, 120);
}

#[test]
fn test_cast_vote_basic() {
    let mut book = VotingBook::new();
    let project_id = 1u64;
    let score = score_after(1, 0);

    book.create_voting_period(project_id, 0, 1000, ProjectCategory::COMMUNITY).unwrap();

    let final_weight = vote(&mut book, "GVOTER", project_id, 2, 0, score).unwrap();
    assert_eq!(final_weight, 2);

    let status = book.get_voting_status(project_id, 0).unwrap();
    assert_eq!(status.total_votes, final_weight);
    assert_eq!(status.unique_voters, 1);
    assert!(status.is_active);
    assert!(!status.is_approved);
}

#[test]
fn test_cast_vote_with_high_reputation() {
    let mut book = VotingBook::new();
    let score = score_after(5, 0);
    assert_eq!(score, 100);

    let project_id = 1u64;
    book.create_voting_period(project_id, 0, 1000, ProjectCategory::COMMUNITY).unwrap();

    let final_weight = vote(&mut book, "GVOTER", project_id, 3, 0, score).unwrap();
    assert_eq!(final_weight, 3);
}

#[test]
#[should_panic]
fn test_vote_before_period_starts() {
    let mut book = VotingBook::new();
    let score = score_after(1, 0);
    book.create_voting_period(1, 1000, 2000, ProjectCategory::COMMUNITY).unwrap();
    vote(&mut book, "GVOTER", 1, 2, 0, score).unwrap();
}

#[test]
#[should_panic]
fn test_vote_after_period_ends() {
    let mut book = VotingBook::new();
    let score = score_after(1, 0);
    let end_time = 100;
    book.create_voting_period(1, 0, end_time, ProjectCategory::COMMUNITY).unwrap();
    vote(&mut book, "GVOTER", 1, 2, end_time + 1, score).unwrap();
}

#[test]
#[should_panic]
fn test_cannot_vote_twice() {
    let mut book = VotingBook::new();
    let score = score_after(1, 0);
    book.create_voting_period(1, 0, 1000, ProjectCategory::COMMUNITY).unwrap();
    vote(&mut book, "GVOTER", 1, 2, 0, score).unwrap();
    vote(&mut book, "GVOTER", 1, 1, 0, score).unwrap();
}

#[test]
#[should_panic]
fn test_insufficient_reputation() {
    let mut book = VotingBook::new();
    let score = score_after(0, 9);
    book.create_voting_period(1, 0, 1000, ProjectCategory::COMMUNITY).unwrap();
    vote(&mut book, "GVOTER", 1, 1, 0, score).unwrap();
}

#[test]
#[should_panic]
fn test_insufficient_voting_power() {
    let mut book = VotingBook::new();
    let score = score_after(1, 0);
    book.create_voting_period(1, 0, 1000, ProjectCategory::COMMUNITY).unwrap();
    vote(&mut book, "GVOTER", 1, 10, 0, score).unwrap();
}

#[test]
fn test_close_voting_period_approved() {
    let mut book = VotingBook::new();
    let project_id = 1u64;
    let score = score_after(5, 0);
    let end_time = 1000;
    book.create_voting_period(project_id, 0, end_time, ProjectCategory::COMMUNITY).unwrap();

    for i in 0..20 {
        let voter = format!("GVOTER{}", i);
        vote(&mut book, &voter, project_id, 3, 0, score).unwrap();
    }

    let is_approved = book.close_voting_period(project_id, end_time + 1).unwrap();
    assert!(is_approved);

    let status = book.get_voting_status(project_id, end_time + 1).unwrap();
    assert!(!status.is_active);
    assert!(status.is_approved);
}

#[test]
fn test_close_voting_period_rejected() {
    let mut book = VotingBook::new();
    let project_id = 1u64;
    let score = score_after(1, 0);
    let end_time = 1000;
    book.create_voting_period(project_id, 0, end_time, ProjectCategory::STEM).unwrap();

    vote(&mut book, "GVOTER", project_id, 2, 0, score).unwrap();

    let is_approved = book.close_voting_period(project_id, end_time + 1).unwrap();
    assert!(!is_approved);

    let status = book.get_voting_status(project_id, end_time + 1).unwrap();
    assert!(!status.is_active);
    assert!(!status.is_approved);
}

#[test]
#[should_panic(expected = "Voting period is still active")]
fn test_cannot_close_active_period() {
    let mut book = VotingBook::new();
    book.create_voting_period(1, 0, 1000, ProjectCategory::COMMUNITY).unwrap();
    match book.close_voting_period(1, 0) {
        Err(Error::VotingStillActive) => panic!("Voting period is still active"),
        Err(Error::VotingPeriodNotFound) => panic!("Voting period not found"),
        _ => {}
    }
}

#[test]
fn test_get_vote_record() {
    let mut book = VotingBook::new();
    let project_id = 1u64;
    let score = score_after(1, 0);
    book.create_voting_period(project_id, 0, 1000, ProjectCategory::COMMUNITY).unwrap();

    let final_weight = vote(&mut book, "GVOTER", project_id, 2, 0, score).unwrap();

    let vote = book.get_vote(project_id, &String::from("GVOTER"));
    assert!(vote.is_some());
    let vote = vote.unwrap();
    assert_eq!(vote.project_id, project_id);
    assert_eq!(vote.voter, "GVOTER");
    assert_eq!(vote.weight, final_weight);
}

#[test]
fn test_has_voted() {
    let mut book = VotingBook::new();
    let project_id = 1u64;
    let score = score_after(1, 0);
    let voter = String::from("GVOTER");
    book.create_voting_period(project_id, 0, 1000, ProjectCategory::COMMUNITY).unwrap();

    assert!(!book.has_voted(project_id, &voter));
    vote(&mut book, "GVOTER", project_id, 2, 0, score).unwrap();
    assert!(book.has_voted(project_id, &voter));
}

#[test]
fn test_get_max_vote_weight() {
    let power = calculate_voting_power(score_after(1, 0));
    assert_eq!(get_max_vote_weight(power), 2);
}

#[test]
fn test_voting_with_different_categories() {
    let mut book = VotingBook::new();
    let score = score_after(1, 0);
    let voter = String::from("GVOTER");

    book.create_voting_period(1, 0, 1000, ProjectCategory::STEM).unwrap();
    book.create_voting_period(2, 0, 1000, ProjectCategory::ARTS).unwrap();

    vote(&mut book, "GVOTER", 1, 2, 0, score).unwrap();
    vote(&mut book, "GVOTER", 2, 2, 0, score).unwrap();

    assert!(book.has_voted(1, &voter));
    assert!(book.has_voted(2, &voter));
}

#[test]
fn vote_errors_come_in_order() {
    let mut book = VotingBook::new();
    assert_eq!(vote(&mut book, "GV", 1, 1, 0, 60), Err(Error::VotingPeriodNotFound));
    book.create_voting_period(1, 10, 20, ProjectCategory::ARTS).unwrap();
    assert_eq!(vote(&mut book, "GV", 1, 1, 5, 60), Err(Error::VotingNotStarted));
    assert_eq!(vote(&mut book, "GV", 1, 1, 21, 60), Err(Error::VotingEnded));
    assert_eq!(
        book.cast_vote(String::from("GV"), 1, 1, 15, 0, 60),
        Err(Error::InvalidVotingPower)
    );
    assert_eq!(vote(&mut book, "GV", 1, 1, 15, 9), Err(Error::InsufficientReputation));
    assert_eq!(vote(&mut book, "GV", 1, 3, 15, 60), Err(Error::InsufficientVotingPowerForWeight));
    assert_eq!(vote(&mut book, "GV", 1, 70000, 15, 60), Err(Error::VoteCountOverflow));
    assert_eq!(book.get_total_votes(1), 0);
    assert!(book.get_project_voters(1).is_empty());
    assert_eq!(vote(&mut book, "GV", 1, 2, 15, 60), Ok(2));
    assert_eq!(vote(&mut book, "GV", 1, 2, 15, 60), Err(Error::DuplicateVote));
}

#[test]
fn totals_accumulate_and_voters_are_listed_in_order() {
    let mut book = VotingBook::new();
    book.create_voting_period(7, 0, 100, ProjectCategory::RESEARCH).unwrap();
    assert_eq!(vote(&mut book, "GA", 7, 3, 50, 100), Ok(3));
    assert_eq!(vote(&mut book, "GB", 7, 10, 50, 1000), Ok(12));
    assert_eq!(book.get_total_votes(7), 15);
    assert_eq!(book.get_project_voters(7), vec![String::from("GA"), String::from("GB")]);
    let status = book.get_voting_status(7, 101).unwrap();
    assert_eq!(status.total_votes, 15);
    assert_eq!(status.unique_voters, 2);
    assert!(!status.is_approved);
}

#[test]
fn period_creation_is_validated() {
    let mut book = VotingBook::new();
    assert_eq!(
        book.create_voting_period(1, 10, 10, ProjectCategory::STEM),
        Err(Error::InvalidTimeRange)
    );
    assert_eq!(
        book.create_voting_period(0, 1, 10, ProjectCategory::STEM),
        Err(Error::InvalidProjectId)
    );
    assert!(book.get_voting_period(1).is_none());
    assert_eq!(book.get_voting_status(1, 0), Err(Error::VotingPeriodNotFound));
    assert_eq!(book.close_voting_period(1, 50), Err(Error::VotingPeriodNotFound));
}

#[test]
fn category_thresholds() {
    assert_eq!(get_category_threshold(&ProjectCategory::STEM), 100);
    assert_eq!(get_category_threshold(&ProjectCategory::RESEARCH), 120);
    assert_eq!(get_category_threshold(&ProjectCategory::ARTS), 80);
    assert_eq!(get_category_threshold(&ProjectCategory::COMMUNITY), 50);
}

#[test]
fn recreating_a_period_resets_the_total_only() {
    let mut book = VotingBook::new();
    book.create_voting_period(1, 0, 100, ProjectCategory::COMMUNITY).unwrap();
    vote(&mut book, "GA", 1, 2, 0, 60).unwrap();
    book.create_voting_period(1, 0, 100, ProjectCategory::ARTS).unwrap();
    assert_eq!(book.get_total_votes(1), 0);
    assert!(book.has_voted(1, &String::from("GA")));
    assert_eq!(book.get_project_voters(1).len(), 1);
}
