use vstd::prelude::*;

use super::text::str_equal;
use crate::store::Store;

verus! {

/// Errors of the milestone finance contract.
///
/// Each variant carries a stable numeric code, given by [`Error::code`].
#[derive(Copy, Clone, Debug, PartialEq, Eq, Structural)]
pub enum Error {
    // User errors
    UserNotFound,
    UserAlreadyExists,
    // Project errors
    ProjectNotFound,
    InvalidProjectId,
    // Milestone errors
    MilestoneNotFound,
    InvalidMilestoneId,
    InvalidDependencies,
    CircularDependency,
    InvalidFundingAmount,
    InsufficientFunding,
    InvalidCompletionPercentage,
    MilestoneExpired,
    DependencyNotCompleted,
    InvalidStakeholder,
    DuplicateVerification,
    InvalidVerificationType,
    MilestoneNotActive,
    InvalidDeadline,
    // Reputation errors
    InsufficientReputation,
    InvalidReputationScore,
    ReputationUnderflow,
    ReputationOverflow,
    // Voting errors
    InvalidVotingPower,
    DuplicateVote,
    InvalidTimeRange,
    VotingNotStarted,
    VotingEnded,
    VotingPeriodNotFound,
    VotingStillActive,
    VoteCountOverflow,
    InsufficientVotingPowerForWeight,
    // Authorization errors
    Unauthorized,
}

/// The numeric code under which each error is reported to callers.
pub open spec fn error_code(e: Error) -> u32 {
    match e {
        Error::UserNotFound => 1,
        Error::UserAlreadyExists => 2,
        Error::ProjectNotFound => 11,
        Error::InvalidProjectId => 12,
        Error::MilestoneNotFound => 21,
        Error::InvalidMilestoneId => 22,
        Error::InvalidDependencies => 23,
        Error::CircularDependency => 24,
        Error::InvalidFundingAmount => 25,
        Error::InsufficientFunding => 26,
        Error::InvalidCompletionPercentage => 27,
        Error::MilestoneExpired => 28,
        Error::DependencyNotCompleted => 29,
        Error::InvalidStakeholder => 30,
        Error::DuplicateVerification => 31,
        Error::InvalidVerificationType => 32,
        Error::MilestoneNotActive => 33,
        Error::InvalidDeadline => 34,
        Error::InsufficientReputation => 41,
        Error::InvalidReputationScore => 42,
        Error::ReputationUnderflow => 43,
        Error::ReputationOverflow => 44,
        Error::InvalidVotingPower => 51,
        Error::DuplicateVote => 52,
        Error::InvalidTimeRange => 53,
        Error::VotingNotStarted => 54,
        Error::VotingEnded => 55,
        Error::VotingPeriodNotFound => 56,
        Error::VotingStillActive => 57,
        Error::VoteCountOverflow => 58,
        Error::InsufficientVotingPowerForWeight => 59,
        Error::Unauthorized => 71,
    }
}

impl Error {
    /// The numeric code of this error.
    pub fn code(&self) -> (c: u32)
        ensures
            c == error_code(*self),
    {
        match self {
            Error::UserNotFound => 1,
            Error::UserAlreadyExists => 2,
            Error::ProjectNotFound => 11,
            Error::InvalidProjectId => 12,
            Error::MilestoneNotFound => 21,
            Error::InvalidMilestoneId => 22,
            Error::InvalidDependencies => 23,
            Error::CircularDependency => 24,
            Error::InvalidFundingAmount => 25,
            Error::InsufficientFunding => 26,
            Error::InvalidCompletionPercentage => 27,
            Error::MilestoneExpired => 28,
            Error::DependencyNotCompleted => 29,
            Error::InvalidStakeholder => 30,
            Error::DuplicateVerification => 31,
            Error::InvalidVerificationType => 32,
            Error::MilestoneNotActive => 33,
            Error::InvalidDeadline => 34,
            Error::InsufficientReputation => 41,
            Error::InvalidReputationScore => 42,
            Error::ReputationUnderflow => 43,
            Error::ReputationOverflow => 44,
            Error::InvalidVotingPower => 51,
            Error::DuplicateVote => 52,
            Error::InvalidTimeRange => 53,
            Error::VotingNotStarted => 54,
            Error::VotingEnded => 55,
            Error::VotingPeriodNotFound => 56,
            Error::VotingStillActive => 57,
            Error::VoteCountOverflow => 58,
            Error::InsufficientVotingPowerForWeight => 59,
            Error::Unauthorized => 71,
        }
    }
}

/// Voting power granted by a reputation score: one base vote plus one per ten points.
pub open spec fn voting_power_of(reputation_score: u32) -> int {
    1 + reputation_score / 10
}

/// Voting power from a reputation score: `1 + reputation_score / 10`.
pub fn calculate_voting_power(reputation_score: u32) -> (power: u32)
    ensures
        power == voting_power_of(reputation_score),
{
    let base_voting_power: u32 = 1;
    let reputation_multiplier: u32 = 10;
    base_voting_power + (reputation_score / reputation_multiplier)
}

/// Reputation change after a project ends: +10 on success, -5 on failure.
pub fn calculate_reputation_change(success: bool) -> (change: i32)
    ensures
        change == (if success { 10int } else { -5int }),
{
    if success {
        10
    } else {
        -5
    }
}

/// Reputation penalty for one missed milestone.
pub fn calculate_milestone_penalty() -> (penalty: i32)
    ensures
        penalty == -15,
{
    -15
}

/// A milestone id is valid when it is not zero.
pub fn validate_milestone_id(milestone_id: u64) -> (r: Result<(), Error>)
    ensures
        r == (if milestone_id == 0 { Err(Error::InvalidMilestoneId) } else { Ok(()) }),
{
    if milestone_id == 0 {
        return Err(Error::InvalidMilestoneId);
    }
    Ok(())
}

/// A project id is valid when it is not zero.
pub fn validate_project_id(project_id: u64) -> (r: Result<(), Error>)
    ensures
        r == (if project_id == 0 { Err(Error::InvalidProjectId) } else { Ok(()) }),
{
    if project_id == 0 {
        return Err(Error::InvalidProjectId);
    }
    Ok(())
}

/// A funding amount is valid when it is strictly positive.
pub fn validate_funding_amount(amount: i128) -> (r: Result<(), Error>)
    ensures
        r == (if amount <= 0 { Err(Error::InvalidFundingAmount) } else { Ok(()) }),
{
    if amount <= 0 {
        return Err(Error::InvalidFundingAmount);
    }
    Ok(())
}

/// A completion percentage is valid when it is at most 100.
pub fn validate_completion_percentage(percentage: u32) -> (r: Result<(), Error>)
    ensures
        r == (if percentage > 100 { Err(Error::InvalidCompletionPercentage) } else { Ok(()) }),
{
    if percentage > 100 {
        return Err(Error::InvalidCompletionPercentage);
    }
    Ok(())
}

/// A deadline is valid when it lies strictly after the current time.
pub fn validate_deadline(deadline: u64, current_time: u64) -> (r: Result<(), Error>)
    ensures
        r == (if deadline <= current_time { Err(Error::InvalidDeadline) } else { Ok(()) }),
{
    if deadline <= current_time {
        return Err(Error::InvalidDeadline);
    }
    Ok(())
}

/// A voting period must start strictly before it ends.
pub fn validate_voting_time_range(start_time: u64, end_time: u64) -> (r: Result<(), Error>)
    ensures
        r == (if start_time >= end_time { Err(Error::InvalidTimeRange) } else { Ok(()) }),
{
    if start_time >= end_time {
        return Err(Error::InvalidTimeRange);
    }
    Ok(())
}

/// Voting is open at `current_time` when `start_time <= current_time <= end_time`.
pub fn validate_voting_active(current_time: u64, start_time: u64, end_time: u64) -> (r: Result<
    (),
    Error,
>)
    ensures
        r == (if current_time < start_time {
            Err(Error::VotingNotStarted)
        } else if current_time > end_time {
            Err(Error::VotingEnded)
        } else {
            Ok(())
        }),
{
    if current_time < start_time {
        return Err(Error::VotingNotStarted);
    }
    if current_time > end_time {
        return Err(Error::VotingEnded);
    }
    Ok(())
}

/// Voting has ended when the current time lies strictly after the end time.
pub fn validate_voting_ended(current_time: u64, end_time: u64) -> (r: Result<(), Error>)
    ensures
        r == (if current_time <= end_time { Err(Error::VotingStillActive) } else { Ok(()) }),
{
    if current_time <= end_time {
        return Err(Error::VotingStillActive);
    }
    Ok(())
}

/// Whether an address may act as a stakeholder of a project: every address may.
pub fn is_authorized_stakeholder(project_id: u64, address: &String) -> (r: Result<bool, Error>)
    ensures
        r == Ok::<bool, Error>(true),
{
    Ok(true)
}

/// The check of one dependency: its id must be valid, the milestone must
/// exist and belong to the same project.
pub open spec fn dependency_check(dep_id: u64, project_id: u64, milestone_projects: Map<u64, u64>) -> Result<(), Error> {
    if dep_id == 0 {
        Err(Error::InvalidMilestoneId)
    } else if !milestone_projects.contains_key(dep_id) {
        Err(Error::MilestoneNotFound)
    } else if milestone_projects[dep_id] != project_id {
        Err(Error::InvalidDependencies)
    } else {
        Ok(())
    }
}

/// The outcome of checking dependencies in order: the first failing check, if any.
pub open spec fn dependencies_check(deps: Seq<u64>, project_id: u64, milestone_projects: Map<u64, u64>) -> Result<(), Error>
    decreases deps.len(),
{
    if deps.len() == 0 {
        Ok(())
    } else {
        match dependencies_check(deps.drop_last(), project_id, milestone_projects) {
            Err(e) => Err(e),
            Ok(()) => dependency_check(deps.last(), project_id, milestone_projects),
        }
    }
}

proof fn lemma_dependency_error_persists(deps: Seq<u64>, project_id: u64, milestone_projects: Map<u64, u64>, k: int)
    requires
        0 <= k <= deps.len(),
        dependencies_check(deps.take(k), project_id, milestone_projects) is Err,
    ensures
        dependencies_check(deps, project_id, milestone_projects) == dependencies_check(deps.take(k), project_id, milestone_projects),
    decreases deps.len() - k,
{
    if k < deps.len() {
        assert(deps.take(k + 1).drop_last() =~= deps.take(k));
        lemma_dependency_error_persists(deps, project_id, milestone_projects, k + 1);
    } else {
        assert(deps.take(k) =~= deps);
    }
}

/// Whether a milestone may be a dependency of a milestone of `project_id`:
/// its id is not zero, it exists, and it belongs to that same project.
pub open spec fn is_allowed_dependency(dep_id: u64, project_id: u64, milestone_projects: Map<u64, u64>) -> bool {
    &&& dep_id != 0
    &&& milestone_projects.contains_key(dep_id)
    &&& milestone_projects[dep_id] == project_id
}

/// Dependencies are accepted exactly when every one of them is a non-zero id
/// of an existing milestone of the same project.
pub proof fn lemma_dependencies_accepted_iff_all_allowed(
    deps: Seq<u64>,
    project_id: u64,
    milestone_projects: Map<u64, u64>,
)
    ensures
        dependencies_check(deps, project_id, milestone_projects) is Ok <==> forall|i: int|
            0 <= i < deps.len() ==> #[trigger] is_allowed_dependency(deps[i], project_id, milestone_projects),
    decreases deps.len(),
{
    if deps.len() > 0 {
        let init = deps.drop_last();
        lemma_dependencies_accepted_iff_all_allowed(init, project_id, milestone_projects);
        assert forall|i: int| 0 <= i < init.len() implies init[i] == deps[i] by {}
        if dependencies_check(deps, project_id, milestone_projects) is Ok {
            assert forall|i: int| 0 <= i < deps.len() implies #[trigger] is_allowed_dependency(
                deps[i],
                project_id,
                milestone_projects,
            ) by {
                if i < init.len() {
                    assert(is_allowed_dependency(init[i], project_id, milestone_projects));
                }
            }
        } else if forall|i: int|
            0 <= i < deps.len() ==> #[trigger] is_allowed_dependency(deps[i], project_id, milestone_projects) {
            assert forall|i: int| 0 <= i < init.len() implies #[trigger] is_allowed_dependency(
                init[i],
                project_id,
                milestone_projects,
            ) by {
                assert(is_allowed_dependency(deps[i], project_id, milestone_projects));
            }
            assert(is_allowed_dependency(deps[deps.len() - 1], project_id, milestone_projects));
        }
    }
}

/// A dependency on a milestone of another project is refused: when every
/// dependency is a non-zero id of an existing milestone and one of them
/// belongs to another project, the answer is `InvalidDependencies`.
pub proof fn lemma_foreign_dependency_refused(
    deps: Seq<u64>,
    project_id: u64,
    milestone_projects: Map<u64, u64>,
    k: int,
)
    requires
        forall|i: int|
            0 <= i < deps.len() ==> #[trigger] deps[i] != 0 && milestone_projects.contains_key(deps[i]),
        0 <= k < deps.len(),
        milestone_projects[deps[k]] != project_id,
    ensures
        dependencies_check(deps, project_id, milestone_projects) == Err::<(), Error>(Error::InvalidDependencies),
    decreases deps.len(),
{
    let init = deps.drop_last();
    assert forall|i: int| 0 <= i < init.len() implies #[trigger] init[i] != 0 && milestone_projects.contains_key(
        init[i],
    ) by {
        assert(init[i] == deps[i]);
    }
    if k < init.len() {
        assert(init[k] == deps[k]);
        lemma_foreign_dependency_refused(init, project_id, milestone_projects, k);
    } else {
        lemma_dependency_outcomes(init, project_id, milestone_projects);
    }
}

/// When every dependency is a non-zero id of an existing milestone, the only
/// refusal that can come is `InvalidDependencies`.
proof fn lemma_dependency_outcomes(deps: Seq<u64>, project_id: u64, milestone_projects: Map<u64, u64>)
    requires
        forall|i: int|
            0 <= i < deps.len() ==> #[trigger] deps[i] != 0 && milestone_projects.contains_key(deps[i]),
    ensures
        dependencies_check(deps, project_id, milestone_projects) is Ok || dependencies_check(
            deps,
            project_id,
            milestone_projects,
        ) == Err::<(), Error>(Error::InvalidDependencies),
    decreases deps.len(),
{
    if deps.len() > 0 {
        let init = deps.drop_last();
        assert forall|i: int| 0 <= i < init.len() implies #[trigger] init[i] != 0 && milestone_projects.contains_key(
            init[i],
        ) by {
            assert(init[i] == deps[i]);
        }
        lemma_dependency_outcomes(init, project_id, milestone_projects);
        assert(deps[deps.len() - 1] != 0);
    }
}

/// Checks, in order, that every dependency is a valid id of an existing
/// milestone of the same project; `milestone_projects` gives the project of
/// each existing milestone.
pub fn validate_dependencies(dependencies: &Vec<u64>, project_id: u64, milestone_projects: &Store<u64, u64>) -> (r: Result<(), Error>)
    requires
        milestone_projects.wf(),
    ensures
        r == dependencies_check(dependencies@, project_id, milestone_projects.map()),
{
    let mut i: usize = 0;
    while i < dependencies.len()
        invariant
            i <= dependencies@.len(),
            milestone_projects.wf(),
            dependencies_check(dependencies@.take(i as int), project_id, milestone_projects.map()) == Ok::<(), Error>(()),
        decreases dependencies@.len() - i,
    {
        let dep_id = dependencies[i];
        proof {
            assert(dependencies@.take(i + 1).drop_last() =~= dependencies@.take(i as int));
            assert(dependencies@.take(i + 1).last() == dep_id);
        }
        let check = match validate_milestone_id(dep_id) {
            Err(e) => Err(e),
            Ok(()) => match milestone_projects.get(&dep_id) {
                Some(p) => if *p != project_id {
                    Err(Error::InvalidDependencies)
                } else {
                    Ok(())
                },
                None => Err(Error::MilestoneNotFound),
            },
        };
        if check.is_err() {
            proof {
                lemma_dependency_error_persists(dependencies@, project_id, milestone_projects.map(), i + 1);
            }
            return check;
        }
        i = i + 1;
    }
    assert(dependencies@.take(dependencies@.len() as int) =~= dependencies@);
    Ok(())
}

/// Quadratic cost of a vote of the given weight: `weight * weight`, or
/// `VoteCountOverflow` when the square does not fit in a `u32`.
pub fn calculate_vote_quadratic_cost(weight: u32) -> (r: Result<u32, Error>)
    ensures
        weight * weight <= u32::MAX ==> r == Ok::<u32, Error>((weight * weight) as u32),
        weight * weight > u32::MAX ==> r == Err::<u32, Error>(Error::VoteCountOverflow),
{
    match weight.checked_mul(weight) {
        Some(cost) => Ok(cost),
        None => Err(Error::VoteCountOverflow),
    }
}

/// Percentage multiplier applied to a vote by the voter's reputation tier.
pub open spec fn reputation_multiplier(reputation_score: u32) -> int {
    if reputation_score >= 90 {
        120
    } else if reputation_score >= 70 {
        115
    } else if reputation_score >= 50 {
        110
    } else if reputation_score >= 30 {
        105
    } else {
        100
    }
}

/// Weight of a vote after the reputation bonus: `base * multiplier / 100`,
/// or the base weight itself when the product would overflow.
pub open spec fn boosted_weight(base_weight: u32, reputation_score: u32) -> int {
    let product = base_weight * reputation_multiplier(reputation_score);
    if product <= u32::MAX {
        product / 100
    } else {
        base_weight as int
    }
}

/// Applies the reputation bonus (0% to 20%) to a vote weight.
pub fn apply_vote_reputation_multiplier(base_weight: u32, reputation_score: u32) -> (w: u32)
    ensures
        w == boosted_weight(base_weight, reputation_score),
{
    let multiplier: u32 = if reputation_score >= 90 {
        120
    } else if reputation_score >= 70 {
        115
    } else if reputation_score >= 50 {
        110
    } else if reputation_score >= 30 {
        105
    } else {
        100
    };
    match base_weight.checked_mul(multiplier) {
        Some(v) => v / 100,
        None => base_weight,
    }
}

/// Voting requires a reputation score of at least 10.
pub fn validate_voting_reputation(reputation_score: u32) -> (r: Result<(), Error>)
    ensures
        r == (if reputation_score < 10 { Err(Error::InsufficientReputation) } else { Ok(()) }),
{
    if reputation_score < 10 {
        return Err(Error::InsufficientReputation);
    }
    Ok(())
}

/// The outcome of checking that `voting_power` pays for a vote of `weight`.
pub open spec fn weight_check(weight: u32, voting_power: u32) -> Result<(), Error> {
    if weight * weight > u32::MAX {
        Err(Error::VoteCountOverflow)
    } else if weight * weight > voting_power {
        Err(Error::InsufficientVotingPowerForWeight)
    } else {
        Ok(())
    }
}

/// A vote of `weight` is affordable when its quadratic cost is at most `voting_power`.
pub fn validate_voting_power_for_weight(weight: u32, voting_power: u32) -> (r: Result<(), Error>)
    ensures
        r == weight_check(weight, voting_power),
{
    let cost = calculate_vote_quadratic_cost(weight)?;
    if cost > voting_power {
        return Err(Error::InsufficientVotingPowerForWeight);
    }
    Ok(())
}

/// `r` is the integer square root of `n`.
pub open spec fn is_floor_sqrt(r: int, n: int) -> bool {
    0 <= r && r * r <= n && n < (r + 1) * (r + 1)
}

proof fn lemma_newton_step_stays_above(x: int, n: int, s: int)
    requires
        x > 0,
        s >= 0,
        s * s <= n,
    ensures
        (x + n / x) / 2 >= s,
{
    let q = n / x;
    assert(q * x <= n && n < (q + 1) * x) by {
        vstd::arithmetic::div_mod::lemma_fundamental_div_mod(n, x);
        vstd::arithmetic::div_mod::lemma_mod_bound(n, x);
        assert(n == x * q + n % x);
        assert((q + 1) * x == q * x + x) by (nonlinear_arith);
        assert(x * q == q * x) by (nonlinear_arith);
    }
    if x + q < 2 * s {
        assert(q + 1 <= 2 * s - x);
        assert((q + 1) * x <= (2 * s - x) * x) by (nonlinear_arith)
            requires
                q + 1 <= 2 * s - x,
                x > 0,
        ;
        assert((x - s) * (x - s) >= 0) by (nonlinear_arith);
        assert((2 * s - x) * x + (x - s) * (x - s) == s * s) by (nonlinear_arith);
        assert(false);
    }
}

proof fn lemma_newton_step_bounded(x: int, n: int)
    requires
        1 <= x <= n,
    ensures
        x + n / x <= n + 1,
        n / x >= 0,
{
    let q = n / x;
    vstd::arithmetic::div_mod::lemma_fundamental_div_mod(n, x);
    vstd::arithmetic::div_mod::lemma_mod_bound(n, x);
    assert((x - 1) * (n - x) >= 0) by (nonlinear_arith)
        requires
            1 <= x <= n,
    ;
    assert(x * (n + 1 - x) >= n) by (nonlinear_arith)
        requires
            (x - 1) * (n - x) >= 0,
    ;
    if q > n + 1 - x {
        assert(x * q >= x * (n + 2 - x)) by (nonlinear_arith)
            requires
                q >= n + 2 - x,
                x > 0,
        ;
        assert(x * (n + 2 - x) == x * (n + 1 - x) + x) by (nonlinear_arith);
        assert(false);
    }
    assert(q >= 0) by (nonlinear_arith)
        requires
            n == x * q + n % x,
            n % x < x,
            n % x >= 0,
            x > 0,
            n >= 1,
    ;
}

proof fn lemma_newton_step_descends(x: int, n: int)
    requires
        x > 0,
        n >= 0,
        x * x > n,
    ensures
        (x + n / x) / 2 < x,
{
    let q = n / x;
    vstd::arithmetic::div_mod::lemma_fundamental_div_mod(n, x);
    vstd::arithmetic::div_mod::lemma_mod_bound(n, x);
    if q >= x {
        assert(x * q >= x * x) by (nonlinear_arith)
            requires
                q >= x,
                x > 0,
        ;
        assert(false);
    }
}

proof fn lemma_floor_sqrt_exists(n: int)
    requires
        n >= 0,
    ensures
        exists|s: int| #[trigger] is_floor_sqrt(s, n),
    decreases n,
{
    if n == 0 {
        assert(is_floor_sqrt(0, 0));
    } else {
        lemma_floor_sqrt_exists(n - 1);
        let s = choose|s: int| #[trigger] is_floor_sqrt(s, n - 1);
        if n < (s + 1) * (s + 1) {
            assert(is_floor_sqrt(s, n));
        } else {
            assert(n == (s + 1) * (s + 1));
            assert((s + 2) * (s + 2) == (s + 1) * (s + 1) + 2 * s + 3) by (nonlinear_arith);
            assert(is_floor_sqrt(s + 1, n));
        }
    }
}

/// Largest vote weight whose quadratic cost fits in `voting_power`: the
/// integer square root, computed by Newton's iteration.
pub fn calculate_max_vote_weight_from_power(voting_power: u32) -> (w: u32)
    requires
        voting_power < u32::MAX,
    ensures
        is_floor_sqrt(w as int, voting_power as int),
{
    if voting_power == 0 {
        assert(is_floor_sqrt(0, 0));
        return 0;
    }
    let ghost n = voting_power as int;
    proof {
        lemma_floor_sqrt_exists(n);
    }
    let ghost s = choose|s: int| #[trigger] is_floor_sqrt(s, n);
    let mut x = voting_power;
    let mut y = (x + 1) / 2;
    proof {
        assert(n / n == 1) by {
            vstd::arithmetic::div_mod::lemma_div_by_self(n);
        }
        lemma_newton_step_stays_above(n, n, s);
    }
    while y < x
        invariant
            n == voting_power as int,
            n >= 1,
            n < u32::MAX,
            is_floor_sqrt(s, n),
            1 <= x <= n,
            x >= s,
            y == (x + n / (x as int)) / 2,
            y >= s,
        decreases x,
    {
        x = y;
        proof {
            assert(x >= 1) by {
                if s == 0 {
                    assert((s + 1) * (s + 1) == 1) by (nonlinear_arith)
                        requires
                            s == 0,
                    ;
                }
            }
            lemma_newton_step_bounded(x as int, n);
            lemma_newton_step_stays_above(x as int, n, s);
        }
        y = (x + voting_power / x) / 2;
    }
    proof {
        if x * x > n {
            lemma_newton_step_descends(x as int, n);
        }
        assert(x * x <= n);
        if x > s {
            assert((s + 1) * (s + 1) <= x * x) by (nonlinear_arith)
                requires
                    x >= s + 1,
                    s >= 0,
            ;
        }
    }
    x
}

/// Approval threshold of a project category given by name; unknown names
/// fall back to the community threshold.
pub open spec fn category_name_threshold(category: Seq<char>) -> u32 {
    if category == "STEM"@ {
        100
    } else if category == "RESEARCH"@ {
        120
    } else if category == "ARTS"@ {
        80
    } else {
        50
    }
}

/// Voting threshold for a category name: STEM 100, RESEARCH 120, ARTS 80,
/// COMMUNITY and anything else 50.
pub fn get_voting_category_threshold(category: &str) -> (t: u32)
    ensures
        t == category_name_threshold(category@),
{
    if str_equal(category, "STEM") {
        100
    } else if str_equal(category, "RESEARCH") {
        120
    } else if str_equal(category, "ARTS") {
        80
    } else {
        50
    }
}

/// A vote weight is affordable exactly when it does not exceed the largest
/// weight that the voting power can pay for.
pub proof fn lemma_affordable_iff_within_max_weight(weight: u32, voting_power: u32, max_weight: int)
    requires
        is_floor_sqrt(max_weight, voting_power as int),
    ensures
        (weight_check(weight, voting_power) is Ok) == (weight <= max_weight),
{
    let w = weight as int;
    let r = max_weight;
    if w <= r {
        assert(w * w <= r * r) by (nonlinear_arith)
            requires
                0 <= w <= r,
        ;
    } else {
        assert(w * w >= (r + 1) * (r + 1)) by (nonlinear_arith)
            requires
                w >= r + 1,
                r >= 0,
        ;
    }
}

/// The reputation bonus never lowers a vote and adds at most 20%.
pub proof fn lemma_bonus_bounds(base_weight: u32, reputation_score: u32)
    ensures
        base_weight <= boosted_weight(base_weight, reputation_score),
        boosted_weight(base_weight, reputation_score) <= base_weight * 120 / 100,
{
    let b = base_weight as int;
    let m = reputation_multiplier(reputation_score);
    assert(100 <= m <= 120);
    assert(b * 100 <= b * m <= b * 120) by (nonlinear_arith)
        requires
            100 <= m <= 120,
            b >= 0,
    ;
    vstd::arithmetic::div_mod::lemma_div_is_ordered(b * 100, b * m, 100);
    vstd::arithmetic::div_mod::lemma_div_is_ordered(b * m, b * 120, 100);
    vstd::arithmetic::div_mod::lemma_div_multiples_vanish(b, 100);
    assert(b * 100 == 100 * b) by (nonlinear_arith);
    vstd::arithmetic::div_mod::lemma_div_is_ordered(b * 100, b * 120, 100);
}

/// More reputation never means less voting power.
pub proof fn lemma_voting_power_monotone(r1: u32, r2: u32)
    requires
        r1 <= r2,
    ensures
        voting_power_of(r1) <= voting_power_of(r2),
{
    vstd::arithmetic::div_mod::lemma_div_is_ordered(r1 as int, r2 as int, 10);
}

} // verus!
