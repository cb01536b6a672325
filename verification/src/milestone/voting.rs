//! Quadratic voting on project approval, with reputation-based vote bonuses.

use vstd::prelude::*;

use super::utils::{
    apply_vote_reputation_multiplier, boosted_weight, calculate_max_vote_weight_from_power,
    is_floor_sqrt, validate_project_id, validate_voting_active, validate_voting_power_for_weight,
    validate_voting_reputation, weight_check, Error,
};
use crate::lists::{copy_names, names};
use crate::store::Store;

verus! {

/// Project category; each has its own approval threshold.
#[derive(Copy, Clone, Debug, PartialEq, Eq, Structural)]
pub enum ProjectCategory {
    STEM,
    ARTS,
    COMMUNITY,
    RESEARCH,
}

/// Approval threshold of each project category.
pub open spec fn category_threshold(category: ProjectCategory) -> u32 {
    match category {
        ProjectCategory::STEM => 100,
        ProjectCategory::RESEARCH => 120,
        ProjectCategory::ARTS => 80,
        ProjectCategory::COMMUNITY => 50,
    }
}

/// Approval threshold of a project category: STEM 100, RESEARCH 120, ARTS 80, COMMUNITY 50.
pub fn get_category_threshold(category: &ProjectCategory) -> (t: u32)
    ensures
        t == category_threshold(*category),
{
    match category {
        ProjectCategory::STEM => 100,
        ProjectCategory::RESEARCH => 120,
        ProjectCategory::ARTS => 80,
        ProjectCategory::COMMUNITY => 50,
    }
}

/// A recorded vote.
#[derive(Debug)]
pub struct Vote {
    pub project_id: u64,
    pub voter: String,
    /// Weight after the reputation bonus.
    pub weight: u32,
    pub timestamp: u64,
}

impl Clone for Vote {
    fn clone(&self) -> (r: Self)
        ensures
            r == *self,
    {
        Vote {
            project_id: self.project_id,
            voter: self.voter.clone(),
            weight: self.weight,
            timestamp: self.timestamp,
        }
    }
}

/// Configuration and outcome of a project's voting period.
#[derive(Copy, Clone, Debug, PartialEq, Eq, Structural)]
pub struct VotingPeriod {
    pub project_id: u64,
    pub start_time: u64,
    pub end_time: u64,
    /// Total vote weight required for approval.
    pub threshold: u32,
    pub category: ProjectCategory,
    pub is_active: bool,
    pub is_approved: bool,
}

/// Voting status of a project as seen at a given time.
#[derive(Copy, Clone, Debug, PartialEq, Eq, Structural)]
pub struct VotingStatus {
    pub project_id: u64,
    pub total_votes: u32,
    pub is_active: bool,
    pub is_approved: bool,
    pub unique_voters: u32,
}

/// The voting state of the milestone contract: periods, individual votes,
/// vote totals and the list of voters of each project.
pub struct VotingBook {
    pub periods: Store<u64, VotingPeriod>,
    pub votes: Store<(u64, String), Vote>,
    pub totals: Store<u64, u32>,
    pub voter_lists: Store<u64, Vec<String>>,
}

impl VotingBook {
    pub closed spec fn wf(&self) -> bool {
        &&& self.periods.wf()
        &&& self.votes.wf()
        &&& self.totals.wf()
        &&& self.voter_lists.wf()
        &&& forall|p: u64| #[trigger]
            self.voter_lists.map().contains_key(p) ==> self.voter_lists.map()[p]@.len()
                < u32::MAX
    }

    /// The voting period of each project.
    pub closed spec fn periods(&self) -> Map<u64, VotingPeriod> {
        self.periods.map()
    }

    /// The vote of each (project, voter name) pair.
    pub closed spec fn votes(&self) -> Map<(u64, Seq<char>), Vote> {
        self.votes.map()
    }

    /// The total vote weight of a project; zero when none was recorded.
    pub closed spec fn total(&self, project_id: u64) -> u32 {
        if self.totals.map().contains_key(project_id) {
            self.totals.map()[project_id]
        } else {
            0
        }
    }

    /// Whether a total was recorded for a project.
    pub closed spec fn has_total(&self, project_id: u64) -> bool {
        self.totals.map().contains_key(project_id)
    }

    /// The voters of a project, in voting order.
    pub closed spec fn voters(&self, project_id: u64) -> Seq<Seq<char>> {
        if self.voter_lists.map().contains_key(project_id) {
            names(self.voter_lists.map()[project_id]@)
        } else {
            Seq::empty()
        }
    }

    /// A book with no voting period, vote or voter.
    pub fn new() -> (b: Self)
        ensures
            b.wf(),
            b.periods() == Map::<u64, VotingPeriod>::empty(),
            b.votes() == Map::<(u64, Seq<char>), Vote>::empty(),
            forall|p: u64| #[trigger] b.total(p) == 0 && !b.has_total(p),
            forall|p: u64| #[trigger] b.voters(p) == Seq::<Seq<char>>::empty(),
    {
        VotingBook {
            periods: Store::new(),
            votes: Store::new(),
            totals: Store::new(),
            voter_lists: Store::new(),
        }
    }

    /// Opens (or replaces) the voting period of a project. The period starts
    /// inactive and unapproved, its threshold is that of the category, and
    /// the project's vote total is reset to zero.
    pub fn create_voting_period(
        &mut self,
        project_id: u64,
        start_time: u64,
        end_time: u64,
        category: ProjectCategory,
    ) -> (r: Result<(), Error>)
        requires
            old(self).wf(),
        ensures
            final(self).wf(),
            start_time >= end_time ==> r == Err::<(), Error>(Error::InvalidTimeRange),
            start_time < end_time && project_id == 0 ==> r == Err::<(), Error>(
                Error::InvalidProjectId,
            ),
            start_time < end_time && project_id != 0 ==> r is Ok,
            r is Err ==> *final(self) == *old(self),
            r is Ok ==> {
                &&& final(self).periods() == old(self).periods().insert(
                    project_id,
                    VotingPeriod {
                        project_id,
                        start_time,
                        end_time,
                        threshold: category_threshold(category),
                        category,
                        is_active: false,
                        is_approved: false,
                    },
                )
                &&& final(self).votes() == old(self).votes()
                &&& forall|p: u64| #[trigger]
                    final(self).total(p) == (if p == project_id {
                        0
                    } else {
                        old(self).total(p)
                    })
                &&& forall|p: u64| #[trigger]
                    final(self).has_total(p) == (p == project_id || old(self).has_total(p))
                &&& forall|p: u64| #[trigger] final(self).voters(p) == old(self).voters(p)
            },
    {
        if start_time >= end_time {
            return Err(Error::InvalidTimeRange);
        }
        validate_project_id(project_id)?;
        let threshold = get_category_threshold(&category);
        let period = VotingPeriod {
            project_id,
            start_time,
            end_time,
            threshold,
            category,
            is_active: false,
            is_approved: false,
        };
        self.periods.set(project_id, period);
        self.totals.set(project_id, 0);
        Ok(())
    }

    fn voter_count(&self, project_id: u64) -> (n: usize)
        requires
            self.wf(),
        ensures
            n == self.voters(project_id).len(),
            n < u32::MAX,
    {
        match self.voter_lists.get(&project_id) {
            Some(list) => list.len(),
            None => 0,
        }
    }

    /// Casts a quadratic vote of `weight` for `project_id` at `current_time`.
    ///
    /// `voting_power` and `reputation_score` are the voter's standing in the
    /// reputation registry. The vote costs `weight * weight` voting power,
    /// and is recorded with the reputation bonus applied; the recorded
    /// weight is returned.
    pub fn cast_vote(
        &mut self,
        voter: String,
        project_id: u64,
        weight: u32,
        current_time: u64,
        voting_power: u32,
        reputation_score: u32,
    ) -> (r: Result<u32, Error>)
        requires
            old(self).wf(),
        ensures
            final(self).wf(),
            r == cast_vote_outcome(*old(self), voter@, project_id, weight, current_time,
                voting_power, reputation_score),
            r is Err ==> *final(self) == *old(self),
            r matches Ok(w) ==> {
                &&& w == boosted_weight(weight, reputation_score)
                &&& final(self).periods() == old(self).periods()
                &&& final(self).votes() == old(self).votes().insert(
                    (project_id, voter@),
                    Vote { project_id, voter, weight: w, timestamp: current_time },
                )
                &&& forall|p: u64| #[trigger]
                    final(self).total(p) == (if p == project_id {
                        old(self).total(p) + w
                    } else {
                        old(self).total(p) as int
                    })
                &&& forall|p: u64| #[trigger]
                    final(self).has_total(p) == (p == project_id || old(self).has_total(p))
                &&& forall|p: u64| #[trigger]
                    final(self).voters(p) == (if p == project_id {
                        old(self).voters(p).push(voter@)
                    } else {
                        old(self).voters(p)
                    })
            },
    {
        let period = match self.periods.get(&project_id) {
            Some(p) => *p,
            None => return Err(Error::VotingPeriodNotFound),
        };
        validate_voting_active(current_time, period.start_time, period.end_time)?;
        let key = (project_id, voter.clone());
        if self.votes.contains(&key) {
            return Err(Error::DuplicateVote);
        }
        if voting_power < 1 {
            return Err(Error::InvalidVotingPower);
        }
        validate_voting_reputation(reputation_score)?;
        validate_voting_power_for_weight(weight, voting_power)?;
        let final_weight = apply_vote_reputation_multiplier(weight, reputation_score);
        let total: u32 = match self.totals.get(&project_id) {
            Some(t) => *t,
            None => 0,
        };
        let new_total = match total.checked_add(final_weight) {
            Some(t) => t,
            None => return Err(Error::VoteCountOverflow),
        };
        if self.voter_count(project_id) >= (u32::MAX - 1) as usize {
            return Err(Error::VoteCountOverflow);
        }
        let mut list: Vec<String> = match self.voter_lists.get(&project_id) {
            Some(l) => copy_names(l),
            None => Vec::new(),
        };
        let ghost old_list = list@;
        list.push(voter.clone());
        proof {
            assert(names(list@) =~= names(old_list).push(voter@));
        }
        let vote = Vote { project_id, voter, weight: final_weight, timestamp: current_time };
        self.votes.set(key, vote);
        self.totals.set(project_id, new_total);
        self.voter_lists.set(project_id, list);
        Ok(final_weight)
    }

    /// Closes the voting period of a project once `current_time` is past its
    /// end, and records whether its vote total reached the threshold.
    pub fn close_voting_period(&mut self, project_id: u64, current_time: u64) -> (r: Result<
        bool,
        Error,
    >)
        requires
            old(self).wf(),
        ensures
            final(self).wf(),
            !old(self).periods().contains_key(project_id) ==> r == Err::<bool, Error>(
                Error::VotingPeriodNotFound,
            ),
            old(self).periods().contains_key(project_id) && current_time <= old(
                self,
            ).periods()[project_id].end_time ==> r == Err::<bool, Error>(Error::VotingStillActive),
            r is Err ==> *final(self) == *old(self),
            old(self).periods().contains_key(project_id) && current_time > old(
                self,
            ).periods()[project_id].end_time ==> {
                let p = old(self).periods()[project_id];
                let approved = old(self).total(project_id) >= p.threshold;
                &&& r == Ok::<bool, Error>(approved)
                &&& final(self).periods() == old(self).periods().insert(
                    project_id,
                    VotingPeriod { is_active: false, is_approved: approved, ..p },
                )
                &&& final(self).votes() == old(self).votes()
                &&& forall|q: u64| #[trigger] final(self).total(q) == old(self).total(q)
                &&& forall|q: u64| #[trigger] final(self).has_total(q) == old(self).has_total(q)
                &&& forall|q: u64| #[trigger] final(self).voters(q) == old(self).voters(q)
            },
    {
        let mut period = match self.periods.get(&project_id) {
            Some(p) => *p,
            None => return Err(Error::VotingPeriodNotFound),
        };
        if current_time <= period.end_time {
            return Err(Error::VotingStillActive);
        }
        let total = self.get_total_votes(project_id);
        let is_approved = total >= period.threshold;
        period.is_active = false;
        period.is_approved = is_approved;
        self.periods.set(project_id, period);
        Ok(is_approved)
    }

    /// Voting status of a project at `current_time`: active while
    /// `start_time <= current_time <= end_time`, approved once the period is
    /// over and the total reached the threshold.
    pub fn get_voting_status(&self, project_id: u64, current_time: u64) -> (r: Result<
        VotingStatus,
        Error,
    >)
        requires
            self.wf(),
        ensures
            !self.periods().contains_key(project_id) ==> r == Err::<VotingStatus, Error>(
                Error::VotingPeriodNotFound,
            ),
            self.periods().contains_key(project_id) ==> {
                let p = self.periods()[project_id];
                r == Ok::<VotingStatus, Error>(
                    VotingStatus {
                        project_id,
                        total_votes: self.total(project_id),
                        is_active: p.start_time <= current_time <= p.end_time,
                        is_approved: current_time > p.end_time && self.total(project_id)
                            >= p.threshold,
                        unique_voters: self.voters(project_id).len() as u32,
                    },
                )
            },
    {
        let period = match self.periods.get(&project_id) {
            Some(p) => *p,
            None => return Err(Error::VotingPeriodNotFound),
        };
        let is_active = current_time >= period.start_time && current_time <= period.end_time;
        let total_votes = self.get_total_votes(project_id);
        let unique_voters = self.voter_count(project_id) as u32;
        let is_approved = if current_time > period.end_time {
            total_votes >= period.threshold
        } else {
            false
        };
        Ok(VotingStatus { project_id, total_votes, is_active, is_approved, unique_voters })
    }

    /// The voting period of a project, if one was created.
    pub fn get_voting_period(&self, project_id: u64) -> (r: Option<VotingPeriod>)
        requires
            self.wf(),
        ensures
            r == (if self.periods().contains_key(project_id) {
                Some(self.periods()[project_id])
            } else {
                None::<VotingPeriod>
            }),
    {
        match self.periods.get(&project_id) {
            Some(p) => Some(*p),
            None => None,
        }
    }

    /// The vote cast by `voter` on `project_id`, if any.
    pub fn get_vote(&self, project_id: u64, voter: &String) -> (r: Option<Vote>)
        requires
            self.wf(),
        ensures
            r == (if self.votes().contains_key((project_id, voter@)) {
                Some(self.votes()[(project_id, voter@)])
            } else {
                None::<Vote>
            }),
    {
        let key = (project_id, voter.clone());
        match self.votes.get(&key) {
            Some(v) => Some(v.clone()),
            None => None,
        }
    }

    /// The voters of a project, in voting order.
    pub fn get_project_voters(&self, project_id: u64) -> (r: Vec<String>)
        requires
            self.wf(),
        ensures
            names(r@) == self.voters(project_id),
    {
        match self.voter_lists.get(&project_id) {
            Some(l) => copy_names(l),
            None => {
                let v: Vec<String> = Vec::new();
                assert(names(v@) =~= Seq::<Seq<char>>::empty());
                v
            },
        }
    }

    /// Total vote weight recorded for a project (zero when none).
    pub fn get_total_votes(&self, project_id: u64) -> (t: u32)
        requires
            self.wf(),
        ensures
            t == self.total(project_id),
    {
        match self.totals.get(&project_id) {
            Some(t) => *t,
            None => 0,
        }
    }

    /// Whether `voter` has voted on `project_id`.
    pub fn has_voted(&self, project_id: u64, voter: &String) -> (b: bool)
        requires
            self.wf(),
        ensures
            b == self.votes().contains_key((project_id, voter@)),
    {
        let key = (project_id, voter.clone());
        self.votes.contains(&key)
    }
}

/// The result of casting a vote, decided in order: the period must exist and
/// be open, the voter must not have voted yet, must have voting power and a
/// reputation of at least 10, must afford the quadratic cost, and the new
/// total must fit (as must the voter list).
pub open spec fn cast_vote_outcome(
    book: VotingBook,
    voter: Seq<char>,
    project_id: u64,
    weight: u32,
    current_time: u64,
    voting_power: u32,
    reputation_score: u32,
) -> Result<u32, Error> {
    if !book.periods().contains_key(project_id) {
        Err(Error::VotingPeriodNotFound)
    } else if current_time < book.periods()[project_id].start_time {
        Err(Error::VotingNotStarted)
    } else if current_time > book.periods()[project_id].end_time {
        Err(Error::VotingEnded)
    } else if book.votes().contains_key((project_id, voter)) {
        Err(Error::DuplicateVote)
    } else if voting_power < 1 {
        Err(Error::InvalidVotingPower)
    } else if reputation_score < 10 {
        Err(Error::InsufficientReputation)
    } else if weight_check(weight, voting_power) is Err {
        Err(weight_check(weight, voting_power)->Err_0)
    } else if book.total(project_id) + boosted_weight(weight, reputation_score) > u32::MAX {
        Err(Error::VoteCountOverflow)
    } else if book.voters(project_id).len() >= u32::MAX - 1 {
        Err(Error::VoteCountOverflow)
    } else {
        Ok(boosted_weight(weight, reputation_score) as u32)
    }
}

/// Largest vote weight that `voting_power` can pay for.
pub fn get_max_vote_weight(voting_power: u32) -> (w: u32)
    requires
        voting_power < u32::MAX,
    ensures
        is_floor_sqrt(w as int, voting_power as int),
{
    calculate_max_vote_weight_from_power(voting_power)
}

/// A voter who has voted on a project cannot vote on it again while its
/// period is open.
pub proof fn lemma_one_vote_per_voter(
    book: VotingBook,
    voter: Seq<char>,
    project_id: u64,
    weight: u32,
    current_time: u64,
    voting_power: u32,
    reputation_score: u32,
)
    requires
        book.votes().contains_key((project_id, voter)),
        book.periods().contains_key(project_id),
        book.periods()[project_id].start_time <= current_time <= book.periods()[project_id].end_time,
    ensures
        cast_vote_outcome(book, voter, project_id, weight, current_time, voting_power, reputation_score)
            == Err::<u32, Error>(Error::DuplicateVote),
{
}

/// An accepted vote was cast while the period was open, by a voter with a
/// reputation of at least 10 who could pay its quadratic cost.
pub proof fn lemma_accepted_vote_conditions(
    book: VotingBook,
    voter: Seq<char>,
    project_id: u64,
    weight: u32,
    current_time: u64,
    voting_power: u32,
    reputation_score: u32,
)
    requires
        cast_vote_outcome(book, voter, project_id, weight, current_time, voting_power, reputation_score) is Ok,
    ensures
        book.periods().contains_key(project_id),
        book.periods()[project_id].start_time <= current_time <= book.periods()[project_id].end_time,
        !book.votes().contains_key((project_id, voter)),
        reputation_score >= 10,
        weight * weight <= voting_power,
{
}

} // verus!
