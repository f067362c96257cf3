use vstd::prelude::*;
use crate::guild::{Module, lemma_accounts_kept, lemma_delegate_record, lemma_record_update};
use crate::types::{AccountId, Error, Event, Member, Proposal, Vote};

verus! {

/// The ballot a vote code stands for: 1 is yes, 2 is no.
pub open spec fn ballot_of(vote_unit: u8) -> Vote {
    if vote_unit == 1 { Vote::Yes } else if vote_unit == 2 { Vote::No } else { Vote::Null }
}

impl Module {
    /// The refusal `submit_vote` gives, if any, in the order the conditions are checked.
    pub open spec fn vote_error(&self, who: AccountId, queue_index: u128, vote_unit: u8, now: u64) -> Option<Error> {
        let voter = self.address_of_delegate(who);
        let m = self.member(voter);
        let p = self.queued(queue_index as int);
        let cur = self.current_period(now);
        if !self.is_delegate(who) {
            Some(Error::NotMember)
        } else if m.shares == 0 {
            Some(Error::NoEnoughShares)
        } else if queue_index >= self.queue_len() {
            Some(Error::ProposalNotExist)
        } else if vote_unit == 0 || vote_unit > 2 {
            Some(Error::InvalidVote)
        } else if cur < p.starting_period {
            Some(Error::ProposalNotStart)
        } else if cur >= p.starting_period + self.voting_period_length {
            Some(Error::ProposalExpired)
        } else if self.has_voted(queue_index, voter) {
            Some(Error::MemberHasVoted)
        } else if p.aborted {
            Some(Error::ProposalHasAborted)
        } else if vote_unit == 1 && p.yes_votes + m.shares > u128::MAX {
            Some(Error::StorageOverflow)
        } else if vote_unit == 2 && p.no_votes + m.shares > u128::MAX {
            Some(Error::StorageOverflow)
        } else {
            None
        }
    }

    /// The proposal after a ballot of weight `weight` was counted: a yes
    /// ballot also raises the supply snapshot to `supply` where that is larger.
    pub open spec fn counted(p: Proposal, vote_unit: u8, weight: u128, supply: int) -> Proposal {
        if vote_unit == 1 {
            Proposal {
                yes_votes: (p.yes_votes + weight) as u128,
                max_total_shares_at_yes: if supply > p.max_total_shares_at_yes { supply as u128 } else { p.max_total_shares_at_yes },
                ..p
            }
        } else {
            Proposal { no_votes: (p.no_votes + weight) as u128, ..p }
        }
    }

    /// What a successful `submit_vote` leaves: the ballot is recorded and
    /// counted with the voting member's shares, and a yes ballot raises the
    /// member's highest yes index where this one is higher.
    pub open spec fn vote_post(&self, new: &Module, who: AccountId, queue_index: u128, vote_unit: u8) -> bool {
        let voter = self.address_of_delegate(who);
        let m = self.member(voter);
        let id = self.proposal_queue@[queue_index as int] as int;
        let supply = self.total_shares + self.total_loot;
        &&& new.votes@ == self.votes@.push((queue_index, voter, ballot_of(vote_unit)))
        &&& new.proposal_records@ == self.proposal_records@.update(
            id, Self::counted(self.proposal_records@[id], vote_unit, m.shares, supply))
        &&& new.member_records@ == if vote_unit == 1 && queue_index > m.highest_index_yes_vote {
            self.member_records@.update(self.member_index(voter),
                (voter, Member { highest_index_yes_vote: queue_index, ..m }))
        } else {
            self.member_records@
        }
        &&& new.events@ == self.events@.push(Event::SubmitVote(queue_index, who, voter, vote_unit))
        &&& new.settings_eq(self)
        &&& new.total_shares == self.total_shares
        &&& new.total_loot == self.total_loot
        &&& new.proposal_queue@ == self.proposal_queue@
        &&& new.proposed_to_kick@ == self.proposed_to_kick@
    }

    /// The delegate `who` casts the ballot `vote_unit` (1 yes, 2 no) on the
    /// proposal at `queue_index`, with the weight of the shares of the member
    /// it votes for, while the proposal's voting window is open at `now`.
    pub fn submit_vote(&mut self, who: AccountId, queue_index: u128, vote_unit: u8, now: u64) -> (r: Result<(), Error>)
        requires
            old(self).wf(),
        ensures
            final(self).wf(),
            match old(self).vote_error(who, queue_index, vote_unit, now) {
                Some(e) => r == Err::<(), Error>(e) && *final(self) == *old(self),
                None => r is Ok && old(self).vote_post(final(self), who, queue_index, vote_unit),
            },
    {
        let i = match self.find_delegate(who) {
            Some(i) => i,
            None => return Err(Error::NotMember),
        };
        proof { lemma_delegate_record(self, who); }
        let voter = self.member_records[i].0;
        let m = self.member_records[i].1;
        if m.shares == 0 {
            return Err(Error::NoEnoughShares);
        }
        if queue_index >= self.proposal_queue.len() as u128 {
            return Err(Error::ProposalNotExist);
        }
        if vote_unit == 0 || vote_unit > 2 {
            return Err(Error::InvalidVote);
        }
        let qid = self.proposal_queue[queue_index as usize];
        let n_proposals = self.proposal_records.len();
        assert(qid < n_proposals);
        let id = qid as usize;
        let start = self.proposal_records[id].starting_period;
        let cur = self.get_current_period(now);
        if cur < start {
            return Err(Error::ProposalNotStart);
        }
        match start.checked_add(self.voting_period_length) {
            Some(end) => {
                if cur >= end {
                    return Err(Error::ProposalExpired);
                }
            },
            None => {},
        }
        if self.has_voted_on(queue_index, voter) {
            return Err(Error::MemberHasVoted);
        }
        if self.proposal_records[id].aborted {
            return Err(Error::ProposalHasAborted);
        }
        let supply = self.total_shares + self.total_loot;
        let ghost before = *self;
        if vote_unit == 1 {
            let yes = match self.proposal_records[id].yes_votes.checked_add(m.shares) {
                Some(x) => x,
                None => return Err(Error::StorageOverflow),
            };
            self.votes.push((queue_index, voter, Vote::Yes));
            self.proposal_records[id].yes_votes = yes;
            if supply > self.proposal_records[id].max_total_shares_at_yes {
                self.proposal_records[id].max_total_shares_at_yes = supply;
            }
            if queue_index > m.highest_index_yes_vote {
                self.member_records.set(i, (voter, Member { highest_index_yes_vote: queue_index, ..m }));
            }
        } else {
            let no = match self.proposal_records[id].no_votes.checked_add(m.shares) {
                Some(x) => x,
                None => return Err(Error::StorageOverflow),
            };
            self.votes.push((queue_index, voter, Vote::No));
            self.proposal_records[id].no_votes = no;
        }
        self.events.push(Event::SubmitVote(queue_index, who, voter, vote_unit));
        proof {
            let a = before.proposal_records@;
            let b = self.proposal_records@;
            assert(forall|k: int| 0 <= k < a.len() && k != id ==> b[k] == a[k]);
            assert(before.accounts_kept(self));
            lemma_accounts_kept(&before, self);
            if vote_unit == 1 && queue_index > m.highest_index_yes_vote {
                assert(self.member_records@ == before.member_records@.update(i as int, self.member_records@[i as int]));
                lemma_record_update(&before, self, i as int);
            }
            let ra = before.member_records@;
            let rb = self.member_records@;
            assert(forall|k: int| 0 <= k < ra.len() ==> rb[k].0 == ra[k].0 && rb[k].1.delegate_key == ra[k].1.delegate_key
                && rb[k].1.exists == ra[k].1.exists && rb[k].1.jailed_at == ra[k].1.jailed_at && rb[k].1.shares == ra[k].1.shares);
            assert(b =~= a.update(id as int, Self::counted(a[id as int], vote_unit, m.shares, supply as int)));
            if vote_unit == 1 && queue_index > m.highest_index_yes_vote {
                assert(rb =~= ra.update(i as int, (voter, Member { highest_index_yes_vote: queue_index, ..m })));
            } else {
                assert(rb =~= ra);
            }
        }
        Ok(())
    }

    /// Whether `member` has voted on the proposal at `queue_index`.
    pub fn has_voted_on(&self, queue_index: u128, member: AccountId) -> (r: bool)
        ensures
            r == self.has_voted(queue_index, member),
    {
        let mut i: usize = 0;
        while i < self.votes.len()
            invariant
                i <= self.votes@.len(),
                forall|j: int| 0 <= j < i ==> !((#[trigger] self.votes@[j]).0 == queue_index && self.votes@[j].1 == member),
            decreases self.votes@.len() - i,
        {
            if self.votes[i].0 == queue_index && self.votes[i].1 == member {
                return true;
            }
            i = i + 1;
        }
        false
    }
}

} // verus!
