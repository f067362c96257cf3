use vstd::prelude::*;
use crate::guild::{Module, lemma_accounts_kept};
use crate::types::{AccountId, Error, Event, Proposal, Transfer};

verus! {

/// `p` is a proposal as submitted: unsponsored, undecided, with no votes.
pub open spec fn is_fresh_proposal(
    p: Proposal,
    proposer: AccountId,
    applicant: AccountId,
    shares_requested: u128,
    loot_requested: u128,
    tribute_offered: u128,
    payment_requested: u128,
    details: Seq<u8>,
    guild_kick: bool,
) -> bool {
    &&& p.proposer == proposer
    &&& p.applicant == applicant
    &&& p.sponsor == proposer
    &&& p.shares_requested == shares_requested
    &&& p.loot_requested == loot_requested
    &&& p.tribute_offered == tribute_offered
    &&& p.payment_requested == payment_requested
    &&& p.details@ == details
    &&& !p.sponsored && !p.processed && !p.passed && !p.aborted && !p.whitelist
    &&& p.guild_kick == guild_kick
    &&& p.starting_period == 0
    &&& p.yes_votes == 0
    &&& p.no_votes == 0
    &&& p.max_total_shares_at_yes == 0
}

impl Module {
    /// Only the proposals and the events changed.
    pub open spec fn only_proposals_changed(&self, o: &Module) -> bool {
        &&& self.settings_eq(o)
        &&& self.total_shares == o.total_shares
        &&& self.total_loot == o.total_loot
        &&& self.member_records@ == o.member_records@
        &&& self.proposal_queue@ == o.proposal_queue@
        &&& self.proposed_to_kick@ == o.proposed_to_kick@
        &&& self.votes@ == o.votes@
    }

    /// Stores a new proposal under the next id and publishes it. Callers
    /// validate; a kick proposal must target a member.
    pub fn create_proposal(
        &mut self,
        proposer: AccountId,
        applicant: AccountId,
        shares_requested: u128,
        loot_requested: u128,
        tribute_offered: u128,
        payment_requested: u128,
        details: Vec<u8>,
        guild_kick: bool,
    )
        requires
            old(self).wf(),
            guild_kick ==> old(self).is_member(applicant),
        ensures
            final(self).wf(),
            final(self).only_proposals_changed(old(self)),
            final(self).proposal_records@.len() == old(self).proposal_records@.len() + 1,
            final(self).proposal_records@.drop_last() == old(self).proposal_records@,
            is_fresh_proposal(final(self).proposal_records@.last(), proposer, applicant, shares_requested,
                loot_requested, tribute_offered, payment_requested, details@, guild_kick),
            final(self).events@ == old(self).events@.push(Event::SubmitProposal(
                old(self).proposal_records@.len() as u128, proposer, proposer, applicant, tribute_offered, shares_requested)),
    {
        let id = self.proposal_records.len() as u128;
        let p = Proposal {
            proposer,
            applicant,
            sponsor: proposer,
            shares_requested,
            loot_requested,
            payment_requested,
            tribute_offered,
            sponsored: false,
            processed: false,
            passed: false,
            aborted: false,
            whitelist: false,
            guild_kick,
            starting_period: 0,
            yes_votes: 0,
            no_votes: 0,
            details,
            max_total_shares_at_yes: 0,
        };
        self.proposal_records.push(p);
        self.events.push(Event::SubmitProposal(id, proposer, proposer, applicant, tribute_offered, shares_requested));
        proof {
            let a = old(self).proposal_records@;
            let b = self.proposal_records@;
            assert(b.drop_last() == a);
            assert(forall|k: int| 0 <= k < a.len() ==> b[k] == a[k]);
            assert(self.member_records@ == old(self).member_records@);
            assert(old(self).accounts_kept(self));
            lemma_accounts_kept(old(self), self);
        }
    }

    /// The refusal `submit_proposal` gives, if any.
    pub open spec fn submit_proposal_error(&self, who: AccountId, shares_requested: u128, loot_requested: u128) -> Option<Error> {
        if self.member(who).jailed_at != 0 {
            Some(Error::MemberInJail)
        } else if self.total_shares + shares_requested + loot_requested > self.config.max_shares {
            Some(Error::SharesOverFlow)
        } else {
            None
        }
    }

    /// What a successful `submit_proposal` leaves: `new` holds the proposal
    /// under the next id, and `t` moves the tribute from `who` to custody.
    pub open spec fn submit_proposal_post(
        &self,
        new: &Module,
        who: AccountId,
        applicant: AccountId,
        tribute_offered: u128,
        shares_requested: u128,
        loot_requested: u128,
        payment_requested: u128,
        details: Seq<u8>,
        t: Seq<Transfer>,
    ) -> bool {
        &&& t == seq![Transfer { from: who, to: self.custody_account, amount: tribute_offered, keep_alive: true }]
        &&& new.only_proposals_changed(self)
        &&& new.proposal_records@.drop_last() == self.proposal_records@
        &&& new.proposal_records@.len() == self.proposal_records@.len() + 1
        &&& is_fresh_proposal(new.proposal_records@.last(), who, applicant, shares_requested,
            loot_requested, tribute_offered, payment_requested, details, false)
        &&& new.events@ == self.events@.push(Event::SubmitProposal(
            self.proposal_records@.len() as u128, who, who, applicant, tribute_offered, shares_requested))
    }

    /// `who` asks the guild to give `applicant` shares, loot and a payment,
    /// in return for a tribute that moves from `who` to custody now.
    pub fn submit_proposal(
        &mut self,
        who: AccountId,
        applicant: AccountId,
        tribute_offered: u128,
        shares_requested: u128,
        loot_requested: u128,
        payment_requested: u128,
        details: Vec<u8>,
    ) -> (r: Result<Vec<Transfer>, Error>)
        requires
            old(self).wf(),
        ensures
            final(self).wf(),
            match old(self).submit_proposal_error(who, shares_requested, loot_requested) {
                Some(e) => r == Err::<Vec<Transfer>, Error>(e) && *final(self) == *old(self),
                None => r matches Ok(t) && old(self).submit_proposal_post(final(self), who, applicant, tribute_offered,
                    shares_requested, loot_requested, payment_requested, details@, t@),
            },
    {
        match self.find_member(who) {
            Some(i) => {
                if self.member_records[i].1.jailed_at != 0 {
                    return Err(Error::MemberInJail);
                }
            },
            None => {},
        }
        let requested = match shares_requested.checked_add(loot_requested) {
            Some(x) => x,
            None => return Err(Error::SharesOverFlow),
        };
        match self.total_shares.checked_add(requested) {
            Some(x) => {
                if x > self.config.max_shares {
                    return Err(Error::SharesOverFlow);
                }
            },
            None => return Err(Error::SharesOverFlow),
        }
        let custody = self.custody_account;
        self.create_proposal(who, applicant, shares_requested, loot_requested, tribute_offered, payment_requested, details, false);
        let t = vec![Transfer { from: who, to: custody, amount: tribute_offered, keep_alive: true }];
        assert(t@ =~= seq![Transfer { from: who, to: custody, amount: tribute_offered, keep_alive: true }]);
        Ok(t)
    }

    /// The refusal `submit_guild_kick_proposal` gives, if any.
    pub open spec fn kick_proposal_error(&self, member_to_kick: AccountId) -> Option<Error> {
        if !self.is_member(member_to_kick) {
            Some(Error::NotMember)
        } else if self.member(member_to_kick).shares == 0 && self.member(member_to_kick).loot == 0 {
            Some(Error::NoEnoughShares)
        } else if self.member(member_to_kick).jailed_at != 0 {
            Some(Error::MemberInJail)
        } else {
            None
        }
    }

    /// `who` proposes to jail the member `member_to_kick`, who must hold
    /// shares or loot and be free.
    pub fn submit_guild_kick_proposal(&mut self, who: AccountId, member_to_kick: AccountId, details: Vec<u8>) -> (r: Result<(), Error>)
        requires
            old(self).wf(),
        ensures
            final(self).wf(),
            match old(self).kick_proposal_error(member_to_kick) {
                Some(e) => r == Err::<(), Error>(e) && *final(self) == *old(self),
                None => {
                    &&& r is Ok
                    &&& final(self).only_proposals_changed(old(self))
                    &&& final(self).proposal_records@.drop_last() == old(self).proposal_records@
                    &&& final(self).proposal_records@.len() == old(self).proposal_records@.len() + 1
                    &&& is_fresh_proposal(final(self).proposal_records@.last(), who, member_to_kick, 0, 0, 0, 0, details@, true)
                    &&& final(self).events@ == old(self).events@.push(Event::SubmitProposal(
                        old(self).proposal_records@.len() as u128, who, who, member_to_kick, 0, 0))
                },
            },
    {
        let i = match self.find_member(member_to_kick) {
            Some(i) => i,
            None => return Err(Error::NotMember),
        };
        let m = self.member_records[i].1;
        if m.shares == 0 && m.loot == 0 {
            return Err(Error::NoEnoughShares);
        }
        if m.jailed_at != 0 {
            return Err(Error::MemberInJail);
        }
        self.create_proposal(who, member_to_kick, 0, 0, 0, 0, details, true);
        Ok(())
    }

    /// The starting period of the last queued proposal; zero for an empty queue.
    pub open spec fn last_starting_period(&self) -> int {
        if self.queue_len() == 0 {
            0
        } else {
            self.queued(self.queue_len() - 1).starting_period as int
        }
    }

    /// The period in which voting opens for a proposal sponsored at `now`: one
    /// after the later of the current period and the last queued start.
    pub open spec fn next_starting_period(&self, now: u64) -> int {
        let last = self.last_starting_period();
        let cur = self.current_period(now);
        (if last > cur { last } else { cur }) + 1
    }

    /// The refusal `sponsor_proposal` gives, if any.
    pub open spec fn sponsor_error(&self, who: AccountId, proposal_id: u128, now: u64) -> Option<Error> {
        let p = self.proposal_records@[proposal_id as int];
        if !self.is_member(who) {
            Some(Error::NotMember)
        } else if proposal_id >= self.proposal_records@.len() {
            Some(Error::ProposalNotExist)
        } else if p.sponsored {
            Some(Error::ProposalHasSponsored)
        } else if p.aborted {
            Some(Error::ProposalHasAborted)
        } else if self.member(who).jailed_at != 0 {
            Some(Error::MemberInJail)
        } else if p.guild_kick && self.kick_pending(p.applicant) {
            Some(Error::MemberInJail)
        } else if self.next_starting_period(now) > u128::MAX {
            Some(Error::StorageOverflow)
        } else {
            None
        }
    }

    /// What a successful `sponsor_proposal` leaves: the proposal is queued
    /// with its starting period and sponsor, a kick target is marked pending,
    /// and `t` moves the deposit from `who` to the bank.
    pub open spec fn sponsor_post(&self, new: &Module, who: AccountId, proposal_id: u128, now: u64, t: Seq<Transfer>) -> bool {
        let p = self.proposal_records@[proposal_id as int];
        &&& t == seq![Transfer {
            from: who, to: self.bank_account, amount: self.proposal_deposit, keep_alive: true,
        }]
        &&& new.proposal_records@ == self.proposal_records@.update(proposal_id as int, Proposal {
            starting_period: self.next_starting_period(now) as u128,
            sponsored: true,
            sponsor: self.address_of_delegate(who),
            ..p
        })
        &&& new.proposal_queue@ == self.proposal_queue@.push(proposal_id)
        &&& new.proposed_to_kick@ == if p.guild_kick {
            self.proposed_to_kick@.push(p.applicant)
        } else {
            self.proposed_to_kick@
        }
        &&& new.settings_eq(self)
        &&& new.total_shares == self.total_shares
        &&& new.total_loot == self.total_loot
        &&& new.member_records@ == self.member_records@
            &&& new.votes@ == self.votes@
        &&& new.events@ == self.events@
    }

    /// The member `who` stakes the proposal deposit to move proposal
    /// `proposal_id` into the queue, where voting opens at
    /// `next_starting_period(now)`. The proposal's sponsor is recorded as the
    /// member that votes through `who`'s key (`address_of_delegate(who)`): a
    /// member who has handed its key to another account is not found there,
    /// and the sponsor is then recorded as the zero account.
    pub fn sponsor_proposal(&mut self, who: AccountId, proposal_id: u128, now: u64) -> (r: Result<Vec<Transfer>, Error>)
        requires
            old(self).wf(),
        ensures
            final(self).wf(),
            match old(self).sponsor_error(who, proposal_id, now) {
                Some(e) => r == Err::<Vec<Transfer>, Error>(e) && *final(self) == *old(self),
                None => r matches Ok(t) && old(self).sponsor_post(final(self), who, proposal_id, now, t@),
            },
    {
        let i = match self.find_member(who) {
            Some(i) => i,
            None => return Err(Error::NotMember),
        };
        if proposal_id >= self.proposal_records.len() as u128 {
            return Err(Error::ProposalNotExist);
        }
        let id = proposal_id as usize;
        if self.proposal_records[id].sponsored {
            return Err(Error::ProposalHasSponsored);
        }
        if self.proposal_records[id].aborted {
            return Err(Error::ProposalHasAborted);
        }
        if self.member_records[i].1.jailed_at != 0 {
            return Err(Error::MemberInJail);
        }
        let kick = self.proposal_records[id].guild_kick;
        let target = self.proposal_records[id].applicant;
        if kick && self.kick_is_pending(target) {
            return Err(Error::MemberInJail);
        }
        let n = self.proposal_queue.len();
        let last: u128 = if n == 0 {
            0
        } else {
            self.proposal_records[self.proposal_queue[n - 1] as usize].starting_period
        };
        let cur = self.get_current_period(now);
        let later = if last > cur { last } else { cur };
        let start = match later.checked_add(1) {
            Some(x) => x,
            None => return Err(Error::StorageOverflow),
        };
        let sponsor = self.address_of_delegate_key(who);
        let ghost before = *self;
        self.proposal_records[id].starting_period = start;
        self.proposal_records[id].sponsored = true;
        self.proposal_records[id].sponsor = sponsor;
        self.proposal_queue.push(proposal_id);
        if kick {
            self.proposed_to_kick.push(target);
        }
        proof {
            let a = before.proposal_records@;
            let b = self.proposal_records@;
            let qa = before.proposal_queue@;
            let qb = self.proposal_queue@;
            assert(forall|k: int| 0 <= k < a.len() && k != id ==> b[k] == a[k]);
            assert(forall|k: int| 0 <= k < qa.len() ==> qb[k] == qa[k]);
            assert(forall|k: int| 0 <= k < qa.len() ==> qa[k] != proposal_id);
            assert(before.accounts_kept(self));
            lemma_accounts_kept(&before, self);
            assert forall|k: int| 0 <= k < b.len() && (#[trigger] b[k]).sponsored implies qb.contains(k as u128) by {
                if k == id {
                    assert(qb[qa.len() as int] == proposal_id);
                } else {
                    assert(a[k].sponsored);
                    let j = choose|j: int| 0 <= j < qa.len() && qa[j] == k as u128;
                    assert(qb[j] == qa[j]);
                }
            }
            assert forall|x: int, y: int| 0 <= x < y < qb.len() && (#[trigger] b[qb[y] as int]).processed
                implies (#[trigger] b[qb[x] as int]).processed by {
                if y < qa.len() {
                    assert(a[qa[y] as int].processed);
                }
            }
        }
        proof {
            let a = before.proposal_records@;
            assert(self.proposal_records@ =~= a.update(id as int, Proposal {
                starting_period: start, sponsored: true, sponsor, ..a[id as int]
            }));
        }
        let bank = self.bank_account;
        let deposit = self.proposal_deposit;
        let t = vec![Transfer { from: who, to: bank, amount: deposit, keep_alive: true }];
        assert(t@ =~= seq![Transfer { from: who, to: bank, amount: deposit, keep_alive: true }]);
        Ok(t)
    }

    /// Whether a sponsored kick proposal against `a` awaits processing.
    pub fn kick_is_pending(&self, a: AccountId) -> (r: bool)
        ensures
            r == self.kick_pending(a),
    {
        let mut i: usize = 0;
        while i < self.proposed_to_kick.len()
            invariant
                i <= self.proposed_to_kick@.len(),
                forall|j: int| 0 <= j < i ==> self.proposed_to_kick@[j] != a,
            decreases self.proposed_to_kick@.len() - i,
        {
            if self.proposed_to_kick[i] == a {
                return true;
            }
            i = i + 1;
        }
        false
    }

    /// The refusal `abort` gives, if any.
    pub open spec fn abort_error(&self, who: AccountId, proposal_id: u128) -> Option<Error> {
        let p = self.proposal_records@[proposal_id as int];
        if proposal_id >= self.proposal_records@.len() {
            Some(Error::ProposalNotExist)
        } else if who != p.proposer {
            Some(Error::NotProposalProposer)
        } else if p.sponsored {
            Some(Error::ProposalHasSponsored)
        } else if p.aborted {
            Some(Error::ProposalHasAborted)
        } else {
            None
        }
    }

    /// What a successful `abort` leaves: the proposal is marked aborted with
    /// no tribute, `t` returns its tribute from custody to the proposer, and
    /// the abort is published with the proposal's applicant.
    pub open spec fn abort_post(&self, new: &Module, proposal_id: u128, t: Seq<Transfer>) -> bool {
        let p = self.proposal_records@[proposal_id as int];
        &&& t == seq![Transfer { from: self.custody_account, to: p.proposer, amount: p.tribute_offered, keep_alive: false }]
        &&& new.proposal_records@ == self.proposal_records@.update(
            proposal_id as int, Proposal { tribute_offered: 0, aborted: true, ..p })
        &&& new.only_proposals_changed(self)
        &&& new.events@ == self.events@.push(Event::Abort(proposal_id, p.applicant))
    }

    /// The proposer withdraws an unsponsored proposal (addressed by id) and
    /// takes its tribute back from custody.
    pub fn abort(&mut self, who: AccountId, proposal_id: u128) -> (r: Result<Vec<Transfer>, Error>)
        requires
            old(self).wf(),
        ensures
            final(self).wf(),
            match old(self).abort_error(who, proposal_id) {
                Some(e) => r == Err::<Vec<Transfer>, Error>(e) && *final(self) == *old(self),
                None => r matches Ok(t) && old(self).abort_post(final(self), proposal_id, t@),
            },
    {
        if proposal_id >= self.proposal_records.len() as u128 {
            return Err(Error::ProposalNotExist);
        }
        let id = proposal_id as usize;
        if who != self.proposal_records[id].proposer {
            return Err(Error::NotProposalProposer);
        }
        if self.proposal_records[id].sponsored {
            return Err(Error::ProposalHasSponsored);
        }
        if self.proposal_records[id].aborted {
            return Err(Error::ProposalHasAborted);
        }
        let tribute = self.proposal_records[id].tribute_offered;
        let proposer = self.proposal_records[id].proposer;
        let applicant = self.proposal_records[id].applicant;
        let ghost before = *self;
        self.proposal_records[id].tribute_offered = 0;
        self.proposal_records[id].aborted = true;
        self.events.push(Event::Abort(proposal_id, applicant));
        proof {
            let a = before.proposal_records@;
            let b = self.proposal_records@;
            assert(forall|k: int| 0 <= k < a.len() && k != id ==> b[k] == a[k]);
            assert(b =~= a.update(id as int, Proposal { tribute_offered: 0, aborted: true, ..a[id as int] }));
            assert(before.accounts_kept(self));
            lemma_accounts_kept(&before, self);
        }
        let custody = self.custody_account;
        let t = vec![Transfer { from: custody, to: proposer, amount: tribute, keep_alive: false }];
        assert(t@ =~= seq![Transfer { from: custody, to: proposer, amount: tribute, keep_alive: false }]);
        Ok(t)
    }
}

} // verus!
