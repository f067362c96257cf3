use vstd::prelude::*;
use crate::accounts::{bank_account_of, bank_of, custody_account_of, custody_of, lemma_custody_is_not_bank};
use crate::ledger::{holding, total_of, lemma_total_update};
use crate::period::{period_at, elapsed_periods};
use crate::types::{AccountId, Config, Error, Event, Member, Proposal, Vote};

verus! {

/// The whole state of one guild.
///
/// The fields are public so that the host can read and persist them; every
/// change goes through the transitions, which require and keep `wf`.
pub struct Module {
    pub config: Config,
    /// The guild bank, which holds payable funds and deposits.
    pub bank_account: AccountId,
    /// The account that holds tributes until their proposal is decided,
    /// derived with the sub-path `custody`; never the bank.
    pub custody_account: AccountId,
    /// Milliseconds at which the guild was summoned.
    pub summon_time: u64,
    /// Length of one period, in seconds.
    pub period_duration: u32,
    pub voting_period_length: u128,
    pub grace_period_length: u128,
    pub dilution_bound: u128,
    pub proposal_deposit: u128,
    pub processing_reward: u128,
    pub total_shares: u128,
    pub total_loot: u128,
    /// Each member's account with its record, one entry per account.
    pub member_records: Vec<(AccountId, Member)>,
    /// Proposals by id: a proposal's id is its position here.
    pub proposal_records: Vec<Proposal>,
    /// Ids of the sponsored proposals, in the order they were sponsored.
    pub proposal_queue: Vec<u128>,
    /// Targets of kick proposals that are sponsored and not yet processed.
    pub proposed_to_kick: Vec<AccountId>,
    /// Ballots cast: queue index, member, ballot.
    pub votes: Vec<(u128, AccountId, Vote)>,
    /// Events published so far, oldest first.
    pub events: Vec<Event>,
}

impl Module {
    pub open spec fn is_member(&self, a: AccountId) -> bool {
        exists|i: int| 0 <= i < self.member_records@.len() && #[trigger] self.member_records@[i].0 == a
    }

    /// Position of a member's record.
    pub open spec fn member_index(&self, a: AccountId) -> int {
        choose|i: int| 0 <= i < self.member_records@.len() && #[trigger] self.member_records@[i].0 == a
    }

    /// A member's record; the absent record for an account that is no member.
    pub open spec fn member(&self, a: AccountId) -> Member {
        if self.is_member(a) {
            self.member_records@[self.member_index(a)].1
        } else {
            Member::spec_absent()
        }
    }

    /// Whether some member votes through `d`.
    pub open spec fn is_delegate(&self, d: AccountId) -> bool {
        exists|i: int| 0 <= i < self.member_records@.len() && #[trigger] self.member_records@[i].1.delegate_key == d
    }

    pub open spec fn delegate_index(&self, d: AccountId) -> int {
        choose|i: int| 0 <= i < self.member_records@.len() && #[trigger] self.member_records@[i].1.delegate_key == d
    }

    /// The member that votes through `d`; the zero account where there is none.
    pub open spec fn address_of_delegate(&self, d: AccountId) -> AccountId {
        if self.is_delegate(d) {
            self.member_records@[self.delegate_index(d)].0
        } else {
            AccountId::spec_zero()
        }
    }

    pub open spec fn current_period(&self, now: u64) -> int {
        period_at(now, self.summon_time, self.period_duration)
    }

    pub open spec fn queue_len(&self) -> int {
        self.proposal_queue@.len() as int
    }

    /// The proposal at queue index `q`.
    pub open spec fn queued(&self, q: int) -> Proposal {
        self.proposal_records@[self.proposal_queue@[q] as int]
    }

    pub open spec fn has_voted(&self, q: u128, m: AccountId) -> bool {
        exists|i: int| 0 <= i < self.votes@.len() && (#[trigger] self.votes@[i]).0 == q && self.votes@[i].1 == m
    }

    pub open spec fn kick_pending(&self, a: AccountId) -> bool {
        self.proposed_to_kick@.contains(a)
    }

    /// Accounts are unique, delegate keys are unique, and no member votes
    /// through another member's account.
    pub open spec fn registry_wf(&self) -> bool {
        let r = self.member_records@;
        &&& forall|i: int, j: int| 0 <= i < r.len() && 0 <= j < r.len() && i != j ==> #[trigger] r[i].0 != #[trigger] r[j].0
        &&& forall|i: int, j: int| 0 <= i < r.len() && 0 <= j < r.len() && i != j
            ==> #[trigger] r[i].1.delegate_key != #[trigger] r[j].1.delegate_key
        &&& forall|i: int, j: int| 0 <= i < r.len() && 0 <= j < r.len() && i != j
            ==> #[trigger] r[i].1.delegate_key != #[trigger] r[j].0
        &&& forall|i: int| 0 <= i < r.len() ==> (#[trigger] r[i]).1.exists
        &&& forall|i: int| 0 <= i < r.len() && (#[trigger] r[i]).1.jailed_at != 0 ==> r[i].1.shares == 0
    }

    /// The totals are the sums over the members, and fit together in a `u128`.
    pub open spec fn ledger_wf(&self) -> bool {
        &&& total_of(self.member_records@, false) == self.total_shares
        &&& total_of(self.member_records@, true) == self.total_loot
        &&& self.total_shares + self.total_loot <= u128::MAX
    }

    /// Queued ids name distinct sponsored proposals, every sponsored proposal
    /// is queued, only sponsored proposals are processed, processed ones form a prefix of the queue, and every kick
    /// proposal targets a member.
    pub open spec fn queue_wf(&self) -> bool {
        let q = self.proposal_queue@;
        let p = self.proposal_records@;
        &&& forall|k: int| 0 <= k < p.len() && (#[trigger] p[k]).processed ==> p[k].sponsored
        &&& forall|k: int| 0 <= k < p.len() && (#[trigger] p[k]).sponsored ==> q.contains(k as u128)
        &&& forall|i: int| 0 <= i < q.len() ==> (#[trigger] q[i]) < p.len() && p[q[i] as int].sponsored
        &&& forall|i: int, j: int| 0 <= i < q.len() && 0 <= j < q.len() && i != j ==> #[trigger] q[i] != #[trigger] q[j]
        &&& forall|i: int, j: int| 0 <= i < j < q.len() && (#[trigger] p[q[j] as int]).processed
            ==> (#[trigger] p[q[i] as int]).processed
        &&& forall|k: int| 0 <= k < p.len() && (#[trigger] p[k]).guild_kick ==> self.is_member(p[k].applicant)
    }

    /// The two accounts are those derived from the module identifier, and
    /// they differ.
    pub open spec fn accounts_wf(&self) -> bool {
        &&& self.bank_account == bank_of(self.config.module_id@)
        &&& self.custody_account == custody_of(self.config.module_id@)
        &&& self.custody_account != self.bank_account
    }

    pub open spec fn wf(&self) -> bool {
        &&& self.accounts_wf()
        &&& self.proposal_deposit >= self.processing_reward
        &&& self.registry_wf()
        &&& self.ledger_wf()
        &&& self.queue_wf()
    }

    /// The guild bank account, derived from the module identifier.
    pub fn account_id(&self) -> (r: AccountId)
        ensures
            r == bank_of(self.config.module_id@),
    {
        bank_account_of(self.config.module_id)
    }

    /// The account that holds tributes until their proposal is decided,
    /// derived from the module identifier and the sub-path `custody`. It is
    /// never the guild bank.
    pub fn custody_account(&self) -> (r: AccountId)
        ensures
            r == custody_of(self.config.module_id@),
            r != bank_of(self.config.module_id@),
    {
        proof { lemma_custody_is_not_bank(self.config.module_id@); }
        custody_account_of(self.config.module_id)
    }

    /// The period the guild is in at `now` (milliseconds).
    pub fn get_current_period(&self, now: u64) -> (r: u128)
        ensures
            r as int == self.current_period(now),
    {
        elapsed_periods(now, self.summon_time, self.period_duration)
    }

    /// Finds the record of `a`.
    pub fn find_member(&self, a: AccountId) -> (r: Option<usize>)
        requires
            self.registry_wf(),
        ensures
            match r {
                Some(i) => self.is_member(a) && i as int == self.member_index(a),
                None => !self.is_member(a),
            },
    {
        let mut i: usize = 0;
        while i < self.member_records.len()
            invariant
                i <= self.member_records@.len(),
                self.registry_wf(),
                forall|j: int| 0 <= j < i ==> #[trigger] self.member_records@[j].0 != a,
            decreases self.member_records@.len() - i,
        {
            if self.member_records[i].0 == a {
                assert(self.is_member(a));
                return Some(i);
            }
            i = i + 1;
        }
        None
    }

    /// Finds the record of the member that votes through `d`.
    pub fn find_delegate(&self, d: AccountId) -> (r: Option<usize>)
        requires
            self.registry_wf(),
        ensures
            match r {
                Some(i) => self.is_delegate(d) && i as int == self.delegate_index(d),
                None => !self.is_delegate(d),
            },
    {
        let mut i: usize = 0;
        while i < self.member_records.len()
            invariant
                i <= self.member_records@.len(),
                self.registry_wf(),
                forall|j: int| 0 <= j < i ==> #[trigger] self.member_records@[j].1.delegate_key != d,
            decreases self.member_records@.len() - i,
        {
            if self.member_records[i].1.delegate_key == d {
                assert(self.is_delegate(d));
                return Some(i);
            }
            i = i + 1;
        }
        None
    }

    /// The record of `a`; the absent record where `a` is no member.
    pub fn members(&self, a: AccountId) -> (r: Member)
        requires
            self.registry_wf(),
        ensures
            r == self.member(a),
    {
        match self.find_member(a) {
            Some(i) => self.member_records[i].1,
            None => Member::absent(),
        }
    }

    /// The member that votes through `d`; the zero account where there is none.
    pub fn address_of_delegate_key(&self, d: AccountId) -> (r: AccountId)
        requires
            self.registry_wf(),
        ensures
            r == self.address_of_delegate(d),
    {
        match self.find_delegate(d) {
            Some(i) => self.member_records[i].0,
            None => AccountId::zero(),
        }
    }

    /// The refusal `summon` gives, if any, in the order the settings are checked.
    pub open spec fn summon_error(
        config: Config,
        voting_period_length: u128,
        grace_period_length: u128,
        dilution_bound: u128,
        proposal_deposit: u128,
        processing_reward: u128,
    ) -> Option<Error> {
        if voting_period_length > config.max_voting_period_length
            || (voting_period_length == 0 && config.max_voting_period_length == 0) {
            Some(Error::VotingPeriodLengthTooBig)
        } else if grace_period_length > config.max_grace_period_length {
            Some(Error::GracePeriodLengthTooBig)
        } else if dilution_bound > config.max_dilution_bound {
            Some(Error::DilutionBoundTooBig)
        } else if proposal_deposit < processing_reward {
            Some(Error::NoEnoughProposalDeposit)
        } else {
            None
        }
    }

    /// Creates a guild whose only member is `who`, with one share, at time
    /// `now`. A guild is summoned once: this is its only constructor. Each
    /// setting must lie within its limit; a limit of zero on the voting
    /// period admits no voting period at all. Under a positive limit a voting
    /// period of length zero is accepted: voting on a proposal then closes in
    /// the period it opens, and the proposal goes straight into its grace
    /// period.
    pub fn summon(
        config: Config,
        who: AccountId,
        now: u64,
        period_duration: u32,
        voting_period_length: u128,
        grace_period_length: u128,
        dilution_bound: u128,
        proposal_deposit: u128,
        processing_reward: u128,
    ) -> (r: Result<Module, Error>)
        ensures
            match Self::summon_error(config, voting_period_length, grace_period_length, dilution_bound, proposal_deposit, processing_reward) {
                Some(e) => r == Err::<Module, Error>(e),
                None => r is Ok,
            },
            r matches Ok(g) ==> {
                &&& g.wf()
                &&& g.config == config
                &&& g.bank_account == bank_of(config.module_id@)
                &&& g.custody_account == custody_of(config.module_id@)
                &&& g.custody_account != g.bank_account
                &&& g.summon_time == now
                &&& g.period_duration == period_duration
                &&& g.voting_period_length == voting_period_length
                &&& g.grace_period_length == grace_period_length
                &&& g.dilution_bound == dilution_bound
                &&& g.proposal_deposit == proposal_deposit
                &&& g.processing_reward == processing_reward
                &&& g.total_shares == 1
                &&& g.total_loot == 0
                &&& g.member_records@ == seq![(who, Member {
                    shares: 1, loot: 0, highest_index_yes_vote: 0, exists: true, delegate_key: who, jailed_at: 0,
                })]
                &&& g.proposal_records@.len() == 0
                &&& g.proposal_queue@.len() == 0
                &&& g.proposed_to_kick@.len() == 0
                &&& g.votes@.len() == 0
                &&& g.events@ == seq![Event::SummonComplete(who, 1)]
            },
    {
        if voting_period_length > config.max_voting_period_length
            || (voting_period_length == 0 && config.max_voting_period_length == 0) {
            return Err(Error::VotingPeriodLengthTooBig);
        }
        if grace_period_length > config.max_grace_period_length {
            return Err(Error::GracePeriodLengthTooBig);
        }
        if dilution_bound > config.max_dilution_bound {
            return Err(Error::DilutionBoundTooBig);
        }
        if proposal_deposit < processing_reward {
            return Err(Error::NoEnoughProposalDeposit);
        }
        let founder = Member {
            shares: 1, loot: 0, highest_index_yes_vote: 0, exists: true, delegate_key: who, jailed_at: 0,
        };
        let bank_account = bank_account_of(config.module_id);
        let custody_account = custody_account_of(config.module_id);
        proof { lemma_custody_is_not_bank(config.module_id@); }
        let g = Module {
            config,
            bank_account,
            custody_account,
            summon_time: now,
            period_duration,
            voting_period_length,
            grace_period_length,
            dilution_bound,
            proposal_deposit,
            processing_reward,
            total_shares: 1,
            total_loot: 0,
            member_records: vec![(who, founder)],
            proposal_records: Vec::new(),
            proposal_queue: Vec::new(),
            proposed_to_kick: Vec::new(),
            votes: Vec::new(),
            events: vec![Event::SummonComplete(who, 1)],
        };
        proof {
            let r = g.member_records@;
            assert(r.drop_last().len() == 0);
            assert(total_of(r.drop_last(), false) == 0);
            assert(total_of(r.drop_last(), true) == 0);
            assert(total_of(r, false) == 1);
            assert(total_of(r, true) == 0);
        }
        Ok(g)
    }

    /// The organisation's settings, which never change after summoning.
    pub open spec fn settings_eq(&self, o: &Module) -> bool {
        &&& self.config == o.config
        &&& self.bank_account == o.bank_account
        &&& self.custody_account == o.custody_account
        &&& self.summon_time == o.summon_time
        &&& self.period_duration == o.period_duration
        &&& self.voting_period_length == o.voting_period_length
        &&& self.grace_period_length == o.grace_period_length
        &&& self.dilution_bound == o.dilution_bound
        &&& self.proposal_deposit == o.proposal_deposit
        &&& self.processing_reward == o.processing_reward
    }

    /// `o` keeps every account of `self` at its position and may add more.
    pub open spec fn accounts_kept(&self, o: &Module) -> bool {
        &&& self.member_records@.len() <= o.member_records@.len()
        &&& forall|i: int| 0 <= i < self.member_records@.len()
            ==> #[trigger] o.member_records@[i].0 == self.member_records@[i].0
    }
}

/// Members are never removed: whoever was a member stays one.
pub proof fn lemma_accounts_kept(a: &Module, b: &Module)
    requires
        a.accounts_kept(b),
    ensures
        forall|x: AccountId| a.is_member(x) ==> #[trigger] b.is_member(x),
{
    assert forall|x: AccountId| a.is_member(x) implies #[trigger] b.is_member(x) by {
        let i = a.member_index(x);
        assert(b.member_records@[i].0 == x);
    }
}

/// Where the records change only at index `i`, and keep its account, the
/// sums move by the difference of the holdings there.
pub proof fn lemma_record_update(a: &Module, b: &Module, i: int)
    requires
        0 <= i < a.member_records@.len(),
        b.member_records@ == a.member_records@.update(i, b.member_records@[i]),
    ensures
        total_of(b.member_records@, false) == total_of(a.member_records@, false)
            - holding(a.member_records@[i].1, false) + holding(b.member_records@[i].1, false),
        total_of(b.member_records@, true) == total_of(a.member_records@, true)
            - holding(a.member_records@[i].1, true) + holding(b.member_records@[i].1, true),
{
    lemma_total_update(a.member_records@, i, b.member_records@[i], false);
    lemma_total_update(a.member_records@, i, b.member_records@[i], true);
}

/// The member that votes through `d` is found at the delegate's position.
pub proof fn lemma_delegate_record(g: &Module, d: AccountId)
    requires
        g.registry_wf(),
        g.is_delegate(d),
    ensures
        g.is_member(g.address_of_delegate(d)),
        g.member_index(g.address_of_delegate(d)) == g.delegate_index(d),
        g.member(g.address_of_delegate(d)) == g.member_records@[g.delegate_index(d)].1,
{
    let i = g.delegate_index(d);
    let a = g.member_records@[i].0;
    assert(g.is_member(a));
}

} // verus!
