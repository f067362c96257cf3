use vstd::prelude::*;
use crate::guild::{Module, lemma_accounts_kept, lemma_delegate_record, lemma_record_update};
use crate::ledger::{lemma_holding_le_total, lemma_total_push};
use crate::types::{AccountId, Error, Event, Member, Proposal, Transfer};

verus! {

impl Module {
    /// The shares left now are too few against the largest supply seen at a
    /// yes vote: `total_shares * dilution_bound < max_total_shares_at_yes`.
    pub open spec fn dilution_exceeded(&self, p: Proposal) -> bool {
        self.total_shares * self.dilution_bound < p.max_total_shares_at_yes
    }

    /// More yes than no, the dilution bound kept, and the applicant free.
    pub open spec fn passes(&self, p: Proposal) -> bool {
        &&& p.yes_votes > p.no_votes
        &&& !self.dilution_exceeded(p)
        &&& self.member(p.applicant).jailed_at == 0
    }

    /// Whether the dilution bound is exceeded for `p`.
    pub fn is_dilution_exceeded(&self, p: &Proposal) -> (r: bool)
        ensures
            r == self.dilution_exceeded(*p),
    {
        match self.total_shares.checked_mul(self.dilution_bound) {
            Some(x) => x < p.max_total_shares_at_yes,
            None => false,
        }
    }

    /// Whether proposal `p` passes, on the votes it holds and the guild as it
    /// is. Where the dilution bound is exceeded, the warning is recorded.
    pub fn should_pass(&mut self, p: &Proposal) -> (r: bool)
        requires
            old(self).registry_wf(),
        ensures
            r == old(self).passes(*p),
            final(self).events@ == old(self).events@ + old(self).dilution_events(*p),
            *final(self) == (Module { events: final(self).events, ..*old(self) }),
    {
        let exceeded = self.is_dilution_exceeded(p);
        let mut pass = p.yes_votes > p.no_votes && !exceeded;
        if self.members(p.applicant).jailed_at != 0 {
            pass = false;
        }
        if exceeded {
            self.events.push(Event::DilutionBoundExceeds(self.total_shares, self.dilution_bound, p.max_total_shares_at_yes));
        }
        assert(self.events@ =~= old(self).events@ + old(self).dilution_events(*p));
        pass
    }

    /// The records after `a` was granted `shares` and `loot`: an existing
    /// member's holdings grow; otherwise a member whose delegate key is `a`
    /// takes its own account back as key, and `a` joins as its own delegate.
    pub open spec fn admitted(&self, a: AccountId, shares: u128, loot: u128) -> Seq<(AccountId, Member)> {
        let r = self.member_records@;
        if self.is_member(a) {
            let m = self.member(a);
            r.update(self.member_index(a), (a, Member {
                shares: (m.shares + shares) as u128, loot: (m.loot + loot) as u128, ..m
            }))
        } else {
            let base = if self.is_delegate(a) {
                let k = self.delegate_index(a);
                r.update(k, (r[k].0, Member { delegate_key: r[k].0, ..r[k].1 }))
            } else {
                r
            };
            base.push((a, Member {
                shares, loot, highest_index_yes_vote: 0, exists: true, delegate_key: a, jailed_at: 0,
            }))
        }
    }

    /// Grants `shares` and `loot` to `a`, creating the member if needed, and
    /// mints them.
    fn grant(&mut self, a: AccountId, shares: u128, loot: u128)
        requires
            old(self).wf(),
            old(self).member(a).jailed_at == 0,
            old(self).total_shares + shares + old(self).total_loot + loot <= u128::MAX,
        ensures
            final(self).registry_wf(),
            final(self).ledger_wf(),
            old(self).accounts_kept(final(self)),
            final(self).member_records@ == old(self).admitted(a, shares, loot),
            final(self).total_shares == old(self).total_shares + shares,
            final(self).total_loot == old(self).total_loot + loot,
            final(self).settings_eq(old(self)),
            final(self).proposal_records@ == old(self).proposal_records@,
            final(self).proposal_queue@ == old(self).proposal_queue@,
            final(self).proposed_to_kick@ == old(self).proposed_to_kick@,
            final(self).votes@ == old(self).votes@,
            final(self).events@ == old(self).events@,
    {
        let ghost before = *self;
        match self.find_member(a) {
            Some(i) => {
                let m = self.member_records[i].1;
                proof {
                    lemma_holding_le_total(self.member_records@, i as int, false);
                    lemma_holding_le_total(self.member_records@, i as int, true);
                }
                self.member_records.set(i, (a, Member { shares: m.shares + shares, loot: m.loot + loot, ..m }));
                proof {
                    lemma_record_update(&before, self, i as int);
                    let r = self.member_records@;
                    let o = before.member_records@;
                    assert(forall|k: int| 0 <= k < r.len() && k != i ==> r[k] == o[k]);
                }
            },
            None => {
                match self.find_delegate(a) {
                    Some(k) => {
                        proof { lemma_delegate_record(self, a); }
                        let owner = self.member_records[k].0;
                        let m = self.member_records[k].1;
                        self.member_records.set(k, (owner, Member { delegate_key: owner, ..m }));
                        proof {
                            lemma_record_update(&before, self, k as int);
                            let r = self.member_records@;
                            let o = before.member_records@;
                            assert(forall|x: int| 0 <= x < r.len() && x != k ==> r[x] == o[x]);
                            assert forall|x: int, y: int| 0 <= x < r.len() && 0 <= y < r.len() && x != y
                                implies #[trigger] r[x].1.delegate_key != #[trigger] r[y].1.delegate_key by {
                                if x == k {
                                    assert(o[y].1.delegate_key != o[k as int].0);
                                }
                                if y == k {
                                    assert(o[x].1.delegate_key != o[k as int].0);
                                }
                            }
                        }
                    },
                    None => {},
                }
                let ghost mid = *self;
                self.member_records.push((a, Member {
                    shares, loot, highest_index_yes_vote: 0, exists: true, delegate_key: a, jailed_at: 0,
                }));
                proof {
                    let r = self.member_records@;
                    let o = mid.member_records@;
                    lemma_total_push(o, r.last(), false);
                    lemma_total_push(o, r.last(), true);
                    assert(r.drop_last() == o);
                    assert(forall|x: int| 0 <= x < o.len() ==> r[x] == o[x]);
                    assert(forall|x: int| 0 <= x < o.len() ==> o[x].0 == before.member_records@[x].0);
                    assert forall|x: int| 0 <= x < o.len() implies o[x].0 != a by {
                        if o[x].0 == a {
                            assert(before.is_member(a));
                        }
                    }
                    assert forall|x: int| 0 <= x < o.len() implies o[x].1.delegate_key != a by {
                        if o[x].1.delegate_key == a {
                            assert(before.is_delegate(a));
                            let k = before.delegate_index(a);
                            if x != k {
                                assert(before.member_records@[x].1.delegate_key == a);
                            }
                        }
                    }
                }
            },
        }
        self.total_shares = self.total_shares + shares;
        self.total_loot = self.total_loot + loot;
    }

    /// The refusal a processing call gives on the proposal at `queue_index`,
    /// if any; `kick` tells which of the two kinds the call processes.
    pub open spec fn processing_error(&self, queue_index: u128, now: u64, kick: bool) -> Option<Error> {
        let p = self.queued(queue_index as int);
        if queue_index >= self.queue_len() {
            Some(Error::ProposalNotExist)
        } else if kick && !p.guild_kick {
            Some(Error::NotKickProposal)
        } else if !kick && (p.whitelist || p.guild_kick) {
            Some(Error::NotStandardProposal)
        } else if self.current_period(now) < p.starting_period + self.voting_period_length + self.grace_period_length {
            Some(Error::ProposalNotReady)
        } else if p.processed {
            Some(Error::ProposalHasProcessed)
        } else if queue_index > 0 && !self.queued(queue_index - 1).processed {
            Some(Error::PreviousProposalNotProcessed)
        } else {
            None
        }
    }

    /// The refusal `process_proposal` gives, if any.
    pub open spec fn process_error(&self, queue_index: u128, now: u64) -> Option<Error> {
        let p = self.queued(queue_index as int);
        match self.processing_error(queue_index, now, false) {
            Some(e) => Some(e),
            None => if self.total_shares + p.shares_requested + p.loot_requested + self.total_loot > self.config.max_shares {
                Some(Error::SharesOverFlow)
            } else {
                None
            },
        }
    }

    /// The reward to the processor `who`, then the rest of the deposit back to `proposer`.
    pub open spec fn settlement(&self, who: AccountId, proposer: AccountId) -> Seq<Transfer> {
        seq![
            Transfer { from: self.bank_account, to: who, amount: self.processing_reward, keep_alive: true },
            Transfer {
                from: self.bank_account,
                to: proposer,
                amount: (self.proposal_deposit - self.processing_reward) as u128,
                keep_alive: true,
            },
        ]
    }

    /// The dilution warning for `p`, where the bound is exceeded.
    pub open spec fn dilution_events(&self, p: Proposal) -> Seq<Event> {
        if self.dilution_exceeded(p) {
            seq![Event::DilutionBoundExceeds(self.total_shares, self.dilution_bound, p.max_total_shares_at_yes)]
        } else {
            seq![]
        }
    }

    /// Checks that the proposal at `queue_index` can be processed now, and
    /// gives its id.
    fn ready_to_process(&self, queue_index: u128, now: u64, kick: bool) -> (r: Result<usize, Error>)
        requires
            self.wf(),
        ensures
            match self.processing_error(queue_index, now, kick) {
                Some(e) => r == Err::<usize, Error>(e),
                None => r matches Ok(id) && id as int == self.proposal_queue@[queue_index as int] as int
                    && id < self.proposal_records@.len(),
            },
    {
        if queue_index >= self.proposal_queue.len() as u128 {
            return Err(Error::ProposalNotExist);
        }
        let qi = queue_index as usize;
        let qid = self.proposal_queue[qi];
        let n_proposals = self.proposal_records.len();
        assert(qid < n_proposals);
        let id = qid as usize;
        let p = &self.proposal_records[id];
        if kick && !p.guild_kick {
            return Err(Error::NotKickProposal);
        }
        if !kick && (p.whitelist || p.guild_kick) {
            return Err(Error::NotStandardProposal);
        }
        let cur = self.get_current_period(now);
        match p.starting_period.checked_add(self.voting_period_length) {
            Some(x) => match x.checked_add(self.grace_period_length) {
                Some(end) => {
                    if cur < end {
                        return Err(Error::ProposalNotReady);
                    }
                },
                None => return Err(Error::ProposalNotReady),
            },
            None => return Err(Error::ProposalNotReady),
        }
        if p.processed {
            return Err(Error::ProposalHasProcessed);
        }
        if qi > 0 {
            let prev = self.proposal_queue[qi - 1];
            assert(prev < n_proposals);
            if !self.proposal_records[prev as usize].processed {
                return Err(Error::PreviousProposalNotProcessed);
            }
        }
        Ok(id)
    }

    /// Whether proposal `p` passes when processed against a bank holding `bank_balance`.
    pub open spec fn passes_with(&self, p: Proposal, bank_balance: u128) -> bool {
        self.passes(p) && p.payment_requested <= bank_balance
    }

    /// What a successful `process_proposal` leaves: the proposal is processed
    /// and marked with its outcome, a passing one's grant is made, and `t`
    /// moves the tribute, the reward and the refund.
    pub open spec fn process_post(&self, new: &Module, who: AccountId, queue_index: u128, bank_balance: u128, t: Seq<Transfer>) -> bool {
        let id = self.proposal_queue@[queue_index as int] as int;
        let p = self.proposal_records@[id];
        let pass = self.passes_with(p, bank_balance);
        let tribute = if pass {
            Transfer { from: self.custody_account, to: self.bank_account, amount: p.tribute_offered, keep_alive: false }
        } else {
            Transfer { from: self.custody_account, to: p.applicant, amount: p.tribute_offered, keep_alive: false }
        };
        &&& t == seq![tribute] + self.settlement(who, p.proposer)
        &&& new.proposal_records@ == self.proposal_records@.update(id, Proposal { processed: true, passed: pass, ..p })
        &&& new.member_records@ == if pass {
            self.admitted(p.applicant, p.shares_requested, p.loot_requested)
        } else {
            self.member_records@
        }
        &&& new.total_shares == self.total_shares + if pass { p.shares_requested } else { 0 }
        &&& new.total_loot == self.total_loot + if pass { p.loot_requested } else { 0 }
        &&& new.events@ == self.events@ + self.dilution_events(p) + seq![Event::ProcessProposal(
            queue_index, p.applicant, p.proposer, p.tribute_offered, p.shares_requested, pass)]
        &&& new.settings_eq(self)
        &&& new.proposal_queue@ == self.proposal_queue@
        &&& new.proposed_to_kick@ == self.proposed_to_kick@
        &&& new.votes@ == self.votes@
    }

    /// Processes the membership or payment proposal at `queue_index` once its
    /// voting and grace periods are over and every earlier queued proposal is
    /// processed. `bank_balance` is the guild bank's free balance: a payment
    /// above it fails the proposal. A passing proposal grants its shares and
    /// loot and moves the tribute to the bank; a failing one returns the
    /// tribute to the applicant.
    pub fn process_proposal(&mut self, who: AccountId, queue_index: u128, now: u64, bank_balance: u128) -> (r: Result<Vec<Transfer>, Error>)
        requires
            old(self).wf(),
        ensures
            final(self).wf(),
            match old(self).process_error(queue_index, now) {
                Some(e) => r == Err::<Vec<Transfer>, Error>(e) && *final(self) == *old(self),
                None => r matches Ok(t) && old(self).process_post(final(self), who, queue_index, bank_balance, t@),
            },
    {
        let id = match self.ready_to_process(queue_index, now, false) {
            Ok(id) => id,
            Err(e) => return Err(e),
        };
        let shares = self.proposal_records[id].shares_requested;
        let loot = self.proposal_records[id].loot_requested;
        match self.total_shares.checked_add(shares) {
            Some(x) => match x.checked_add(loot) {
                Some(y) => match y.checked_add(self.total_loot) {
                    Some(z) => {
                        if z > self.config.max_shares {
                            return Err(Error::SharesOverFlow);
                        }
                    },
                    None => return Err(Error::SharesOverFlow),
                },
                None => return Err(Error::SharesOverFlow),
            },
            None => return Err(Error::SharesOverFlow),
        }
        let ghost before = *self;
        let judged = self.proposal_records[id].duplicate();
        let mut pass = self.should_pass(&judged);
        proof {
            assert(before.accounts_kept(self));
            lemma_accounts_kept(&before, self);
        }
        if self.proposal_records[id].payment_requested > bank_balance {
            pass = false;
        }
        let applicant = self.proposal_records[id].applicant;
        let proposer = self.proposal_records[id].proposer;
        let tribute = self.proposal_records[id].tribute_offered;
        let ghost mid = *self;
        if pass {
            self.grant(applicant, shares, loot);
        }
        let ghost granted = *self;
        self.proposal_records[id].processed = true;
        self.proposal_records[id].passed = pass;
        self.events.push(Event::ProcessProposal(queue_index, applicant, proposer, tribute, shares, pass));
        proof {
            assert(before.accounts_kept(&granted));
            lemma_accounts_kept(&before, &granted);
            assert(self.proposal_records@ =~= granted.proposal_records@.update(id as int,
                Proposal { processed: true, ..self.proposal_records@[id as int] }));
            lemma_processed_in_order(&granted, self, queue_index as int);
            assert(before.accounts_kept(self));
            lemma_accounts_kept(&before, self);
            assert(self.events@ == before.events@ + before.dilution_events(before.proposal_records@[id as int]) + seq![Event::ProcessProposal(
                queue_index, applicant, proposer, tribute, shares, pass)]);
        }
        let custody = self.custody_account;
        let bank = self.bank_account;
        let first = if pass {
            Transfer { from: custody, to: bank, amount: tribute, keep_alive: false }
        } else {
            Transfer { from: custody, to: applicant, amount: tribute, keep_alive: false }
        };
        let mut out = vec![first];
        let mut rest = self.settle(who, proposer);
        let ghost tail = rest@;
        out.append(&mut rest);
        assert(out@ =~= seq![first] + tail);
        Ok(out)
    }

    /// The processing reward to `who` and the rest of the deposit to `proposer`.
    fn settle(&self, who: AccountId, proposer: AccountId) -> (r: Vec<Transfer>)
        requires
            self.proposal_deposit >= self.processing_reward,
        ensures
            r@ == self.settlement(who, proposer),
    {
        let bank = self.bank_account;
        let refund = self.proposal_deposit - self.processing_reward;
        let v = vec![
            Transfer { from: bank, to: who, amount: self.processing_reward, keep_alive: true },
            Transfer { from: bank, to: proposer, amount: refund, keep_alive: true },
        ];
        assert(v@ =~= self.settlement(who, proposer));
        v
    }

    /// `m` after a kick passed at queue index `q`: jailed, its shares turned to loot.
    pub open spec fn jailed(m: Member, q: u128) -> Member {
        Member { jailed_at: q, loot: (m.loot + m.shares) as u128, shares: 0, ..m }
    }

    /// Processes the kick proposal at `queue_index` under the same timing and
    /// ordering rules as `process_proposal`. A passing kick jails its target
    /// and turns its shares into loot. Either way the target may be proposed
    /// for a kick again.
    pub fn process_guild_kick_proposal(&mut self, who: AccountId, queue_index: u128, now: u64) -> (r: Result<Vec<Transfer>, Error>)
        requires
            old(self).wf(),
        ensures
            final(self).wf(),
            match old(self).processing_error(queue_index, now, true) {
                Some(e) => r == Err::<Vec<Transfer>, Error>(e) && *final(self) == *old(self),
                None => {
                    let id = old(self).proposal_queue@[queue_index as int] as int;
                    let p = old(self).proposal_records@[id];
                    let pass = old(self).passes(p);
                    let m = old(self).member(p.applicant);
                    &&& r matches Ok(t) && t@ == old(self).settlement(who, p.proposer)
                    &&& final(self).proposal_records@ == old(self).proposal_records@.update(id, Proposal { processed: true, passed: pass, ..p })
                    &&& final(self).member_records@ == if pass {
                        old(self).member_records@.update(old(self).member_index(p.applicant), (p.applicant, Self::jailed(m, queue_index)))
                    } else {
                        old(self).member_records@
                    }
                    &&& final(self).total_shares == old(self).total_shares - if pass { m.shares } else { 0 }
                    &&& final(self).total_loot == old(self).total_loot + if pass { m.shares } else { 0 }
                    &&& forall|x: AccountId| final(self).kick_pending(x) <==> old(self).kick_pending(x) && x != p.applicant
                    &&& final(self).events@ == old(self).events@ + old(self).dilution_events(p)
                    &&& final(self).settings_eq(old(self))
                    &&& final(self).proposal_queue@ == old(self).proposal_queue@
                    &&& final(self).votes@ == old(self).votes@
                },
            },
    {
        let id = match self.ready_to_process(queue_index, now, true) {
            Ok(id) => id,
            Err(e) => return Err(e),
        };
        let ghost before = *self;
        let judged = self.proposal_records[id].duplicate();
        let pass = self.should_pass(&judged);
        let target = self.proposal_records[id].applicant;
        let proposer = self.proposal_records[id].proposer;
        if pass {
            match self.find_member(target) {
                Some(i) => {
                    let m = self.member_records[i].1;
                    proof {
                        lemma_holding_le_total(self.member_records@, i as int, false);
                        lemma_holding_le_total(self.member_records@, i as int, true);
                    }
                    let ghost pre = *self;
                    self.member_records.set(i, (target, Member { jailed_at: queue_index, loot: m.loot + m.shares, shares: 0, ..m }));
                    self.total_shares = self.total_shares - m.shares;
                    self.total_loot = self.total_loot + m.shares;
                    proof {
                        lemma_record_update(&pre, self, i as int);
                        let r = self.member_records@;
                        let o = pre.member_records@;
                        assert(forall|k: int| 0 <= k < r.len() && k != i ==> r[k] == o[k]);
                    }
                },
                None => {},
            }
        }
        let ghost granted = *self;
        self.proposal_records[id].processed = true;
        self.proposal_records[id].passed = pass;
        self.proposed_to_kick = without(&self.proposed_to_kick, target);
        proof {
            assert(before.accounts_kept(&granted));
            lemma_accounts_kept(&before, &granted);
            assert(self.proposal_records@ =~= granted.proposal_records@.update(id as int,
                Proposal { processed: true, ..self.proposal_records@[id as int] }));
            lemma_processed_in_order(&granted, self, queue_index as int);
        }
        Ok(self.settle(who, proposer))
    }
}

/// `v` without any occurrence of `a`.
fn without(v: &Vec<AccountId>, a: AccountId) -> (r: Vec<AccountId>)
    ensures
        forall|x: AccountId| r@.contains(x) <==> v@.contains(x) && x != a,
{
    let mut r: Vec<AccountId> = Vec::new();
    let mut i: usize = 0;
    while i < v.len()
        invariant
            i <= v@.len(),
            forall|x: AccountId| r@.contains(x) <==> v@.subrange(0, i as int).contains(x) && x != a,
        decreases v@.len() - i,
    {
        let ghost prev = r@;
        if v[i] != a {
            r.push(v[i]);
        }
        proof {
            let s0 = v@.subrange(0, i as int);
            let s1 = v@.subrange(0, i as int + 1);
            assert(s1 == s0.push(v@[i as int]));
            assert forall|x: AccountId| r@.contains(x) <==> s1.contains(x) && x != a by {
                lemma_push_contains(s0, v@[i as int], x);
                lemma_push_contains(prev, v@[i as int], x);
            }
        }
        i = i + 1;
    }
    assert(v@.subrange(0, v@.len() as int) == v@);
    r
}

/// An element of `s.push(y)` is `y` or an element of `s`.
proof fn lemma_push_contains(s: Seq<AccountId>, y: AccountId, x: AccountId)
    ensures
        s.push(y).contains(x) <==> s.contains(x) || x == y,
{
    if s.contains(x) {
        let k = choose|k: int| 0 <= k < s.len() && s[k] == x;
        assert(s.push(y)[k] == x);
    }
    if x == y {
        assert(s.push(y)[s.len() as int] == x);
    }
    if s.push(y).contains(x) && x != y {
        let k = choose|k: int| 0 <= k < s.len() + 1 && s.push(y)[k] == x;
        assert(s[k] == x);
    }
}

/// Marking the proposal at `q` processed, when every earlier one already is,
/// keeps the processed proposals a prefix of the queue.
proof fn lemma_processed_in_order(a: &Module, b: &Module, q: int)
    requires
        a.queue_wf(),
        0 <= q < a.queue_len(),
        q > 0 ==> a.queued(q - 1).processed,
        b.proposal_queue@ == a.proposal_queue@,
        b.member_records@ == a.member_records@,
        b.proposal_records@ == a.proposal_records@.update(a.proposal_queue@[q] as int,
            Proposal { processed: true, ..b.proposal_records@[a.proposal_queue@[q] as int] }),
        b.proposal_records@[a.proposal_queue@[q] as int].sponsored,
        b.proposal_records@[a.proposal_queue@[q] as int].guild_kick == a.queued(q).guild_kick,
        b.proposal_records@[a.proposal_queue@[q] as int].applicant == a.queued(q).applicant,
    ensures
        b.queue_wf(),
{
    let qs = a.proposal_queue@;
    let pa = a.proposal_records@;
    let pb = b.proposal_records@;
    let id = qs[q] as int;
    assert(forall|k: int| 0 <= k < pa.len() && k != id ==> pb[k] == pa[k]);
    assert(a.accounts_kept(b));
    lemma_accounts_kept(a, b);
    assert forall|x: int, y: int| 0 <= x < y < qs.len() && (#[trigger] pb[qs[y] as int]).processed
        implies (#[trigger] pb[qs[x] as int]).processed by {
        if qs[x] as int != id {
            if qs[y] as int == id {
                assert(y == q);
                if x < q - 1 {
                    assert(pa[qs[q - 1] as int].processed);
                }
            } else {
                assert(pa[qs[y] as int].processed);
            }
        }
    }
}

} // verus!
