use vstd::prelude::*;
use crate::guild::{Module, lemma_accounts_kept, lemma_record_update};
use crate::ledger::lemma_holding_le_total;
use crate::types::{AccountId, Error, Event, Member, Transfer};

verus! {

/// The part of `bank_balance` that `burned` units of a supply of `supply`
/// units claim, rounded down; nothing where the supply is empty.
pub open spec fn payout(bank_balance: u128, burned: int, supply: int) -> int {
    if supply == 0 { 0 } else { bank_balance * burned / supply }
}

impl Module {
    /// The refusal `member_quit` gives, if any.
    pub open spec fn quit_error(&self, who: AccountId, shares_to_burn: u128, loot_to_burn: u128, bank_balance: u128) -> Option<Error> {
        let m = self.member(who);
        if !self.is_member(who) {
            Some(Error::NotMember)
        } else if m.shares < shares_to_burn {
            Some(Error::NoEnoughShares)
        } else if m.loot < loot_to_burn {
            Some(Error::NoEnoughLoot)
        } else if m.highest_index_yes_vote >= self.queue_len() {
            Some(Error::ProposalNotExist)
        } else if !self.queued(m.highest_index_yes_vote as int).processed {
            Some(Error::ProposalNotProcessed)
        } else if bank_balance * (shares_to_burn + loot_to_burn) > u128::MAX {
            Some(Error::StorageOverflow)
        } else {
            None
        }
    }

    /// The member `who` burns `shares_to_burn` shares and `loot_to_burn` loot
    /// and receives the same fraction of the bank's free balance
    /// `bank_balance`, measured against the supply before the burn. The
    /// proposal at the queue index of the member's highest yes vote must be
    /// processed. A member who never voted yes is held to queue index zero:
    /// it may leave once the first queued proposal is processed, and is
    /// refused with `ProposalNotExist` while the queue is empty. Where
    /// `bank_balance * (shares_to_burn + loot_to_burn)` does not fit in a
    /// `u128`, the call is refused with `StorageOverflow`.
    pub fn member_quit(&mut self, who: AccountId, shares_to_burn: u128, loot_to_burn: u128, bank_balance: u128) -> (r: Result<Vec<Transfer>, Error>)
        requires
            old(self).wf(),
        ensures
            final(self).wf(),
            match old(self).quit_error(who, shares_to_burn, loot_to_burn, bank_balance) {
                Some(e) => r == Err::<Vec<Transfer>, Error>(e) && *final(self) == *old(self),
                None => {
                    let m = old(self).member(who);
                    let supply = old(self).total_shares + old(self).total_loot;
                    &&& r matches Ok(t) && t@ == seq![Transfer {
                        from: old(self).bank_account,
                        to: who,
                        amount: payout(bank_balance, shares_to_burn + loot_to_burn, supply) as u128,
                        keep_alive: true,
                    }]
                    &&& final(self).member_records@ == old(self).member_records@.update(old(self).member_index(who),
                        (who, Member { shares: (m.shares - shares_to_burn) as u128, loot: (m.loot - loot_to_burn) as u128, ..m }))
                    &&& final(self).total_shares == old(self).total_shares - shares_to_burn
                    &&& final(self).total_loot == old(self).total_loot - loot_to_burn
                    &&& final(self).events@ == old(self).events@.push(Event::Ragequit(who, shares_to_burn))
                    &&& final(self).settings_eq(old(self))
                    &&& final(self).proposal_records@ == old(self).proposal_records@
                    &&& final(self).proposal_queue@ == old(self).proposal_queue@
                    &&& final(self).proposed_to_kick@ == old(self).proposed_to_kick@
                    &&& final(self).votes@ == old(self).votes@
                },
            },
    {
        let i = match self.find_member(who) {
            Some(i) => i,
            None => return Err(Error::NotMember),
        };
        let m = self.member_records[i].1;
        if m.shares < shares_to_burn {
            return Err(Error::NoEnoughShares);
        }
        if m.loot < loot_to_burn {
            return Err(Error::NoEnoughLoot);
        }
        let last_yes = m.highest_index_yes_vote;
        if last_yes >= self.proposal_queue.len() as u128 {
            return Err(Error::ProposalNotExist);
        }
        let qid = self.proposal_queue[last_yes as usize];
        let n_proposals = self.proposal_records.len();
        assert(qid < n_proposals);
        if !self.proposal_records[qid as usize].processed {
            return Err(Error::ProposalNotProcessed);
        }
        proof {
            lemma_holding_le_total(self.member_records@, i as int, false);
            lemma_holding_le_total(self.member_records@, i as int, true);
        }
        let burned = shares_to_burn + loot_to_burn;
        let supply = self.total_shares + self.total_loot;
        let scaled = match bank_balance.checked_mul(burned) {
            Some(x) => x,
            None => return Err(Error::StorageOverflow),
        };
        let amount = if supply == 0 { 0 } else { scaled / supply };
        let ghost before = *self;
        self.member_records.set(i, (who, Member { shares: m.shares - shares_to_burn, loot: m.loot - loot_to_burn, ..m }));
        self.total_shares = self.total_shares - shares_to_burn;
        self.total_loot = self.total_loot - loot_to_burn;
        self.events.push(Event::Ragequit(who, shares_to_burn));
        proof {
            lemma_record_update(&before, self, i as int);
            let r = self.member_records@;
            let o = before.member_records@;
            assert(forall|k: int| 0 <= k < r.len() && k != i ==> r[k] == o[k]);
            assert(before.accounts_kept(self));
            lemma_accounts_kept(&before, self);
        }
        let bank = self.bank_account;
        Ok(vec![Transfer { from: bank, to: who, amount, keep_alive: true }])
    }

    /// The member `who` leaves with part of the bank; see `member_quit`.
    pub fn rage_quit(&mut self, who: AccountId, shares_to_burn: u128, loot_to_burn: u128, bank_balance: u128) -> (r: Result<Vec<Transfer>, Error>)
        requires
            old(self).wf(),
        ensures
            final(self).wf(),
            match old(self).quit_error(who, shares_to_burn, loot_to_burn, bank_balance) {
                Some(e) => r == Err::<Vec<Transfer>, Error>(e) && *final(self) == *old(self),
                None => {
                    let m = old(self).member(who);
                    let supply = old(self).total_shares + old(self).total_loot;
                    &&& r matches Ok(t) && t@ == seq![Transfer {
                        from: old(self).bank_account,
                        to: who,
                        amount: payout(bank_balance, shares_to_burn + loot_to_burn, supply) as u128,
                        keep_alive: true,
                    }]
                    &&& final(self).member_records@ == old(self).member_records@.update(old(self).member_index(who),
                        (who, Member { shares: (m.shares - shares_to_burn) as u128, loot: (m.loot - loot_to_burn) as u128, ..m }))
                    &&& final(self).total_shares == old(self).total_shares - shares_to_burn
                    &&& final(self).total_loot == old(self).total_loot - loot_to_burn
                    &&& final(self).events@ == old(self).events@.push(Event::Ragequit(who, shares_to_burn))
                    &&& final(self).settings_eq(old(self))
                    &&& final(self).proposal_records@ == old(self).proposal_records@
                    &&& final(self).proposal_queue@ == old(self).proposal_queue@
                    &&& final(self).proposed_to_kick@ == old(self).proposed_to_kick@
                    &&& final(self).votes@ == old(self).votes@
                },
            },
    {
        self.member_quit(who, shares_to_burn, loot_to_burn, bank_balance)
    }

    /// The refusal `rage_kick` gives, if any.
    pub open spec fn rage_kick_error(&self, member_to_kick: AccountId, bank_balance: u128) -> Option<Error> {
        let m = self.member(member_to_kick);
        if m.jailed_at == 0 {
            Some(Error::MemberNotInJail)
        } else if m.loot == 0 {
            Some(Error::NoEnoughLoot)
        } else {
            self.quit_error(member_to_kick, 0, m.loot, bank_balance)
        }
    }

    /// Anyone may make a jailed member with loot leave: all of its loot is
    /// burned and paid out as in `member_quit`.
    pub fn rage_kick(&mut self, member_to_kick: AccountId, bank_balance: u128) -> (r: Result<Vec<Transfer>, Error>)
        requires
            old(self).wf(),
        ensures
            final(self).wf(),
            match old(self).rage_kick_error(member_to_kick, bank_balance) {
                Some(e) => r == Err::<Vec<Transfer>, Error>(e) && *final(self) == *old(self),
                None => {
                    let m = old(self).member(member_to_kick);
                    let supply = old(self).total_shares + old(self).total_loot;
                    &&& r matches Ok(t) && t@ == seq![Transfer {
                        from: old(self).bank_account,
                        to: member_to_kick,
                        amount: payout(bank_balance, m.loot as int, supply) as u128,
                        keep_alive: true,
                    }]
                    &&& final(self).member_records@ == old(self).member_records@.update(old(self).member_index(member_to_kick),
                        (member_to_kick, Member { loot: 0, ..m }))
                    &&& final(self).total_shares == old(self).total_shares
                    &&& final(self).total_loot == old(self).total_loot - m.loot
                    &&& final(self).events@ == old(self).events@.push(Event::Ragequit(member_to_kick, 0))
                    &&& final(self).settings_eq(old(self))
                    &&& final(self).proposal_records@ == old(self).proposal_records@
                    &&& final(self).proposal_queue@ == old(self).proposal_queue@
                    &&& final(self).proposed_to_kick@ == old(self).proposed_to_kick@
                    &&& final(self).votes@ == old(self).votes@
                },
            },
    {
        let m = self.members(member_to_kick);
        if m.jailed_at == 0 {
            return Err(Error::MemberNotInJail);
        }
        if m.loot == 0 {
            return Err(Error::NoEnoughLoot);
        }
        self.member_quit(member_to_kick, 0, m.loot, bank_balance)
    }
}

} // verus!
