use vstd::prelude::*;
use crate::guild::{Module, lemma_accounts_kept, lemma_record_update};
use crate::types::{AccountId, Error, Event, Member};

verus! {

impl Module {
    /// The refusal `update_delegate` gives, if any.
    pub open spec fn update_delegate_error(&self, who: AccountId, new_delegate: AccountId) -> Option<Error> {
        if !self.is_member(who) {
            Some(Error::NotMember)
        } else if new_delegate != who && self.is_member(new_delegate) {
            Some(Error::NoOverwriteMember)
        } else if new_delegate != who && self.is_delegate(new_delegate)
            && self.address_of_delegate(new_delegate) != who {
            Some(Error::NoOverwriteDelegate)
        } else {
            None
        }
    }

    /// Lets `new_delegate` vote on behalf of the member `who`. The key may not
    /// be another member's account, nor the delegate key of another member.
    pub fn update_delegate(&mut self, who: AccountId, new_delegate: AccountId) -> (r: Result<(), Error>)
        requires
            old(self).wf(),
        ensures
            final(self).wf(),
            match old(self).update_delegate_error(who, new_delegate) {
                Some(e) => r == Err::<(), Error>(e) && *final(self) == *old(self),
                None => {
                    &&& r is Ok
                    &&& final(self).member_records@ == old(self).member_records@.update(
                        old(self).member_index(who),
                        (who, Member { delegate_key: new_delegate, ..old(self).member(who) }),
                    )
                    &&& final(self).events@ == old(self).events@.push(Event::UpdateDelegateKey(who, new_delegate))
                    &&& final(self).settings_eq(old(self))
                    &&& final(self).total_shares == old(self).total_shares
                    &&& final(self).total_loot == old(self).total_loot
                    &&& final(self).proposal_records@ == old(self).proposal_records@
                    &&& final(self).proposal_queue@ == old(self).proposal_queue@
                    &&& final(self).proposed_to_kick@ == old(self).proposed_to_kick@
                    &&& final(self).votes@ == old(self).votes@
                },
            },
    {
        let i = match self.find_member(who) {
            Some(i) => i,
            None => return Err(Error::NotMember),
        };
        if new_delegate != who {
            if self.find_member(new_delegate).is_some() {
                return Err(Error::NoOverwriteMember);
            }
            match self.find_delegate(new_delegate) {
                Some(j) => {
                    if self.member_records[j].0 != who {
                        return Err(Error::NoOverwriteDelegate);
                    }
                },
                None => {},
            }
        }
        let ghost before = *self;
        let m = self.member_records[i].1;
        self.member_records.set(i, (who, Member { delegate_key: new_delegate, ..m }));
        self.events.push(Event::UpdateDelegateKey(who, new_delegate));
        proof {
            let a = before.member_records@;
            let b = self.member_records@;
            assert(b == a.update(i as int, b[i as int]));
            lemma_record_update(&before, self, i as int);
            assert(before.accounts_kept(self));
            lemma_accounts_kept(&before, self);
            assert forall|x: int, y: int| 0 <= x < b.len() && 0 <= y < b.len() && x != y
                implies #[trigger] b[x].1.delegate_key != #[trigger] b[y].1.delegate_key by {
                if x == i && new_delegate != who && before.is_delegate(new_delegate) {
                    assert(a[before.delegate_index(new_delegate)].1.delegate_key == new_delegate);
                }
                if y == i && new_delegate != who && before.is_delegate(new_delegate) {
                    assert(a[before.delegate_index(new_delegate)].1.delegate_key == new_delegate);
                }
            }
            assert forall|x: int, y: int| 0 <= x < b.len() && 0 <= y < b.len() && x != y
                implies #[trigger] b[x].1.delegate_key != #[trigger] b[y].0 by {
                if x == i && new_delegate != who && b[y].0 == new_delegate {
                    assert(before.is_member(new_delegate));
                }
            }
        }
        Ok(())
    }
}

} // verus!
