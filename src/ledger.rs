use vstd::prelude::*;
use crate::types::{AccountId, Member};

verus! {

/// The shares (`loot == false`) or the loot (`loot == true`) of a member.
pub open spec fn holding(m: Member, loot: bool) -> int {
    if loot { m.loot as int } else { m.shares as int }
}

/// The shares or the loot of all the members in `s`, summed.
pub open spec fn total_of(s: Seq<(AccountId, Member)>, loot: bool) -> int
    decreases s.len(),
{
    if s.len() == 0 {
        0
    } else {
        total_of(s.drop_last(), loot) + holding(s.last().1, loot)
    }
}

/// Adding a member adds its holding to the total.
pub proof fn lemma_total_push(s: Seq<(AccountId, Member)>, x: (AccountId, Member), loot: bool)
    ensures
        total_of(s.push(x), loot) == total_of(s, loot) + holding(x.1, loot),
{
    assert(s.push(x).drop_last() == s);
}

/// Replacing one member's record changes the total by the difference of the two holdings.
pub proof fn lemma_total_update(s: Seq<(AccountId, Member)>, i: int, x: (AccountId, Member), loot: bool)
    requires
        0 <= i < s.len(),
    ensures
        total_of(s.update(i, x), loot) == total_of(s, loot) - holding(s[i].1, loot) + holding(x.1, loot),
    decreases s.len(),
{
    if i == s.len() - 1 {
        assert(s.update(i, x).drop_last() == s.drop_last());
    } else {
        lemma_total_update(s.drop_last(), i, x, loot);
        assert(s.update(i, x).drop_last() == s.drop_last().update(i, x));
    }
}

/// No member holds more than the total.
pub proof fn lemma_holding_le_total(s: Seq<(AccountId, Member)>, i: int, loot: bool)
    requires
        0 <= i < s.len(),
    ensures
        0 <= holding(s[i].1, loot) <= total_of(s, loot),
    decreases s.len(),
{
    lemma_total_nonneg(s.drop_last(), loot);
    if i < s.len() - 1 {
        lemma_holding_le_total(s.drop_last(), i, loot);
    }
}

/// A total is never negative.
pub proof fn lemma_total_nonneg(s: Seq<(AccountId, Member)>, loot: bool)
    ensures
        total_of(s, loot) >= 0,
    decreases s.len(),
{
    if s.len() > 0 {
        lemma_total_nonneg(s.drop_last(), loot);
    }
}

} // verus!
