use vstd::prelude::*;
use crate::exit::payout;
use crate::guild::{Module, lemma_delegate_record};
use crate::ledger::total_of;
use crate::types::{AccountId, Config, Error, Transfer};

verus! {

/// What the transfers `ts` move into account `a`, less what they move out of it.
pub open spec fn net_flow(ts: Seq<Transfer>, a: AccountId) -> int
    decreases ts.len(),
{
    if ts.len() == 0 {
        0
    } else {
        let t = ts.last();
        net_flow(ts.drop_last(), a) + (if t.to == a { t.amount as int } else { 0 })
            - (if t.from == a { t.amount as int } else { 0 })
    }
}

/// In every well-formed state, and every transition keeps the state well
/// formed: the total shares plus the total loot equal what the members hold;
/// a proposal is sponsored exactly when it is in the queue, and a processed
/// queued proposal has its queue predecessor processed; a jailed member holds no shares; and members and
/// their delegate keys correspond one to one.
pub proof fn lemma_guild_invariants(g: &Module)
    requires
        g.wf(),
    ensures
        g.total_shares + g.total_loot == total_of(g.member_records@, false) + total_of(g.member_records@, true),
        forall|i: int| 0 <= i < g.queue_len() ==> (#[trigger] g.queued(i)).sponsored,
        forall|k: int| 0 <= k < g.proposal_records@.len() && (#[trigger] g.proposal_records@[k]).sponsored
            ==> g.proposal_queue@.contains(k as u128),
        forall|i: int| 0 < i < g.queue_len() && (#[trigger] g.queued(i)).processed ==> g.queued(i - 1).processed,
        forall|a: AccountId| g.is_member(a) && (#[trigger] g.member(a)).jailed_at != 0 ==> g.member(a).shares == 0,
        forall|a: AccountId| #[trigger] g.is_member(a) ==> g.address_of_delegate(g.member(a).delegate_key) == a,
        forall|d: AccountId| #[trigger] g.is_delegate(d) ==> g.member(g.address_of_delegate(d)).delegate_key == d,
{
    let r = g.member_records@;
    let q = g.proposal_queue@;
    let p = g.proposal_records@;
    assert forall|i: int| 0 < i < g.queue_len() && (#[trigger] g.queued(i)).processed implies g.queued(i - 1).processed by {
        assert(p[q[i] as int].processed);
    }
    assert forall|a: AccountId| #[trigger] g.is_member(a) implies g.address_of_delegate(g.member(a).delegate_key) == a by {
        let i = g.member_index(a);
        let d = r[i].1.delegate_key;
        assert(g.is_delegate(d));
        lemma_delegate_record(g, d);
    }
    assert forall|d: AccountId| #[trigger] g.is_delegate(d) implies g.member(g.address_of_delegate(d)).delegate_key == d by {
        lemma_delegate_record(g, d);
    }
}

/// A ragequit payout never exceeds the bank's balance, so the balance left,
/// the balance before less the payout, is never negative.
pub proof fn lemma_payout_within_bank(bank_balance: u128, burned: int, supply: int)
    requires
        0 <= burned <= supply,
    ensures
        0 <= payout(bank_balance, burned, supply) <= bank_balance,
{
    if supply > 0 {
        let b = bank_balance as int;
        assert(0 <= b * burned <= b * supply) by (nonlinear_arith)
            requires 0 <= burned <= supply, 0 <= b;
        assert(b * burned / supply <= b) by (nonlinear_arith)
            requires 0 <= b * burned <= b * supply, supply > 0;
        assert(0 <= b * burned / supply) by (nonlinear_arith)
            requires 0 <= b * burned, supply > 0;
    }
}

/// A proposal just submitted can be aborted at once by its proposer, and the
/// two calls together leave the custody account's balance as it was.
pub proof fn lemma_submit_then_abort_custody_balanced(
    g0: &Module,
    g1: &Module,
    g2: &Module,
    who: AccountId,
    applicant: AccountId,
    tribute_offered: u128,
    shares_requested: u128,
    loot_requested: u128,
    payment_requested: u128,
    details: Seq<u8>,
    proposal_id: u128,
    t1: Seq<Transfer>,
    t2: Seq<Transfer>,
)
    requires
        g0.submit_proposal_post(g1, who, applicant, tribute_offered, shares_requested, loot_requested,
            payment_requested, details, t1),
        proposal_id == g0.proposal_records@.len(),
        g1.abort_post(g2, proposal_id, t2),
    ensures
        g1.abort_error(who, proposal_id) == None::<Error>,
        net_flow(t1 + t2, g0.custody_account) == 0,
        g2.proposal_records@.last().aborted,
        g2.proposal_records@.last().tribute_offered == 0,
{
    let id = proposal_id as int;
    assert(g1.proposal_records@[id] == g1.proposal_records@.last());
    let both = t1 + t2;
    assert(both.drop_last() =~= t1);
    assert(both.last() == t2[0]);
    assert(t1.drop_last().len() == 0);
    assert(net_flow(t1.drop_last(), g0.custody_account) == 0);
    assert(g2.proposal_records@.last() == g2.proposal_records@[id]);
    reveal_with_fuel(net_flow, 3);
}

/// Processing a proposal with no more yes votes than no votes fails it: the
/// tribute goes back to the applicant, the proposer gets the deposit less
/// the processor's reward, and neither the members nor the totals change.
pub proof fn lemma_rejected_proposal_refunds(g: &Module, g2: &Module, who: AccountId, queue_index: u128, bank_balance: u128, t: Seq<Transfer>)
    requires
        g.wf(),
        queue_index < g.queue_len(),
        g.process_post(g2, who, queue_index, bank_balance, t),
        g.queued(queue_index as int).yes_votes <= g.queued(queue_index as int).no_votes,
    ensures
        ({
            let p = g.queued(queue_index as int);
            &&& t == seq![
                Transfer { from: g.custody_account, to: p.applicant, amount: p.tribute_offered, keep_alive: false },
                Transfer { from: g.bank_account, to: who, amount: g.processing_reward, keep_alive: true },
                Transfer {
                    from: g.bank_account,
                    to: p.proposer,
                    amount: (g.proposal_deposit - g.processing_reward) as u128,
                    keep_alive: true,
                },
            ]
            &&& !g2.proposal_records@[g.proposal_queue@[queue_index as int] as int].passed
            &&& g2.member_records@ == g.member_records@
            &&& g2.total_shares == g.total_shares
            &&& g2.total_loot == g.total_loot
        }),
{
    let p = g.queued(queue_index as int);
    assert(!g.passes(p));
    assert(!g.passes_with(p, bank_balance));
    assert(t == seq![Transfer { from: g.custody_account, to: p.applicant, amount: p.tribute_offered, keep_alive: false }]
        + g.settlement(who, p.proposer));
    assert(t =~= seq![
        Transfer { from: g.custody_account, to: p.applicant, amount: p.tribute_offered, keep_alive: false },
        Transfer { from: g.bank_account, to: who, amount: g.processing_reward, keep_alive: true },
        Transfer {
            from: g.bank_account,
            to: p.proposer,
            amount: (g.proposal_deposit - g.processing_reward) as u128,
            keep_alive: true,
        },
    ]);
}

/// A proposal that asks for more than the bank holds fails when processed:
/// its whole tribute goes back from custody to the applicant, and the
/// members and the total shares stay as they were.
pub proof fn lemma_unaffordable_payment_refunds(g: &Module, g2: &Module, who: AccountId, queue_index: u128, bank_balance: u128, t: Seq<Transfer>)
    requires
        g.wf(),
        queue_index < g.queue_len(),
        g.process_post(g2, who, queue_index, bank_balance, t),
        g.queued(queue_index as int).payment_requested > bank_balance,
    ensures
        ({
            let p = g.queued(queue_index as int);
            &&& t[0] == Transfer { from: g.custody_account, to: p.applicant, amount: p.tribute_offered, keep_alive: false }
            &&& !g2.proposal_records@[g.proposal_queue@[queue_index as int] as int].passed
            &&& g2.member_records@ == g.member_records@
            &&& g2.total_shares == g.total_shares
        }),
{
    let p = g.queued(queue_index as int);
    assert(!g.passes_with(p, bank_balance));
    assert(t == seq![Transfer { from: g.custody_account, to: p.applicant, amount: p.tribute_offered, keep_alive: false }]
        + g.settlement(who, p.proposer));
}

/// A ballot cast in the period where the voting window ends, the starting
/// period plus the voting period length, is refused as expired; with a voting
/// period of length zero, that is the starting period itself.
pub proof fn lemma_vote_at_window_end_expires(g: &Module, who: AccountId, queue_index: u128, vote_unit: u8, now: u64)
    requires
        g.is_delegate(who),
        g.member(g.address_of_delegate(who)).shares > 0,
        queue_index < g.queue_len(),
        vote_unit == 1 || vote_unit == 2,
        g.current_period(now) == g.queued(queue_index as int).starting_period + g.voting_period_length,
    ensures
        g.vote_error(who, queue_index, vote_unit, now) == Some(Error::ProposalExpired),
{
}

/// Summoning accepts a deposit equal to the processing reward, and refuses
/// any deposit below it.
pub proof fn lemma_deposit_covers_reward(
    config: Config,
    voting_period_length: u128,
    grace_period_length: u128,
    dilution_bound: u128,
    proposal_deposit: u128,
    processing_reward: u128,
)
    requires
        voting_period_length <= config.max_voting_period_length,
        config.max_voting_period_length > 0 || voting_period_length > 0,
        grace_period_length <= config.max_grace_period_length,
        dilution_bound <= config.max_dilution_bound,
    ensures
        Module::summon_error(config, voting_period_length, grace_period_length, dilution_bound, proposal_deposit, proposal_deposit)
            == None::<Error>,
        proposal_deposit < processing_reward ==> Module::summon_error(config, voting_period_length, grace_period_length,
            dilution_bound, proposal_deposit, processing_reward) == Some(Error::NoEnoughProposalDeposit),
{
}

/// A proposal that is submitted, sponsored, then gets a single no vote and
/// is processed, fails: the tribute goes back from custody to the applicant,
/// the proposer gets the deposit less the processor's reward, and the
/// members and the totals are as before the submission.
pub proof fn lemma_rejected_round_trip(
    g0: &Module,
    g1: &Module,
    g2: &Module,
    g3: &Module,
    g4: &Module,
    proposer: AccountId,
    applicant: AccountId,
    tribute_offered: u128,
    shares_requested: u128,
    loot_requested: u128,
    payment_requested: u128,
    details: Seq<u8>,
    proposal_id: u128,
    sponsor: AccountId,
    sponsored_at: u64,
    voter: AccountId,
    queue_index: u128,
    processor: AccountId,
    bank_balance: u128,
    t1: Seq<Transfer>,
    t2: Seq<Transfer>,
    t4: Seq<Transfer>,
)
    requires
        g0.submit_proposal_post(g1, proposer, applicant, tribute_offered, shares_requested, loot_requested,
            payment_requested, details, t1),
        proposal_id == g0.proposal_records@.len(),
        g1.sponsor_post(g2, sponsor, proposal_id, sponsored_at, t2),
        queue_index == g1.proposal_queue@.len(),
        g2.vote_post(g3, voter, queue_index, 2),
        g3.process_post(g4, processor, queue_index, bank_balance, t4),
    ensures
        t4 == seq![
            Transfer { from: g0.custody_account, to: applicant, amount: tribute_offered, keep_alive: false },
            Transfer { from: g0.bank_account, to: processor, amount: g0.processing_reward, keep_alive: true },
            Transfer {
                from: g0.bank_account,
                to: proposer,
                amount: (g0.proposal_deposit - g0.processing_reward) as u128,
                keep_alive: true,
            },
        ],
        g4.member_records@ == g0.member_records@,
        g4.total_shares == g0.total_shares,
        g4.total_loot == g0.total_loot,
{
    let id = proposal_id as int;
    assert(g1.proposal_records@[id] == g1.proposal_records@.last());
    assert(g2.proposal_queue@[queue_index as int] == proposal_id);
    assert(g3.proposal_queue@[queue_index as int] == proposal_id);
    let p = g3.queued(queue_index as int);
    assert(p.yes_votes == 0);
    assert(!g3.passes_with(p, bank_balance));
    assert(t4 =~= seq![
        Transfer { from: g0.custody_account, to: applicant, amount: tribute_offered, keep_alive: false },
        Transfer { from: g0.bank_account, to: processor, amount: g0.processing_reward, keep_alive: true },
        Transfer {
            from: g0.bank_account,
            to: proposer,
            amount: (g0.proposal_deposit - g0.processing_reward) as u128,
            keep_alive: true,
        },
    ]);
}

/// After a yes ballot, the proposal's supply snapshot is at least the shares
/// plus loot in existence when the ballot was cast.
pub proof fn lemma_yes_vote_snapshot(g: &Module, g2: &Module, who: AccountId, queue_index: u128)
    requires
        g.wf(),
        queue_index < g.queue_len(),
        g.vote_post(g2, who, queue_index, 1),
    ensures
        g2.queued(queue_index as int).max_total_shares_at_yes >= g.total_shares + g.total_loot,
{
}

/// A voting period of length zero is refused at summoning where the limit on
/// the voting period is zero, and accepted, other settings permitting, where
/// the limit is positive.
pub proof fn lemma_zero_voting_length(
    config: Config,
    grace_period_length: u128,
    dilution_bound: u128,
    proposal_deposit: u128,
    processing_reward: u128,
)
    ensures
        config.max_voting_period_length == 0 ==> Module::summon_error(config, 0, grace_period_length,
            dilution_bound, proposal_deposit, processing_reward) == Some(Error::VotingPeriodLengthTooBig),
        config.max_voting_period_length > 0 && grace_period_length <= config.max_grace_period_length
            && dilution_bound <= config.max_dilution_bound && processing_reward <= proposal_deposit
            ==> Module::summon_error(config, 0, grace_period_length, dilution_bound, proposal_deposit,
            processing_reward) == None::<Error>,
{
}

} // verus!
