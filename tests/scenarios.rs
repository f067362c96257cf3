use moloch_v2::{AccountId, Config, Error, Event, Module, Transfer, Vote};

const MODULE_ID: [u8; 8] = *b"py/moloc";
/// The 32 bytes `modl`, the module id and zeros, read as four little-endian words.
const BANK: AccountId = AccountId(u64::from_le_bytes(*b"modlpy/m"), u64::from_le_bytes(*b"oloc\0\0\0\0"), 0, 0);
/// As the bank, followed by the sub-path `custody` with its length prefix (7 * 4 = 0x1c).
const CUSTODY: AccountId = AccountId(
    u64::from_le_bytes(*b"modlpy/m"),
    u64::from_le_bytes(*b"oloc\x1ccus"),
    u64::from_le_bytes(*b"tody\0\0\0\0"),
    0,
);
const PERIOD_MS: u64 = 10 * 1000;

fn acct(n: u64) -> AccountId {
    AccountId(n, 0, 0, 0)
}

fn config() -> Config {
    Config {
        module_id: MODULE_ID,
        max_voting_period_length: 100,
        max_grace_period_length: 100,
        max_dilution_bound: 10,
        max_shares: 1_000_000,
    }
}

fn summoned() -> Module {
    Module::summon(config(), acct(1), 0, 10, 2, 2, 1, 100, 50).unwrap()
}

fn details() -> Vec<u8> {
    b"test".to_vec()
}

/// Member 1 sponsors a proposal by 2 for 2 (tribute 50, 5 shares), votes
/// `ballot`, and the proposal is left ready to process at period 8.
fn queued_and_voted(g: &mut Module, ballot: u8) {
    g.submit_proposal(acct(2), acct(2), 50, 5, 0, 0, details()).unwrap();
    g.sponsor_proposal(acct(1), 0, 0).unwrap();
    g.submit_vote(acct(1), 0, ballot, 2 * PERIOD_MS).unwrap();
}

#[test]
fn module_accounts_come_from_the_module_id() {
    let g = summoned();
    assert_eq!(g.account_id(), BANK);
    assert_eq!(g.custody_account(), CUSTODY);
    assert_eq!(g.bank_account, BANK);
    assert_eq!(g.custody_account, CUSTODY);
    assert_ne!(g.account_id(), g.custody_account());
}

#[test]
fn summon_records_the_founder() {
    let g = summoned();
    assert_eq!(g.total_shares, 1);
    assert_eq!(g.total_loot, 0);
    assert!(g.members(acct(1)).exists);
    assert_eq!(g.members(acct(1)).delegate_key, acct(1));
    assert_eq!(g.address_of_delegate_key(acct(1)), acct(1));
    assert_eq!(g.events, vec![Event::SummonComplete(acct(1), 1)]);
}

#[test]
fn summon_checks_each_limit() {
    assert_eq!(Module::summon(config(), acct(1), 0, 10, 101, 2, 1, 100, 50).err(), Some(Error::VotingPeriodLengthTooBig));
    assert_eq!(Module::summon(config(), acct(1), 0, 10, 2, 101, 1, 100, 50).err(), Some(Error::GracePeriodLengthTooBig));
    assert_eq!(Module::summon(config(), acct(1), 0, 10, 2, 2, 11, 100, 50).err(), Some(Error::DilutionBoundTooBig));
    assert_eq!(Module::summon(config(), acct(1), 0, 10, 2, 2, 1, 100, 150).err(), Some(Error::NoEnoughProposalDeposit));
}

#[test]
fn deposit_equal_to_reward_is_accepted() {
    assert!(Module::summon(config(), acct(1), 0, 10, 2, 2, 1, 100, 100).is_ok());
    assert_eq!(Module::summon(config(), acct(1), 0, 10, 2, 2, 1, 99, 100).err(), Some(Error::NoEnoughProposalDeposit));
}

#[test]
fn current_period_counts_whole_periods() {
    let g = Module::summon(config(), acct(1), 5_000, 10, 2, 2, 1, 100, 50).unwrap();
    assert_eq!(g.get_current_period(0), 0);
    assert_eq!(g.get_current_period(14_999), 0);
    assert_eq!(g.get_current_period(15_000), 1);
    assert_eq!(g.get_current_period(5_000 + 25 * PERIOD_MS + 999), 25);
}

#[test]
fn admission_scenario() {
    let mut g = summoned();
    let t = g.submit_proposal(acct(2), acct(2), 50, 5, 0, 0, details()).unwrap();
    assert_eq!(t, vec![Transfer { from: acct(2), to: CUSTODY, amount: 50, keep_alive: true }]);
    assert_eq!(g.sponsor_proposal(acct(1), 0, 0).unwrap(), vec![Transfer { from: acct(1), to: BANK, amount: 100, keep_alive: true }]);
    assert_eq!(g.proposal_records[0].starting_period, 1);
    assert_eq!(g.submit_vote(acct(1), 0, 1, 2 * PERIOD_MS), Ok(()));
    assert_eq!(g.members(acct(1)).highest_index_yes_vote, 0);
    assert_eq!(g.proposal_records[0].yes_votes, 1);
    assert_eq!(g.proposal_records[0].max_total_shares_at_yes, 1);
    let t = g.process_proposal(acct(3), 0, 10 * PERIOD_MS, 1000).unwrap();
    assert_eq!(t, vec![
        Transfer { from: CUSTODY, to: BANK, amount: 50, keep_alive: false },
        Transfer { from: BANK, to: acct(3), amount: 50, keep_alive: true },
        Transfer { from: BANK, to: acct(2), amount: 50, keep_alive: true },
    ]);
    assert!(g.members(acct(2)).exists);
    assert_eq!(g.members(acct(2)).shares, 5);
    assert_eq!(g.total_shares, 6);
    assert!(g.proposal_records[0].processed && g.proposal_records[0].passed);
    assert_eq!(g.events.last(), Some(&Event::ProcessProposal(0, acct(2), acct(2), 50, 5, true)));
}

#[test]
fn jail_cycle_and_rage_kick() {
    let mut g = summoned();
    queued_and_voted(&mut g, 1);
    g.process_proposal(acct(3), 0, 8 * PERIOD_MS, 1000).unwrap();
    g.submit_guild_kick_proposal(acct(2), acct(2), details()).unwrap();
    g.sponsor_proposal(acct(1), 1, 8 * PERIOD_MS).unwrap();
    assert_eq!(g.proposal_records[1].starting_period, 9);
    assert_eq!(g.proposed_to_kick, vec![acct(2)]);
    g.submit_vote(acct(1), 1, 1, 10 * PERIOD_MS).unwrap();
    assert_eq!(g.members(acct(1)).highest_index_yes_vote, 1);
    let t = g.process_guild_kick_proposal(acct(0), 1, 16 * PERIOD_MS).unwrap();
    assert_eq!(t.len(), 2);
    assert_eq!(g.members(acct(2)).jailed_at, 1);
    assert_eq!(g.members(acct(2)).shares, 0);
    assert_eq!(g.members(acct(2)).loot, 5);
    assert_eq!(g.total_shares, 1);
    assert_eq!(g.total_loot, 5);
    assert!(g.proposed_to_kick.is_empty());
    // 5 loot out of a supply of 6 claims five sixths of the bank.
    let t = g.rage_kick(acct(2), 600).unwrap();
    assert_eq!(t, vec![Transfer { from: BANK, to: acct(2), amount: 500, keep_alive: true }]);
    assert_eq!(g.members(acct(2)).loot, 0);
    assert_eq!(g.total_loot, 0);
    assert_eq!(g.rage_kick(acct(2), 100), Err(Error::NoEnoughLoot));
}

#[test]
fn ragequit_pays_the_burned_fraction_rounded_down() {
    let mut g = summoned();
    queued_and_voted(&mut g, 1);
    g.process_proposal(acct(3), 0, 8 * PERIOD_MS, 1000).unwrap();
    // supply 6, burn 2 of member 2's shares: floor(1000 * 2 / 6) = 333
    let t = g.rage_quit(acct(2), 2, 0, 1000).unwrap();
    assert_eq!(t, vec![Transfer { from: BANK, to: acct(2), amount: 333, keep_alive: true }]);
    assert_eq!(g.members(acct(2)).shares, 3);
    assert_eq!(g.total_shares, 4);
    assert_eq!(g.events.last(), Some(&Event::Ragequit(acct(2), 2)));
}

#[test]
fn ragequit_errors() {
    let mut g = summoned();
    assert_eq!(g.rage_quit(acct(9), 0, 0, 10), Err(Error::NotMember));
    assert_eq!(g.rage_quit(acct(1), 2, 0, 10), Err(Error::NoEnoughShares));
    assert_eq!(g.rage_quit(acct(1), 0, 1, 10), Err(Error::NoEnoughLoot));
    // the founder never voted and the queue is empty
    assert_eq!(g.rage_quit(acct(1), 1, 0, 10), Err(Error::ProposalNotExist));
    queued_and_voted(&mut g, 1);
    assert_eq!(g.rage_quit(acct(1), 1, 0, 10), Err(Error::ProposalNotProcessed));
    g.process_proposal(acct(3), 0, 8 * PERIOD_MS, 1000).unwrap();
    assert_eq!(g.rage_quit(acct(2), 2, 0, u128::MAX), Err(Error::StorageOverflow));
    assert_eq!(g.rage_quit(acct(1), 1, 0, 10).unwrap()[0].amount, 1);
}

#[test]
fn unanimous_no_returns_tribute_and_deposit() {
    let mut g = summoned();
    queued_and_voted(&mut g, 2);
    let t = g.process_proposal(acct(3), 0, 8 * PERIOD_MS, 1000).unwrap();
    assert_eq!(t, vec![
        Transfer { from: CUSTODY, to: acct(2), amount: 50, keep_alive: false },
        Transfer { from: BANK, to: acct(3), amount: 50, keep_alive: true },
        Transfer { from: BANK, to: acct(2), amount: 50, keep_alive: true },
    ]);
    assert!(!g.members(acct(2)).exists);
    assert_eq!(g.total_shares, 1);
    assert!(!g.proposal_records[0].passed);
}

#[test]
fn unaffordable_payment_fails_and_refunds() {
    let mut g = summoned();
    g.submit_proposal(acct(2), acct(2), 50, 5, 0, 800, details()).unwrap();
    g.sponsor_proposal(acct(1), 0, 0).unwrap();
    g.submit_vote(acct(1), 0, 1, 2 * PERIOD_MS).unwrap();
    let t = g.process_proposal(acct(3), 0, 8 * PERIOD_MS, 799).unwrap();
    assert_eq!(t[0], Transfer { from: CUSTODY, to: acct(2), amount: 50, keep_alive: false });
    assert_eq!(g.total_shares, 1);
    assert!(!g.members(acct(2)).exists);
}

#[test]
fn submit_then_abort_nets_zero_in_custody() {
    let mut g = summoned();
    let t1 = g.submit_proposal(acct(4), acct(2), 70, 5, 0, 0, details()).unwrap();
    let t2 = g.abort(acct(4), 0).unwrap();
    let into: u128 = t1.iter().chain(t2.iter()).filter(|t| t.to == CUSTODY).map(|t| t.amount).sum();
    let out: u128 = t1.iter().chain(t2.iter()).filter(|t| t.from == CUSTODY).map(|t| t.amount).sum();
    assert_eq!(into, out);
    assert!(g.proposal_records[0].aborted);
    assert_eq!(g.proposal_records[0].tribute_offered, 0);
    assert_eq!(g.events.last(), Some(&Event::Abort(0, acct(2))));
    assert_eq!(g.abort(acct(4), 0), Err(Error::ProposalHasAborted));
    assert_eq!(g.sponsor_proposal(acct(1), 0, 0), Err(Error::ProposalHasAborted));
    assert_eq!(g.abort(acct(4), 1), Err(Error::ProposalNotExist));
}

#[test]
fn abort_after_sponsoring_is_refused() {
    let mut g = summoned();
    g.submit_proposal(acct(2), acct(2), 50, 5, 0, 0, details()).unwrap();
    g.sponsor_proposal(acct(1), 0, 0).unwrap();
    assert_eq!(g.abort(acct(2), 0), Err(Error::ProposalHasSponsored));
    assert_eq!(g.sponsor_proposal(acct(1), 0, 0), Err(Error::ProposalHasSponsored));
}

#[test]
fn vote_before_sponsoring_is_unknown() {
    let mut g = summoned();
    g.submit_proposal(acct(2), acct(2), 50, 5, 0, 0, details()).unwrap();
    assert_eq!(g.submit_vote(acct(1), 0, 1, 2 * PERIOD_MS), Err(Error::ProposalNotExist));
}

#[test]
fn voting_window_edges() {
    let mut g = summoned();
    g.submit_proposal(acct(2), acct(2), 50, 5, 0, 0, details()).unwrap();
    g.sponsor_proposal(acct(1), 0, 0).unwrap();
    assert_eq!(g.submit_vote(acct(1), 0, 3, 2 * PERIOD_MS), Err(Error::InvalidVote));
    assert_eq!(g.submit_vote(acct(1), 0, 0, 2 * PERIOD_MS), Err(Error::InvalidVote));
    // voting opens at period 1 and lasts 2 periods: period 3 is too late
    assert_eq!(g.submit_vote(acct(1), 0, 1, 3 * PERIOD_MS), Err(Error::ProposalExpired));
    assert_eq!(g.submit_vote(acct(1), 0, 1, 2 * PERIOD_MS + 9_999), Ok(()));
    assert_eq!(g.submit_vote(acct(1), 0, 2, 2 * PERIOD_MS), Err(Error::MemberHasVoted));
    assert_eq!(g.votes, vec![(0, acct(1), Vote::Yes)]);
}

#[test]
fn zero_voting_length_is_refused_under_a_zero_limit() {
    let limits = Config { max_voting_period_length: 0, ..config() };
    assert_eq!(Module::summon(limits, acct(1), 0, 10, 0, 2, 1, 100, 50).err(), Some(Error::VotingPeriodLengthTooBig));
    assert_eq!(Module::summon(limits, acct(1), 0, 10, 1, 2, 1, 100, 50).err(), Some(Error::VotingPeriodLengthTooBig));
    assert!(Module::summon(config(), acct(1), 0, 10, 0, 2, 1, 100, 50).is_ok());
}

#[test]
fn dilution_warning_comes_from_the_pass_check() {
    let mut g = summoned();
    queued_and_voted(&mut g, 1);
    g.process_proposal(acct(3), 0, 8 * PERIOD_MS, 1000).unwrap();
    g.submit_proposal(acct(4), acct(4), 0, 1, 0, 0, details()).unwrap();
    g.sponsor_proposal(acct(1), 1, 8 * PERIOD_MS).unwrap();
    g.submit_vote(acct(2), 1, 1, 10 * PERIOD_MS).unwrap();
    g.rage_quit(acct(1), 1, 0, 600).unwrap();
    let before = g.events.len();
    let p = g.proposal_records[1].duplicate();
    assert!(!g.should_pass(&p));
    assert_eq!(g.events.len(), before + 1);
    assert_eq!(g.events[before], Event::DilutionBoundExceeds(5, 1, 6));
    // a proposal within the bound records nothing
    let q = g.proposal_records[0].duplicate();
    assert!(g.should_pass(&q));
    assert_eq!(g.events.len(), before + 1);
}

#[test]
fn sponsor_is_the_member_behind_the_key() {
    let mut g = summoned();
    g.submit_proposal(acct(2), acct(2), 0, 1, 0, 0, details()).unwrap();
    g.submit_proposal(acct(2), acct(2), 0, 1, 0, 0, details()).unwrap();
    g.sponsor_proposal(acct(1), 0, 0).unwrap();
    assert_eq!(g.proposal_records[0].sponsor, acct(1));
    g.update_delegate(acct(1), acct(7)).unwrap();
    g.sponsor_proposal(acct(1), 1, 0).unwrap();
    assert_eq!(g.proposal_records[1].sponsor, AccountId::zero());
}

#[test]
fn zero_length_voting_goes_straight_to_grace() {
    let mut g = Module::summon(config(), acct(1), 0, 10, 0, 2, 1, 100, 50).unwrap();
    g.submit_proposal(acct(2), acct(2), 50, 5, 0, 0, details()).unwrap();
    g.sponsor_proposal(acct(1), 0, 0).unwrap();
    assert_eq!(g.submit_vote(acct(1), 0, 1, PERIOD_MS), Err(Error::ProposalExpired));
    assert_eq!(g.process_proposal(acct(3), 0, 2 * PERIOD_MS, 0), Err(Error::ProposalNotReady));
    assert!(g.process_proposal(acct(3), 0, 3 * PERIOD_MS, 0).is_ok());
}

#[test]
fn processing_order_and_kinds() {
    let mut g = summoned();
    g.submit_proposal(acct(2), acct(2), 50, 5, 0, 0, details()).unwrap();
    g.submit_guild_kick_proposal(acct(2), acct(1), details()).unwrap();
    g.sponsor_proposal(acct(1), 0, 0).unwrap();
    g.sponsor_proposal(acct(1), 1, 0).unwrap();
    assert_eq!(g.proposal_records[1].starting_period, 2);
    assert_eq!(g.process_proposal(acct(3), 2, 20 * PERIOD_MS, 0), Err(Error::ProposalNotExist));
    assert_eq!(g.process_proposal(acct(3), 1, 20 * PERIOD_MS, 0), Err(Error::NotStandardProposal));
    assert_eq!(g.process_guild_kick_proposal(acct(3), 0, 20 * PERIOD_MS), Err(Error::NotKickProposal));
    assert_eq!(g.process_guild_kick_proposal(acct(3), 1, 20 * PERIOD_MS), Err(Error::PreviousProposalNotProcessed));
    assert_eq!(g.process_proposal(acct(3), 0, 4 * PERIOD_MS, 0), Err(Error::ProposalNotReady));
    assert!(g.process_proposal(acct(3), 0, 5 * PERIOD_MS, 0).is_ok());
    assert_eq!(g.process_proposal(acct(3), 0, 5 * PERIOD_MS, 0), Err(Error::ProposalHasProcessed));
    // no votes: the kick fails and its target may be proposed again
    assert!(g.process_guild_kick_proposal(acct(3), 1, 20 * PERIOD_MS).is_ok());
    assert_eq!(g.members(acct(1)).jailed_at, 0);
    assert!(g.proposed_to_kick.is_empty());
}

#[test]
fn kick_proposal_checks() {
    let mut g = summoned();
    assert_eq!(g.submit_guild_kick_proposal(acct(1), acct(9), details()), Err(Error::NotMember));
    g.submit_guild_kick_proposal(acct(2), acct(1), details()).unwrap();
    g.submit_guild_kick_proposal(acct(3), acct(1), details()).unwrap();
    g.sponsor_proposal(acct(1), 0, 0).unwrap();
    assert_eq!(g.sponsor_proposal(acct(1), 1, 0), Err(Error::MemberInJail));
    assert_eq!(g.sponsor_proposal(acct(2), 1, 0), Err(Error::NotMember));
    assert_eq!(g.sponsor_proposal(acct(1), 7, 0), Err(Error::ProposalNotExist));
    assert_eq!(g.rage_quit(acct(1), 1, 0, 0), Err(Error::ProposalNotProcessed));
}

#[test]
fn jailed_member_cannot_propose_or_be_kicked_again() {
    let mut g = summoned();
    queued_and_voted(&mut g, 1);
    g.process_proposal(acct(3), 0, 8 * PERIOD_MS, 1000).unwrap();
    g.submit_guild_kick_proposal(acct(1), acct(2), details()).unwrap();
    g.sponsor_proposal(acct(1), 1, 8 * PERIOD_MS).unwrap();
    g.submit_vote(acct(1), 1, 1, 10 * PERIOD_MS).unwrap();
    g.process_guild_kick_proposal(acct(0), 1, 16 * PERIOD_MS).unwrap();
    assert_eq!(g.submit_proposal(acct(2), acct(2), 0, 1, 0, 0, details()), Err(Error::MemberInJail));
    assert_eq!(g.submit_guild_kick_proposal(acct(1), acct(2), details()), Err(Error::MemberInJail));
    assert_eq!(g.submit_vote(acct(2), 1, 1, 10 * PERIOD_MS), Err(Error::NoEnoughShares));
}

#[test]
fn share_cap_is_enforced() {
    let mut g = summoned();
    assert_eq!(g.submit_proposal(acct(2), acct(2), 0, 999_999, 1, 0, details()), Err(Error::SharesOverFlow));
    assert_eq!(g.submit_proposal(acct(2), acct(2), 0, u128::MAX, 1, 0, details()), Err(Error::SharesOverFlow));
    assert!(g.submit_proposal(acct(2), acct(2), 0, 999_998, 1, 0, details()).is_ok());
}

#[test]
fn dilution_bound_fails_a_proposal() {
    let mut g = summoned();
    queued_and_voted(&mut g, 1);
    g.process_proposal(acct(3), 0, 8 * PERIOD_MS, 1000).unwrap();
    g.submit_proposal(acct(4), acct(4), 0, 1, 0, 0, details()).unwrap();
    g.sponsor_proposal(acct(1), 1, 8 * PERIOD_MS).unwrap();
    g.submit_vote(acct(2), 1, 1, 10 * PERIOD_MS).unwrap();
    assert_eq!(g.proposal_records[1].max_total_shares_at_yes, 6);
    assert_eq!(g.rage_quit(acct(2), 5, 0, 600), Err(Error::ProposalNotProcessed));
    // the founder leaves: 5 shares remain against a snapshot of 6
    g.rage_quit(acct(1), 1, 0, 600).unwrap();
    g.process_proposal(acct(3), 1, 16 * PERIOD_MS, 1000).unwrap();
    assert!(!g.proposal_records[1].passed);
    let n = g.events.len();
    assert_eq!(g.events[n - 2], Event::DilutionBoundExceeds(5, 1, 6));
    assert_eq!(g.events[n - 1], Event::ProcessProposal(1, acct(4), acct(4), 0, 1, false));
}

#[test]
fn delegate_rules() {
    let mut g = summoned();
    queued_and_voted(&mut g, 1);
    g.process_proposal(acct(3), 0, 8 * PERIOD_MS, 1000).unwrap();
    assert_eq!(g.update_delegate(acct(9), acct(5)), Err(Error::NotMember));
    assert_eq!(g.update_delegate(acct(1), acct(2)), Err(Error::NoOverwriteMember));
    assert_eq!(g.update_delegate(acct(1), acct(5)), Ok(()));
    assert_eq!(g.events.last(), Some(&Event::UpdateDelegateKey(acct(1), acct(5))));
    assert_eq!(g.update_delegate(acct(2), acct(5)), Err(Error::NoOverwriteDelegate));
    assert_eq!(g.update_delegate(acct(1), acct(5)), Ok(()));
    assert_eq!(g.address_of_delegate_key(acct(5)), acct(1));
    assert_eq!(g.address_of_delegate_key(acct(1)), AccountId::zero());
    assert_eq!(g.update_delegate(acct(1), acct(1)), Ok(()));
    assert_eq!(g.address_of_delegate_key(acct(1)), acct(1));
}

#[test]
fn admitting_a_delegate_key_returns_it_to_its_member() {
    let mut g = summoned();
    g.update_delegate(acct(1), acct(7)).unwrap();
    g.submit_proposal(acct(7), acct(7), 0, 1, 0, 0, details()).unwrap();
    g.sponsor_proposal(acct(1), 0, 0).unwrap();
    g.submit_vote(acct(7), 0, 1, 2 * PERIOD_MS).unwrap();
    g.process_proposal(acct(3), 0, 8 * PERIOD_MS, 0).unwrap();
    assert_eq!(g.members(acct(1)).delegate_key, acct(1));
    assert_eq!(g.members(acct(7)).delegate_key, acct(7));
    assert_eq!(g.address_of_delegate_key(acct(7)), acct(7));
    assert_eq!(g.address_of_delegate_key(acct(1)), acct(1));
}
