use moloch_v2::{AccountId, Config, Error, Event, Module, Transfer};

const MODULE_ID: [u8; 8] = *b"py/moloc";
/// The 32 bytes `modl`, the module id and zeros, read as four little-endian words.
const BANK: AccountId = AccountId(u64::from_le_bytes(*b"modlpy/m"), u64::from_le_bytes(*b"oloc\0\0\0\0"), 0, 0);
/// As the bank, followed by the sub-path `custody` with its length prefix (7 * 4 = 0x1c).
const CUSTODY: AccountId = AccountId(
    u64::from_le_bytes(*b"modlpy/m"),
    u64::from_le_bytes(*b"oloc\x1ccus"),
    u64::from_le_bytes(*b"tody\0\0\0\0"),
    0,
);
const PERIOD_MS: u64 = 10 * 1000;

fn acct(n: u64) -> AccountId {
    AccountId(n, 0, 0, 0)
}

fn config() -> Config {
    Config {
        module_id: MODULE_ID,
        max_voting_period_length: 100,
        max_grace_period_length: 100,
        max_dilution_bound: 10,
        max_shares: 1_000_000,
    }
}

/// Balances of a currency, moved by the transfers the guild asks for.
struct Ledger {
    balances: Vec<(AccountId, u128)>,
}

impl Ledger {
    fn new() -> Ledger {
        let mut balances = vec![(BANK, 1), (CUSTODY, 1)];
        for a in 0..10u64 {
            balances.push((acct(a), 1000));
        }
        Ledger { balances }
    }

    fn free_balance(&self, a: AccountId) -> u128 {
        self.balances.iter().find(|e| e.0 == a).map(|e| e.1).unwrap_or(0)
    }

    fn apply(&mut self, transfers: &[Transfer]) {
        for t in transfers {
            let from = self.balances.iter_mut().find(|e| e.0 == t.from).unwrap();
            from.1 -= t.amount;
            match self.balances.iter_mut().find(|e| e.0 == t.to) {
                Some(to) => to.1 += t.amount,
                None => self.balances.push((t.to, t.amount)),
            }
        }
    }
}

fn summon_with(initial_member: u64) -> Module {
    Module::summon(config(), acct(initial_member), 0, 10, 2, 2, 1, 100, 50).unwrap()
}

fn submit(g: &mut Module, ledger: &mut Ledger, who: u64, applicant: u64) -> Result<(), Error> {
    let t = g.submit_proposal(acct(who), acct(applicant), 50, 5, 0, 0, b"test_proposal".to_vec())?;
    ledger.apply(&t);
    Ok(())
}

/// Admits member 2 with 5 shares, as in the admission scenario; the clock ends at `8 * PERIOD_MS`.
fn admit_member_two(g: &mut Module, ledger: &mut Ledger, processor: u64) {
    submit(g, ledger, 2, 2).unwrap();
    ledger.apply(&g.sponsor_proposal(acct(1), 0, 0).unwrap());
    g.submit_vote(acct(1), 0, 1, 2 * PERIOD_MS).unwrap();
    let t = g.process_proposal(acct(processor), 0, 8 * PERIOD_MS, ledger.free_balance(BANK)).unwrap();
    ledger.apply(&t);
}

/// Member 1 admits member 2, then has it jailed by a kick proposal.
fn put_in_jail(ledger: &mut Ledger, initial_member: u64, jailed_member: u64) -> Module {
    let mut g = summon_with(initial_member);
    submit(&mut g, ledger, jailed_member, jailed_member).unwrap();
    ledger.apply(&g.sponsor_proposal(acct(initial_member), 0, 0).unwrap());
    g.submit_vote(acct(initial_member), 0, 1, 2 * PERIOD_MS).unwrap();
    let t = g.process_proposal(acct(0), 0, 8 * PERIOD_MS, ledger.free_balance(BANK)).unwrap();
    ledger.apply(&t);
    g.submit_guild_kick_proposal(acct(jailed_member), acct(jailed_member), b"test_proposal".to_vec()).unwrap();
    ledger.apply(&g.sponsor_proposal(acct(initial_member), 1, 8 * PERIOD_MS).unwrap());
    g.submit_vote(acct(initial_member), 1, 1, 10 * PERIOD_MS).unwrap();
    let t = g.process_guild_kick_proposal(acct(0), 1, 16 * PERIOD_MS).unwrap();
    ledger.apply(&t);
    g
}

#[test]
fn summon_works() {
    let g = Module::summon(config(), acct(1), 0, 10, 2, 2, 1, 100, 50).unwrap();
    assert_eq!(g.period_duration, 10);
    assert_eq!(g.voting_period_length, 2);
    assert_eq!(g.grace_period_length, 2);
    assert_eq!(g.dilution_bound, 1);
    assert_eq!(g.proposal_deposit, 100);
    assert_eq!(g.processing_reward, 50);
    assert_eq!(g.total_shares, 1);
    assert_eq!(g.members(acct(1)).exists, true);
    assert_eq!(g.events.last(), Some(&Event::SummonComplete(acct(1), 1)));
}

#[test]
fn summon_failed_validation() {
    let r = Module::summon(config(), acct(1), 0, 10, 2, 2, 1, 100, 150);
    assert!(matches!(r, Err(Error::NoEnoughProposalDeposit)));
}

#[test]
fn submit_proposal_works() {
    let mut g = summon_with(1);
    let t = g.submit_proposal(acct(1), acct(2), 50, 5, 0, 0, b"test_proposal".to_vec()).unwrap();
    assert_eq!(t, vec![Transfer { from: acct(1), to: CUSTODY, amount: 50, keep_alive: true }]);
    assert_eq!(g.events.last(), Some(&Event::SubmitProposal(0, acct(1), acct(1), acct(2), 50, 5)));
}

#[test]
fn add_member_works() {
    let mut ledger = Ledger::new();
    let mut g = summon_with(1);
    submit(&mut g, &mut ledger, 2, 2).unwrap();
    ledger.apply(&g.sponsor_proposal(acct(1), 0, 0).unwrap());
    g.submit_vote(acct(1), 0, 1, 2 * PERIOD_MS).unwrap();
    let processor = 3;
    let balance_before = ledger.free_balance(acct(processor));
    let processing_reward = g.processing_reward;
    let t = g.process_proposal(acct(processor), 0, 8 * PERIOD_MS, ledger.free_balance(BANK)).unwrap();
    ledger.apply(&t);
    assert_eq!(ledger.free_balance(acct(processor)), processing_reward + balance_before);
    assert_eq!(g.members(acct(2)).exists, true);
    assert_eq!(g.members(acct(2)).shares, 5);
    assert_eq!(g.total_shares, 6);
}

#[test]
fn vote_failed_validation() {
    let mut ledger = Ledger::new();
    let mut g = summon_with(1);
    submit(&mut g, &mut ledger, 2, 2).unwrap();
    assert_eq!(g.submit_vote(acct(2), 0, 1, 0), Err(Error::NotMember));
    assert_eq!(g.submit_vote(acct(1), 0, 1, 0), Err(Error::ProposalNotExist));
    ledger.apply(&g.sponsor_proposal(acct(1), 0, 0).unwrap());
    assert_eq!(g.submit_vote(acct(1), 0, 1, 0), Err(Error::ProposalNotStart));
}

#[test]
fn guild_kick_works() {
    let mut ledger = Ledger::new();
    let g = put_in_jail(&mut ledger, 1, 2);
    assert_eq!(g.members(acct(2)).exists, true);
    assert_eq!(g.members(acct(2)).jailed_at > 0, true);
}

#[test]
fn guild_member_failed() {
    let mut ledger = Ledger::new();
    let mut g = put_in_jail(&mut ledger, 1, 2);
    submit(&mut g, &mut ledger, 3, 3).unwrap();
    assert_eq!(g.sponsor_proposal(acct(2), 2, 16 * PERIOD_MS), Err(Error::MemberInJail));
}

#[test]
fn abort_works() {
    let mut ledger = Ledger::new();
    let mut g = summon_with(1);
    submit(&mut g, &mut ledger, 2, 2).unwrap();
    let t = g.abort(acct(2), 0).unwrap();
    assert_eq!(t, vec![Transfer { from: CUSTODY, to: acct(2), amount: 50, keep_alive: false }]);
    assert_eq!(g.events.last(), Some(&Event::Abort(0, acct(2))));
}

#[test]
fn abort_failed() {
    let mut ledger = Ledger::new();
    let mut g = summon_with(1);
    submit(&mut g, &mut ledger, 2, 2).unwrap();
    assert_eq!(g.abort(acct(0), 0), Err(Error::NotProposalProposer));
}

#[test]
fn rage_kick_works() {
    let mut ledger = Ledger::new();
    let mut g = put_in_jail(&mut ledger, 1, 2);
    let t = g.rage_kick(acct(2), ledger.free_balance(BANK)).unwrap();
    assert_eq!(t.len(), 1);
    assert_eq!(g.members(acct(2)).loot, 0);
}

#[test]
fn rage_kick_failed() {
    let mut ledger = Ledger::new();
    let mut g = summon_with(1);
    admit_member_two(&mut g, &mut ledger, 3);
    assert_eq!(g.rage_kick(acct(2), ledger.free_balance(BANK)), Err(Error::MemberNotInJail));
}

#[test]
fn update_delegate_validation() {
    let mut ledger = Ledger::new();
    let mut g = summon_with(1);
    assert_eq!(g.rage_kick(acct(2), ledger.free_balance(BANK)), Err(Error::MemberNotInJail));
    submit(&mut g, &mut ledger, 2, 2).unwrap();
    ledger.apply(&g.sponsor_proposal(acct(1), 0, 0).unwrap());
    let now = 2 * PERIOD_MS;
    assert_eq!(g.update_delegate(acct(1), acct(3)), Ok(()));
    assert_eq!(g.submit_vote(acct(1), 0, 1, now), Err(Error::NotMember));
    assert_eq!(g.submit_vote(acct(3), 0, 1, now), Ok(()));
}
