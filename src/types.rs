use vstd::prelude::*;

verus! {

/// A 32-byte account identifier, held as four 64-bit words, each read
/// little-endian from eight consecutive bytes.
#[derive(Clone, Copy, PartialEq, Eq, Structural, Debug, Hash)]
pub struct AccountId(pub u64, pub u64, pub u64, pub u64);

impl AccountId {
    /// The all-zero account.
    pub open spec fn spec_zero() -> AccountId {
        AccountId(0, 0, 0, 0)
    }

    pub fn zero() -> (r: AccountId)
        ensures
            r == AccountId::spec_zero(),
    {
        AccountId(0, 0, 0, 0)
    }
}

/// A ballot on a queued proposal.
#[derive(Clone, Copy, PartialEq, Eq, Structural, Debug)]
pub enum Vote {
    /// No ballot; counted as an abstention.
    Null,
    Yes,
    No,
}

/// What the guild knows of one member.
#[derive(Clone, Copy, PartialEq, Eq, Structural, Debug)]
pub struct Member {
    /// Voting weight.
    pub shares: u128,
    /// Non-voting claim on the bank, redeemed together with shares on exit.
    pub loot: u128,
    /// Highest queue index on which this member voted yes.
    pub highest_index_yes_vote: u128,
    /// True once the member has been created.
    pub exists: bool,
    /// The key that votes on this member's behalf; the member's own account by default.
    pub delegate_key: AccountId,
    /// Zero while free; otherwise the queue index of the kick proposal that jailed the member.
    pub jailed_at: u128,
}

impl Member {
    /// The record that stands for an account that is not a member.
    pub open spec fn spec_absent() -> Member {
        Member {
            shares: 0, loot: 0, highest_index_yes_vote: 0, exists: false, delegate_key: AccountId::spec_zero(), jailed_at: 0,
        }
    }

    pub fn absent() -> (r: Member)
        ensures
            r == Member::spec_absent(),
    {
        Member {
            shares: 0, loot: 0, highest_index_yes_vote: 0, exists: false, delegate_key: AccountId::zero(), jailed_at: 0,
        }
    }
}

/// A request to the guild: admission, payment or kick.
#[derive(Debug)]
pub struct Proposal {
    /// The account that submitted the proposal (it may be a non-member).
    pub proposer: AccountId,
    /// The account that would join; the target of a kick proposal.
    pub applicant: AccountId,
    /// The member that moved the proposal into the queue.
    pub sponsor: AccountId,
    pub shares_requested: u128,
    pub loot_requested: u128,
    pub payment_requested: u128,
    pub tribute_offered: u128,
    pub sponsored: bool,
    pub processed: bool,
    pub passed: bool,
    pub aborted: bool,
    pub whitelist: bool,
    pub guild_kick: bool,
    /// The period in which voting opens; zero until sponsored.
    pub starting_period: u128,
    pub yes_votes: u128,
    pub no_votes: u128,
    /// Free-form description.
    pub details: Vec<u8>,
    /// The largest shares-plus-loot supply seen at a yes vote on this proposal.
    pub max_total_shares_at_yes: u128,
}

impl Proposal {
    /// A copy of the proposal.
    pub fn duplicate(&self) -> (r: Proposal)
        ensures
            r.proposer == self.proposer,
            r.applicant == self.applicant,
            r.sponsor == self.sponsor,
            r.shares_requested == self.shares_requested,
            r.loot_requested == self.loot_requested,
            r.payment_requested == self.payment_requested,
            r.tribute_offered == self.tribute_offered,
            r.sponsored == self.sponsored,
            r.processed == self.processed,
            r.passed == self.passed,
            r.aborted == self.aborted,
            r.whitelist == self.whitelist,
            r.guild_kick == self.guild_kick,
            r.starting_period == self.starting_period,
            r.yes_votes == self.yes_votes,
            r.no_votes == self.no_votes,
            r.details@ == self.details@,
            r.max_total_shares_at_yes == self.max_total_shares_at_yes,
    {
        let details = self.details.clone();
        assert(details@ =~= self.details@);
        Proposal {
            proposer: self.proposer,
            applicant: self.applicant,
            sponsor: self.sponsor,
            shares_requested: self.shares_requested,
            loot_requested: self.loot_requested,
            payment_requested: self.payment_requested,
            tribute_offered: self.tribute_offered,
            sponsored: self.sponsored,
            processed: self.processed,
            passed: self.passed,
            aborted: self.aborted,
            whitelist: self.whitelist,
            guild_kick: self.guild_kick,
            starting_period: self.starting_period,
            yes_votes: self.yes_votes,
            no_votes: self.no_votes,
            details,
            max_total_shares_at_yes: self.max_total_shares_at_yes,
        }
    }
}

/// Why a transition was refused. A refused transition changes nothing.
#[derive(Clone, Copy, PartialEq, Eq, Structural, Debug)]
pub enum Error {
    StorageOverflow,
    VotingPeriodLengthTooBig,
    DilutionBoundTooBig,
    GracePeriodLengthTooBig,
    NoEnoughProposalDeposit,
    NoEnoughShares,
    NoEnoughLoot,
    NotMember,
    NotStandardProposal,
    NotKickProposal,
    NotProposalProposer,
    SharesOverFlow,
    ProposalNotExist,
    ProposalNotStart,
    ProposalNotReady,
    ProposalHasSponsored,
    ProposalHasProcessed,
    ProposalHasAborted,
    ProposalNotProcessed,
    PreviousProposalNotProcessed,
    ProposalExpired,
    InvalidVote,
    MemberHasVoted,
    NoOverwriteDelegate,
    NoOverwriteMember,
    MemberInJail,
    MemberNotInJail,
}

/// A record the guild publishes after a transition.
#[derive(Clone, Copy, PartialEq, Eq, Structural, Debug)]
pub enum Event {
    /// proposal id, delegate key, member, applicant, tribute, shares requested
    SubmitProposal(u128, AccountId, AccountId, AccountId, u128, u128),
    /// queue index, voter, member, ballot
    SubmitVote(u128, AccountId, AccountId, u8),
    /// queue index, applicant, proposer, tribute, shares requested, passed
    ProcessProposal(u128, AccountId, AccountId, u128, u128, bool),
    /// member, shares burned
    Ragequit(AccountId, u128),
    /// proposal id, applicant
    Abort(u128, AccountId),
    /// member, new delegate key
    UpdateDelegateKey(AccountId, AccountId),
    /// summoner, shares
    SummonComplete(AccountId, u128),
    /// total shares, dilution bound, largest supply at a yes vote
    DilutionBoundExceeds(u128, u128, u128),
}

/// A movement of currency that the host is to carry out for a transition.
#[derive(Clone, Copy, PartialEq, Eq, Structural, Debug)]
pub struct Transfer {
    pub from: AccountId,
    pub to: AccountId,
    pub amount: u128,
    /// True where the source account must stay above the currency's minimum
    /// balance; false where it may be emptied.
    pub keep_alive: bool,
}

/// What the host fixes before the guild is summoned: the identifier the
/// guild's accounts are derived from, and the upper limits on its settings.
#[derive(Clone, Copy, PartialEq, Eq, Debug)]
pub struct Config {
    pub module_id: [u8; 8],
    pub max_voting_period_length: u128,
    pub max_grace_period_length: u128,
    pub max_dilution_bound: u128,
    pub max_shares: u128,
}

} // verus!
