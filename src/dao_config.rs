use vstd::prelude::*;

verus! {

/// Parameters of on-chain governance.
#[derive(Clone, Copy, Debug, PartialEq, Eq, Structural)]
pub struct DaoConfig {
    /// After a proposal is created, how long a voter waits before voting.
    pub voting_delay: u64,
    /// How long the voting window is.
    pub voting_period: u64,
    /// The share of votes, in percent, that a proposal needs; between 1 and 100.
    pub voting_quorum_rate: u8,
    /// How long a proposal waits before it can be executed.
    pub min_action_delay: u64,
}

} // verus!
