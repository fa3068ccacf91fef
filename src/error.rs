//! Errors reported by the coordinator's operations.
use vstd::prelude::*;

verus! {

/// Why an operation was refused. A refused operation changes nothing.
#[derive(PartialEq, Eq, Structural, Clone, Copy, Debug)]
pub enum SolLearnError {
    MustGreatThanMinStake,
    NoModelRegistered,
    ModelNotExist,
    ModelAlreadyExists,
    ModelHasMiners,
    NotActiveYet,
    AlreadyJoined,
    AlreadyActivated,
    MinerNotRegistered,
    InvalidModelIndex,
    StakingZeroValue,
    StillUnstaking,
    CanNotClaim,
    NothingToClaim,
    Unauthorized,
    FeeTooLow,
    ZeroValue,
    InferMustBeSolvingState,
    WrongRecipient,
    InferenceSeized,
    InvalidReveal,
    InvalidEpochId,
    WrongInferenceId,
    WrongAssignmentId,
    NoMinerAvailable,
    InsufficientMinersForCommittee,
    DeadlinePassed,
    NeedToWait,
    MustWaitTasks,
    NoValidTask,
    EpochRewardUpToDate,
    InvalidParameter,
    InsufficientFunds,
    UnknownStructField,
}

} // verus!
