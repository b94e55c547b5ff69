use vstd::prelude::*;

verus! {

/// Why a staking query failed.
#[derive(Clone, Copy, Debug, PartialEq, Eq, Structural)]
pub enum StakingError {
    /// An object's contents ended before a whole `StakedSui` record was read.
    UnexpectedEndOfInput,
    /// An object's contents went on after a whole `StakedSui` record.
    RemainingInput,
    /// The simulated transaction did not execute successfully.
    ExecutionFailed,
    /// The simulation returned a different number of command outputs than
    /// commands were sent.
    MissingCommandOutputs,
    /// A command output carried no BCS return value.
    MissingBcs,
    /// A return value was not an eight-byte `u64`.
    MissingRewards,
    /// A return value was not a 32-byte `address`.
    MissingAddress,
}

/// The text that an error is reported with.
pub open spec fn error_message(e: StakingError) -> Seq<char> {
    match e {
        StakingError::UnexpectedEndOfInput => "unexpected end of input"@,
        StakingError::RemainingInput => "remaining input"@,
        StakingError::ExecutionFailed => "transaction execution failed"@,
        StakingError::MissingCommandOutputs => "missing transaction command_outputs"@,
        StakingError::MissingBcs => "missing bcs"@,
        StakingError::MissingRewards => "missing rewards"@,
        StakingError::MissingAddress => "missing address"@,
    }
}

/// Different failures are reported with different texts, so a report tells
/// which failure happened.
pub proof fn lemma_error_messages_distinct(a: StakingError, b: StakingError)
    ensures
        a != b ==> error_message(a) != error_message(b),
{
    reveal_strlit("unexpected end of input");
    reveal_strlit("remaining input");
    reveal_strlit("transaction execution failed");
    reveal_strlit("missing transaction command_outputs");
    reveal_strlit("missing bcs");
    reveal_strlit("missing rewards");
    reveal_strlit("missing address");
    if a != b {
        let x = error_message(a);
        let y = error_message(b);
        if x.len() == y.len() {
            assert(x[0] != y[0] || x[8] != y[8]);
        }
    }
}

impl StakingError {
    /// The text that this error is reported with.
    pub fn message(&self) -> (res: String)
        ensures
            res@ == error_message(*self),
    {
        match self {
            StakingError::UnexpectedEndOfInput => "unexpected end of input".to_owned(),
            StakingError::RemainingInput => "remaining input".to_owned(),
            StakingError::ExecutionFailed => "transaction execution failed".to_owned(),
            StakingError::MissingCommandOutputs => "missing transaction command_outputs".to_owned(),
            StakingError::MissingBcs => "missing bcs".to_owned(),
            StakingError::MissingRewards => "missing rewards".to_owned(),
            StakingError::MissingAddress => "missing address".to_owned(),
        }
    }
}

} // verus!
