use vstd::prelude::*;

verus! {

/// Failure taxonomy of the battle system.
///
/// Parse and range errors are recoverable at the input boundary (the caller
/// re-prompts); a runtime failure is fatal for the running match; a duplicate
/// mint is rejected; an exhausted total power is a distinguished terminal
/// condition for the affected party rather than a reason to halt everything.
#[derive(Clone, Copy, Debug, PartialEq, Eq, Structural)]
pub enum BattleError {
    /// A solicited value could not be read as an integer. Produced by the
    /// input boundary around the library, never by the engine itself.
    InputParseError,
    /// An integer was outside the bounds the operation demanded.
    InputRangeError,
    /// The encryption runtime could not carry out an operation; here this
    /// arises when a circuit result leaves the representable plaintext range.
    CryptoRuntimeFailure,
    /// A record already exists under the requested party name.
    DuplicateParty,
    /// The party's total power is zero, so no commitment can be staked.
    TotalPowerExhausted,
}

} // verus!
