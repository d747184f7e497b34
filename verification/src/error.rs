use vstd::prelude::*;

verus! {

/// The ways a greeting invocation can fail. Every failure leaves the account
/// buffer exactly as it was: mutation only happens on the success path.
#[derive(Clone, Copy, Debug, PartialEq, Eq, Structural)]
pub enum ProgramError {
    /// The expected first account was absent from the input sequence.
    MissingAccount,
    /// The account's recorded owner does not match the executing program's
    /// identity, so mutation is refused.
    IncorrectOwner,
    /// The account buffer cannot be decoded under the fixed four-byte layout.
    MalformedState,
    /// The buffer cannot hold the updated state's encoding.
    EncodeFailure,
}

} // verus!
