use vstd::prelude::*;

verus! {

/// Everything that can make one of the three operations abort.  An aborted
/// operation leaves no trace: every function that returns one of these also
/// promises that the state it was handed is unchanged.
#[derive(Clone, Copy, Debug, PartialEq, Eq, Structural)]
pub enum EscrowError {
    /// A zero deposit or a zero receive amount at creation.
    InvalidAmount,
    /// The signer is not the recorded maker, or a presented account's
    /// authority does not match the party it was presented for.
    AuthorizationFault,
    /// The stored authority proof does not match a freshly recomputed
    /// derivation, or no derivation exists for the given inputs.
    DerivationMismatch,
    /// A supplied asset identifier does not match the record's `mint_a` or
    /// `mint_b`.
    AssetMismatch,
    /// The external asset-transfer service cannot fund a leg.
    InsufficientBalance,
    /// Creation would reuse the `(maker, seed)` key of an open record.
    DuplicateRecord,
    /// Cancel or settle named a record that is not open.
    RecordNotFound,
}

} // verus!
