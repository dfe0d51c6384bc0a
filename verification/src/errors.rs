//! Failure taxonomy of the ledger.
//!
//! `UserError`s are caller-correctable and are surfaced verbatim; the
//! remaining variants are invariant violations, fatal for the current
//! operation, which aborts with no partial state change.

use vstd::prelude::*;

verus! {

/// Every way a ledger operation can fail.
#[derive(Clone, Copy, Debug, PartialEq, Eq, Structural)]
pub enum CoconutError {
    /// Registration was attempted for a key that is already mapped.
    AlreadyRegistered,
    /// A query named a key that is not mapped to any citizen.
    UnknownAccount,
    /// The sending side of a transfer is not a registered citizen.
    SenderNotRegistered,
    /// The receiving side of a transfer is not a registered citizen.
    RecipientNotRegistered,
    /// A transfer asked for more than the sender's young balance.
    InsufficientBalance,
    /// An addition or multiplication would exceed the 128-bit range.
    ArithmeticOverflow,
    /// The citizen-id counter is already at its maximum value.
    IdSpaceExhausted,
    /// A citizen id is referenced by the registry but absent from the store.
    CorruptLedger,
}

/// Which errors are caller-correctable, as opposed to invariant violations.
pub open spec fn spec_is_user_error(e: CoconutError) -> bool {
    match e {
        CoconutError::AlreadyRegistered => true,
        CoconutError::UnknownAccount => true,
        CoconutError::SenderNotRegistered => true,
        CoconutError::RecipientNotRegistered => true,
        CoconutError::InsufficientBalance => true,
        CoconutError::ArithmeticOverflow => false,
        CoconutError::IdSpaceExhausted => false,
        CoconutError::CorruptLedger => false,
    }
}

impl CoconutError {
    /// True for the caller-correctable errors, false for the fatal
    /// invariant violations.
    pub fn is_user_error(&self) -> (r: bool)
        ensures
            r == spec_is_user_error(*self),
    {
        match self {
            CoconutError::AlreadyRegistered => true,
            CoconutError::UnknownAccount => true,
            CoconutError::SenderNotRegistered => true,
            CoconutError::RecipientNotRegistered => true,
            CoconutError::InsufficientBalance => true,
            CoconutError::ArithmeticOverflow => false,
            CoconutError::IdSpaceExhausted => false,
            CoconutError::CorruptLedger => false,
        }
    }
}

} // verus!
