use vstd::prelude::*;

verus! {

/// Every failure a ledger operation can surface. Each operation aborts as a
/// whole on the first failed check and leaves the state untouched; the variant
/// says which check failed. `TransferFailed` is reserved for the host's value
/// transfer, which runs outside this library; no operation here produces it.
#[derive(Clone, Copy, PartialEq, Eq, Structural, Debug)]
pub enum OnClickContractError {
    PageNotFound,
    ProductNotFound,
    MilestoneNotFound,
    TransactionNotFound,
    HandleAlreadyTaken,
    InvalidHandle,
    NotPageOwner,
    InvalidRole,
    InsufficientFunds,
    InvalidAmount,
    PageNotActive,
    ProductNotActive,
    CampaignNotActive,
    TransferFailed,
    PaymentIntentNotFound,
    PaymentIntentExpired,
    PaymentIntentInactive,
    PaymentIntentMaxUsages,
    InvalidExpiration,
}

} // verus!
