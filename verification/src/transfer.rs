//! Requests to the ledger to pay an account.

use vstd::prelude::*;
use crate::account::AccountId;
use crate::game::{Balance, TokenContractId};

verus! {

/// What a payment is for.
#[derive(Clone, Copy, Debug, PartialEq, Eq, Structural)]
pub enum TransferPurpose {
    /// A deposit goes back to the account that waited with it.
    Refund,
    /// The winner's prize.
    Reward,
    /// A player's half after a tie.
    TieRefund,
    /// A referrer's part of the service fee.
    ReferralFee,
}

/// A request to the ledger to pay `amount` of `token_id` to `receiver_id`.
#[derive(Clone, Copy, Debug, PartialEq, Eq)]
pub struct Transfer {
    pub token_id: TokenContractId,
    pub receiver_id: AccountId,
    pub amount: Balance,
    pub purpose: TransferPurpose,
}

/// What the ledger answered to a request.
#[derive(Clone, Copy, Debug, PartialEq, Eq, Structural)]
pub enum TransferOutcome {
    Success,
    Failure,
}

/// Sum of the amounts of `transfers`.
pub open spec fn total(transfers: Seq<Transfer>) -> int
    decreases transfers.len(),
{
    if transfers.len() == 0 {
        0
    } else {
        total(transfers.drop_last()) + transfers.last().amount
    }
}

/// `transfers` with one more request, unless the amount is zero.
pub open spec fn with_payment(
    transfers: Seq<Transfer>,
    token_id: TokenContractId,
    receiver_id: AccountId,
    amount: Balance,
    purpose: TransferPurpose,
) -> Seq<Transfer> {
    if amount == 0 {
        transfers
    } else {
        transfers.push(Transfer { token_id, receiver_id, amount, purpose })
    }
}

/// `transfers` with one more request to the referrer, if there is one and the
/// amount is not zero.
pub open spec fn with_referral_payment(
    transfers: Seq<Transfer>,
    token_id: TokenContractId,
    referrer: Option<AccountId>,
    amount: Balance,
) -> Seq<Transfer> {
    match referrer {
        Some(receiver_id) => with_payment(transfers, token_id, receiver_id, amount, TransferPurpose::ReferralFee),
        None => transfers,
    }
}

/// Adds a request to `transfers`, unless the amount is zero.
pub fn add_payment(
    transfers: &mut Vec<Transfer>,
    token_id: TokenContractId,
    receiver_id: AccountId,
    amount: Balance,
    purpose: TransferPurpose,
)
    ensures
        final(transfers)@ == with_payment(old(transfers)@, token_id, receiver_id, amount, purpose),
        total(final(transfers)@) == total(old(transfers)@) + amount,
{
    if amount != 0 {
        transfers.push(Transfer { token_id, receiver_id, amount, purpose });
        assert(transfers@.drop_last() == old(transfers)@);
    }
}

/// Adds a request to the referrer to `transfers`, if there is a referrer and
/// the amount is not zero.
pub fn add_referral_payment(
    transfers: &mut Vec<Transfer>,
    token_id: TokenContractId,
    referrer: Option<AccountId>,
    amount: Balance,
)
    ensures
        final(transfers)@ == with_referral_payment(old(transfers)@, token_id, referrer, amount),
        total(final(transfers)@) == total(old(transfers)@) + if referrer.is_some() {
            amount as int
        } else {
            0
        },
{
    match referrer {
        Some(receiver_id) => {
            add_payment(transfers, token_id, receiver_id, amount, TransferPurpose::ReferralFee);
        },
        None => {},
    }
}

/// One more payment adds its amount to the sum.
pub proof fn lemma_total_with_payment(
    transfers: Seq<Transfer>,
    token_id: TokenContractId,
    receiver_id: AccountId,
    amount: Balance,
    purpose: TransferPurpose,
)
    ensures
        total(with_payment(transfers, token_id, receiver_id, amount, purpose)) == total(transfers) + amount,
{
    if amount != 0 {
        let grown = with_payment(transfers, token_id, receiver_id, amount, purpose);
        assert(grown.drop_last() == transfers);
    }
}

/// A payment to a referrer adds its amount to the sum, if there is a referrer.
pub proof fn lemma_total_with_referral_payment(
    transfers: Seq<Transfer>,
    token_id: TokenContractId,
    referrer: Option<AccountId>,
    amount: Balance,
)
    ensures
        total(with_referral_payment(transfers, token_id, referrer, amount)) == total(transfers) + if referrer.is_some() {
            amount as int
        } else {
            0
        },
{
    if referrer.is_some() {
        lemma_total_with_payment(transfers, token_id, referrer.unwrap(), amount, TransferPurpose::ReferralFee);
    }
}

} // verus!
