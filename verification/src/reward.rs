//! How the combined stake of a finished game is divided.

use vstd::prelude::*;
use crate::config::BASIS_P;
use crate::game::Balance;
use crate::utils::{lemma_portion_split, portion, portion_of};

verus! {

/// Which seat a finished game favours.
#[derive(Clone, Copy, Debug, PartialEq, Eq, Structural)]
pub enum Verdict {
    /// The player in the first seat won.
    FirstWins,
    /// The player in the second seat won.
    SecondWins,
    /// Nobody won.
    Tie,
}

/// The division of a combined stake: what each player and each player's
/// referrer is paid, and what the service keeps.
#[derive(Clone, Copy, Debug, PartialEq, Eq, Structural)]
pub struct Payouts {
    pub first: Balance,
    pub second: Balance,
    pub first_referrer: Balance,
    pub second_referrer: Balance,
    pub retained: Balance,
}

/// The service fee on `balance` at `fee_rate` basis points.
pub open spec fn fee_of(balance: int, fee_rate: int) -> int {
    portion(balance, fee_rate, BASIS_P as int)
}

/// What is left of `balance` after the fee.
pub open spec fn prize_of(balance: int, fee_rate: int) -> int {
    balance - fee_of(balance, fee_rate)
}

/// What the referrer of one player is paid: half of the part of the fee that
/// `referrer_ratio` basis points give to referrers.
pub open spec fn referrer_share_of(balance: int, fee_rate: int, referrer_ratio: int) -> int {
    portion(fee_of(balance, fee_rate), referrer_ratio, BASIS_P as int) / 2
}

/// The division of `balance`.
///
/// A winner is paid the balance less the fee; after a tie each player is paid
/// half of that, rounded down. The referrer of each player who has one is paid
/// a share of the fee. The service keeps the rest of the fee, and the odd unit
/// that a tie cannot divide.
pub open spec fn payouts_of(
    balance: Balance,
    fee_rate: u32,
    referrer_ratio: u32,
    verdict: Verdict,
    first_referred: bool,
    second_referred: bool,
) -> Payouts {
    let fee = fee_of(balance as int, fee_rate as int);
    let prize = prize_of(balance as int, fee_rate as int);
    let share = referrer_share_of(balance as int, fee_rate as int, referrer_ratio as int);
    let first_referrer = if first_referred { share } else { 0 };
    let second_referrer = if second_referred { share } else { 0 };
    let first = match verdict {
        Verdict::FirstWins => prize,
        Verdict::SecondWins => 0,
        Verdict::Tie => prize / 2,
    };
    let second = match verdict {
        Verdict::FirstWins => 0,
        Verdict::SecondWins => prize,
        Verdict::Tie => prize / 2,
    };
    Payouts {
        first: first as u128,
        second: second as u128,
        first_referrer: first_referrer as u128,
        second_referrer: second_referrer as u128,
        retained: (balance - first - second - first_referrer - second_referrer) as u128,
    }
}

/// The parts of a division are amounts that fit, and the service never keeps
/// less than nothing: the fee is at most the balance, the referrers' shares
/// together at most the fee.
pub proof fn lemma_payouts_bounds(balance: int, fee_rate: int, referrer_ratio: int)
    requires
        0 <= balance,
        0 <= fee_rate <= BASIS_P,
        0 <= referrer_ratio <= BASIS_P,
    ensures
        0 <= fee_of(balance, fee_rate) <= balance,
        0 <= prize_of(balance, fee_rate) <= balance,
        0 <= referrer_share_of(balance, fee_rate, referrer_ratio),
        2 * referrer_share_of(balance, fee_rate, referrer_ratio) <= fee_of(balance, fee_rate),
        0 <= prize_of(balance, fee_rate) / 2,
        2 * (prize_of(balance, fee_rate) / 2) <= prize_of(balance, fee_rate),
{
    lemma_portion_split(balance, fee_rate, BASIS_P as int);
    lemma_portion_split(fee_of(balance, fee_rate), referrer_ratio, BASIS_P as int);
}

/// Conservation: whatever the outcome and whoever has a referrer, what is paid
/// out and what the service keeps add up to the combined stake, exactly.
pub proof fn lemma_payouts_conserve(
    balance: Balance,
    fee_rate: u32,
    referrer_ratio: u32,
    verdict: Verdict,
    first_referred: bool,
    second_referred: bool,
)
    requires
        fee_rate <= BASIS_P,
        referrer_ratio <= BASIS_P,
    ensures
        ({
            let p = payouts_of(balance, fee_rate, referrer_ratio, verdict, first_referred, second_referred);
            &&& p.first + p.second + p.first_referrer + p.second_referrer + p.retained == balance
            &&& p.first + p.second <= prize_of(balance as int, fee_rate as int)
            &&& p.retained >= fee_of(balance as int, fee_rate as int) - p.first_referrer - p.second_referrer
            &&& verdict != Verdict::Tie ==> p.retained == fee_of(balance as int, fee_rate as int) - p.first_referrer
                - p.second_referrer
        }),
{
    lemma_payouts_bounds(balance as int, fee_rate as int, referrer_ratio as int);
}

/// Divides `balance` as [`payouts_of`] says.
pub fn divide(
    balance: Balance,
    fee_rate: u32,
    referrer_ratio: u32,
    verdict: Verdict,
    first_referred: bool,
    second_referred: bool,
) -> (p: Payouts)
    requires
        fee_rate <= BASIS_P,
        referrer_ratio <= BASIS_P,
    ensures
        p == payouts_of(balance, fee_rate, referrer_ratio, verdict, first_referred, second_referred),
        p.first + p.second + p.first_referrer + p.second_referrer + p.retained == balance,
{
    proof {
        lemma_payouts_bounds(balance as int, fee_rate as int, referrer_ratio as int);
    }
    let fee: u128 = portion_of(balance, fee_rate, BASIS_P);
    let prize: u128 = balance - fee;
    let share: u128 = portion_of(fee, referrer_ratio, BASIS_P) / 2;
    let first_referrer: u128 = if first_referred { share } else { 0 };
    let second_referrer: u128 = if second_referred { share } else { 0 };
    let (first, second): (u128, u128) = match verdict {
        Verdict::FirstWins => (prize, 0),
        Verdict::SecondWins => (0, prize),
        Verdict::Tie => (prize / 2, prize / 2),
    };
    let retained: u128 = balance - first - second - first_referrer - second_referrer;
    Payouts { first, second, first_referrer, second_referrer, retained }
}

} // verus!
