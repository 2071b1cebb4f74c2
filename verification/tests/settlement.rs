use tic_tac_toe::config::BASIS_P;
use tic_tac_toe::reward::{divide, Payouts, Verdict};
use tic_tac_toe::utils::{elapsed_since, portion_of, sec_to_nano};

fn sum(p: &Payouts) -> u128 {
    p.first + p.second + p.first_referrer + p.second_referrer + p.retained
}

#[test]
fn seconds_become_nanoseconds() {
    assert_eq!(sec_to_nano(0), 0);
    assert_eq!(sec_to_nano(1), 1_000_000_000);
    assert_eq!(sec_to_nano(600), 600_000_000_000);
    assert_eq!(sec_to_nano(u32::MAX), 4_294_967_295_000_000_000);
}

#[test]
fn elapsed_time_is_never_negative() {
    assert_eq!(elapsed_since(10, 3), 7);
    assert_eq!(elapsed_since(3, 3), 0);
    assert_eq!(elapsed_since(3, 10), 0);
    assert_eq!(elapsed_since(u64::MAX, 0), u64::MAX);
}

#[test]
fn portion_rounds_down() {
    assert_eq!(portion_of(20, 1_000, BASIS_P), 2);
    assert_eq!(portion_of(19, 1_000, BASIS_P), 1);
    assert_eq!(portion_of(9, 1_000, BASIS_P), 0);
    assert_eq!(portion_of(10_000, 1, BASIS_P), 1);
    assert_eq!(portion_of(9_999, 1, BASIS_P), 0);
    assert_eq!(portion_of(12_345, 10_000, BASIS_P), 12_345);
    assert_eq!(portion_of(12_345, 0, BASIS_P), 0);
}

#[test]
fn portion_is_exact_up_to_the_largest_amount() {
    // floor(u128::MAX / 10) without an overflow on the way
    assert_eq!(portion_of(u128::MAX, 1_000, BASIS_P), 34_028_236_692_093_846_346_337_460_743_176_821_145);
    assert_eq!(portion_of(u128::MAX, BASIS_P, BASIS_P), u128::MAX);
    assert_eq!(portion_of(u128::MAX - 1, 5_000, BASIS_P), (u128::MAX - 1) / 2);
}

#[test]
fn winner_takes_the_stake_less_the_fee() {
    // one unit of ten parts each, ten percent fee: the winner gets 1.8 units
    let p = divide(20, 1_000, 5_000, Verdict::FirstWins, false, false);
    assert_eq!(p, Payouts { first: 18, second: 0, first_referrer: 0, second_referrer: 0, retained: 2 });
    let p = divide(20, 1_000, 5_000, Verdict::SecondWins, false, false);
    assert_eq!(p, Payouts { first: 0, second: 18, first_referrer: 0, second_referrer: 0, retained: 2 });
}

#[test]
fn tie_halves_the_stake_less_the_fee() {
    let p = divide(2_000, 1_000, 0, Verdict::Tie, false, false);
    assert_eq!(p, Payouts { first: 900, second: 900, first_referrer: 0, second_referrer: 0, retained: 200 });
}

#[test]
fn tie_leaves_the_odd_unit_with_the_service() {
    // fee 1, 19 left for two players: 9 each and one unit that cannot be divided
    let p = divide(20, 500, 0, Verdict::Tie, false, false);
    assert_eq!(p, Payouts { first: 9, second: 9, first_referrer: 0, second_referrer: 0, retained: 2 });
    assert_eq!(sum(&p), 20);
}

#[test]
fn referrers_share_their_part_of_the_fee() {
    // fee 1000, of which 95 percent are for referrers: 475 for each player's referrer
    let both = divide(10_000, 1_000, 9_500, Verdict::FirstWins, true, true);
    assert_eq!(
        both,
        Payouts { first: 9_000, second: 0, first_referrer: 475, second_referrer: 475, retained: 50 }
    );
    let one = divide(10_000, 1_000, 9_500, Verdict::FirstWins, true, false);
    assert_eq!(one, Payouts { first: 9_000, second: 0, first_referrer: 475, second_referrer: 0, retained: 525 });
    let other = divide(10_000, 1_000, 9_500, Verdict::Tie, false, true);
    assert_eq!(
        other,
        Payouts { first: 4_500, second: 4_500, first_referrer: 0, second_referrer: 475, retained: 525 }
    );
}

#[test]
fn nothing_is_lost_or_made() {
    let balances = [0u128, 1, 2, 3, 19, 20, 9_999, 10_000, 10_001, 2_000_000_000_000_000_000_000_000, u128::MAX - 1, u128::MAX];
    let rates = [0u32, 1, 10, 999, 1_000, 5_000, 9_999, 10_000];
    let verdicts = [Verdict::FirstWins, Verdict::SecondWins, Verdict::Tie];
    for balance in balances {
        for fee_rate in rates {
            for ratio in rates {
                for verdict in verdicts {
                    for first_referred in [false, true] {
                        for second_referred in [false, true] {
                            let p = divide(balance, fee_rate, ratio, verdict, first_referred, second_referred);
                            assert_eq!(
                                p.first
                                    .checked_add(p.second)
                                    .and_then(|s| s.checked_add(p.first_referrer))
                                    .and_then(|s| s.checked_add(p.second_referrer))
                                    .and_then(|s| s.checked_add(p.retained)),
                                Some(balance)
                            );
                            let fee = portion_of(balance, fee_rate, BASIS_P);
                            assert!(p.first_referrer + p.second_referrer <= fee);
                            if !first_referred {
                                assert_eq!(p.first_referrer, 0);
                            }
                            if !second_referred {
                                assert_eq!(p.second_referrer, 0);
                            }
                            match verdict {
                                Verdict::FirstWins => assert_eq!((p.first, p.second), (balance - fee, 0)),
                                Verdict::SecondWins => assert_eq!((p.first, p.second), (0, balance - fee)),
                                Verdict::Tie => {
                                    assert_eq!((p.first, p.second), ((balance - fee) / 2, (balance - fee) / 2))
                                }
                            }
                        }
                    }
                }
            }
        }
    }
}
