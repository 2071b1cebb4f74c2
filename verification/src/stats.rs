//! Per-account counters and cumulative amounts.

use vstd::prelude::*;
use crate::account::AccountId;
use crate::game::{count_up, next_count, Balance, TokenContractId};
use crate::table::{copy_of, find, has_key, has_unique_keys, lemma_position_keys, lemma_put, lookup, position, put};
use crate::table::unique_keys;
use crate::table::{lemma_position, lemma_put_again, lemma_unique_keys};

verus! {

/// What is counted for one account: games played, won and forfeited, and per
/// wager token what it was paid as a player and as a referrer.
#[derive(Debug, PartialEq, Eq)]
pub struct Stats {
    pub games_played: u64,
    pub victories_num: u64,
    pub penalties_num: u64,
    pub total_reward: Vec<(TokenContractId, Balance)>,
    pub total_affiliate_reward: Vec<(TokenContractId, Balance)>,
}

/// The record of an account as plain values.
pub struct StatsModel {
    pub games_played: u64,
    pub victories_num: u64,
    pub penalties_num: u64,
    pub total_reward: Seq<(TokenContractId, Balance)>,
    pub total_affiliate_reward: Seq<(TokenContractId, Balance)>,
}

impl View for Stats {
    type V = StatsModel;

    open spec fn view(&self) -> StatsModel {
        StatsModel {
            games_played: self.games_played,
            victories_num: self.victories_num,
            penalties_num: self.penalties_num,
            total_reward: self.total_reward@,
            total_affiliate_reward: self.total_affiliate_reward@,
        }
    }
}

/// How many penalties an account has.
#[derive(Clone, Copy, Debug, PartialEq, Eq, Structural)]
pub struct UserPenalties {
    pub penalties_num: u64,
}

/// The record of an account for which nothing was counted yet.
pub open spec fn blank() -> StatsModel {
    StatsModel {
        games_played: 0,
        victories_num: 0,
        penalties_num: 0,
        total_reward: Seq::empty(),
        total_affiliate_reward: Seq::empty(),
    }
}

/// The record that `ledger` holds for `account`; a blank one if it holds none.
pub open spec fn record_of(ledger: Seq<(AccountId, StatsModel)>, account: AccountId) -> StatsModel {
    match lookup(ledger, account) {
        Some(record) => record,
        None => blank(),
    }
}

/// The amount that `amounts` holds for `token_id`; zero if it holds none.
pub open spec fn amount_of(amounts: Seq<(TokenContractId, Balance)>, token_id: TokenContractId) -> Balance {
    match lookup(amounts, token_id) {
        Some(amount) => amount,
        None => 0,
    }
}

/// The sum of two amounts, as far as the balance type can count.
pub open spec fn sum_up(a: Balance, b: Balance) -> Balance {
    if a + b <= u128::MAX {
        (a + b) as u128
    } else {
        u128::MAX
    }
}

/// `amounts` with `amount` more for `token_id`.
pub open spec fn credited(amounts: Seq<(TokenContractId, Balance)>, token_id: TokenContractId, amount: Balance) -> Seq<
    (TokenContractId, Balance),
> {
    put(amounts, token_id, sum_up(amount_of(amounts, token_id), amount))
}

/// `ledger` with one more game played by `account`.
pub open spec fn with_game_played(ledger: Seq<(AccountId, StatsModel)>, account: AccountId) -> Seq<
    (AccountId, StatsModel),
> {
    let record = record_of(ledger, account);
    put(ledger, account, StatsModel { games_played: next_count(record.games_played), ..record })
}

/// `ledger` with one more victory of `account`.
pub open spec fn with_victory(ledger: Seq<(AccountId, StatsModel)>, account: AccountId) -> Seq<
    (AccountId, StatsModel),
> {
    let record = record_of(ledger, account);
    put(ledger, account, StatsModel { victories_num: next_count(record.victories_num), ..record })
}

/// `ledger` with one more penalty of `account`.
pub open spec fn with_penalty(ledger: Seq<(AccountId, StatsModel)>, account: AccountId) -> Seq<
    (AccountId, StatsModel),
> {
    let record = record_of(ledger, account);
    put(ledger, account, StatsModel { penalties_num: next_count(record.penalties_num), ..record })
}

/// `ledger` with `amount` of `token_id` more paid to the player `account`.
pub open spec fn with_reward(
    ledger: Seq<(AccountId, StatsModel)>,
    account: AccountId,
    token_id: TokenContractId,
    amount: Balance,
) -> Seq<(AccountId, StatsModel)> {
    let record = record_of(ledger, account);
    put(ledger, account, StatsModel { total_reward: credited(record.total_reward, token_id, amount), ..record })
}

/// `ledger` with `amount` of `token_id` more paid to the referrer `account`.
pub open spec fn with_affiliate_reward(
    ledger: Seq<(AccountId, StatsModel)>,
    account: AccountId,
    token_id: TokenContractId,
    amount: Balance,
) -> Seq<(AccountId, StatsModel)> {
    let record = record_of(ledger, account);
    put(
        ledger,
        account,
        StatsModel {
            total_affiliate_reward: credited(record.total_affiliate_reward, token_id, amount),
            ..record
        },
    )
}

/// `ledger` with `amount` of `token_id` more paid to `referrer`, if there is
/// a referrer and the amount is not zero.
pub open spec fn with_referral(
    ledger: Seq<(AccountId, StatsModel)>,
    referrer: Option<AccountId>,
    token_id: TokenContractId,
    amount: Balance,
) -> Seq<(AccountId, StatsModel)> {
    match referrer {
        Some(account) if amount > 0 => with_affiliate_reward(ledger, account, token_id, amount),
        _ => ledger,
    }
}

/// Whether a ledger has one record per account, and each record one amount
/// per token.
pub open spec fn ledger_wf(ledger: Seq<(AccountId, StatsModel)>) -> bool {
    &&& unique_keys(ledger)
    &&& forall|i: int|
        0 <= i < ledger.len() ==> unique_keys((#[trigger] ledger[i]).1.total_reward) && unique_keys(
            ledger[i].1.total_affiliate_reward,
        )
}

/// Putting a record with one amount per token keeps a ledger well formed.
pub proof fn lemma_put_record(ledger: Seq<(AccountId, StatsModel)>, account: AccountId, record: StatsModel)
    requires
        ledger_wf(ledger),
        unique_keys(record.total_reward),
        unique_keys(record.total_affiliate_reward),
    ensures
        ledger_wf(put(ledger, account, record)),
{
    lemma_put(ledger, account, record);
    lemma_position(ledger, account);
    let after = put(ledger, account, record);
    assert forall|i: int| 0 <= i < after.len() implies unique_keys((#[trigger] after[i]).1.total_reward)
        && unique_keys(after[i].1.total_affiliate_reward) by {
        // every record but the one put is a record of the ledger
        assert(i != position(ledger, account) ==> after[i] == ledger[i]);
    }
}

/// The record of an account in a well-formed ledger has one amount per token.
pub proof fn lemma_record_of(ledger: Seq<(AccountId, StatsModel)>, account: AccountId)
    requires
        ledger_wf(ledger),
    ensures
        unique_keys(record_of(ledger, account).total_reward),
        unique_keys(record_of(ledger, account).total_affiliate_reward),
{
    lemma_position(ledger, account);
}

/// Every counting step keeps a ledger well formed.
pub proof fn lemma_ledger_steps(
    ledger: Seq<(AccountId, StatsModel)>,
    account: AccountId,
    token_id: TokenContractId,
    amount: Balance,
)
    requires
        ledger_wf(ledger),
    ensures
        ledger_wf(with_game_played(ledger, account)),
        ledger_wf(with_victory(ledger, account)),
        ledger_wf(with_penalty(ledger, account)),
        ledger_wf(with_reward(ledger, account, token_id, amount)),
        ledger_wf(with_affiliate_reward(ledger, account, token_id, amount)),
{
    lemma_record_of(ledger, account);
    let record = record_of(ledger, account);
    lemma_put(record.total_reward, token_id, sum_up(amount_of(record.total_reward, token_id), amount));
    lemma_put(
        record.total_affiliate_reward,
        token_id,
        sum_up(amount_of(record.total_affiliate_reward, token_id), amount),
    );
    lemma_put_record(ledger, account, StatsModel { games_played: next_count(record.games_played), ..record });
    lemma_put_record(ledger, account, StatsModel { victories_num: next_count(record.victories_num), ..record });
    lemma_put_record(ledger, account, StatsModel { penalties_num: next_count(record.penalties_num), ..record });
    lemma_put_record(
        ledger,
        account,
        StatsModel { total_reward: credited(record.total_reward, token_id, amount), ..record },
    );
    lemma_put_record(
        ledger,
        account,
        StatsModel {
            total_affiliate_reward: credited(record.total_affiliate_reward, token_id, amount),
            ..record
        },
    );
}

/// Whether nothing counted in `before` is counted lower in `after`.
pub open spec fn never_less(before: StatsModel, after: StatsModel) -> bool {
    &&& before.games_played <= after.games_played
    &&& before.victories_num <= after.victories_num
    &&& before.penalties_num <= after.penalties_num
    &&& forall|token_id: TokenContractId| #[trigger]
        amount_of(before.total_reward, token_id) <= amount_of(after.total_reward, token_id)
    &&& forall|token_id: TokenContractId| #[trigger]
        amount_of(before.total_affiliate_reward, token_id) <= amount_of(after.total_affiliate_reward, token_id)
}

/// Whether `after` still has a record for every account that has one in
/// `before`, and counts nothing lower for any account.
pub open spec fn ledger_grew(before: Seq<(AccountId, StatsModel)>, after: Seq<(AccountId, StatsModel)>) -> bool {
    &&& forall|account: AccountId| has_key(before, account) ==> #[trigger] has_key(after, account)
    &&& forall|account: AccountId| #[trigger]
        never_less(record_of(before, account), record_of(after, account))
}

/// More of a token is never less of any token.
pub proof fn lemma_credited(amounts: Seq<(TokenContractId, Balance)>, token_id: TokenContractId, amount: Balance)
    ensures
        forall|other: TokenContractId| #[trigger]
            amount_of(amounts, other) <= amount_of(credited(amounts, token_id, amount), other),
        amount_of(credited(amounts, token_id, amount), token_id) == sum_up(amount_of(amounts, token_id), amount),
{
    lemma_put(amounts, token_id, sum_up(amount_of(amounts, token_id), amount));
}

/// Records are never lost and counters never fall: every counting step keeps
/// the records there are and counts nothing lower for any account.
pub proof fn lemma_ledger_grows(
    ledger: Seq<(AccountId, StatsModel)>,
    account: AccountId,
    token_id: TokenContractId,
    amount: Balance,
)
    ensures
        ledger_grew(ledger, with_game_played(ledger, account)),
        ledger_grew(ledger, with_victory(ledger, account)),
        ledger_grew(ledger, with_penalty(ledger, account)),
        ledger_grew(ledger, with_reward(ledger, account, token_id, amount)),
        ledger_grew(ledger, with_affiliate_reward(ledger, account, token_id, amount)),
{
    let record = record_of(ledger, account);
    lemma_credited(record.total_reward, token_id, amount);
    lemma_credited(record.total_affiliate_reward, token_id, amount);
    lemma_put(ledger, account, StatsModel { games_played: next_count(record.games_played), ..record });
    lemma_put(ledger, account, StatsModel { victories_num: next_count(record.victories_num), ..record });
    lemma_put(ledger, account, StatsModel { penalties_num: next_count(record.penalties_num), ..record });
    lemma_put(ledger, account, StatsModel { total_reward: credited(record.total_reward, token_id, amount), ..record });
    lemma_put(
        ledger,
        account,
        StatsModel {
            total_affiliate_reward: credited(record.total_affiliate_reward, token_id, amount),
            ..record
        },
    );
}

/// What grew and then grew again has grown.
pub proof fn lemma_ledger_grew_onward(
    first: Seq<(AccountId, StatsModel)>,
    then: Seq<(AccountId, StatsModel)>,
    last: Seq<(AccountId, StatsModel)>,
)
    requires
        ledger_grew(first, then),
        ledger_grew(then, last),
    ensures
        ledger_grew(first, last),
{
    assert forall|account: AccountId| #[trigger]
        never_less(record_of(first, account), record_of(last, account)) by {
        assert(never_less(record_of(first, account), record_of(then, account)));
        assert(never_less(record_of(then, account), record_of(last, account)));
    }
    assert forall|account: AccountId| has_key(first, account) implies #[trigger] has_key(last, account) by {
        assert(has_key(then, account));
    }
}

/// Adds `amount` to what `amounts` holds for `token_id`.
pub fn credit(amounts: &mut Vec<(TokenContractId, Balance)>, token_id: TokenContractId, amount: Balance)
    ensures
        final(amounts)@ == credited(old(amounts)@, token_id, amount),
{
    match find(amounts, &token_id) {
        Some(i) => {
            let held: u128 = amounts[i].1;
            let sum: u128 = if held <= u128::MAX - amount {
                held + amount
            } else {
                u128::MAX
            };
            amounts[i] = (token_id, sum);
        },
        None => {
            amounts.push((token_id, amount));
        },
    }
}

impl Stats {
    /// The record of an account for which nothing was counted yet.
    pub fn new() -> (stats: Stats)
        ensures
            stats@ == blank(),
    {
        Stats {
            games_played: 0,
            victories_num: 0,
            penalties_num: 0,
            total_reward: Vec::new(),
            total_affiliate_reward: Vec::new(),
        }
    }

    /// A copy of the record.
    pub fn duplicate(&self) -> (copy: Stats)
        ensures
            copy@ == self@,
    {
        Stats {
            games_played: self.games_played,
            victories_num: self.victories_num,
            penalties_num: self.penalties_num,
            total_reward: copy_of(&self.total_reward),
            total_affiliate_reward: copy_of(&self.total_affiliate_reward),
        }
    }
}

/// The records of all accounts, one per account, in the order in which the
/// accounts were first counted.
#[derive(Debug, PartialEq, Eq)]
pub struct StatsLedger {
    pub records: Vec<(AccountId, Stats)>,
}

impl View for StatsLedger {
    type V = Seq<(AccountId, StatsModel)>;

    open spec fn view(&self) -> Seq<(AccountId, StatsModel)> {
        self.records@.map_values(|entry: (AccountId, Stats)| (entry.0, entry.1@))
    }
}

impl StatsLedger {
    /// A ledger without records.
    pub fn new() -> (ledger: StatsLedger)
        ensures
            ledger@ == Seq::<(AccountId, StatsModel)>::empty(),
    {
        StatsLedger { records: Vec::new() }
    }

    /// Index of the record of `account`, which is made blank if there is none.
    fn slot(&mut self, account: &AccountId) -> (at: usize)
        ensures
            at == position(old(self)@, *account),
            at < final(self).records@.len(),
            final(self).records@[at as int].0 == *account,
            final(self).records@[at as int].1@ == record_of(old(self)@, *account),
            final(self)@ == put(old(self)@, *account, record_of(old(self)@, *account)),
    {
        proof {
            lemma_position_keys(self.records@, self@, *account);
            lemma_position(self@, *account);
        }
        match find(&self.records, account) {
            Some(i) => i,
            None => {
                self.records.push((*account, Stats::new()));
                self.records.len() - 1
            },
        }
    }

    /// Counts one more game played by `account`.
    pub fn add_played(&mut self, account: &AccountId)
        ensures
            final(self)@ == with_game_played(old(self)@, *account),
    {
        let at = self.slot(account);
        self.records[at].1.games_played = count_up(self.records[at].1.games_played);
        proof {
            let record = record_of(old(self)@, *account);
            let counted = StatsModel { games_played: next_count(record.games_played), ..record };
            lemma_put_again(old(self)@, *account, record, counted);
        }
    }

    /// Counts one more victory of `account`.
    pub fn add_victory(&mut self, account: &AccountId)
        ensures
            final(self)@ == with_victory(old(self)@, *account),
    {
        let at = self.slot(account);
        self.records[at].1.victories_num = count_up(self.records[at].1.victories_num);
        proof {
            let record = record_of(old(self)@, *account);
            let counted = StatsModel { victories_num: next_count(record.victories_num), ..record };
            lemma_put_again(old(self)@, *account, record, counted);
        }
    }

    /// Counts one more penalty of `account`.
    pub fn add_penalty(&mut self, account: &AccountId)
        ensures
            final(self)@ == with_penalty(old(self)@, *account),
    {
        let at = self.slot(account);
        self.records[at].1.penalties_num = count_up(self.records[at].1.penalties_num);
        proof {
            let record = record_of(old(self)@, *account);
            let counted = StatsModel { penalties_num: next_count(record.penalties_num), ..record };
            lemma_put_again(old(self)@, *account, record, counted);
        }
    }

    /// Counts `amount` of `token_id` more paid to the player `account`.
    pub fn add_reward(&mut self, account: &AccountId, token_id: TokenContractId, amount: Balance)
        ensures
            final(self)@ == with_reward(old(self)@, *account, token_id, amount),
    {
        let at = self.slot(account);
        credit(&mut self.records[at].1.total_reward, token_id, amount);
        proof {
            let record = record_of(old(self)@, *account);
            let paid = StatsModel { total_reward: credited(record.total_reward, token_id, amount), ..record };
            lemma_put_again(old(self)@, *account, record, paid);
        }
    }

    /// Counts `amount` of `token_id` more paid to the referrer `account`.
    pub fn add_affiliate_reward(&mut self, account: &AccountId, token_id: TokenContractId, amount: Balance)
        ensures
            final(self)@ == with_affiliate_reward(old(self)@, *account, token_id, amount),
    {
        let at = self.slot(account);
        credit(&mut self.records[at].1.total_affiliate_reward, token_id, amount);
        proof {
            let record = record_of(old(self)@, *account);
            let paid = StatsModel { total_affiliate_reward: credited(record.total_affiliate_reward, token_id, amount), ..record };
            lemma_put_again(old(self)@, *account, record, paid);
        }
    }

    /// Counts `amount` of `token_id` more paid to `referrer`, if there is a
    /// referrer and the amount is not zero.
    pub fn add_referral(&mut self, referrer: Option<AccountId>, token_id: TokenContractId, amount: Balance)
        ensures
            final(self)@ == with_referral(old(self)@, referrer, token_id, amount),
    {
        match referrer {
            Some(account) => {
                if amount > 0 {
                    self.add_affiliate_reward(&account, token_id, amount);
                }
            },
            None => {},
        }
    }

    /// The record of `account`; a blank one if nothing was counted for it.
    pub fn get(&self, account: &AccountId) -> (stats: Stats)
        ensures
            stats@ == record_of(self@, *account),
    {
        proof {
            lemma_position_keys(self.records@, self@, *account);
        }
        match find(&self.records, account) {
            Some(i) => self.records[i].1.duplicate(),
            None => Stats::new(),
        }
    }

    /// Computes [`ledger_wf`].
    pub fn is_well_formed(&self) -> (r: bool)
        ensures
            r == ledger_wf(self@),
    {
        proof {
            lemma_unique_keys(self.records@, self@);
        }
        if !has_unique_keys(&self.records) {
            return false;
        }
        let mut i: usize = 0;
        while i < self.records.len()
            invariant
                i <= self.records.len(),
                forall|k: int|
                    0 <= k < i ==> unique_keys((#[trigger] self@[k]).1.total_reward) && unique_keys(
                        self@[k].1.total_affiliate_reward,
                    ),
            decreases self.records.len() - i,
        {
            if !has_unique_keys(&self.records[i].1.total_reward) || !has_unique_keys(
                &self.records[i].1.total_affiliate_reward,
            ) {
                assert(self@[i as int].1 == self.records@[i as int].1@);
                return false;
            }
            assert(self@[i as int].1 == self.records@[i as int].1@);
            i += 1;
        }
        true
    }

    /// Number of accounts with a record.
    pub fn len(&self) -> (n: usize)
        ensures
            n == self@.len(),
    {
        self.records.len()
    }
}

} // verus!
