//! The matchmaking queue: accounts that wait for an opponent with a deposit.

use vstd::prelude::*;
use crate::account::AccountId;
use crate::game::{Balance, Duration, Timestamp, TokenContractId};
use crate::table::{has_key, lemma_has_key, lemma_position, lemma_position_unique, position, unique_keys, value_of};
use crate::transfer::{Transfer, TransferPurpose};
use crate::utils::{elapsed, elapsed_since};

verus! {

/// What an account waits with: its deposit, the opponent it insists on, if
/// any, the account that referred it, if any, and since when it waits.
#[derive(Clone, Copy, Debug, PartialEq, Eq)]
pub struct GameConfig {
    pub token_id: TokenContractId,
    pub deposit: Balance,
    pub opponent_id: Option<AccountId>,
    pub referrer_id: Option<AccountId>,
    pub created_at: Timestamp,
}

/// A waiting account's record as it is listed.
pub type GameConfigView = GameConfig;

/// What an account may say when it registers: the opponent it insists on, and
/// the account that referred it.
#[derive(Clone, Copy, Debug, PartialEq, Eq)]
pub struct GameConfigArgs {
    pub opponent_id: Option<AccountId>,
    pub referrer_id: Option<AccountId>,
}

/// What an account may say when it registers with the native token.
pub type GameConfigNear = GameConfigArgs;

/// The waiting accounts with their records.
pub type Queue = Seq<(AccountId, GameConfig)>;

impl GameConfig {
    /// Whether at `now` the record has waited longer than `bound`.
    pub open spec fn stale(self, now: Timestamp, bound: Duration) -> bool {
        elapsed(now, self.created_at) > bound
    }

    /// Computes [`GameConfig::stale`].
    pub fn is_stale(&self, now: Timestamp, bound: Duration) -> (r: bool)
        ensures
            r == self.stale(now, bound),
    {
        elapsed_since(now, self.created_at) > bound
    }

    /// The request that pays the deposit back to `account`.
    pub open spec fn refund_to(self, account: AccountId) -> Transfer {
        Transfer {
            token_id: self.token_id,
            receiver_id: account,
            amount: self.deposit,
            purpose: TransferPurpose::Refund,
        }
    }

    /// The request that pays the deposit back to `account`.
    pub fn refund(&self, account: &AccountId) -> (transfer: Transfer)
        ensures
            transfer == self.refund_to(*account),
    {
        Transfer {
            token_id: self.token_id,
            receiver_id: *account,
            amount: self.deposit,
            purpose: TransferPurpose::Refund,
        }
    }
}

/// The records of `queue` that at `now` have not waited longer than `bound`,
/// in their order.
pub open spec fn fresh(queue: Queue, now: Timestamp, bound: Duration) -> Queue {
    queue.filter(|entry: (AccountId, GameConfig)| !entry.1.stale(now, bound))
}

/// The refunds of the records of `queue` that at `now` have waited longer
/// than `bound`, in their order.
pub open spec fn stale_refunds(queue: Queue, now: Timestamp, bound: Duration) -> Seq<Transfer> {
    queue.filter_map(
        |entry: (AccountId, GameConfig)|
            if entry.1.stale(now, bound) {
                Some(entry.1.refund_to(entry.0))
            } else {
                None
            },
    )
}

/// Of an empty queue nothing is kept and nothing is paid back.
pub proof fn lemma_sweep_nothing(now: Timestamp, bound: Duration)
    ensures
        fresh(Seq::empty(), now, bound) == Seq::<(AccountId, GameConfig)>::empty(),
        stale_refunds(Seq::empty(), now, bound) == Seq::<Transfer>::empty(),
{
    reveal(Seq::filter);
}

/// How [`fresh`] and [`stale_refunds`] go on from a queue to the queue with
/// one more record.
pub proof fn lemma_sweep_step(queue: Queue, now: Timestamp, bound: Duration)
    requires
        queue.len() > 0,
    ensures
        fresh(queue, now, bound) == if queue.last().1.stale(now, bound) {
            fresh(queue.drop_last(), now, bound)
        } else {
            fresh(queue.drop_last(), now, bound).push(queue.last())
        },
        stale_refunds(queue, now, bound) == if queue.last().1.stale(now, bound) {
            stale_refunds(queue.drop_last(), now, bound).push(queue.last().1.refund_to(queue.last().0))
        } else {
            stale_refunds(queue.drop_last(), now, bound)
        },
{
    reveal(Seq::filter);
    let front = stale_refunds(queue.drop_last(), now, bound);
    if queue.last().1.stale(now, bound) {
        assert(front + seq![queue.last().1.refund_to(queue.last().0)] == front.push(
            queue.last().1.refund_to(queue.last().0),
        ));
    }
}

/// Whether no record of `queue` has at `now` waited longer than `bound`.
pub open spec fn all_fresh(queue: Queue, now: Timestamp, bound: Duration) -> bool {
    forall|i: int| 0 <= i < queue.len() ==> !(#[trigger] queue[i]).1.stale(now, bound)
}

/// What [`fresh`] keeps: records of the queue, none of them stale, each
/// account at most once if that held before, and exactly the accounts whose
/// record is not stale.
pub proof fn lemma_fresh(queue: Queue, now: Timestamp, bound: Duration)
    ensures
        all_fresh(fresh(queue, now, bound), now, bound),
        fresh(queue, now, bound).len() <= queue.len(),
        forall|i: int|
            0 <= i < fresh(queue, now, bound).len() ==> exists|j: int|
                0 <= j < queue.len() && queue[j] == #[trigger] fresh(queue, now, bound)[i],
        forall|j: int|
            0 <= j < queue.len() && !(#[trigger] queue[j]).1.stale(now, bound) ==> exists|i: int|
                0 <= i < fresh(queue, now, bound).len() && fresh(queue, now, bound)[i] == queue[j],
        unique_keys(queue) ==> unique_keys(fresh(queue, now, bound)),
    decreases queue.len(),
{
    if queue.len() == 0 {
        lemma_sweep_nothing(now, bound);
        assert(queue == Seq::<(AccountId, GameConfig)>::empty());
    } else {
        lemma_sweep_step(queue, now, bound);
        let init = queue.drop_last();
        lemma_fresh(init, now, bound);
        let kept = fresh(queue, now, bound);
        let before = fresh(init, now, bound);
        assert forall|i: int| 0 <= i < kept.len() implies exists|j: int|
            0 <= j < queue.len() && queue[j] == #[trigger] kept[i] by {
            if i < before.len() {
                let j = choose|j: int| 0 <= j < init.len() && init[j] == before[i];
                assert(queue[j] == kept[i]);
            } else {
                assert(queue[queue.len() - 1] == kept[i]);
            }
        }
        assert forall|j: int| 0 <= j < queue.len() && !(#[trigger] queue[j]).1.stale(now, bound) implies exists|
            i: int,
        | 0 <= i < kept.len() && kept[i] == queue[j] by {
            if j < init.len() {
                assert(init[j] == queue[j]);
                let i = choose|i: int| 0 <= i < before.len() && before[i] == init[j];
                assert(kept[i] == queue[j]);
            } else {
                assert(kept[kept.len() - 1] == queue[j]);
            }
        }
        if unique_keys(queue) {
            assert(unique_keys(init)) by {
                assert forall|i: int, j: int| 0 <= i < j < init.len() implies (#[trigger] init[i]).0 != (
                #[trigger] init[j]).0 by {
                    assert(queue[i].0 != queue[j].0);
                }
            }
            assert forall|i: int, j: int| 0 <= i < j < kept.len() implies (#[trigger] kept[i]).0 != (
            #[trigger] kept[j]).0 by {
                if j < before.len() {
                    assert(before[i].0 != before[j].0);
                } else {
                    let k = choose|k: int| 0 <= k < init.len() && init[k] == before[i];
                    assert(queue[k].0 != queue[queue.len() - 1].0);
                }
            }
        }
    }
}

/// A queue without stale records is kept whole, and nothing is paid back.
pub proof fn lemma_fresh_all(queue: Queue, now: Timestamp, bound: Duration)
    requires
        all_fresh(queue, now, bound),
    ensures
        fresh(queue, now, bound) == queue,
        stale_refunds(queue, now, bound) == Seq::<Transfer>::empty(),
    decreases queue.len(),
{
    if queue.len() == 0 {
        lemma_sweep_nothing(now, bound);
        assert(queue == Seq::<(AccountId, GameConfig)>::empty());
    } else {
        lemma_sweep_step(queue, now, bound);
        let init = queue.drop_last();
        assert forall|i: int| 0 <= i < init.len() implies !(#[trigger] init[i]).1.stale(now, bound) by {
            assert(init[i] == queue[i]);
        }
        lemma_fresh_all(init, now, bound);
        assert(!queue[queue.len() - 1].1.stale(now, bound));
        assert(init.push(queue.last()) == queue);
    }
}

/// Among accounts that wait at most once, an account is kept by [`fresh`]
/// exactly if it waits and its record is not stale; its record stays the same.
pub proof fn lemma_fresh_key(queue: Queue, now: Timestamp, bound: Duration, account: AccountId)
    requires
        unique_keys(queue),
    ensures
        has_key(fresh(queue, now, bound), account) == (has_key(queue, account) && !value_of(
            queue,
            account,
        ).stale(now, bound)),
        has_key(fresh(queue, now, bound), account) ==> value_of(fresh(queue, now, bound), account) == value_of(
            queue,
            account,
        ),
{
    let kept = fresh(queue, now, bound);
    lemma_fresh(queue, now, bound);
    lemma_has_key(queue, account);
    lemma_has_key(kept, account);
    lemma_position(queue, account);
    lemma_position(kept, account);
    if has_key(kept, account) {
        let i = position(kept, account);
        let j = choose|j: int| 0 <= j < queue.len() && queue[j] == kept[i];
        lemma_position_unique(queue, j);
    }
    if has_key(queue, account) && !value_of(queue, account).stale(now, bound) {
        let j = position(queue, account);
        let i = choose|i: int| 0 <= i < kept.len() && kept[i] == queue[j];
        assert(kept[i].0 == account);
    }
}

/// Takes out of `queue` the records that at `now` have waited longer than
/// `bound`, and adds their refunds to `transfers`.
pub fn evict_stale(
    queue: &mut Vec<(AccountId, GameConfig)>,
    transfers: &mut Vec<Transfer>,
    now: Timestamp,
    bound: Duration,
)
    ensures
        final(queue)@ == fresh(old(queue)@, now, bound),
        final(transfers)@ == old(transfers)@ + stale_refunds(old(queue)@, now, bound),
{
    let mut kept: Vec<(AccountId, GameConfig)> = Vec::new();
    let mut i: usize = 0;
    proof {
        lemma_sweep_nothing(now, bound);
        assert(queue@.take(0) == Seq::<(AccountId, GameConfig)>::empty());
        assert(old(transfers)@ + Seq::<Transfer>::empty() == old(transfers)@);
    }
    while i < queue.len()
        invariant
            i <= queue.len(),
            *queue == *old(queue),
            kept@ == fresh(queue@.take(i as int), now, bound),
            transfers@ == old(transfers)@ + stale_refunds(queue@.take(i as int), now, bound),
        decreases queue.len() - i,
    {
        let entry = queue[i];
        proof {
            let next = queue@.take(i + 1);
            assert(next.drop_last() == queue@.take(i as int));
            assert(next.last() == entry);
            lemma_sweep_step(next, now, bound);
        }
        if entry.1.is_stale(now, bound) {
            transfers.push(entry.1.refund(&entry.0));
            assert(transfers@ == old(transfers)@ + stale_refunds(queue@.take(i + 1), now, bound));
        } else {
            kept.push(entry);
        }
        i += 1;
    }
    assert(queue@.take(queue.len() as int) == queue@);
    *queue = kept;
}

} // verus!
