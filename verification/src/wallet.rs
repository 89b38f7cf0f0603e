//! Wallet records and the claim queue: the selection of a bounded batch of
//! eligible wallets, oldest first, and their transition into the exclusive
//! state in which exactly one worker sweeps them.

use crate::decimal::Amount;
use vstd::prelude::*;
use vstd::string::StringExecFns;

verus! {

/// Where a wallet stands in the sweep cycle.
#[derive(Debug, Clone, Copy, PartialEq, Eq, Structural)]
pub enum WalletStatus {
    /// Idle: the state in which every cycle ends.
    Free,
    /// Known to hold funds that were not swept yet.
    Sweepable,
    /// Claimed by one worker.
    SweepInProgress,
}

/// The text under which a status is stored.
pub open spec fn status_text(status: WalletStatus) -> Seq<char> {
    match status {
        WalletStatus::Free => "FREE"@,
        WalletStatus::Sweepable => "SWEEPABLE"@,
        WalletStatus::SweepInProgress => "SWEEP_IN_PROGRESS"@,
    }
}

/// The status that a stored text stands for.
pub open spec fn status_of_text(text: Seq<char>) -> Option<WalletStatus> {
    if text == "FREE"@ {
        Some(WalletStatus::Free)
    } else if text == "SWEEPABLE"@ {
        Some(WalletStatus::Sweepable)
    } else if text == "SWEEP_IN_PROGRESS"@ {
        Some(WalletStatus::SweepInProgress)
    } else {
        None
    }
}

impl WalletStatus {
    /// The text under which this status is stored.
    pub fn as_str(&self) -> (r: &'static str)
        ensures
            r@ == status_text(*self),
    {
        match self {
            WalletStatus::Free => "FREE",
            WalletStatus::Sweepable => "SWEEPABLE",
            WalletStatus::SweepInProgress => "SWEEP_IN_PROGRESS",
        }
    }

    /// The status that `text` stands for, if it stands for one.
    pub fn from_text(text: &str) -> (r: Option<WalletStatus>)
        ensures
            r == status_of_text(text@),
    {
        let given = String::from_str(text);
        if given == String::from_str("FREE") {
            Some(WalletStatus::Free)
        } else if given == String::from_str("SWEEPABLE") {
            Some(WalletStatus::Sweepable)
        } else if given == String::from_str("SWEEP_IN_PROGRESS") {
            Some(WalletStatus::SweepInProgress)
        } else {
            None
        }
    }
}

/// Storing a status and reading it back gives the same status.
pub proof fn lemma_status_text_round_trip(status: WalletStatus)
    ensures
        status_of_text(status_text(status)) == Some(status),
{
    reveal_strlit("FREE");
    reveal_strlit("SWEEPABLE");
    reveal_strlit("SWEEP_IN_PROGRESS");
    assert("FREE"@.len() == 4);
    assert("SWEEPABLE"@.len() == 9);
    assert("SWEEP_IN_PROGRESS"@.len() == 17);
}

/// A wallet record.
#[derive(Debug, PartialEq, Eq)]
pub struct Wallet {
    /// The record's unique identifier.
    pub id: [u8; 16],
    /// The user who owns the wallet.
    pub user_id: [u8; 16],
    /// The wallet's address on chain, as stored.
    pub wallet_address: String,
    /// Where the wallet stands in the sweep cycle.
    pub status: WalletStatus,
    /// An estimate of the native currency that the wallet holds for fees.
    pub active_gas: Amount,
    /// When the record was created; smaller is older.
    pub created_at: i64,
}

/// What a claim selects: wallets below the gas floor, at most `limit` of them.
#[derive(Debug, Clone, Copy, PartialEq, Eq)]
pub struct ClaimPolicy {
    pub gas_floor: Amount,
    pub limit: usize,
}

impl ClaimPolicy {
    /// The policy of the sweeper: a floor of one tenth, batches of one hundred.
    pub fn standard() -> (p: ClaimPolicy)
        ensures
            p.gas_floor == (Amount { mantissa: 1, scale: 1 }),
            p.limit == 100,
    {
        ClaimPolicy { gas_floor: Amount { mantissa: 1, scale: 1 }, limit: 100 }
    }
}

/// Whether a claim may select the wallet: it is sweepable and its gas estimate
/// is below the floor.
pub open spec fn eligible(w: Wallet, floor: Amount) -> bool {
    &&& w.status == WalletStatus::Sweepable
    &&& w.active_gas.wf()
    &&& floor.wf()
    &&& w.active_gas.scaled() < floor.scaled()
}

/// Whether row `i` comes before row `j` in the order of claims: it is older, or
/// as old and earlier in the table.
pub open spec fn claimed_before(t: Seq<Wallet>, i: int, j: int) -> bool {
    t[i].created_at < t[j].created_at || (t[i].created_at == t[j].created_at && i <= j)
}

/// The eligible row among the first `n` that comes before every other eligible
/// row among them.
pub open spec fn next_upto(t: Seq<Wallet>, floor: Amount, n: nat) -> Option<int>
    decreases n,
{
    if n == 0 {
        None
    } else {
        let before = next_upto(t, floor, (n - 1) as nat);
        let k = n - 1;
        if eligible(t[k], floor) && (before is None || t[k].created_at < t[before->0].created_at) {
            Some(k)
        } else {
            before
        }
    }
}

/// The row that a claim takes next: the oldest eligible row.
pub open spec fn next_claim(t: Seq<Wallet>, floor: Amount) -> Option<int> {
    next_upto(t, floor, t.len())
}

/// The wallet as a claim leaves it.
pub open spec fn in_progress(w: Wallet) -> Wallet {
    Wallet { status: WalletStatus::SweepInProgress, ..w }
}

/// The wallet as a release leaves it.
pub open spec fn freed(w: Wallet) -> Wallet {
    Wallet { status: WalletStatus::Free, ..w }
}

/// The rows that a claim of at most `limit` wallets takes, in the order in
/// which it takes them.
pub open spec fn claim_order(t: Seq<Wallet>, floor: Amount, limit: nat) -> Seq<int>
    decreases limit,
{
    if limit == 0 {
        Seq::empty()
    } else {
        match next_claim(t, floor) {
            None => Seq::empty(),
            Some(i) => seq![i] + claim_order(
                t.update(i, in_progress(t[i])),
                floor,
                (limit - 1) as nat,
            ),
        }
    }
}

/// The table after the rows in `order` were claimed.
pub open spec fn after_claim(t: Seq<Wallet>, order: Seq<int>) -> Seq<Wallet> {
    Seq::new(
        t.len(),
        |j: int|
            if order.contains(j) {
                in_progress(t[j])
            } else {
                t[j]
            },
    )
}

/// The wallets at the rows in `order`.
pub open spec fn rows_at(t: Seq<Wallet>, order: Seq<int>) -> Seq<Wallet> {
    Seq::new(order.len(), |k: int| t[order[k]])
}

/// What `next_upto` finds: nothing where no row among the first `n` is
/// eligible, else an eligible row that comes before every eligible row among
/// them.
pub proof fn lemma_next_upto(t: Seq<Wallet>, floor: Amount, n: nat)
    requires
        n <= t.len(),
    ensures
        match next_upto(t, floor, n) {
            Some(b) => {
                &&& 0 <= b < n
                &&& eligible(t[b], floor)
                &&& forall|j: int| 0 <= j < n && eligible(t[j], floor) ==> claimed_before(t, b, j)
            },
            None => forall|j: int| 0 <= j < n ==> !eligible(t[j], floor),
        },
    decreases n,
{
    if n > 0 {
        lemma_next_upto(t, floor, (n - 1) as nat);
        let before = next_upto(t, floor, (n - 1) as nat);
        let k = n - 1;
        match next_upto(t, floor, n) {
            Some(b) => {
                assert forall|j: int| 0 <= j < n && eligible(t[j], floor) implies claimed_before(
                    t,
                    b,
                    j,
                ) by {
                    if j < k && before is Some {
                        assert(claimed_before(t, before->0, j));
                    }
                }
            },
            None => {},
        }
    }
}

/// A copy of the wallet.
pub fn clone_wallet(w: &Wallet) -> (r: Wallet)
    ensures
        r == *w,
{
    Wallet {
        id: w.id,
        user_id: w.user_id,
        wallet_address: w.wallet_address.clone(),
        status: w.status,
        active_gas: w.active_gas,
        created_at: w.created_at,
    }
}

/// Whether a claim under `floor` may select the wallet.
pub fn is_eligible(w: &Wallet, floor: &Amount) -> (r: bool)
    ensures
        r == eligible(*w, *floor),
{
    match w.status {
        WalletStatus::Sweepable => w.active_gas.is_valid() && floor.is_valid()
            && w.active_gas.less_than(floor),
        _ => false,
    }
}

/// The row that a claim takes next.
pub fn find_next(table: &Vec<Wallet>, floor: &Amount) -> (r: Option<usize>)
    ensures
        match r {
            Some(i) => i < table.len() && next_claim(table@, *floor) == Some(i as int),
            None => next_claim(table@, *floor) is None,
        },
{
    let mut best: Option<usize> = None;
    let mut k: usize = 0;
    while k < table.len()
        invariant
            k <= table.len(),
            match best {
                Some(b) => next_upto(table@, *floor, k as nat) == Some(b as int) && b < k,
                None => next_upto(table@, *floor, k as nat) is None,
            },
        decreases table.len() - k,
    {
        if is_eligible(&table[k], floor) {
            match best {
                None => {
                    best = Some(k);
                },
                Some(b) => {
                    if table[k].created_at < table[b].created_at {
                        best = Some(k);
                    }
                },
            }
        }
        k = k + 1;
    }
    best
}

/// The rows as they are written where they stand in the table.
pub open spec fn row_numbers(rows: Seq<usize>) -> Seq<int> {
    Seq::new(rows.len(), |k: int| rows[k] as int)
}

/// Claims a batch and says where it stood: like [`claim_batch`], and with the
/// wallets the rows of the table from which they were taken, in the same order.
pub fn claim_batch_rows(table: &mut Vec<Wallet>, policy: &ClaimPolicy) -> (r: (
    Vec<Wallet>,
    Vec<usize>,
))
    ensures
        row_numbers(r.1@) == claim_order(old(table)@, policy.gas_floor, policy.limit as nat),
        r.0@ == rows_at(old(table)@, row_numbers(r.1@)),
        final(table)@ == after_claim(old(table)@, row_numbers(r.1@)),
{
    let ghost start = table@;
    let ghost floor = policy.gas_floor;
    let ghost mut done: Seq<int> = Seq::empty();
    let mut claimed: Vec<Wallet> = Vec::new();
    let mut rows: Vec<usize> = Vec::new();
    let mut open = true;
    proof {
        assert(table@ =~= after_claim(start, done));
        assert(claimed@ =~= rows_at(start, done));
        assert(row_numbers(rows@) =~= done);
    }
    while open && claimed.len() < policy.limit
        invariant
            floor == policy.gas_floor,
            claimed@.len() == done.len() <= policy.limit,
            row_numbers(rows@) == done,
            claimed@ == rows_at(start, done),
            table@ == after_claim(start, done),
            table@.len() == start.len(),
            forall|k: int| 0 <= k < done.len() ==> 0 <= #[trigger] done[k] < start.len(),
            open ==> claim_order(start, floor, policy.limit as nat) == done + claim_order(
                table@,
                floor,
                (policy.limit - done.len()) as nat,
            ),
            !open ==> claim_order(start, floor, policy.limit as nat) == done,
        decreases (if open { 1int } else { 0int }), policy.limit - claimed.len(),
    {
        match find_next(table, &policy.gas_floor) {
            None => {
                proof {
                    assert(done + Seq::<int>::empty() =~= done);
                }
                open = false;
            },
            Some(i) => {
                let snapshot = clone_wallet(&table[i]);
                let mut marked = clone_wallet(&table[i]);
                marked.status = WalletStatus::SweepInProgress;
                proof {
                    lemma_next_upto(table@, floor, table@.len());
                    // an eligible row was not claimed before
                    assert(!done.contains(i as int)) by {
                        if done.contains(i as int) {
                            assert(table@[i as int] == in_progress(start[i as int]));
                        }
                    }
                    assert(table@[i as int] == start[i as int]);
                    let rest = claim_order(
                        table@.update(i as int, in_progress(table@[i as int])),
                        floor,
                        (policy.limit - done.len() - 1) as nat,
                    );
                    assert(done + (seq![i as int] + rest) =~= done.push(i as int) + rest);
                    let grown = done.push(i as int);
                    assert(claimed@.push(snapshot) =~= rows_at(start, grown));
                    assert(row_numbers(rows@.push(i)) =~= grown);
                    assert(table@.update(i as int, marked) =~= after_claim(start, grown)) by {
                        assert forall|j: int| 0 <= j < start.len() implies (#[trigger] table@.update(
                            i as int,
                            marked,
                        )[j]) == after_claim(start, grown)[j] by {
                            if j == i {
                                assert(grown[done.len() as int] == j);
                            } else if done.contains(j) {
                                let k = choose|k: int| 0 <= k < done.len() && done[k] == j;
                                assert(grown[k] == j);
                            } else {
                                if grown.contains(j) {
                                    let k = choose|k: int| 0 <= k < grown.len() && grown[k] == j;
                                    assert(done[k] == j);
                                }
                            }
                        }
                    }
                    done = grown;
                }
                claimed.push(snapshot);
                rows.push(i);
                table.set(i, marked);
            },
        }
    }
    (claimed, rows)
}

/// Claims a batch: selects up to `policy.limit` eligible wallets, oldest first,
/// marks each of them as in progress in the table, and returns them as they
/// were before the claim.
pub fn claim_batch(table: &mut Vec<Wallet>, policy: &ClaimPolicy) -> (claimed: Vec<Wallet>)
    ensures
        claimed@ == rows_at(
            old(table)@,
            claim_order(old(table)@, policy.gas_floor, policy.limit as nat),
        ),
        final(table)@ == after_claim(
            old(table)@,
            claim_order(old(table)@, policy.gas_floor, policy.limit as nat),
        ),
{
    let (claimed, _rows) = claim_batch_rows(table, policy);
    claimed
}

/// Releases a wallet: whatever its status was, it is free afterwards, and
/// nothing else of it changes.
pub fn mark_wallet_free(wallet: Wallet) -> (r: Wallet)
    ensures
        r == freed(wallet),
{
    let mut wallet = wallet;
    wallet.status = WalletStatus::Free;
    wallet
}

/// What a claim takes. It takes at most `limit` rows; each of them is an
/// eligible row of the table, and none is taken twice; they come oldest first;
/// and an eligible row is left behind only by a full batch, every row of which
/// comes before it.
pub proof fn lemma_claim_order(t: Seq<Wallet>, floor: Amount, limit: nat)
    ensures
        claim_order(t, floor, limit).len() <= limit,
        forall|k: int|
            0 <= k < claim_order(t, floor, limit).len() ==> {
                &&& 0 <= (#[trigger] claim_order(t, floor, limit)[k]) < t.len()
                &&& eligible(t[claim_order(t, floor, limit)[k]], floor)
            },
        forall|a: int, b: int|
            0 <= a < b < claim_order(t, floor, limit).len() ==> {
                &&& claim_order(t, floor, limit)[a] != claim_order(t, floor, limit)[b]
                &&& claimed_before(
                    t,
                    #[trigger] claim_order(t, floor, limit)[a],
                    #[trigger] claim_order(t, floor, limit)[b],
                )
            },
        forall|j: int|
            0 <= j < t.len() && #[trigger] eligible(t[j], floor) && !claim_order(
                t,
                floor,
                limit,
            ).contains(j) ==> {
                &&& claim_order(t, floor, limit).len() == limit
                &&& forall|k: int|
                    0 <= k < claim_order(t, floor, limit).len() ==> claimed_before(
                        t,
                        #[trigger] claim_order(t, floor, limit)[k],
                        j,
                    )
            },
    decreases limit,
{
    let order = claim_order(t, floor, limit);
    lemma_next_upto(t, floor, t.len());
    if limit == 0 {
    } else {
        match next_claim(t, floor) {
            None => {},
            Some(i) => {
                let t2 = t.update(i, in_progress(t[i]));
                let rest = claim_order(t2, floor, (limit - 1) as nat);
                lemma_claim_order(t2, floor, (limit - 1) as nat);
                assert(order == seq![i] + rest);
                assert(order[0] == i);
                assert forall|k: int| 1 <= k < order.len() implies {
                    &&& order[k] == rest[k - 1]
                    &&& order[k] != i
                    &&& 0 <= order[k] < t.len()
                    &&& eligible(t[order[k]], floor)
                } by {
                    assert(order[k] == rest[k - 1]);
                    assert(eligible(t2[rest[k - 1]], floor));
                }
                assert forall|a: int, b: int| 0 <= a < b < order.len() implies {
                    &&& order[a] != order[b]
                    &&& claimed_before(t, order[a], order[b])
                } by {
                    assert(order[b] == rest[b - 1]);
                    if a == 0 {
                    } else {
                        assert(order[a] == rest[a - 1]);
                        assert(claimed_before(t2, rest[a - 1], rest[b - 1]));
                    }
                }
                assert forall|j: int|
                    0 <= j < t.len() && #[trigger] eligible(t[j], floor) && !order.contains(
                        j,
                    ) implies {
                    &&& order.len() == limit
                    &&& forall|k: int|
                        0 <= k < order.len() ==> claimed_before(t, #[trigger] order[k], j)
                } by {
                    assert(j != i);
                    assert(eligible(t2[j], floor));
                    if rest.contains(j) {
                        let k = choose|k: int| 0 <= k < rest.len() && rest[k] == j;
                        assert(order[k + 1] == j);
                    }
                    assert forall|k: int| 0 <= k < order.len() implies claimed_before(
                        t,
                        #[trigger] order[k],
                        j,
                    ) by {
                        if k > 0 {
                            assert(order[k] == rest[k - 1]);
                            assert(claimed_before(t2, rest[k - 1], j));
                        }
                    }
                }
            },
        }
    }
}

/// No wallet is claimed twice: a claim on the table that an earlier claim left
/// takes none of the rows that the earlier claim took, whatever its floor and
/// its limit.
pub proof fn lemma_second_claim_is_disjoint(
    t: Seq<Wallet>,
    floor: Amount,
    limit: nat,
    later_floor: Amount,
    later_limit: nat,
)
    ensures
        forall|a: int, b: int|
            0 <= a < claim_order(t, floor, limit).len() && 0 <= b < claim_order(
                after_claim(t, claim_order(t, floor, limit)),
                later_floor,
                later_limit,
            ).len() ==> #[trigger] claim_order(t, floor, limit)[a] != #[trigger] claim_order(
                after_claim(t, claim_order(t, floor, limit)),
                later_floor,
                later_limit,
            )[b],
{
    let first = claim_order(t, floor, limit);
    let t2 = after_claim(t, first);
    let second = claim_order(t2, later_floor, later_limit);
    lemma_claim_order(t, floor, limit);
    lemma_claim_order(t2, later_floor, later_limit);
    assert forall|a: int, b: int| 0 <= a < first.len() && 0 <= b < second.len() implies first[a]
        != second[b] by {
        assert(first.contains(first[a]));
        assert(t2[first[a]] == in_progress(t[first[a]]));
        assert(eligible(t2[second[b]], later_floor));
    }
}

/// Every wallet that a claim returns is in progress in the table afterwards,
/// and every other row is as it was.
pub proof fn lemma_claim_marks_exactly_the_claimed(t: Seq<Wallet>, order: Seq<int>, j: int)
    requires
        0 <= j < t.len(),
    ensures
        order.contains(j) ==> after_claim(t, order)[j].status == WalletStatus::SweepInProgress,
        !order.contains(j) ==> after_claim(t, order)[j] == t[j],
        after_claim(t, order)[j].id == t[j].id,
        after_claim(t, order).len() == t.len(),
{
}

/// Releasing a wallet that is free changes nothing, and releasing twice is
/// releasing once.
pub proof fn lemma_release_is_idempotent(w: Wallet)
    ensures
        w.status == WalletStatus::Free ==> freed(w) == w,
        freed(freed(w)) == freed(w),
        freed(w).status == WalletStatus::Free,
{
}

} // verus!
