//! The balance ledger: one running balance for each user, token and chain, and
//! the append-only receipts of the transfers that were credited to it.

use crate::decimal::Amount;
use crate::error::{internal_error, AppError};
use vstd::prelude::*;
use vstd::string::StringExecFns;

verus! {

/// What a balance is kept for: a user, a token and a chain.
pub struct LedgerKey {
    pub user: Seq<u8>,
    pub token: Seq<char>,
    pub chain: Seq<char>,
}

/// The running balance of one user in one token on one chain.
#[derive(Debug, PartialEq, Eq)]
pub struct BalanceEntry {
    pub id: [u8; 16],
    pub user_id: [u8; 16],
    pub token: String,
    pub chain: String,
    pub balance: Amount,
    pub created_at: i64,
    pub updated_at: i64,
}

/// The record of one confirmed transfer. Receipts are never changed or removed.
#[derive(Debug, PartialEq, Eq)]
pub struct DepositReceipt {
    pub id: [u8; 16],
    pub user_id: [u8; 16],
    pub user_address: String,
    pub token: String,
    pub chain: String,
    pub amount: Amount,
    pub txn_hash: String,
    pub created_at: i64,
    pub updated_at: i64,
}

/// One confirmed transfer that waits to be credited.
#[derive(Debug, PartialEq, Eq)]
pub struct Deposit {
    pub user_id: [u8; 16],
    pub wallet_address: String,
    pub token_address: String,
    pub chain_name: String,
    pub amount: Amount,
    pub tx_hash: String,
}

/// The balances and the receipts.
#[derive(Debug, PartialEq, Eq)]
pub struct Ledger {
    pub balances: Vec<BalanceEntry>,
    pub receipts: Vec<DepositReceipt>,
}

impl BalanceEntry {
    /// What the balance is kept for.
    pub open spec fn key(&self) -> LedgerKey {
        LedgerKey { user: self.user_id@, token: self.token@, chain: self.chain@ }
    }
}

impl DepositReceipt {
    /// What the receipt was credited to.
    pub open spec fn key(&self) -> LedgerKey {
        LedgerKey { user: self.user_id@, token: self.token@, chain: self.chain@ }
    }
}

impl Deposit {
    /// What the deposit is credited to.
    pub open spec fn key(&self) -> LedgerKey {
        LedgerKey { user: self.user_id@, token: self.token_address@, chain: self.chain_name@ }
    }

    /// The receipt that is written for the deposit.
    pub open spec fn receipt(&self, id: [u8; 16], now: i64) -> DepositReceipt {
        DepositReceipt {
            id,
            user_id: self.user_id,
            user_address: self.wallet_address,
            token: self.token_address,
            chain: self.chain_name,
            amount: self.amount,
            txn_hash: self.tx_hash,
            created_at: now,
            updated_at: now,
        }
    }

    /// The balance that is opened by the deposit where the key had none.
    pub open spec fn opening(&self, id: [u8; 16], now: i64) -> BalanceEntry {
        BalanceEntry {
            id,
            user_id: self.user_id,
            token: self.token_address,
            chain: self.chain_name,
            balance: self.amount,
            created_at: now,
            updated_at: now,
        }
    }
}

/// The sum of the amounts of the receipts for `key`, in units of `10^-28`.
pub open spec fn receipts_total(receipts: Seq<DepositReceipt>, key: LedgerKey) -> nat
    decreases receipts.len(),
{
    if receipts.len() == 0 {
        0
    } else {
        receipts_total(receipts.drop_last(), key) + if receipts.last().key() == key {
            receipts.last().amount.scaled()
        } else {
            0
        }
    }
}

/// Whether a balance is kept for `key`.
pub open spec fn has_entry(balances: Seq<BalanceEntry>, key: LedgerKey) -> bool {
    exists|i: int| 0 <= i < balances.len() && (#[trigger] balances[i]).key() == key
}

/// The balance kept for `key` in units of `10^-28`; zero where none is kept.
pub open spec fn balance_value(balances: Seq<BalanceEntry>, key: LedgerKey) -> nat {
    if has_entry(balances, key) {
        let i = choose|i: int| 0 <= i < balances.len() && (#[trigger] balances[i]).key() == key;
        balances[i].balance.scaled()
    } else {
        0
    }
}

/// The balance that is kept for `key`, where one is kept.
pub open spec fn kept_balance(balances: Seq<BalanceEntry>, key: LedgerKey) -> Option<Amount> {
    if has_entry(balances, key) {
        let i = choose|i: int| 0 <= i < balances.len() && (#[trigger] balances[i]).key() == key;
        Some(balances[i].balance)
    } else {
        None
    }
}

/// The balances by their keys.
pub open spec fn ledger_map(balances: Seq<BalanceEntry>) -> Map<LedgerKey, Amount> {
    Map::new(|key: LedgerKey| has_entry(balances, key), |key: LedgerKey| kept_balance(balances, key)->0)
}

/// The balances after an amount was credited to a key: the key's balance is
/// the amount where it had none, else the exact sum of its balance and the
/// amount. `None` where that sum cannot be had exactly.
pub open spec fn credit_map(m: Map<LedgerKey, Amount>, key: LedgerKey, amount: Amount) -> Option<
    Map<LedgerKey, Amount>,
> {
    if m.dom().contains(key) {
        match m[key].checked_sum_spec(amount) {
            Some(sum) => Some(m.insert(key, sum)),
            None => None,
        }
    } else {
        Some(m.insert(key, amount))
    }
}

/// The balances after the deposits were credited, one after the other; `None`
/// where one of the sums cannot be had exactly.
pub open spec fn credit_all_map(m: Map<LedgerKey, Amount>, deposits: Seq<Deposit>) -> Option<
    Map<LedgerKey, Amount>,
>
    decreases deposits.len(),
{
    if deposits.len() == 0 {
        Some(m)
    } else {
        match credit_all_map(m, deposits.drop_last()) {
            None => None,
            Some(before) => credit_map(before, deposits.last().key(), deposits.last().amount),
        }
    }
}

/// Whether no two balances are kept for the same key.
pub open spec fn distinct_keys(balances: Seq<BalanceEntry>) -> bool {
    forall|i: int, j: int|
        0 <= i < j < balances.len() ==> (#[trigger] balances[i]).key() != (#[trigger] balances[j]).key()
}

/// Where no key is kept twice, the balance kept for a key is the balance of
/// the one entry with that key.
pub proof fn lemma_kept_balance(balances: Seq<BalanceEntry>, i: int)
    requires
        distinct_keys(balances),
        0 <= i < balances.len(),
    ensures
        has_entry(balances, balances[i].key()),
        kept_balance(balances, balances[i].key()) == Some(balances[i].balance),
{
    let key = balances[i].key();
    let j = choose|j: int| 0 <= j < balances.len() && (#[trigger] balances[j]).key() == key;
    if j < i {
        assert(balances[j].key() != balances[i].key());
    } else if i < j {
        assert(balances[i].key() != balances[j].key());
    }
}

/// Crediting that failed for some of the deposits fails for all of them.
pub proof fn lemma_credit_all_stops(m: Map<LedgerKey, Amount>, deposits: Seq<Deposit>, k: int)
    requires
        0 <= k <= deposits.len(),
        credit_all_map(m, deposits.subrange(0, k)) is None,
    ensures
        credit_all_map(m, deposits) is None,
    decreases deposits.len(),
{
    if k == deposits.len() {
        assert(deposits.subrange(0, k) =~= deposits);
    } else {
        assert(deposits.drop_last().subrange(0, k) =~= deposits.subrange(0, k));
        lemma_credit_all_stops(m, deposits.drop_last(), k);
    }
}

/// An entry with a new balance, touched at `now`.
pub open spec fn credited(entry: BalanceEntry, balance: Amount, now: i64) -> BalanceEntry {
    BalanceEntry { balance, updated_at: now, ..entry }
}

/// Adding one receipt adds its amount to the total of its key and to no other.
pub proof fn lemma_total_after_push(
    receipts: Seq<DepositReceipt>,
    receipt: DepositReceipt,
    key: LedgerKey,
)
    ensures
        receipts_total(receipts.push(receipt), key) == receipts_total(receipts, key) + if receipt.key()
            == key {
            receipt.amount.scaled()
        } else {
            0
        },
{
    assert(receipts.push(receipt).drop_last() =~= receipts);
}

/// Whether two identifiers hold the same bytes.
pub fn same_id(a: &[u8; 16], b: &[u8; 16]) -> (r: bool)
    ensures
        r == (a@ == b@),
{
    let mut i: usize = 0;
    while i < 16
        invariant
            i <= 16,
            forall|j: int| 0 <= j < i ==> a@[j] == b@[j],
        decreases 16 - i,
    {
        if a[i] != b[i] {
            assert(a@[i as int] != b@[i as int]);
            return false;
        }
        i = i + 1;
    }
    assert(a@ =~= b@);
    true
}

/// What is written to the balances for one deposit.
#[derive(Debug, PartialEq, Eq)]
pub enum BalanceWrite {
    /// The key had no balance: this one is opened.
    Insert(BalanceEntry),
    /// The key had a balance: it is replaced by this one.
    Update(BalanceEntry),
}

/// What crediting a deposit writes, given the balance that is kept for its key.
pub open spec fn credit_plan(
    existing: Option<BalanceEntry>,
    deposit: Deposit,
    balance_id: [u8; 16],
    receipt_id: [u8; 16],
    now: i64,
) -> Option<(BalanceWrite, DepositReceipt)> {
    match existing {
        None => Some(
            (
                BalanceWrite::Insert(deposit.opening(balance_id, now)),
                deposit.receipt(receipt_id, now),
            ),
        ),
        Some(entry) => match entry.balance.checked_sum_spec(deposit.amount) {
            Some(sum) => Some(
                (BalanceWrite::Update(credited(entry, sum, now)), deposit.receipt(receipt_id, now)),
            ),
            None => None,
        },
    }
}

/// Decides what crediting a deposit writes: the balance that is opened or the
/// balance that replaces the one kept so far, and the receipt. Where the new
/// balance cannot be had exactly the deposit is refused with an internal error.
pub fn plan_credit(
    existing: Option<&BalanceEntry>,
    deposit: Deposit,
    balance_id: [u8; 16],
    receipt_id: [u8; 16],
    now: i64,
) -> (r: Result<(BalanceWrite, DepositReceipt), AppError>)
    requires
        deposit.amount.wf(),
        existing matches Some(e) ==> e.balance.wf(),
    ensures
        match credit_plan(
            match existing {
                Some(e) => Some(*e),
                None => None,
            },
            deposit,
            balance_id,
            receipt_id,
            now,
        ) {
            Some(plan) => r == Ok::<(BalanceWrite, DepositReceipt), AppError>(plan),
            None => r matches Err(e) && e@ == internal_error("Balance overflow"@),
        },
{
    let write = match existing {
        None => BalanceWrite::Insert(
            BalanceEntry {
                id: balance_id,
                user_id: deposit.user_id,
                token: deposit.token_address.clone(),
                chain: deposit.chain_name.clone(),
                balance: deposit.amount,
                created_at: now,
                updated_at: now,
            },
        ),
        Some(entry) => match entry.balance.checked_sum(&deposit.amount) {
            None => {
                return Err(AppError::internal("Balance overflow"));
            },
            Some(sum) => BalanceWrite::Update(
                BalanceEntry {
                    id: entry.id,
                    user_id: entry.user_id,
                    token: entry.token.clone(),
                    chain: entry.chain.clone(),
                    balance: sum,
                    created_at: entry.created_at,
                    updated_at: now,
                },
            ),
        },
    };
    let receipt = DepositReceipt {
        id: receipt_id,
        user_id: deposit.user_id,
        user_address: deposit.wallet_address,
        token: deposit.token_address,
        chain: deposit.chain_name,
        amount: deposit.amount,
        txn_hash: deposit.tx_hash,
        created_at: now,
        updated_at: now,
    };
    Ok((write, receipt))
}

impl Ledger {
    /// The invariant of the ledger: at most one balance is kept for a key, and
    /// for every key the balance is the sum of the receipts for that key.
    pub open spec fn wf(&self) -> bool {
        &&& forall|i: int|
            0 <= i < self.receipts@.len() ==> (#[trigger] self.receipts@[i]).amount.wf()
        &&& forall|i: int|
            0 <= i < self.balances@.len() ==> (#[trigger] self.balances@[i]).balance.wf()
        &&& forall|i: int, j: int|
            0 <= i < j < self.balances@.len() ==> (#[trigger] self.balances@[i]).key() != (
            #[trigger] self.balances@[j]).key()
        &&& forall|i: int|
            0 <= i < self.balances@.len() ==> (#[trigger] self.balances@[i]).balance.scaled()
                == receipts_total(self.receipts@, self.balances@[i].key())
        &&& forall|key: LedgerKey|
            !has_entry(self.balances@, key) ==> #[trigger] receipts_total(self.receipts@, key) == 0
    }

    /// A ledger without balances and without receipts.
    pub fn new() -> (l: Ledger)
        ensures
            l.wf(),
            l.balances@.len() == 0,
            l.receipts@.len() == 0,
    {
        Ledger { balances: Vec::new(), receipts: Vec::new() }
    }

    /// The place of the balance kept for a user, a token and a chain.
    pub fn find_balance(&self, user_id: &[u8; 16], token: &str, chain: &str) -> (r: Option<usize>)
        ensures
            match r {
                Some(i) => i < self.balances@.len() && self.balances@[i as int].key() == (LedgerKey {
                    user: user_id@,
                    token: token@,
                    chain: chain@,
                }),
                None => !has_entry(
                    self.balances@,
                    LedgerKey { user: user_id@, token: token@, chain: chain@ },
                ),
            },
    {
        let token_key = String::from_str(token);
        let chain_key = String::from_str(chain);
        let ghost key = LedgerKey { user: user_id@, token: token@, chain: chain@ };
        let mut i: usize = 0;
        while i < self.balances.len()
            invariant
                i <= self.balances.len(),
                token_key@ == token@,
                chain_key@ == chain@,
                key == (LedgerKey { user: user_id@, token: token@, chain: chain@ }),
                forall|j: int| 0 <= j < i ==> (#[trigger] self.balances@[j]).key() != key,
            decreases self.balances.len() - i,
        {
            let entry = &self.balances[i];
            if same_id(&entry.user_id, user_id) && entry.token == token_key && entry.chain
                == chain_key {
                return Some(i);
            }
            i = i + 1;
        }
        None
    }

    /// Credits one deposit: adds its amount to the balance of its key, which is
    /// opened where the key had none, and appends its receipt. Where the new
    /// balance cannot be had exactly, nothing is written.
    pub fn record_deposit(
        &mut self,
        deposit: Deposit,
        balance_id: [u8; 16],
        receipt_id: [u8; 16],
        now: i64,
    ) -> (r: Result<(), AppError>)
        requires
            old(self).wf(),
            deposit.amount.wf(),
        ensures
            final(self).wf(),
            r is Ok ==> final(self).receipts@ == old(self).receipts@.push(
                deposit.receipt(receipt_id, now),
            ),
            r is Ok && !has_entry(old(self).balances@, deposit.key()) ==> final(self).balances@
                == old(self).balances@.push(deposit.opening(balance_id, now)),
            r is Ok && has_entry(old(self).balances@, deposit.key()) ==> exists|i: int, sum: Amount|
                {
                    &&& 0 <= i < old(self).balances@.len()
                    &&& old(self).balances@[i].key() == deposit.key()
                    &&& old(self).balances@[i].balance.checked_sum_spec(deposit.amount) == Some(sum)
                    &&& #[trigger] old(self).balances@.update(
                        i,
                        credited(old(self).balances@[i], sum, now),
                    ) == final(self).balances@
                },
            r matches Err(e) ==> {
                &&& *final(self) == *old(self)
                &&& e@ == internal_error("Balance overflow"@)
                &&& exists|i: int|
                    0 <= i < old(self).balances@.len() && (#[trigger] old(self).balances@[i]).key()
                        == deposit.key() && old(self).balances@[i].balance.checked_sum_spec(
                        deposit.amount,
                    ) is None
            },
            match credit_map(ledger_map(old(self).balances@), deposit.key(), deposit.amount) {
                Some(m) => r is Ok && ledger_map(final(self).balances@) == m,
                None => r is Err,
            },
    {
        let ghost key = deposit.key();
        let ghost amount = deposit.amount;
        let ghost before = *self;
        let ghost receipt = deposit.receipt(receipt_id, now);
        assert(distinct_keys(before.balances@));
        let found = self.find_balance(
            &deposit.user_id,
            deposit.token_address.as_str(),
            deposit.chain_name.as_str(),
        );
        match found {
            Some(i) => {
                proof {
                    lemma_kept_balance(before.balances@, i as int);
                }
                match plan_credit(Some(&self.balances[i]), deposit, balance_id, receipt_id, now) {
                    Err(e) => {
                        return Err(e);
                    },
                    Ok((write, written)) => {
                        match write {
                            BalanceWrite::Update(entry) => {
                                self.balances.set(i, entry);
                            },
                            BalanceWrite::Insert(entry) => {
                                self.balances.set(i, entry);
                            },
                        }
                        self.receipts.push(written);
                    },
                }
            },
            None => {
                match plan_credit(None, deposit, balance_id, receipt_id, now) {
                    Err(e) => {
                        return Err(e);
                    },
                    Ok((write, written)) => {
                        match write {
                            BalanceWrite::Update(entry) => {
                                self.balances.push(entry);
                            },
                            BalanceWrite::Insert(entry) => {
                                self.balances.push(entry);
                            },
                        }
                        self.receipts.push(written);
                    },
                }
            },
        }
        proof {
            let after = *self;
            assert forall|k: LedgerKey|
                receipts_total(after.receipts@, k) == receipts_total(before.receipts@, k) + if key
                    == k {
                    deposit.amount.scaled()
                } else {
                    0
                } by {
                lemma_total_after_push(before.receipts@, receipt, k);
            }
            assert forall|k: LedgerKey| !has_entry(after.balances@, k) implies #[trigger] receipts_total(
                after.receipts@,
                k,
            ) == 0 by {
                if has_entry(before.balances@, k) {
                    let j = choose|j: int|
                        0 <= j < before.balances@.len() && (#[trigger] before.balances@[j]).key()
                            == k;
                    assert(after.balances@[j].key() == k);
                }
                if k == key {
                    match found {
                        Some(i) => {
                            assert(after.balances@[i as int].key() == k);
                        },
                        None => {
                            assert(after.balances@[before.balances@.len() as int].key() == k);
                        },
                    }
                }
            }
            assert forall|i: int| 0 <= i < after.balances@.len() implies (
            #[trigger] after.balances@[i]).balance.scaled() == receipts_total(
                after.receipts@,
                after.balances@[i].key(),
            ) by {
                if i < before.balances@.len() {
                    assert(before.balances@[i].key() == after.balances@[i].key());
                }
            }
            assert(distinct_keys(after.balances@));
            let target = credit_map(ledger_map(before.balances@), key, amount);
            assert(target is Some);
            assert(ledger_map(after.balances@) =~= target->0) by {
                assert forall|k: LedgerKey|
                    ledger_map(after.balances@).dom().contains(k) == (target->0).dom().contains(
                        k,
                    ) by {
                    if has_entry(before.balances@, k) {
                        let j = choose|j: int|
                            0 <= j < before.balances@.len() && (#[trigger] before.balances@[j]).key()
                                == k;
                        assert(after.balances@[j].key() == k);
                    }
                    if has_entry(after.balances@, k) && k != key {
                        let j = choose|j: int|
                            0 <= j < after.balances@.len() && (#[trigger] after.balances@[j]).key()
                                == k;
                        assert(before.balances@[j].key() == k);
                    }
                    if k == key {
                        match found {
                            Some(i) => {
                                assert(after.balances@[i as int].key() == k);
                            },
                            None => {
                                assert(after.balances@[before.balances@.len() as int].key() == k);
                            },
                        }
                    }
                }
                assert forall|k: LedgerKey| #[trigger]
                    ledger_map(after.balances@).dom().contains(k) implies ledger_map(
                    after.balances@,
                )[k] == (target->0)[k] by {
                    let j = choose|j: int|
                        0 <= j < after.balances@.len() && (#[trigger] after.balances@[j]).key() == k;
                    lemma_kept_balance(after.balances@, j);
                    if k == key {
                        match found {
                            Some(i) => {
                                lemma_kept_balance(after.balances@, i as int);
                            },
                            None => {
                                lemma_kept_balance(
                                    after.balances@,
                                    before.balances@.len() as int,
                                );
                            },
                        }
                    } else {
                        assert(before.balances@[j].key() == k);
                        lemma_kept_balance(before.balances@, j);
                    }
                }
            }
        }
        Ok(())
    }
}

/// For every key, the balance of a well-formed ledger is the sum of the
/// receipts for that key.
pub proof fn lemma_ledger_is_consistent(ledger: Ledger, key: LedgerKey)
    requires
        ledger.wf(),
    ensures
        balance_value(ledger.balances@, key) == receipts_total(ledger.receipts@, key),
{
}

/// Draws a fresh record identifier with `uuid::Uuid::new_v4`: sixteen bytes, most
/// of them random. Nothing is promised of them.
#[verifier::external_body]
fn fresh_id() -> (id: [u8; 16])
{
    uuid::Uuid::new_v4().into_bytes()
}

/// Reads the clock with `chrono::Utc::now`, in microseconds since the epoch.
/// Nothing is promised of the reading.
#[verifier::external_body]
fn now_micros() -> (t: i64)
{
    chrono::Utc::now().timestamp_micros()
}

/// Whether a receipt records the given transfer.
pub open spec fn receipt_records(
    receipt: DepositReceipt,
    user_id: Seq<u8>,
    wallet_address: Seq<char>,
    token_address: Seq<char>,
    chain_name: Seq<char>,
    amount: Amount,
    tx_hash: Seq<char>,
) -> bool {
    &&& receipt.user_id@ == user_id
    &&& receipt.user_address@ == wallet_address
    &&& receipt.token@ == token_address
    &&& receipt.chain@ == chain_name
    &&& receipt.amount == amount
    &&& receipt.txn_hash@ == tx_hash
    &&& receipt.created_at == receipt.updated_at
}

/// Whether the two ledgers hold the same balances and the same receipts.
pub open spec fn same_contents(a: Ledger, b: Ledger) -> bool {
    a.balances@ == b.balances@ && a.receipts@ == b.receipts@
}

/// Whether `longer` holds every receipt of `shorter`, in the same places.
pub open spec fn receipts_kept(shorter: Seq<DepositReceipt>, longer: Seq<DepositReceipt>) -> bool {
    shorter.len() <= longer.len() && longer.subrange(0, shorter.len() as int) == shorter
}

impl Ledger {
    /// A ledger with the same balances and the same receipts.
    pub fn duplicate(&self) -> (copy: Ledger)
        ensures
            same_contents(copy, *self),
            self.wf() ==> copy.wf(),
    {
        let mut balances: Vec<BalanceEntry> = Vec::new();
        let mut i: usize = 0;
        while i < self.balances.len()
            invariant
                i <= self.balances.len(),
                balances@ == self.balances@.subrange(0, i as int),
            decreases self.balances.len() - i,
        {
            let e = &self.balances[i];
            balances.push(
                BalanceEntry {
                    id: e.id,
                    user_id: e.user_id,
                    token: e.token.clone(),
                    chain: e.chain.clone(),
                    balance: e.balance,
                    created_at: e.created_at,
                    updated_at: e.updated_at,
                },
            );
            assert(balances@ =~= self.balances@.subrange(0, i + 1));
            i = i + 1;
        }
        let mut receipts: Vec<DepositReceipt> = Vec::new();
        let mut k: usize = 0;
        while k < self.receipts.len()
            invariant
                k <= self.receipts.len(),
                receipts@ == self.receipts@.subrange(0, k as int),
            decreases self.receipts.len() - k,
        {
            let e = &self.receipts[k];
            receipts.push(
                DepositReceipt {
                    id: e.id,
                    user_id: e.user_id,
                    user_address: e.user_address.clone(),
                    token: e.token.clone(),
                    chain: e.chain.clone(),
                    amount: e.amount,
                    txn_hash: e.txn_hash.clone(),
                    created_at: e.created_at,
                    updated_at: e.updated_at,
                },
            );
            assert(receipts@ =~= self.receipts@.subrange(0, k + 1));
            k = k + 1;
        }
        assert(balances@ =~= self.balances@);
        assert(receipts@ =~= self.receipts@);
        Ledger { balances, receipts }
    }

    /// Credits one deposit with fresh record identifiers and the present time:
    /// the balance of the deposit's key grows by its amount, and one receipt is
    /// appended. Where the new balance cannot be had exactly, nothing is
    /// written.
    pub fn credit(&mut self, deposit: Deposit) -> (r: Result<(), AppError>)
        requires
            old(self).wf(),
            deposit.amount.wf(),
        ensures
            final(self).wf(),
            r is Ok ==> {
                &&& final(self).receipts@.len() == old(self).receipts@.len() + 1
                &&& final(self).receipts@.drop_last() == old(self).receipts@
                &&& receipt_records(
                    final(self).receipts@.last(),
                    deposit.user_id@,
                    deposit.wallet_address@,
                    deposit.token_address@,
                    deposit.chain_name@,
                    deposit.amount,
                    deposit.tx_hash@,
                )
            },
            r is Ok ==> forall|key: LedgerKey|
                #[trigger] balance_value(final(self).balances@, key) == balance_value(
                    old(self).balances@,
                    key,
                ) + if key == deposit.key() {
                    deposit.amount.scaled()
                } else {
                    0
                },
            r matches Err(e) ==> *final(self) == *old(self) && e@ == internal_error(
                "Balance overflow"@,
            ),
            match credit_map(ledger_map(old(self).balances@), deposit.key(), deposit.amount) {
                Some(m) => r is Ok && ledger_map(final(self).balances@) == m,
                None => r is Err,
            },
    {
        let balance_id = fresh_id();
        let receipt_id = fresh_id();
        let now = now_micros();
        let ghost before = *self;
        let ghost receipt = deposit.receipt(receipt_id, now);
        let ghost key = deposit.key();
        let ghost amount = deposit.amount;
        let r = self.record_deposit(deposit, balance_id, receipt_id, now);
        proof {
            if r is Ok {
                assert(self.receipts@.drop_last() =~= before.receipts@);
                assert forall|k: LedgerKey|
                    #[trigger] balance_value(self.balances@, k) == balance_value(
                        before.balances@,
                        k,
                    ) + if k == key {
                        amount.scaled()
                    } else {
                        0
                    } by {
                    lemma_ledger_is_consistent(*self, k);
                    lemma_ledger_is_consistent(before, k);
                    lemma_total_after_push(before.receipts@, receipt, k);
                }
            }
        }
        r
    }
}

/// The sum of the amounts of the deposits for `key`, in units of `10^-28`.
pub open spec fn deposits_total(deposits: Seq<Deposit>, key: LedgerKey) -> nat
    decreases deposits.len(),
{
    if deposits.len() == 0 {
        0
    } else {
        deposits_total(deposits.drop_last(), key) + if deposits.last().key() == key {
            deposits.last().amount.scaled()
        } else {
            0
        }
    }
}

/// Whether the receipts from place `from` on record the deposits, one for
/// each and in their order.
pub open spec fn receipts_record(
    receipts: Seq<DepositReceipt>,
    from: int,
    deposits: Seq<Deposit>,
) -> bool {
    &&& receipts.len() == from + deposits.len()
    &&& forall|k: int|
        0 <= k < deposits.len() ==> receipt_records(
            #[trigger] receipts[from + k],
            deposits[k].user_id@,
            deposits[k].wallet_address@,
            deposits[k].token_address@,
            deposits[k].chain_name@,
            deposits[k].amount,
            deposits[k].tx_hash@,
        )
}

/// A copy of the deposit.
pub fn clone_deposit(d: &Deposit) -> (r: Deposit)
    ensures
        r == *d,
{
    Deposit {
        user_id: d.user_id,
        wallet_address: d.wallet_address.clone(),
        token_address: d.token_address.clone(),
        chain_name: d.chain_name.clone(),
        amount: d.amount,
        tx_hash: d.tx_hash.clone(),
    }
}

impl Ledger {
    /// Credits the deposits as one unit, in their order: all of them, or none
    /// where one of the new balances cannot be had exactly.
    pub fn credit_all(&mut self, deposits: &Vec<Deposit>) -> (r: Result<(), AppError>)
        requires
            old(self).wf(),
            forall|k: int| 0 <= k < deposits@.len() ==> (#[trigger] deposits@[k]).amount.wf(),
        ensures
            final(self).wf(),
            receipts_kept(old(self).receipts@, final(self).receipts@),
            r is Ok ==> receipts_record(
                final(self).receipts@,
                old(self).receipts@.len() as int,
                deposits@,
            ),
            r is Ok ==> forall|key: LedgerKey|
                #[trigger] balance_value(final(self).balances@, key) == balance_value(
                    old(self).balances@,
                    key,
                ) + deposits_total(deposits@, key),
            r matches Err(e) ==> same_contents(*final(self), *old(self)) && e@ == internal_error(
                "Balance overflow"@,
            ),
            deposits@.len() == 0 ==> r is Ok && same_contents(*final(self), *old(self)),
            match credit_all_map(ledger_map(old(self).balances@), deposits@) {
                Some(m) => r is Ok && ledger_map(final(self).balances@) == m,
                None => r is Err,
            },
    {
        let ghost start = *self;
        let mut work = self.duplicate();
        let mut k: usize = 0;
        proof {
            assert(start.receipts@.subrange(0, start.receipts@.len() as int) =~= start.receipts@);
            assert(deposits@.subrange(0, 0) =~= Seq::<Deposit>::empty());
        }
        while k < deposits.len()
            invariant
                *self == start,
                start.wf(),
                work.wf(),
                k <= deposits@.len(),
                forall|j: int| 0 <= j < deposits@.len() ==> (#[trigger] deposits@[j]).amount.wf(),
                receipts_kept(start.receipts@, work.receipts@),
                receipts_kept(start.receipts@, start.receipts@),
                receipts_record(
                    work.receipts@,
                    start.receipts@.len() as int,
                    deposits@.subrange(0, k as int),
                ),
                k == 0 ==> same_contents(work, start),
                credit_all_map(ledger_map(start.balances@), deposits@.subrange(0, k as int)) == Some(
                    ledger_map(work.balances@),
                ),
                forall|key: LedgerKey|
                    #[trigger] balance_value(work.balances@, key) == balance_value(
                        start.balances@,
                        key,
                    ) + deposits_total(deposits@.subrange(0, k as int), key),
            decreases deposits@.len() - k,
        {
            let ghost before = work;
            let deposit = clone_deposit(&deposits[k]);
            proof {
                let grown = deposits@.subrange(0, k + 1);
                assert(grown.drop_last() =~= deposits@.subrange(0, k as int));
                assert(grown.last() == deposits@[k as int]);
            }
            match work.credit(deposit) {
                Err(e) => {
                    proof {
                        lemma_credit_all_stops(
                            ledger_map(start.balances@),
                            deposits@,
                            k + 1,
                        );
                    }
                    return Err(e);
                },
                Ok(()) => {
                    proof {
                        let done = deposits@.subrange(0, k as int);
                        let grown = deposits@.subrange(0, k + 1);
                        assert(grown.drop_last() =~= done);
                        assert(grown.last() == deposits@[k as int]);
                        assert(work.receipts@.drop_last() == before.receipts@);
                        assert(work.receipts@.subrange(0, start.receipts@.len() as int)
                            =~= before.receipts@.subrange(0, start.receipts@.len() as int));
                        assert forall|j: int| 0 <= j < grown.len() implies receipt_records(
                            #[trigger] work.receipts@[start.receipts@.len() + j],
                            grown[j].user_id@,
                            grown[j].wallet_address@,
                            grown[j].token_address@,
                            grown[j].chain_name@,
                            grown[j].amount,
                            grown[j].tx_hash@,
                        ) by {
                            if j < k {
                                assert(work.receipts@[start.receipts@.len() + j]
                                    == before.receipts@[start.receipts@.len() + j]);
                                assert(grown[j] == done[j]);
                            } else {
                                assert(work.receipts@[start.receipts@.len() + j]
                                    == work.receipts@.last());
                            }
                        }
                        assert forall|key: LedgerKey|
                            #[trigger] balance_value(work.balances@, key) == balance_value(
                                start.balances@,
                                key,
                            ) + deposits_total(grown, key) by {
                            assert(balance_value(before.balances@, key) == balance_value(
                                start.balances@,
                                key,
                            ) + deposits_total(done, key));
                        }
                    }
                },
            }
            k = k + 1;
        }
        proof {
            assert(deposits@.subrange(0, k as int) =~= deposits@);
        }
        *self = work;
        Ok(())
    }
}

/// Credits one confirmed transfer to the ledger: the balance of the user for the
/// token on the chain grows by the amount, and one receipt is appended. The
/// identifiers of the new records and their time stamps are drawn here. Where
/// the new balance cannot be had exactly, nothing is written.
pub fn upsert_user_balance_and_receipt(
    ledger: &mut Ledger,
    user_id: [u8; 16],
    wallet_address: &str,
    token_address: &str,
    chain_name: &str,
    amount: Amount,
    tx_hash: &str,
) -> (r: Result<(), AppError>)
    requires
        old(ledger).wf(),
        amount.wf(),
    ensures
        final(ledger).wf(),
        r is Ok ==> {
            &&& final(ledger).receipts@.len() == old(ledger).receipts@.len() + 1
            &&& final(ledger).receipts@.drop_last() == old(ledger).receipts@
            &&& receipt_records(
                final(ledger).receipts@.last(),
                user_id@,
                wallet_address@,
                token_address@,
                chain_name@,
                amount,
                tx_hash@,
            )
        },
        r is Ok ==> forall|key: LedgerKey|
            #[trigger] balance_value(final(ledger).balances@, key) == balance_value(
                old(ledger).balances@,
                key,
            ) + if key == (LedgerKey { user: user_id@, token: token_address@, chain: chain_name@ }) {
                amount.scaled()
            } else {
                0
            },
        r matches Err(e) ==> *final(ledger) == *old(ledger) && e@ == internal_error(
            "Balance overflow"@,
        ),
        match credit_map(
            ledger_map(old(ledger).balances@),
            LedgerKey { user: user_id@, token: token_address@, chain: chain_name@ },
            amount,
        ) {
            Some(m) => r is Ok && ledger_map(final(ledger).balances@) == m,
            None => r is Err,
        },
{
    let deposit = Deposit {
        user_id,
        wallet_address: String::from_str(wallet_address),
        token_address: String::from_str(token_address),
        chain_name: String::from_str(chain_name),
        amount,
        tx_hash: String::from_str(tx_hash),
    };
    ledger.credit(deposit)
}

} // verus!
