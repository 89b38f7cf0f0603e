use wallet_sweeper::decimal::Amount;
use wallet_sweeper::wallet::{
    claim_batch, claim_batch_rows, find_next, is_eligible, mark_wallet_free, ClaimPolicy, Wallet,
    WalletStatus,
};

fn id(n: u8) -> [u8; 16] {
    let mut bytes = [0u8; 16];
    bytes[15] = n;
    bytes
}

fn wallet(n: u8, status: WalletStatus, gas_hundredths: u128, created_at: i64) -> Wallet {
    Wallet {
        id: id(n),
        user_id: id(100 + n),
        wallet_address: format!("0x{:040x}", n),
        status,
        active_gas: Amount::new(gas_hundredths, 2).unwrap(),
        created_at,
    }
}

fn policy(limit: usize) -> ClaimPolicy {
    ClaimPolicy { gas_floor: Amount::new(1, 1).unwrap(), limit }
}

fn ids(wallets: &[Wallet]) -> Vec<u8> {
    wallets.iter().map(|w| w.id[15]).collect()
}

#[test]
fn claim_takes_the_oldest_first() {
    let mut table = vec![
        wallet(1, WalletStatus::Sweepable, 0, 30),
        wallet(2, WalletStatus::Sweepable, 0, 10),
        wallet(3, WalletStatus::Sweepable, 0, 20),
    ];
    let claimed = claim_batch(&mut table, &policy(100));
    assert_eq!(ids(&claimed), vec![2, 3, 1]);
    for w in &table {
        assert_eq!(w.status, WalletStatus::SweepInProgress);
    }
}

#[test]
fn claim_returns_the_wallets_as_they_were() {
    let mut table = vec![wallet(1, WalletStatus::Sweepable, 5, 30)];
    let before = wallet(1, WalletStatus::Sweepable, 5, 30);
    let claimed = claim_batch(&mut table, &policy(100));
    assert_eq!(claimed, vec![before]);
    assert_eq!(table[0].status, WalletStatus::SweepInProgress);
    assert_eq!(table[0].id, id(1));
    assert_eq!(table[0].created_at, 30);
}

#[test]
fn claim_takes_at_most_the_limit() {
    let mut table = vec![
        wallet(1, WalletStatus::Sweepable, 0, 4),
        wallet(2, WalletStatus::Sweepable, 0, 3),
        wallet(3, WalletStatus::Sweepable, 0, 2),
        wallet(4, WalletStatus::Sweepable, 0, 1),
    ];
    let claimed = claim_batch(&mut table, &policy(2));
    assert_eq!(ids(&claimed), vec![4, 3]);
    assert_eq!(table[0].status, WalletStatus::Sweepable);
    assert_eq!(table[1].status, WalletStatus::Sweepable);
    assert_eq!(table[2].status, WalletStatus::SweepInProgress);
    assert_eq!(table[3].status, WalletStatus::SweepInProgress);
}

#[test]
fn claim_with_limit_zero_takes_nothing() {
    let mut table = vec![wallet(1, WalletStatus::Sweepable, 0, 4)];
    assert!(claim_batch(&mut table, &policy(0)).is_empty());
    assert_eq!(table[0].status, WalletStatus::Sweepable);
}

#[test]
fn claim_passes_over_wallets_that_are_not_sweepable() {
    let mut table = vec![
        wallet(1, WalletStatus::Free, 0, 1),
        wallet(2, WalletStatus::SweepInProgress, 0, 2),
        wallet(3, WalletStatus::Sweepable, 0, 3),
    ];
    let claimed = claim_batch(&mut table, &policy(100));
    assert_eq!(ids(&claimed), vec![3]);
    assert_eq!(table[0].status, WalletStatus::Free);
    assert_eq!(table[1].status, WalletStatus::SweepInProgress);
}

#[test]
fn claim_passes_over_wallets_at_or_above_the_gas_floor() {
    let mut table = vec![
        wallet(1, WalletStatus::Sweepable, 10, 1),
        wallet(2, WalletStatus::Sweepable, 9, 2),
        wallet(3, WalletStatus::Sweepable, 11, 3),
        wallet(4, WalletStatus::Sweepable, 0, 4),
    ];
    let claimed = claim_batch(&mut table, &policy(100));
    assert_eq!(ids(&claimed), vec![2, 4]);
    assert_eq!(table[0].status, WalletStatus::Sweepable);
    assert_eq!(table[2].status, WalletStatus::Sweepable);
}

#[test]
fn claim_breaks_ties_by_place_in_the_table() {
    let mut table = vec![
        wallet(1, WalletStatus::Sweepable, 0, 7),
        wallet(2, WalletStatus::Sweepable, 0, 7),
        wallet(3, WalletStatus::Sweepable, 0, 7),
    ];
    let (claimed, rows) = claim_batch_rows(&mut table, &policy(2));
    assert_eq!(ids(&claimed), vec![1, 2]);
    assert_eq!(rows, vec![0, 1]);
}

#[test]
fn second_claim_takes_none_of_the_first() {
    let mut table = vec![
        wallet(1, WalletStatus::Sweepable, 0, 1),
        wallet(2, WalletStatus::Sweepable, 0, 2),
        wallet(3, WalletStatus::Sweepable, 0, 3),
    ];
    let first = claim_batch(&mut table, &policy(2));
    let second = claim_batch(&mut table, &policy(2));
    assert_eq!(ids(&first), vec![1, 2]);
    assert_eq!(ids(&second), vec![3]);
    assert!(claim_batch(&mut table, &policy(2)).is_empty());
}

#[test]
fn claim_on_an_empty_table() {
    let mut table: Vec<Wallet> = vec![];
    assert!(claim_batch(&mut table, &ClaimPolicy::standard()).is_empty());
    assert_eq!(find_next(&table, &Amount::new(1, 1).unwrap()), None);
}

#[test]
fn standard_policy_is_a_tenth_and_a_hundred() {
    let p = ClaimPolicy::standard();
    assert_eq!(p.limit, 100);
    assert!(p.gas_floor.same_value(&Amount::new(10, 2).unwrap()));
}

#[test]
fn eligibility_compares_numbers_not_digits() {
    let floor = Amount::new(1, 1).unwrap();
    let mut w = wallet(1, WalletStatus::Sweepable, 0, 1);
    w.active_gas = Amount::new(99, 3).unwrap();
    assert!(is_eligible(&w, &floor));
    w.active_gas = Amount::new(100, 3).unwrap();
    assert!(!is_eligible(&w, &floor));
    w.active_gas = Amount::new(1, 0).unwrap();
    assert!(!is_eligible(&w, &floor));
}

#[test]
fn release_sets_any_status_to_free() {
    for status in [WalletStatus::Free, WalletStatus::Sweepable, WalletStatus::SweepInProgress] {
        let released = mark_wallet_free(wallet(1, status, 5, 9));
        assert_eq!(released, wallet(1, WalletStatus::Free, 5, 9));
    }
}

#[test]
fn releasing_a_free_wallet_changes_nothing() {
    let free = wallet(1, WalletStatus::Free, 5, 9);
    let once = mark_wallet_free(wallet(1, WalletStatus::Free, 5, 9));
    assert_eq!(once, free);
    assert_eq!(mark_wallet_free(once), free);
}

#[test]
fn status_text_round_trip() {
    assert_eq!(WalletStatus::Free.as_str(), "FREE");
    assert_eq!(WalletStatus::Sweepable.as_str(), "SWEEPABLE");
    assert_eq!(WalletStatus::SweepInProgress.as_str(), "SWEEP_IN_PROGRESS");
    for status in [WalletStatus::Free, WalletStatus::Sweepable, WalletStatus::SweepInProgress] {
        assert_eq!(WalletStatus::from_text(status.as_str()), Some(status));
    }
    assert_eq!(WalletStatus::from_text("free"), None);
    assert_eq!(WalletStatus::from_text(""), None);
}
