use wallet_sweeper::decimal::Amount;
use wallet_sweeper::ledger::Ledger;
use wallet_sweeper::registry::{ChainRegistry, ChainTokens, TokenEntry};
use wallet_sweeper::scheduler::{
    run_sweeper, start_worker, sweep_wallet, CycleReport, RetryDecision, RetryPolicy,
    WorkerCommand, WorkerEvent, WorkerPhase, MAX_RETRIES, RETRY_BACKOFF_MS, RETRY_PAUSE_MS,
    WITHDRAW_INTERVAL_MS,
};
use wallet_sweeper::sweeper::ChainEvent;
use wallet_sweeper::uint::U256;
use wallet_sweeper::wallet::{ClaimPolicy, Wallet, WalletStatus};
use wallet_sweeper::address::Address;

const MASTER: &str = "0xfB6916095ca1df60bB79Ce92cE3Ea74c37c5d359";
const USDC: &str = "0x6E5C7663971Be425B4726D7ba90456B935bb95ce";

fn wallet(n: u8, status: WalletStatus, created_at: i64) -> Wallet {
    Wallet {
        id: [n; 16],
        user_id: [100 + n; 16],
        wallet_address: format!("0x{:040x}", n),
        status,
        active_gas: Amount::zero(),
        created_at,
    }
}

fn registry() -> ChainRegistry {
    ChainRegistry {
        endpoints: vec![],
        tokens: vec![ChainTokens {
            chain: "base_sepolia".to_string(),
            tokens: vec![TokenEntry {
                symbol: "USDC".to_string(),
                address: Address::parse(USDC).unwrap(),
            }],
        }],
    }
}

fn success(units: u64, hash: &str) -> Vec<ChainEvent> {
    vec![
        ChainEvent::Connected,
        ChainEvent::GasPrice(50),
        ChainEvent::NativeBalance(U256::from_u64(1_000_000_000)),
        ChainEvent::Decimals(6),
        ChainEvent::Code { empty: false },
        ChainEvent::TokenBalance(U256::from_u64(units)),
        ChainEvent::GasEstimate(100_000),
        ChainEvent::Confirmed(hash.to_string()),
    ]
}

fn failure() -> Vec<ChainEvent> {
    vec![ChainEvent::Failed("endpoint down".to_string())]
}

#[test]
fn retry_constants() {
    assert_eq!(MAX_RETRIES, 1);
    assert_eq!(RETRY_BACKOFF_MS, 1000);
    assert_eq!(WITHDRAW_INTERVAL_MS, 2000);
    assert_eq!(RETRY_PAUSE_MS, 150);
    assert_eq!(RetryPolicy::standard(), RetryPolicy { max_retries: 1, backoff_ms: 1000 });
}

#[test]
fn success_needs_no_retry() {
    let p = RetryPolicy { max_retries: 3, backoff_ms: 1000 };
    assert_eq!(p.decide(true, 0), RetryDecision::Done);
    assert_eq!(p.decide(true, 3), RetryDecision::Done);
}

#[test]
fn backoff_is_linear_in_the_attempt() {
    let p = RetryPolicy { max_retries: 3, backoff_ms: 1000 };
    assert_eq!(p.decide(false, 0), RetryDecision::RetryAfter { retries: 1, delay_ms: 1000 });
    assert_eq!(p.decide(false, 1), RetryDecision::RetryAfter { retries: 2, delay_ms: 2000 });
    assert_eq!(p.decide(false, 2), RetryDecision::RetryAfter { retries: 3, delay_ms: 3000 });
    assert_eq!(p.decide(false, 3), RetryDecision::GiveUp);
    assert_eq!(p.decide(false, 4), RetryDecision::GiveUp);
}

#[test]
fn backoff_does_not_overflow() {
    let p = RetryPolicy { max_retries: u32::MAX, backoff_ms: u32::MAX };
    assert_eq!(
        p.decide(false, u32::MAX - 1),
        RetryDecision::RetryAfter {
            retries: u32::MAX,
            delay_ms: (u32::MAX as u64) * (u32::MAX as u64)
        }
    );
    assert_eq!(p.decide(false, u32::MAX), RetryDecision::GiveUp);
}

#[test]
fn policy_without_retries_gives_up_at_once() {
    let p = RetryPolicy { max_retries: 0, backoff_ms: 1000 };
    assert_eq!(p.decide(false, 0), RetryDecision::GiveUp);
}

#[test]
fn worker_cycle_after_a_success() {
    let p = RetryPolicy::standard();
    let step = start_worker();
    assert_eq!(step.command, WorkerCommand::SweepBatch);
    let step = run_sweeper(step.phase, &p, WorkerEvent::BatchSwept);
    assert_eq!(step.report, CycleReport::Succeeded);
    assert_eq!(step.command, WorkerCommand::Sleep { ms: 2000 });
    let step = run_sweeper(step.phase, &p, WorkerEvent::Slept);
    assert_eq!(step.command, WorkerCommand::Maintain);
    let step = run_sweeper(step.phase, &p, WorkerEvent::Maintained);
    assert_eq!(step.command, WorkerCommand::YieldNow);
    let step = run_sweeper(step.phase, &p, WorkerEvent::Resumed);
    assert_eq!(step, start_worker());
}

#[test]
fn worker_retries_a_failed_batch_once() {
    let p = RetryPolicy::standard();
    let step = run_sweeper(start_worker().phase, &p, WorkerEvent::BatchFailed);
    assert_eq!(step.report, CycleReport::Retrying { retries: 1 });
    assert_eq!(step.command, WorkerCommand::Sleep { ms: 1000 });
    assert_eq!(step.phase, WorkerPhase::BackingOff { retries: 1 });
    let step = run_sweeper(step.phase, &p, WorkerEvent::Slept);
    assert_eq!(step.command, WorkerCommand::SweepBatch);
    assert_eq!(step.phase, WorkerPhase::Sweeping { retries: 1 });
    let step = run_sweeper(step.phase, &p, WorkerEvent::BatchFailed);
    assert_eq!(step.report, CycleReport::Failed);
    assert_eq!(step.command, WorkerCommand::Sleep { ms: 2000 });
    assert_eq!(step.phase, WorkerPhase::Resting);
}

#[test]
fn worker_ignores_what_does_not_answer_its_phase() {
    let p = RetryPolicy { max_retries: 5, backoff_ms: 100 };
    let step = run_sweeper(WorkerPhase::Resting, &p, WorkerEvent::BatchSwept);
    assert_eq!(step.phase, WorkerPhase::Resting);
    assert_eq!(step.command, WorkerCommand::Sleep { ms: 2000 });
    assert_eq!(step.report, CycleReport::Quiet);
    let step = run_sweeper(WorkerPhase::BackingOff { retries: 3 }, &p, WorkerEvent::Resumed);
    assert_eq!(step.phase, WorkerPhase::BackingOff { retries: 3 });
    assert_eq!(step.command, WorkerCommand::Sleep { ms: 300 });
    let step = run_sweeper(WorkerPhase::Sweeping { retries: 2 }, &p, WorkerEvent::Slept);
    assert_eq!(step.command, WorkerCommand::SweepBatch);
    let step = run_sweeper(WorkerPhase::Maintaining, &p, WorkerEvent::Slept);
    assert_eq!(step.command, WorkerCommand::Maintain);
    let step = run_sweeper(WorkerPhase::Yielding, &p, WorkerEvent::Slept);
    assert_eq!(step.command, WorkerCommand::YieldNow);
}

#[test]
fn batch_leaves_every_claimed_wallet_free_whatever_the_outcome() {
    let mut table = vec![
        wallet(1, WalletStatus::Sweepable, 30),
        wallet(2, WalletStatus::Sweepable, 10),
        wallet(3, WalletStatus::Free, 5),
        wallet(4, WalletStatus::Sweepable, 20),
    ];
    let mut ledger = Ledger::new();
    // in batch order: wallet 2 succeeds, wallet 4 fails twice, wallet 1 fails then succeeds
    let replies = vec![
        vec![success(1_000_000, "0x2")],
        vec![failure(), failure()],
        vec![failure(), success(2_000_000, "0x1")],
    ];
    let reports = sweep_wallet(
        &mut table,
        &mut ledger,
        &ClaimPolicy::standard(),
        &RetryPolicy::standard(),
        MASTER,
        &registry(),
        &replies,
    );
    for w in &table {
        assert_eq!(w.status, WalletStatus::Free);
    }
    assert_eq!(reports.len(), 3);
    assert_eq!((reports[0].wallet_id, reports[0].attempts, reports[0].swept), ([2; 16], 1, true));
    assert_eq!((reports[1].wallet_id, reports[1].attempts, reports[1].swept), ([4; 16], 2, false));
    assert_eq!((reports[2].wallet_id, reports[2].attempts, reports[2].swept), ([1; 16], 2, true));
    assert_eq!(ledger.receipts.len(), 2);
    assert_eq!(ledger.receipts[0].user_id, [102; 16]);
    assert_eq!(ledger.receipts[0].txn_hash, "0x2");
    assert_eq!(ledger.receipts[1].user_id, [101; 16]);
    assert_eq!(ledger.receipts[1].txn_hash, "0x1");
}

#[test]
fn batch_touches_no_wallet_that_it_did_not_claim() {
    let mut table = vec![
        wallet(1, WalletStatus::SweepInProgress, 1),
        wallet(2, WalletStatus::Sweepable, 2),
        wallet(3, WalletStatus::Sweepable, 3),
    ];
    let mut ledger = Ledger::new();
    let policy = ClaimPolicy { gas_floor: Amount::new(1, 1).unwrap(), limit: 1 };
    let reports = sweep_wallet(
        &mut table,
        &mut ledger,
        &policy,
        &RetryPolicy::standard(),
        MASTER,
        &registry(),
        &vec![],
    );
    assert_eq!(reports.len(), 1);
    assert_eq!(reports[0].wallet_id, [2; 16]);
    assert_eq!(reports[0].attempts, 2);
    assert!(!reports[0].swept);
    assert_eq!(table[0], wallet(1, WalletStatus::SweepInProgress, 1));
    assert_eq!(table[1], wallet(2, WalletStatus::Free, 2));
    assert_eq!(table[2], wallet(3, WalletStatus::Sweepable, 3));
    assert_eq!(ledger, Ledger::new());
}

#[test]
fn claiming_failing_and_releasing_again_and_again_never_changes_the_ledger() {
    let mut ledger = Ledger::new();
    let mut table = vec![wallet(1, WalletStatus::Sweepable, 1)];
    for _ in 0..4 {
        table[0].status = WalletStatus::Sweepable;
        let reports = sweep_wallet(
            &mut table,
            &mut ledger,
            &ClaimPolicy::standard(),
            &RetryPolicy { max_retries: 2, backoff_ms: 1 },
            MASTER,
            &registry(),
            &vec![vec![failure(), failure(), failure()]],
        );
        assert_eq!(reports[0].attempts, 3);
        assert_eq!(table[0].status, WalletStatus::Free);
        assert_eq!(ledger, Ledger::new());
    }
}

#[test]
fn batch_on_a_table_without_sweepable_wallets_does_nothing() {
    let mut table = vec![wallet(1, WalletStatus::Free, 1)];
    let mut ledger = Ledger::new();
    let reports = sweep_wallet(
        &mut table,
        &mut ledger,
        &ClaimPolicy::standard(),
        &RetryPolicy::standard(),
        MASTER,
        &registry(),
        &vec![],
    );
    assert!(reports.is_empty());
    assert_eq!(table[0], wallet(1, WalletStatus::Free, 1));
}
