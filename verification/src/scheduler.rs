//! The worker: the bounded retry with linear backoff, the sweep of one claimed
//! batch, and the endless cycle of sweeping, resting and maintenance.

use crate::decimal::Amount;
use crate::ledger::{
    ledger_map, receipts_kept, same_contents, DepositReceipt, Ledger, LedgerKey,
};
use crate::registry::{ChainRegistry, ChainTokens};
use crate::sweeper::{
    attempt_credits, credit_receipts, credits_map, nothing_confirmed, own_address,
    process_single_request, ChainEvent, PendingCredit,
};
use crate::wallet::{
    claim_batch_rows, claim_order, clone_wallet, freed, in_progress, lemma_claim_order,
    mark_wallet_free, row_numbers, ClaimPolicy, Wallet,
};
use vstd::prelude::*;

verus! {

/// How often a failed unit of work is tried again.
pub const MAX_RETRIES: u32 = 1;

/// The base of the linear backoff, in milliseconds.
pub const RETRY_BACKOFF_MS: u32 = 1000;

/// The rest between two cycles of a worker, in milliseconds.
pub const WITHDRAW_INTERVAL_MS: u64 = 2000;

/// The pause after a failed attempt at one wallet, in milliseconds.
pub const RETRY_PAUSE_MS: u64 = 150;

/// The bounded retry of a unit of work.
#[derive(Debug, Clone, Copy, PartialEq, Eq, Structural)]
pub struct RetryPolicy {
    /// How often a failed unit of work is tried again.
    pub max_retries: u32,
    /// The delay before the first retry, in milliseconds; the delay before the
    /// n-th retry is n times as long.
    pub backoff_ms: u32,
}

/// What follows an attempt.
#[derive(Debug, Clone, Copy, PartialEq, Eq, Structural)]
pub enum RetryDecision {
    /// The attempt succeeded: there is nothing left to do.
    Done,
    /// The attempt failed: wait `delay_ms`, then make retry number `retries`.
    RetryAfter { retries: u32, delay_ms: u64 },
    /// The attempt failed and no retry is left.
    GiveUp,
}

/// What follows an attempt that was made after `retries` retries.
pub open spec fn retry_decision_of(policy: RetryPolicy, succeeded: bool, retries: u32) -> RetryDecision {
    if succeeded {
        RetryDecision::Done
    } else if retries < policy.max_retries {
        RetryDecision::RetryAfter {
            retries: (retries + 1) as u32,
            delay_ms: ((retries + 1) * policy.backoff_ms) as u64,
        }
    } else {
        RetryDecision::GiveUp
    }
}

impl RetryPolicy {
    /// The policy of the sweeper: one retry, after one second.
    pub fn standard() -> (p: RetryPolicy)
        ensures
            p == (RetryPolicy { max_retries: MAX_RETRIES, backoff_ms: RETRY_BACKOFF_MS }),
    {
        RetryPolicy { max_retries: MAX_RETRIES, backoff_ms: RETRY_BACKOFF_MS }
    }

    /// Decides what follows an attempt that was made after `retries` retries:
    /// nothing after a success; after a failure another attempt, delayed by
    /// the number of the retry times the base delay, as long as a retry is
    /// left.
    pub fn decide(&self, succeeded: bool, retries: u32) -> (d: RetryDecision)
        ensures
            d == retry_decision_of(*self, succeeded, retries),
    {
        if succeeded {
            RetryDecision::Done
        } else if retries < self.max_retries {
            let attempt: u64 = retries as u64 + 1;
            assert(attempt * self.backoff_ms <= 0x1_0000_0000 * 0xFFFF_FFFF) by (nonlinear_arith)
                requires
                    0 <= attempt <= 0x1_0000_0000,
                    0 <= self.backoff_ms <= 0xFFFF_FFFF,
            ;
            RetryDecision::RetryAfter {
                retries: retries + 1,
                delay_ms: attempt * (self.backoff_ms as u64),
            }
        } else {
            RetryDecision::GiveUp
        }
    }
}

/// Where a worker stands in its cycle.
#[derive(Debug, Clone, Copy, PartialEq, Eq, Structural)]
pub enum WorkerPhase {
    /// A batch is being claimed and swept, after `retries` retries.
    Sweeping { retries: u32 },
    /// The worker waits before retry number `retries`.
    BackingOff { retries: u32 },
    /// The worker rests between two cycles.
    Resting,
    /// The maintenance between two cycles is being done.
    Maintaining,
    /// The worker gives way to other tasks.
    Yielding,
}

/// What a worker is told.
#[derive(Debug, Clone, Copy, PartialEq, Eq, Structural)]
pub enum WorkerEvent {
    /// The batch was claimed and swept.
    BatchSwept,
    /// Claiming or sweeping the batch failed.
    BatchFailed,
    /// The sleep is over.
    Slept,
    /// The maintenance was done.
    Maintained,
    /// The worker has the processor again.
    Resumed,
}

/// What a worker does next.
#[derive(Debug, Clone, Copy, PartialEq, Eq, Structural)]
pub enum WorkerCommand {
    /// Claim one batch and sweep it.
    SweepBatch,
    /// Sleep for so many milliseconds.
    Sleep { ms: u64 },
    /// Do the maintenance between cycles.
    Maintain,
    /// Give way to other tasks.
    YieldNow,
}

/// What a step of the cycle reports.
#[derive(Debug, Clone, Copy, PartialEq, Eq, Structural)]
pub enum CycleReport {
    /// Nothing.
    Quiet,
    /// The batch was swept.
    Succeeded,
    /// The batch failed and is tried again; holds the number of the retry.
    Retrying { retries: u32 },
    /// The batch failed and no retry was left.
    Failed,
}

/// One step of a worker's cycle.
#[derive(Debug, Clone, Copy, PartialEq, Eq, Structural)]
pub struct WorkerStep {
    pub phase: WorkerPhase,
    pub command: WorkerCommand,
    pub report: CycleReport,
}

/// The command that a phase waits on.
pub open spec fn worker_command_of(phase: WorkerPhase, policy: RetryPolicy) -> WorkerCommand {
    match phase {
        WorkerPhase::Sweeping { retries } => WorkerCommand::SweepBatch,
        WorkerPhase::BackingOff { retries } => WorkerCommand::Sleep {
            ms: (retries * policy.backoff_ms) as u64,
        },
        WorkerPhase::Resting => WorkerCommand::Sleep { ms: WITHDRAW_INTERVAL_MS },
        WorkerPhase::Maintaining => WorkerCommand::Maintain,
        WorkerPhase::Yielding => WorkerCommand::YieldNow,
    }
}

/// The step that follows from a phase and what the worker was told. A batch
/// that failed is tried again while a retry is left; then the worker rests,
/// does its maintenance, gives way, and starts over. What does not answer the
/// phase changes nothing.
pub open spec fn worker_step_of(phase: WorkerPhase, policy: RetryPolicy, event: WorkerEvent) -> WorkerStep {
    match (phase, event) {
        (WorkerPhase::Sweeping { retries }, WorkerEvent::BatchSwept) => WorkerStep {
            phase: WorkerPhase::Resting,
            command: WorkerCommand::Sleep { ms: WITHDRAW_INTERVAL_MS },
            report: CycleReport::Succeeded,
        },
        (WorkerPhase::Sweeping { retries }, WorkerEvent::BatchFailed) => match retry_decision_of(
            policy,
            false,
            retries,
        ) {
            RetryDecision::RetryAfter { retries: next, delay_ms } => WorkerStep {
                phase: WorkerPhase::BackingOff { retries: next },
                command: WorkerCommand::Sleep { ms: delay_ms },
                report: CycleReport::Retrying { retries: next },
            },
            _ => WorkerStep {
                phase: WorkerPhase::Resting,
                command: WorkerCommand::Sleep { ms: WITHDRAW_INTERVAL_MS },
                report: CycleReport::Failed,
            },
        },
        (WorkerPhase::BackingOff { retries }, WorkerEvent::Slept) => WorkerStep {
            phase: WorkerPhase::Sweeping { retries },
            command: WorkerCommand::SweepBatch,
            report: CycleReport::Quiet,
        },
        (WorkerPhase::Resting, WorkerEvent::Slept) => WorkerStep {
            phase: WorkerPhase::Maintaining,
            command: WorkerCommand::Maintain,
            report: CycleReport::Quiet,
        },
        (WorkerPhase::Maintaining, WorkerEvent::Maintained) => WorkerStep {
            phase: WorkerPhase::Yielding,
            command: WorkerCommand::YieldNow,
            report: CycleReport::Quiet,
        },
        (WorkerPhase::Yielding, WorkerEvent::Resumed) => WorkerStep {
            phase: WorkerPhase::Sweeping { retries: 0 },
            command: WorkerCommand::SweepBatch,
            report: CycleReport::Quiet,
        },
        _ => WorkerStep {
            phase,
            command: worker_command_of(phase, policy),
            report: CycleReport::Quiet,
        },
    }
}

/// Whether the phase holds no more retries than the policy allows.
pub open spec fn worker_phase_ok(phase: WorkerPhase, policy: RetryPolicy) -> bool {
    match phase {
        WorkerPhase::Sweeping { retries } => retries <= policy.max_retries,
        WorkerPhase::BackingOff { retries } => retries <= policy.max_retries,
        _ => true,
    }
}

/// The first step of a worker: sweep a batch.
pub fn start_worker() -> (step: WorkerStep)
    ensures
        step == (WorkerStep {
            phase: WorkerPhase::Sweeping { retries: 0 },
            command: WorkerCommand::SweepBatch,
            report: CycleReport::Quiet,
        }),
{
    WorkerStep {
        phase: WorkerPhase::Sweeping { retries: 0 },
        command: WorkerCommand::SweepBatch,
        report: CycleReport::Quiet,
    }
}

/// The product of a retry count and a base delay fits in 64 bits.
proof fn lemma_delay_fits(retries: u32, backoff_ms: u32)
    ensures
        retries * backoff_ms <= u64::MAX,
{
    assert(retries * backoff_ms <= 0xFFFF_FFFF * 0xFFFF_FFFF) by (nonlinear_arith)
        requires
            0 <= retries <= 0xFFFF_FFFF,
            0 <= backoff_ms <= 0xFFFF_FFFF,
    ;
}

/// Takes one step of a worker's cycle. The cycle has no end: every phase and
/// every event give a next phase and a command.
pub fn run_sweeper(phase: WorkerPhase, policy: &RetryPolicy, event: WorkerEvent) -> (step: WorkerStep)
    ensures
        step == worker_step_of(phase, *policy, event),
        worker_phase_ok(phase, *policy) ==> worker_phase_ok(step.phase, *policy),
{
    let rest = WorkerCommand::Sleep { ms: WITHDRAW_INTERVAL_MS };
    match (phase, event) {
        (WorkerPhase::Sweeping { retries }, WorkerEvent::BatchSwept) => WorkerStep {
            phase: WorkerPhase::Resting,
            command: rest,
            report: CycleReport::Succeeded,
        },
        (WorkerPhase::Sweeping { retries }, WorkerEvent::BatchFailed) => match policy.decide(
            false,
            retries,
        ) {
            RetryDecision::RetryAfter { retries: next, delay_ms } => WorkerStep {
                phase: WorkerPhase::BackingOff { retries: next },
                command: WorkerCommand::Sleep { ms: delay_ms },
                report: CycleReport::Retrying { retries: next },
            },
            _ => WorkerStep { phase: WorkerPhase::Resting, command: rest, report: CycleReport::Failed },
        },
        (WorkerPhase::BackingOff { retries }, WorkerEvent::Slept) => WorkerStep {
            phase: WorkerPhase::Sweeping { retries },
            command: WorkerCommand::SweepBatch,
            report: CycleReport::Quiet,
        },
        (WorkerPhase::Resting, WorkerEvent::Slept) => WorkerStep {
            phase: WorkerPhase::Maintaining,
            command: WorkerCommand::Maintain,
            report: CycleReport::Quiet,
        },
        (WorkerPhase::Maintaining, WorkerEvent::Maintained) => WorkerStep {
            phase: WorkerPhase::Yielding,
            command: WorkerCommand::YieldNow,
            report: CycleReport::Quiet,
        },
        (WorkerPhase::Yielding, WorkerEvent::Resumed) => WorkerStep {
            phase: WorkerPhase::Sweeping { retries: 0 },
            command: WorkerCommand::SweepBatch,
            report: CycleReport::Quiet,
        },
        _ => {
            let command = match phase {
                WorkerPhase::Sweeping { retries } => WorkerCommand::SweepBatch,
                WorkerPhase::BackingOff { retries } => {
                    proof {
                        lemma_delay_fits(retries, policy.backoff_ms);
                    }
                    WorkerCommand::Sleep { ms: (retries as u64) * (policy.backoff_ms as u64) }
                },
                WorkerPhase::Resting => rest,
                WorkerPhase::Maintaining => WorkerCommand::Maintain,
                WorkerPhase::Yielding => WorkerCommand::YieldNow,
            };
            WorkerStep { phase, command, report: CycleReport::Quiet }
        },
    }
}

/// A failed unit of work is attempted at most once more than the policy has
/// retries, and the n-th retry waits n times the base delay.
pub proof fn lemma_retry_is_bounded_and_linear(policy: RetryPolicy, retries: u32)
    ensures
        retry_decision_of(policy, false, retries) is RetryAfter <==> retries < policy.max_retries,
        retry_decision_of(policy, false, retries) matches RetryDecision::RetryAfter {
            retries: next,
            delay_ms,
        } ==> next == retries + 1 && delay_ms == next * policy.backoff_ms,
        retry_decision_of(policy, true, retries) == RetryDecision::Done,
{
    lemma_delay_fits((retries + 1) as u32, policy.backoff_ms);
    if retries < policy.max_retries {
        assert((retries + 1) * policy.backoff_ms <= 0x1_0000_0000 * 0xFFFF_FFFF) by (nonlinear_arith)
            requires
                0 <= retries + 1 <= 0x1_0000_0000,
                0 <= policy.backoff_ms <= 0xFFFF_FFFF,
        ;
    }
}

/// What became of one claimed wallet.
#[derive(Debug, Clone, Copy, PartialEq, Eq)]
pub struct WalletReport {
    /// The wallet's record identifier.
    pub wallet_id: [u8; 16],
    /// How many attempts were made.
    pub attempts: u64,
    /// Whether the last attempt reached its end.
    pub swept: bool,
}

/// The table after every wallet in `order` was released.
pub open spec fn after_release(t: Seq<Wallet>, order: Seq<int>) -> Seq<Wallet> {
    Seq::new(
        t.len(),
        |j: int|
            if order.contains(j) {
                freed(t[j])
            } else {
                t[j]
            },
    )
}

/// The table while a batch is swept: the first `k` wallets of `order` were
/// released, the others of `order` are in progress.
pub open spec fn during_sweep(t: Seq<Wallet>, order: Seq<int>, k: int) -> Seq<Wallet> {
    Seq::new(
        t.len(),
        |j: int|
            if order.subrange(0, k).contains(j) {
                freed(t[j])
            } else if order.contains(j) {
                in_progress(t[j])
            } else {
                t[j]
            },
    )
}

/// The replies to attempt `a` at the k-th wallet of a batch; none where none
/// were given.
pub open spec fn script_at(replies: Seq<Vec<Vec<ChainEvent>>>, k: int, a: int) -> Seq<ChainEvent> {
    if 0 <= k < replies.len() && 0 <= a < replies[k]@.len() {
        replies[k]@[a]@
    } else {
        Seq::empty()
    }
}

/// What the attempts at one wallet come to.
pub struct WalletOutcome {
    /// The balances of the ledger afterwards.
    pub balances: Map<LedgerKey, Amount>,
    /// The transfers that were credited.
    pub credits: Seq<PendingCredit>,
    /// How many attempts were made.
    pub attempts: nat,
    /// Whether the last attempt succeeded.
    pub swept: bool,
}

/// What an attempt at a wallet credits and the balances that it leaves, where
/// it reaches its end and its credits can all be written; `None` for an
/// attempt that fails.
pub open spec fn attempt_outcome(
    m: Map<LedgerKey, Amount>,
    w: Wallet,
    master: Seq<char>,
    tokens: Seq<ChainTokens>,
    script: Seq<ChainEvent>,
) -> Option<(Seq<PendingCredit>, Map<LedgerKey, Amount>)> {
    match attempt_credits(w, master, tokens, script) {
        Err(_) => None,
        Ok(credits) => match credits_map(m, w.user_id, tokens, credits) {
            None => None,
            Some(after) => Some((credits, after)),
        },
    }
}

/// What the attempts at the k-th wallet of a batch come to, from the attempt
/// after `retries` retries on: the first attempt that succeeds is the last,
/// and a failed attempt is followed by another while a retry is left.
pub open spec fn wallet_outcome(
    m: Map<LedgerKey, Amount>,
    w: Wallet,
    master: Seq<char>,
    tokens: Seq<ChainTokens>,
    replies: Seq<Vec<Vec<ChainEvent>>>,
    k: int,
    policy: RetryPolicy,
    retries: nat,
) -> WalletOutcome
    decreases policy.max_retries - retries,
{
    match attempt_outcome(m, w, master, tokens, script_at(replies, k, retries as int)) {
        Some(done) => WalletOutcome {
            balances: done.1,
            credits: done.0,
            attempts: retries + 1,
            swept: true,
        },
        None => if retries < policy.max_retries {
            wallet_outcome(m, w, master, tokens, replies, k, policy, retries + 1)
        } else {
            WalletOutcome { balances: m, credits: Seq::empty(), attempts: retries + 1, swept: false }
        },
    }
}

/// What the attempts at the n-th wallet of a batch come to, the wallets before
/// it having been swept.
pub open spec fn nth_outcome(
    m: Map<LedgerKey, Amount>,
    start: Seq<Wallet>,
    order: Seq<int>,
    master: Seq<char>,
    tokens: Seq<ChainTokens>,
    replies: Seq<Vec<Vec<ChainEvent>>>,
    policy: RetryPolicy,
    n: nat,
) -> WalletOutcome
    decreases n, 1int,
{
    wallet_outcome(
        batch_balances(m, start, order, master, tokens, replies, policy, n),
        in_progress(start[order[n as int]]),
        master,
        tokens,
        replies,
        n as int,
        policy,
        0,
    )
}

/// The balances of the ledger after the first `n` wallets of a batch were
/// swept, in the order of the batch.
pub open spec fn batch_balances(
    m: Map<LedgerKey, Amount>,
    start: Seq<Wallet>,
    order: Seq<int>,
    master: Seq<char>,
    tokens: Seq<ChainTokens>,
    replies: Seq<Vec<Vec<ChainEvent>>>,
    policy: RetryPolicy,
    n: nat,
) -> Map<LedgerKey, Amount>
    decreases n, 0int,
{
    if n == 0 {
        m
    } else {
        nth_outcome(m, start, order, master, tokens, replies, policy, (n - 1) as nat).balances
    }
}

/// The place at which the receipts end after the first `n` wallets of a batch
/// were swept, the receipts of the batch starting at `from`.
pub open spec fn batch_end(
    from: int,
    m: Map<LedgerKey, Amount>,
    start: Seq<Wallet>,
    order: Seq<int>,
    master: Seq<char>,
    tokens: Seq<ChainTokens>,
    replies: Seq<Vec<Vec<ChainEvent>>>,
    policy: RetryPolicy,
    n: nat,
) -> int
    decreases n,
{
    if n == 0 {
        from
    } else {
        batch_end(from, m, start, order, master, tokens, replies, policy, (n - 1) as nat)
            + nth_outcome(
            m,
            start,
            order,
            master,
            tokens,
            replies,
            policy,
            (n - 1) as nat,
        ).credits.len()
    }
}

/// Whether the receipts from `from` on record what the first `n` wallets of a
/// batch were credited: wallet after wallet, for each wallet the credits of
/// its successful attempt in their order.
pub open spec fn batch_recorded(
    receipts: Seq<DepositReceipt>,
    from: int,
    m: Map<LedgerKey, Amount>,
    start: Seq<Wallet>,
    order: Seq<int>,
    master: Seq<char>,
    tokens: Seq<ChainTokens>,
    replies: Seq<Vec<Vec<ChainEvent>>>,
    policy: RetryPolicy,
    n: nat,
) -> bool
    decreases n,
{
    if n == 0 {
        true
    } else {
        &&& batch_recorded(
            receipts,
            from,
            m,
            start,
            order,
            master,
            tokens,
            replies,
            policy,
            (n - 1) as nat,
        )
        &&& credit_receipts(
            receipts,
            batch_end(from, m, start, order, master, tokens, replies, policy, (n - 1) as nat),
            start[order[n - 1]].user_id,
            own_address(start[order[n - 1]]),
            tokens,
            nth_outcome(m, start, order, master, tokens, replies, policy, (n - 1) as nat).credits,
        )
    }
}

/// Receipts that are recorded stay recorded when more receipts follow.
pub proof fn lemma_batch_recorded_kept(
    shorter: Seq<DepositReceipt>,
    longer: Seq<DepositReceipt>,
    from: int,
    m: Map<LedgerKey, Amount>,
    start: Seq<Wallet>,
    order: Seq<int>,
    master: Seq<char>,
    tokens: Seq<ChainTokens>,
    replies: Seq<Vec<Vec<ChainEvent>>>,
    policy: RetryPolicy,
    n: nat,
)
    requires
        receipts_kept(shorter, longer),
        batch_recorded(shorter, from, m, start, order, master, tokens, replies, policy, n),
    ensures
        batch_recorded(longer, from, m, start, order, master, tokens, replies, policy, n),
    decreases n,
{
    if n > 0 {
        lemma_batch_recorded_kept(
            shorter,
            longer,
            from,
            m,
            start,
            order,
            master,
            tokens,
            replies,
            policy,
            (n - 1) as nat,
        );
        let at = batch_end(from, m, start, order, master, tokens, replies, policy, (n - 1) as nat);
        let credits = nth_outcome(
            m,
            start,
            order,
            master,
            tokens,
            replies,
            policy,
            (n - 1) as nat,
        ).credits;
        assert forall|k: int| 0 <= k < credits.len() implies crate::sweeper::credit_receipt(
            #[trigger] longer[at + k],
            start[order[n - 1]].user_id,
            own_address(start[order[n - 1]]),
            tokens,
            credits[k],
        ) by {
            assert(longer.subrange(0, shorter.len() as int)[at + k] == shorter[at + k]);
        }
    }
}

/// Whether no reply to any attempt confirms a transfer.
pub open spec fn nothing_ever_confirmed(replies: Seq<Vec<Vec<ChainEvent>>>) -> bool {
    forall|k: int, a: int|
        0 <= k < replies.len() && 0 <= a < replies[k]@.len() ==> nothing_confirmed(
            (#[trigger] replies[k]@[a])@,
            replies[k]@[a]@.len() as int,
        )
}

/// Claims one batch and sweeps it, wallet by wallet, against the replies that
/// the chain gave: `replies[k][a]` holds the replies to attempt `a` at the
/// k-th wallet of the batch, and an attempt without replies gets none. A
/// wallet whose attempt fails is tried again as the retry policy says. Every
/// wallet of the batch is free afterwards, whether it was swept or not, and
/// no other wallet is touched. The ledger changes only by the credits of
/// attempts that reached their end: without a confirmation it stays as it was.
pub fn sweep_wallet(
    table: &mut Vec<Wallet>,
    ledger: &mut Ledger,
    claim: &ClaimPolicy,
    retry: &RetryPolicy,
    master_wallet_address: &str,
    registry: &ChainRegistry,
    replies: &Vec<Vec<Vec<ChainEvent>>>,
) -> (reports: Vec<WalletReport>)
    requires
        old(ledger).wf(),
    ensures
        final(ledger).wf(),
        receipts_kept(old(ledger).receipts@, final(ledger).receipts@),
        nothing_ever_confirmed(replies@) ==> same_contents(*final(ledger), *old(ledger)),
        final(table)@ == after_release(
            old(table)@,
            claim_order(old(table)@, claim.gas_floor, claim.limit as nat),
        ),
        reports@.len() == claim_order(old(table)@, claim.gas_floor, claim.limit as nat).len(),
        forall|k: int|
            0 <= k < reports@.len() ==> {
                &&& (#[trigger] reports@[k]).wallet_id == old(table)@[claim_order(
                    old(table)@,
                    claim.gas_floor,
                    claim.limit as nat,
                )[k]].id
                &&& 1 <= reports@[k].attempts <= retry.max_retries + 1
                &&& reports@[k].attempts == nth_outcome(
                    ledger_map(old(ledger).balances@),
                    old(table)@,
                    claim_order(old(table)@, claim.gas_floor, claim.limit as nat),
                    master_wallet_address@,
                    registry.tokens@,
                    replies@,
                    *retry,
                    k as nat,
                ).attempts
                &&& reports@[k].swept == nth_outcome(
                    ledger_map(old(ledger).balances@),
                    old(table)@,
                    claim_order(old(table)@, claim.gas_floor, claim.limit as nat),
                    master_wallet_address@,
                    registry.tokens@,
                    replies@,
                    *retry,
                    k as nat,
                ).swept
            },
        ledger_map(final(ledger).balances@) == batch_balances(
            ledger_map(old(ledger).balances@),
            old(table)@,
            claim_order(old(table)@, claim.gas_floor, claim.limit as nat),
            master_wallet_address@,
            registry.tokens@,
            replies@,
            *retry,
            claim_order(old(table)@, claim.gas_floor, claim.limit as nat).len(),
        ),
        final(ledger).receipts@.len() == batch_end(
            old(ledger).receipts@.len() as int,
            ledger_map(old(ledger).balances@),
            old(table)@,
            claim_order(old(table)@, claim.gas_floor, claim.limit as nat),
            master_wallet_address@,
            registry.tokens@,
            replies@,
            *retry,
            claim_order(old(table)@, claim.gas_floor, claim.limit as nat).len(),
        ),
        batch_recorded(
            final(ledger).receipts@,
            old(ledger).receipts@.len() as int,
            ledger_map(old(ledger).balances@),
            old(table)@,
            claim_order(old(table)@, claim.gas_floor, claim.limit as nat),
            master_wallet_address@,
            registry.tokens@,
            replies@,
            *retry,
            claim_order(old(table)@, claim.gas_floor, claim.limit as nat).len(),
        ),
{
    let ghost start = table@;
    let ghost first_ledger = *ledger;
    let ghost first_map = ledger_map(ledger.balances@);
    let ghost master = master_wallet_address@;
    let ghost tokens = registry.tokens@;
    let ghost order = claim_order(start, claim.gas_floor, claim.limit as nat);
    let (claimed, rows) = claim_batch_rows(table, claim);
    let quiet: Vec<ChainEvent> = Vec::new();
    let mut reports: Vec<WalletReport> = Vec::new();
    let mut k: usize = 0;
    proof {
        lemma_claim_order(start, claim.gas_floor, claim.limit as nat);
        assert(first_ledger.receipts@.subrange(0, first_ledger.receipts@.len() as int)
            =~= first_ledger.receipts@);
        assert(order.subrange(0, 0) =~= Seq::<int>::empty());
        assert(table@ =~= during_sweep(start, order, 0));
    }
    while k < rows.len()
        invariant
            k <= rows@.len(),
            row_numbers(rows@) == order,
            order == claim_order(start, claim.gas_floor, claim.limit as nat),
            claimed@ == crate::wallet::rows_at(start, order),
            forall|a: int| 0 <= a < order.len() ==> 0 <= #[trigger] order[a] < start.len(),
            forall|a: int, b: int|
                0 <= a < b < order.len() ==> #[trigger] order[a] != #[trigger] order[b],
            table@ == during_sweep(start, order, k as int),
            ledger.wf(),
            receipts_kept(first_ledger.receipts@, ledger.receipts@),
            nothing_ever_confirmed(replies@) ==> same_contents(*ledger, first_ledger),
            reports@.len() == k,
            quiet@.len() == 0,
            first_map == ledger_map(first_ledger.balances@),
            master == master_wallet_address@,
            tokens == registry.tokens@,
            ledger_map(ledger.balances@) == batch_balances(
                first_map,
                start,
                order,
                master,
                tokens,
                replies@,
                *retry,
                k as nat,
            ),
            ledger.receipts@.len() == batch_end(
                first_ledger.receipts@.len() as int,
                first_map,
                start,
                order,
                master,
                tokens,
                replies@,
                *retry,
                k as nat,
            ),
            batch_recorded(
                ledger.receipts@,
                first_ledger.receipts@.len() as int,
                first_map,
                start,
                order,
                master,
                tokens,
                replies@,
                *retry,
                k as nat,
            ),
            forall|a: int|
                0 <= a < k ==> {
                    &&& (#[trigger] reports@[a]).wallet_id == start[order[a]].id
                    &&& 1 <= reports@[a].attempts <= retry.max_retries + 1
                    &&& reports@[a].attempts == nth_outcome(
                        first_map,
                        start,
                        order,
                        master,
                        tokens,
                        replies@,
                        *retry,
                        a as nat,
                    ).attempts
                    &&& reports@[a].swept == nth_outcome(
                        first_map,
                        start,
                        order,
                        master,
                        tokens,
                        replies@,
                        *retry,
                        a as nat,
                    ).swept
                },
        decreases rows@.len() - k,
    {
        let row = rows[k];
        proof {
            assert(order[k as int] == row as int);
            assert(!order.subrange(0, k as int).contains(row as int)) by {
                if order.subrange(0, k as int).contains(row as int) {
                    let a = choose|a: int|
                        0 <= a < k && order.subrange(0, k as int)[a] == row as int;
                    assert(order[a] == order[k as int]);
                }
            }
            assert(order.contains(row as int));
        }
        let held = clone_wallet(&table[row]);
        assert(held == in_progress(start[row as int]));
        let mut retries: u32 = 0;
        let mut attempts: u64 = 0;
        let mut swept = false;
        let mut open = true;
        let ghost before_wallet = ledger_map(ledger.balances@);
        let ghost receipts_before = ledger.receipts@;
        let ghost target = wallet_outcome(
            before_wallet,
            held,
            master,
            tokens,
            replies@,
            k as int,
            *retry,
            0,
        );
        proof {
            assert(receipts_before.subrange(0, receipts_before.len() as int) =~= receipts_before);
        }
        while open
            invariant
                master == master_wallet_address@,
                tokens == registry.tokens@,
                receipts_kept(receipts_before, ledger.receipts@),
                open ==> ledger_map(ledger.balances@) == before_wallet && ledger.receipts@
                    == receipts_before && target == wallet_outcome(
                    before_wallet,
                    held,
                    master,
                    tokens,
                    replies@,
                    k as int,
                    *retry,
                    retries as nat,
                ),
                !open ==> target.balances == ledger_map(ledger.balances@) && target.attempts
                    == attempts && target.swept == swept && ledger.receipts@.len()
                    == receipts_before.len() + target.credits.len() && credit_receipts(
                    ledger.receipts@,
                    receipts_before.len() as int,
                    held.user_id,
                    own_address(held),
                    tokens,
                    target.credits,
                ),
                ledger.wf(),
                receipts_kept(first_ledger.receipts@, ledger.receipts@),
                nothing_ever_confirmed(replies@) ==> same_contents(*ledger, first_ledger),
                retries <= retry.max_retries,
                quiet@.len() == 0,
                open ==> attempts == retries && !swept,
                !open ==> 1 <= attempts <= retry.max_retries + 1,
            decreases (if open { 1int } else { 0int }), retry.max_retries - retries,
        {
            let ghost before = *ledger;
            let script: &Vec<ChainEvent> = if k < replies.len() && attempts < replies[k].len() as u64 {
                &replies[k][attempts as usize]
            } else {
                &quiet
            };
            assert(script@ == script_at(replies@, k as int, attempts as int));
            let outcome = process_single_request(
                Some(clone_wallet(&held)),
                master_wallet_address,
                registry,
                script,
                ledger,
            );
            proof {
                assert(receipts_kept(first_ledger.receipts@, ledger.receipts@)) by {
                    assert(ledger.receipts@.subrange(0, first_ledger.receipts@.len() as int)
                        =~= before.receipts@.subrange(0, first_ledger.receipts@.len() as int));
                }
            }
            attempts = attempts + 1;
            match retry.decide(outcome.is_ok(), retries) {
                RetryDecision::Done => {
                    swept = true;
                    open = false;
                },
                RetryDecision::RetryAfter { retries: next, delay_ms } => {
                    retries = next;
                },
                RetryDecision::GiveUp => {
                    open = false;
                },
            }
        }
        let released = mark_wallet_free(held);
        proof {
            assert(target == nth_outcome(
                first_map,
                start,
                order,
                master,
                tokens,
                replies@,
                *retry,
                k as nat,
            ));
            assert(own_address(held) == own_address(start[row as int]));
            lemma_batch_recorded_kept(
                receipts_before,
                ledger.receipts@,
                first_ledger.receipts@.len() as int,
                first_map,
                start,
                order,
                master,
                tokens,
                replies@,
                *retry,
                k as nat,
            );
            assert(released == freed(start[row as int]));
            assert(table@.update(row as int, released) =~= during_sweep(start, order, k + 1)) by {
                assert forall|j: int| 0 <= j < start.len() implies (#[trigger] table@.update(
                    row as int,
                    released,
                )[j]) == during_sweep(start, order, k + 1)[j] by {
                    let shorter = order.subrange(0, k as int);
                    let longer = order.subrange(0, k + 1);
                    if j == row {
                        assert(longer[k as int] == j);
                    } else if shorter.contains(j) {
                        let a = choose|a: int| 0 <= a < shorter.len() && shorter[a] == j;
                        assert(longer[a] == j);
                    } else if longer.contains(j) {
                        let a = choose|a: int| 0 <= a < longer.len() && longer[a] == j;
                        assert(shorter[a] == j);
                    }
                }
            }
        }
        table.set(row, released);
        reports.push(WalletReport { wallet_id: claimed[k].id, attempts, swept });
        k = k + 1;
    }
    proof {
        assert(order.subrange(0, k as int) =~= order);
        assert(table@ =~= after_release(start, order));
    }
    reports
}

/// Whatever the chain replies and however the attempts end, a sweep leaves
/// every wallet that it claimed free, and a wallet that it did not claim as
/// it was.
pub proof fn lemma_sweep_releases_every_claimed_wallet(t: Seq<Wallet>, order: Seq<int>, j: int)
    requires
        0 <= j < t.len(),
    ensures
        order.contains(j) ==> after_release(t, order)[j].status == crate::wallet::WalletStatus::Free,
        !order.contains(j) ==> after_release(t, order)[j] == t[j],
        after_release(t, order)[j].id == t[j].id,
{
}

} // verus!
