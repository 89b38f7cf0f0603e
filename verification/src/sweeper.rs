//! The sweep of one claimed wallet: for every configured chain and every token
//! on it, the decision whether to transfer the wallet's balance to the master
//! wallet, taken step by step from what the chain replies.

use crate::address::Address;
use crate::decimal::{u256_to_decimal, u256_to_decimal_spec, Amount};
use crate::error::{bad_request, db_error, internal_error, AppError, AppErrorView};
use crate::gas::{covers_fee, minimum_gas_of};
use crate::registry::{ChainRegistry, ChainTokens};
use crate::uint::U256;
use crate::address::{address_bytes, address_of, checksum_text, lemma_address_of};
use crate::ledger::{
    credit_all_map, credit_map, ledger_map, receipts_kept, same_contents, Deposit, Ledger,
    LedgerKey,
};
use crate::wallet::{freed, mark_wallet_free, Wallet};
use vstd::prelude::*;
use vstd::string::StringExecFns;
use vstd::utf8::encode_utf8;

verus! {

/// The precision of the native currency, which has no contract to ask.
pub const NATIVE_DECIMALS: u8 = 18;

/// What the sweep of a wallet waits for.
#[derive(Debug, Clone, Copy, PartialEq, Eq, Structural)]
pub enum SweepPhase {
    /// A connection to the current chain.
    Connect,
    /// The gas price of the current chain.
    GasPrice,
    /// The wallet's balance of native currency.
    NativeBalance,
    /// The precision of the current token.
    Decimals,
    /// The code at the current token's address.
    Code,
    /// The wallet's balance of the current token.
    TokenBalance,
    /// The estimated gas of a transfer.
    Estimate,
    /// The confirmation of the transfer that was sent.
    Transfer,
    /// The ledger write for the transfer that was confirmed.
    Credit,
    /// Nothing: every chain and token was visited.
    Finished,
}

/// What came back from the step that was asked for.
#[derive(Debug, PartialEq, Eq)]
pub enum ChainEvent {
    /// A live connection to the chain was opened.
    Connected,
    /// The current gas price.
    GasPrice(u128),
    /// The wallet's balance of native currency.
    NativeBalance(U256),
    /// The precision that the token's contract reports.
    Decimals(u8),
    /// Whether there is no code at the token's address.
    Code { empty: bool },
    /// The wallet's balance of the token.
    TokenBalance(U256),
    /// The estimated gas of a transfer of one unit.
    GasEstimate(u64),
    /// The transfer was mined; holds the transaction hash.
    Confirmed(String),
    /// The ledger write was done.
    Credited,
    /// The step failed; holds the reason.
    Failed(String),
}

/// The step to take next.
#[derive(Debug, PartialEq, Eq)]
pub enum SweepCommand {
    /// Open a connection to the chain for the wallet's user.
    Connect { chain: usize },
    /// Read the chain's gas price.
    ReadGasPrice { chain: usize },
    /// Read the wallet's balance of native currency.
    ReadNativeBalance { chain: usize, wallet: Address },
    /// Ask the token's contract for its precision.
    ReadDecimals { chain: usize, token: Address },
    /// Read the code at the token's address.
    ReadCode { chain: usize, token: Address },
    /// Read the wallet's balance of the token.
    ReadTokenBalance { chain: usize, token: Address, wallet: Address },
    /// Estimate the gas of a transfer of `units` units of the token.
    EstimateTransfer { chain: usize, token: Address, from: Address, to: Address, units: U256 },
    /// Send `units` units of the token to `to` and wait until it is mined.
    SendTransfer { chain: usize, token: Address, to: Address, units: U256 },
    /// Credit the confirmed transfer to the ledger.
    Credit { chain: usize, token: Address, amount: Amount, tx_hash: String },
    /// Release the wallet and commit what was written.
    Commit,
}

/// Where the sweep of one wallet stands.
#[derive(Debug, Clone, Copy, PartialEq, Eq)]
pub struct SweepState {
    /// The user who owns the wallet.
    pub user_id: [u8; 16],
    /// The wallet that is swept.
    pub wallet: Address,
    /// The wallet that receives the funds.
    pub master: Address,
    /// The place of the current chain in the registry's token lists.
    pub chain: usize,
    /// The place of the current token in the chain's list.
    pub token: usize,
    /// What the sweep waits for.
    pub phase: SweepPhase,
    /// The gas price of the current chain.
    pub gas_price: u128,
    /// The wallet's balance of native currency, as last read.
    pub gas_balance: U256,
    /// The precision of the current token.
    pub decimals: u8,
    /// The wallet's balance of the current token.
    pub token_balance: U256,
}

/// Whether the address is the one that stands for the native currency.
pub open spec fn is_native(token: Address) -> bool {
    forall|i: int| 0 <= i < 20 ==> token@[i] == 0
}

/// The address of the current token.
pub open spec fn token_at(s: SweepState, tokens: Seq<ChainTokens>) -> Address {
    tokens[s.chain as int].tokens@[s.token as int].address
}

/// Whether the phase is about one token.
pub open spec fn token_phase(phase: SweepPhase) -> bool {
    phase != SweepPhase::Connect && phase != SweepPhase::GasPrice && phase != SweepPhase::Finished
}

impl SweepState {
    /// Whether the state points at a chain and a token of the registry, as far
    /// as its phase needs them, holds a balance where a transfer is under way,
    /// and asks a contract only where the token has one.
    pub open spec fn wf(&self, tokens: Seq<ChainTokens>) -> bool {
        &&& self.phase != SweepPhase::Finished ==> self.chain < tokens.len()
        &&& token_phase(self.phase) ==> self.token < tokens[self.chain as int].tokens@.len()
        &&& (self.phase == SweepPhase::Estimate || self.phase == SweepPhase::Transfer || self.phase
            == SweepPhase::Credit) ==> self.token_balance@ > 0
        &&& (self.phase == SweepPhase::Decimals || self.phase == SweepPhase::Code) ==> !is_native(
            token_at(*self, tokens),
        )
    }

    /// Whether the state fits the registry, so that a step can be taken from
    /// it.
    pub fn is_valid(&self, registry: &ChainRegistry) -> (r: bool)
        ensures
            r == self.wf(registry.tokens@),
    {
        let chain_ok = match self.phase {
            SweepPhase::Finished => true,
            _ => self.chain < registry.tokens.len(),
        };
        if !chain_ok {
            return false;
        }
        let token_ok = match self.phase {
            SweepPhase::Connect => true,
            SweepPhase::GasPrice => true,
            SweepPhase::Finished => true,
            _ => self.token < registry.tokens[self.chain].tokens.len(),
        };
        let balance_ok = match self.phase {
            SweepPhase::Estimate => !self.token_balance.is_zero(),
            SweepPhase::Transfer => !self.token_balance.is_zero(),
            SweepPhase::Credit => !self.token_balance.is_zero(),
            _ => true,
        };
        proof {
            self.token_balance.lemma_range();
        }
        if !(token_ok && balance_ok) {
            return false;
        }
        match self.phase {
            SweepPhase::Decimals => !registry.tokens[self.chain].tokens[self.token].address.is_zero(),
            SweepPhase::Code => !registry.tokens[self.chain].tokens[self.token].address.is_zero(),
            _ => true,
        }
    }
}

/// The step that a state waits for. (The ledger write is asked for by the
/// transition that follows a confirmation, which knows the transaction hash.)
pub open spec fn command_of(s: SweepState, tokens: Seq<ChainTokens>) -> SweepCommand {
    match s.phase {
        SweepPhase::Connect => SweepCommand::Connect { chain: s.chain },
        SweepPhase::GasPrice => SweepCommand::ReadGasPrice { chain: s.chain },
        SweepPhase::NativeBalance => SweepCommand::ReadNativeBalance {
            chain: s.chain,
            wallet: s.wallet,
        },
        SweepPhase::Decimals => SweepCommand::ReadDecimals {
            chain: s.chain,
            token: token_at(s, tokens),
        },
        SweepPhase::Code => SweepCommand::ReadCode { chain: s.chain, token: token_at(s, tokens) },
        SweepPhase::TokenBalance => SweepCommand::ReadTokenBalance {
            chain: s.chain,
            token: token_at(s, tokens),
            wallet: s.wallet,
        },
        SweepPhase::Estimate => SweepCommand::EstimateTransfer {
            chain: s.chain,
            token: token_at(s, tokens),
            from: s.master,
            to: s.master,
            units: U256 { limbs: [1, 0, 0, 0] },
        },
        SweepPhase::Transfer => SweepCommand::SendTransfer {
            chain: s.chain,
            token: token_at(s, tokens),
            to: s.master,
            units: s.token_balance,
        },
        SweepPhase::Credit => SweepCommand::Commit,
        SweepPhase::Finished => SweepCommand::Commit,
    }
}

/// The state with the step that it waits for.
pub open spec fn enter(s: SweepState, tokens: Seq<ChainTokens>) -> (SweepState, SweepCommand) {
    (s, command_of(s, tokens))
}

/// The state at the start of the chain after the current one, or the finished
/// state where the current chain is the last.
pub open spec fn next_chain(s: SweepState, tokens: Seq<ChainTokens>) -> SweepState {
    if s.chain + 1 < tokens.len() {
        SweepState { chain: (s.chain + 1) as usize, token: 0, phase: SweepPhase::Connect, ..s }
    } else {
        SweepState { phase: SweepPhase::Finished, ..s }
    }
}

/// The state at the start of the given token of the current chain, or of the
/// next chain where the current chain has no such token.
pub open spec fn token_or_next_chain(
    s: SweepState,
    tokens: Seq<ChainTokens>,
    token: int,
) -> SweepState {
    if token < tokens[s.chain as int].tokens@.len() {
        SweepState { token: token as usize, phase: SweepPhase::NativeBalance, ..s }
    } else {
        next_chain(s, tokens)
    }
}

/// The error for a step that failed for the given reason.
pub open spec fn failure(phase: SweepPhase, reason: Seq<char>) -> AppErrorView {
    match phase {
        SweepPhase::Connect => internal_error("Provider error: "@ + reason),
        SweepPhase::GasPrice => internal_error("Error Cannot get gas price : "@ + reason),
        SweepPhase::NativeBalance => internal_error("Cannot fetch native balance: "@ + reason),
        SweepPhase::Decimals => internal_error("Decimals call failed: "@ + reason),
        SweepPhase::Code => internal_error("Code check failed: "@ + reason),
        SweepPhase::TokenBalance => internal_error("Provider error: "@ + reason),
        SweepPhase::Estimate => internal_error("Error Cannot estimate gas : "@ + reason),
        SweepPhase::Transfer => internal_error("Provider error: "@ + reason),
        SweepPhase::Credit => db_error(reason),
        SweepPhase::Finished => internal_error("Unexpected chain reply"@),
    }
}

/// What follows from a state and the reply to its step: the next state with
/// its step, or the error that ends the attempt.
pub open spec fn advance_spec(s: SweepState, tokens: Seq<ChainTokens>, event: ChainEvent) -> Result<
    (SweepState, SweepCommand),
    AppErrorView,
> {
    match (s.phase, event) {
        (_, ChainEvent::Failed(reason)) => Err(failure(s.phase, reason@)),
        (SweepPhase::Connect, ChainEvent::Connected) => Ok(
            enter(SweepState { phase: SweepPhase::GasPrice, ..s }, tokens),
        ),
        (SweepPhase::GasPrice, ChainEvent::GasPrice(price)) => Ok(
            enter(token_or_next_chain(SweepState { gas_price: price, ..s }, tokens, 0), tokens),
        ),
        (SweepPhase::NativeBalance, ChainEvent::NativeBalance(balance)) => if is_native(
            token_at(s, tokens),
        ) {
            Ok(
                enter(
                    SweepState {
                        gas_balance: balance,
                        decimals: NATIVE_DECIMALS,
                        phase: SweepPhase::TokenBalance,
                        ..s
                    },
                    tokens,
                ),
            )
        } else {
            Ok(enter(SweepState { gas_balance: balance, phase: SweepPhase::Decimals, ..s }, tokens))
        },
        (SweepPhase::Decimals, ChainEvent::Decimals(decimals)) => Ok(
            enter(SweepState { decimals, phase: SweepPhase::Code, ..s }, tokens),
        ),
        (SweepPhase::Code, ChainEvent::Code { empty }) => if empty {
            Err(bad_request("Not a contract"@))
        } else {
            Ok(enter(SweepState { phase: SweepPhase::TokenBalance, ..s }, tokens))
        },
        (SweepPhase::TokenBalance, ChainEvent::TokenBalance(balance)) => if balance@ == 0 {
            Ok(enter(token_or_next_chain(s, tokens, s.token + 1), tokens))
        } else {
            Ok(
                enter(
                    SweepState { token_balance: balance, phase: SweepPhase::Estimate, ..s },
                    tokens,
                ),
            )
        },
        (SweepPhase::Estimate, ChainEvent::GasEstimate(gas)) => if s.gas_balance@
            >= minimum_gas_of(gas as int, s.gas_price as int) {
            Ok(enter(SweepState { phase: SweepPhase::Transfer, ..s }, tokens))
        } else {
            Ok(enter(token_or_next_chain(s, tokens, s.token + 1), tokens))
        },
        (SweepPhase::Transfer, ChainEvent::Confirmed(tx_hash)) => match u256_to_decimal_spec(
            s.token_balance@,
            s.decimals,
        ) {
            Err(e) => Err(e),
            Ok(amount) => Ok(
                (
                    SweepState { phase: SweepPhase::Credit, ..s },
                    SweepCommand::Credit {
                        chain: s.chain,
                        token: token_at(s, tokens),
                        amount,
                        tx_hash,
                    },
                ),
            ),
        },
        (SweepPhase::Credit, ChainEvent::Credited) => Ok(
            enter(token_or_next_chain(s, tokens, s.token + 1), tokens),
        ),
        _ => Err(internal_error("Unexpected chain reply"@)),
    }
}

/// A step result with its error taken by its view.
pub open spec fn step_view(r: Result<(SweepState, SweepCommand), AppError>) -> Result<
    (SweepState, SweepCommand),
    AppErrorView,
> {
    match r {
        Ok(step) => Ok(step),
        Err(e) => Err(e@),
    }
}

/// The precision with which a token's amounts are read, given what its
/// contract reported and whether there is code at its address: eighteen for
/// the native currency, a bad request for an address without code.
pub fn get_token_decimals(token: &Address, reported: u8, code_is_empty: bool) -> (r: Result<
    u8,
    AppError,
>)
    ensures
        is_native(*token) ==> r == Ok::<u8, AppError>(NATIVE_DECIMALS),
        !is_native(*token) && !code_is_empty ==> r == Ok::<u8, AppError>(reported),
        !is_native(*token) && code_is_empty ==> (r matches Err(e) && e@ == bad_request(
            "Not a contract"@,
        )),
{
    if token.is_zero() {
        Ok(NATIVE_DECIMALS)
    } else if code_is_empty {
        Err(AppError::bad_request("Not a contract"))
    } else {
        Ok(reported)
    }
}

/// The step that the state waits for.
fn command_for(s: &SweepState, registry: &ChainRegistry) -> (c: SweepCommand)
    requires
        s.wf(registry.tokens@),
    ensures
        c == command_of(*s, registry.tokens@),
{
    match s.phase {
        SweepPhase::Connect => SweepCommand::Connect { chain: s.chain },
        SweepPhase::GasPrice => SweepCommand::ReadGasPrice { chain: s.chain },
        SweepPhase::NativeBalance => SweepCommand::ReadNativeBalance {
            chain: s.chain,
            wallet: s.wallet,
        },
        SweepPhase::Decimals => SweepCommand::ReadDecimals {
            chain: s.chain,
            token: registry.tokens[s.chain].tokens[s.token].address,
        },
        SweepPhase::Code => SweepCommand::ReadCode {
            chain: s.chain,
            token: registry.tokens[s.chain].tokens[s.token].address,
        },
        SweepPhase::TokenBalance => SweepCommand::ReadTokenBalance {
            chain: s.chain,
            token: registry.tokens[s.chain].tokens[s.token].address,
            wallet: s.wallet,
        },
        SweepPhase::Estimate => SweepCommand::EstimateTransfer {
            chain: s.chain,
            token: registry.tokens[s.chain].tokens[s.token].address,
            from: s.master,
            to: s.master,
            units: U256 { limbs: [1, 0, 0, 0] },
        },
        SweepPhase::Transfer => SweepCommand::SendTransfer {
            chain: s.chain,
            token: registry.tokens[s.chain].tokens[s.token].address,
            to: s.master,
            units: s.token_balance,
        },
        SweepPhase::Credit => SweepCommand::Commit,
        SweepPhase::Finished => SweepCommand::Commit,
    }
}

/// The state at the start of the chain after the current one.
fn to_next_chain(s: SweepState, registry: &ChainRegistry) -> (r: SweepState)
    requires
        s.chain < registry.tokens@.len(),
    ensures
        r == next_chain(s, registry.tokens@),
        r.wf(registry.tokens@),
{
    let chains = registry.tokens.len();
    if s.chain + 1 < chains {
        SweepState { chain: s.chain + 1, token: 0, phase: SweepPhase::Connect, ..s }
    } else {
        SweepState { phase: SweepPhase::Finished, ..s }
    }
}

/// The state at the start of the given token, or of the next chain.
fn to_token(s: SweepState, registry: &ChainRegistry, token: usize) -> (r: SweepState)
    requires
        s.chain < registry.tokens@.len(),
    ensures
        r == token_or_next_chain(s, registry.tokens@, token as int),
        r.wf(registry.tokens@),
{
    if token < registry.tokens[s.chain].tokens.len() {
        SweepState { token, phase: SweepPhase::NativeBalance, ..s }
    } else {
        to_next_chain(s, registry)
    }
}

/// The state at the start of the token after the current one, or of the next
/// chain.
fn to_following_token(s: SweepState, registry: &ChainRegistry) -> (r: SweepState)
    requires
        s.chain < registry.tokens@.len(),
        s.token < registry.tokens@[s.chain as int].tokens@.len(),
    ensures
        r == token_or_next_chain(s, registry.tokens@, s.token + 1),
        r.wf(registry.tokens@),
{
    let count = registry.tokens[s.chain].tokens.len();
    to_token(s, registry, s.token + 1)
}

/// The state with its step.
fn entered(s: SweepState, registry: &ChainRegistry) -> (r: (SweepState, SweepCommand))
    requires
        s.wf(registry.tokens@),
    ensures
        r == enter(s, registry.tokens@),
{
    let c = command_for(&s, registry);
    (s, c)
}

/// The error for a step that failed for the given reason.
fn failed_step(phase: SweepPhase, reason: String) -> (e: AppError)
    ensures
        e@ == failure(phase, reason@),
{
    let heading = match phase {
        SweepPhase::Connect => "Provider error: ",
        SweepPhase::GasPrice => "Error Cannot get gas price : ",
        SweepPhase::NativeBalance => "Cannot fetch native balance: ",
        SweepPhase::Decimals => "Decimals call failed: ",
        SweepPhase::Code => "Code check failed: ",
        SweepPhase::TokenBalance => "Provider error: ",
        SweepPhase::Estimate => "Error Cannot estimate gas : ",
        SweepPhase::Transfer => "Provider error: ",
        SweepPhase::Credit => {
            return AppError::DbError(reason);
        },
        SweepPhase::Finished => {
            return AppError::internal("Unexpected chain reply");
        },
    };
    AppError::InternalError(String::from_str(heading).concat(reason.as_str()))
}

/// Takes one step of the sweep: from the state and the reply to the step that
/// it waited for, to the next state and the step to take next, or to the error
/// that ends this attempt.
pub fn advance(state: SweepState, registry: &ChainRegistry, event: ChainEvent) -> (r: Result<
    (SweepState, SweepCommand),
    AppError,
>)
    requires
        state.wf(registry.tokens@),
    ensures
        step_view(r) == advance_spec(state, registry.tokens@, event),
        r matches Ok(step) ==> step.0.wf(registry.tokens@),
{
    let s = state;
    match event {
        ChainEvent::Failed(reason) => Err(failed_step(s.phase, reason)),
        ChainEvent::Connected => match s.phase {
            SweepPhase::Connect => Ok(
                entered(SweepState { phase: SweepPhase::GasPrice, ..s }, registry),
            ),
            _ => Err(AppError::internal("Unexpected chain reply")),
        },
        ChainEvent::GasPrice(price) => match s.phase {
            SweepPhase::GasPrice => {
                let next = to_token(SweepState { gas_price: price, ..s }, registry, 0);
                Ok(entered(next, registry))
            },
            _ => Err(AppError::internal("Unexpected chain reply")),
        },
        ChainEvent::NativeBalance(balance) => match s.phase {
            SweepPhase::NativeBalance => {
                let token = registry.tokens[s.chain].tokens[s.token].address;
                if token.is_zero() {
                    match get_token_decimals(&token, 0, false) {
                        Err(e) => Err(e),
                        Ok(decimals) => Ok(
                            entered(
                                SweepState {
                                    gas_balance: balance,
                                    decimals,
                                    phase: SweepPhase::TokenBalance,
                                    ..s
                                },
                                registry,
                            ),
                        ),
                    }
                } else {
                    Ok(
                        entered(
                            SweepState { gas_balance: balance, phase: SweepPhase::Decimals, ..s },
                            registry,
                        ),
                    )
                }
            },
            _ => Err(AppError::internal("Unexpected chain reply")),
        },
        ChainEvent::Decimals(decimals) => match s.phase {
            SweepPhase::Decimals => Ok(
                entered(SweepState { decimals, phase: SweepPhase::Code, ..s }, registry),
            ),
            _ => Err(AppError::internal("Unexpected chain reply")),
        },
        ChainEvent::Code { empty } => match s.phase {
            SweepPhase::Code => {
                let token = registry.tokens[s.chain].tokens[s.token].address;
                match get_token_decimals(&token, s.decimals, empty) {
                    Err(e) => Err(e),
                    Ok(decimals) => Ok(
                        entered(
                            SweepState { decimals, phase: SweepPhase::TokenBalance, ..s },
                            registry,
                        ),
                    ),
                }
            },
            _ => Err(AppError::internal("Unexpected chain reply")),
        },
        ChainEvent::TokenBalance(balance) => match s.phase {
            SweepPhase::TokenBalance => {
                if balance.is_zero() {
                    let next = to_following_token(s, registry);
                    Ok(entered(next, registry))
                } else {
                    proof {
                        balance.lemma_range();
                    }
                    Ok(
                        entered(
                            SweepState { token_balance: balance, phase: SweepPhase::Estimate, ..s },
                            registry,
                        ),
                    )
                }
            },
            _ => Err(AppError::internal("Unexpected chain reply")),
        },
        ChainEvent::GasEstimate(gas) => match s.phase {
            SweepPhase::Estimate => {
                if covers_fee(&s.gas_balance, gas, s.gas_price) {
                    Ok(entered(SweepState { phase: SweepPhase::Transfer, ..s }, registry))
                } else {
                    let next = to_following_token(s, registry);
                    Ok(entered(next, registry))
                }
            },
            _ => Err(AppError::internal("Unexpected chain reply")),
        },
        ChainEvent::Confirmed(tx_hash) => match s.phase {
            SweepPhase::Transfer => {
                match u256_to_decimal(&s.token_balance, s.decimals) {
                    Err(e) => Err(e),
                    Ok(amount) => Ok(
                        (
                            SweepState { phase: SweepPhase::Credit, ..s },
                            SweepCommand::Credit {
                                chain: s.chain,
                                token: registry.tokens[s.chain].tokens[s.token].address,
                                amount,
                                tx_hash,
                            },
                        ),
                    ),
                }
            },
            _ => Err(AppError::internal("Unexpected chain reply")),
        },
        ChainEvent::Credited => match s.phase {
            SweepPhase::Credit => {
                let next = to_following_token(s, registry);
                Ok(entered(next, registry))
            },
            _ => Err(AppError::internal("Unexpected chain reply")),
        },
    }
}

/// The state in which the sweep of a wallet starts.
pub open spec fn initial_state(
    user_id: [u8; 16],
    wallet: Address,
    master: Address,
    tokens: Seq<ChainTokens>,
) -> SweepState {
    SweepState {
        user_id,
        wallet,
        master,
        chain: 0,
        token: 0,
        phase: if tokens.len() == 0 {
            SweepPhase::Finished
        } else {
            SweepPhase::Connect
        },
        gas_price: 0,
        gas_balance: U256 { limbs: [0, 0, 0, 0] },
        decimals: 0,
        token_balance: U256 { limbs: [0, 0, 0, 0] },
    }
}

/// Starts the sweep of a wallet: reads the master address and the wallet's own
/// address, either of which is a bad request where it is malformed, and asks
/// for the first step.
pub fn begin(wallet: &Wallet, master_wallet_address: &str, registry: &ChainRegistry) -> (r: Result<
    (SweepState, SweepCommand),
    AppError,
>)
    ensures
        match (
            address_bytes(encode_utf8(master_wallet_address@)),
            address_bytes(encode_utf8(wallet.wallet_address@)),
        ) {
            (None, _) => r matches Err(e) && e@ == bad_request("Invalid master wallet address"@),
            (Some(_), None) => r matches Err(e) && e@ == bad_request("Invalid wallet address"@),
            (Some(master), Some(own)) => r == Ok::<(SweepState, SweepCommand), AppError>(
                enter(
                    initial_state(
                        wallet.user_id,
                        address_of(own),
                        address_of(master),
                        registry.tokens@,
                    ),
                    registry.tokens@,
                ),
            ),
        },
        r matches Ok(step) ==> step.0.wf(registry.tokens@),
{
    let master = match Address::parse(master_wallet_address) {
        Some(a) => a,
        None => {
            return Err(AppError::bad_request("Invalid master wallet address"));
        },
    };
    let own = match Address::parse(wallet.wallet_address.as_str()) {
        Some(a) => a,
        None => {
            return Err(AppError::bad_request("Invalid wallet address"));
        },
    };
    proof {
        lemma_address_of(master);
        lemma_address_of(own);
    }
    let state = SweepState {
        user_id: wallet.user_id,
        wallet: own,
        master,
        chain: 0,
        token: 0,
        phase: if registry.tokens.len() == 0 {
            SweepPhase::Finished
        } else {
            SweepPhase::Connect
        },
        gas_price: 0,
        gas_balance: U256 { limbs: [0, 0, 0, 0] },
        decimals: 0,
        token_balance: U256 { limbs: [0, 0, 0, 0] },
    };
    Ok(entered(state, registry))
}

/// A transfer is sent only after a gas estimate, only for a balance of the
/// token that is not zero, in full and to the master wallet, and only where the
/// wallet's native balance is at least the estimated fee with its buffer of
/// one fifth.
pub proof fn lemma_transfer_needs_gas(s: SweepState, tokens: Seq<ChainTokens>, event: ChainEvent)
    requires
        s.wf(tokens),
        advance_spec(s, tokens, event) matches Ok(step) && step.1 is SendTransfer,
    ensures
        s.phase == SweepPhase::Estimate,
        event matches ChainEvent::GasEstimate(gas) && s.gas_balance@ >= gas * s.gas_price + (gas
            * s.gas_price) / 5,
        s.token_balance@ > 0,
        advance_spec(s, tokens, event)->Ok_0.1 == (SweepCommand::SendTransfer {
            chain: s.chain,
            token: token_at(s, tokens),
            to: s.master,
            units: s.token_balance,
        }),
{
}

/// A token is passed over after its gas estimate exactly where the wallet's
/// native balance is below the estimated fee with its buffer.
pub proof fn lemma_short_of_gas_skips(s: SweepState, tokens: Seq<ChainTokens>, gas: u64)
    requires
        s.wf(tokens),
        s.phase == SweepPhase::Estimate,
    ensures
        advance_spec(s, tokens, ChainEvent::GasEstimate(gas)) matches Ok(step) && (step.1
            is SendTransfer <==> s.gas_balance@ >= minimum_gas_of(gas as int, s.gas_price as int)),
{
}

/// The ledger is written only for a transfer that was confirmed, under the
/// hash of that transfer, and with exactly the amount that was transferred:
/// the wallet's whole balance of the token, divided by ten to the token's
/// precision.
pub proof fn lemma_credit_needs_confirmation(
    s: SweepState,
    tokens: Seq<ChainTokens>,
    event: ChainEvent,
)
    requires
        advance_spec(s, tokens, event) matches Ok(step) && step.1 is Credit,
    ensures
        s.phase == SweepPhase::Transfer,
        event is Confirmed,
        advance_spec(s, tokens, event)->Ok_0.1 matches SweepCommand::Credit {
            chain,
            token,
            amount,
            tx_hash,
        } && chain == s.chain && token == token_at(s, tokens) && tx_hash == event->Confirmed_0
            && amount.wf() && crate::decimal::is_exact_quotient(
            amount,
            s.token_balance@,
            s.decimals as nat,
        ),
{
}

/// A token whose balance is zero is passed over: no estimate is asked for and
/// nothing is sent.
pub proof fn lemma_zero_balance_skips(s: SweepState, tokens: Seq<ChainTokens>, balance: U256)
    requires
        s.wf(tokens),
        s.phase == SweepPhase::TokenBalance,
    ensures
        advance_spec(s, tokens, ChainEvent::TokenBalance(balance)) matches Ok(step) && (step.1
            is EstimateTransfer <==> balance@ != 0) && (balance@ == 0 ==> step.0
            == token_or_next_chain(s, tokens, s.token + 1)),
{
}

/// The sweep is committed only when the last token of the last chain is done
/// with: every chain of the registry was connected to before, in its order.
pub proof fn lemma_commit_comes_last(s: SweepState, tokens: Seq<ChainTokens>, event: ChainEvent)
    requires
        s.wf(tokens),
        s.phase != SweepPhase::Finished,
        advance_spec(s, tokens, event) matches Ok(step) && step.1 is Commit,
    ensures
        s.chain + 1 == tokens.len(),
        s.phase == SweepPhase::GasPrice ==> tokens[s.chain as int].tokens@.len() == 0,
        token_phase(s.phase) ==> s.token + 1 == tokens[s.chain as int].tokens@.len(),
        advance_spec(s, tokens, event)->Ok_0.0.phase == SweepPhase::Finished,
{
}

/// Chains and tokens are visited in the order of the registry: a step moves to
/// the same token, to the next token of the same chain, or from the end of a
/// chain to the start of the next.
pub proof fn lemma_visits_in_order(s: SweepState, tokens: Seq<ChainTokens>, event: ChainEvent)
    requires
        s.wf(tokens),
        tokens.len() <= usize::MAX,
        tokens[s.chain as int].tokens@.len() <= usize::MAX,
        s.phase != SweepPhase::Finished,
        advance_spec(s, tokens, event) matches Ok(step) && step.0.phase != SweepPhase::Finished,
    ensures
        ({
            let next = advance_spec(s, tokens, event)->Ok_0.0;
            ||| next.chain == s.chain && next.token == s.token
            ||| next.chain == s.chain && next.token == s.token + 1 && token_phase(s.phase)
            ||| next.chain == s.chain && next.token == 0 && s.phase == SweepPhase::GasPrice
            ||| next.chain == s.chain + 1 && next.token == 0 && next.phase == SweepPhase::Connect
        }),
{
}

/// A step that failed ends the attempt, whatever the step was.
pub proof fn lemma_failure_ends_the_attempt(
    s: SweepState,
    tokens: Seq<ChainTokens>,
    reason: String,
)
    ensures
        advance_spec(s, tokens, ChainEvent::Failed(reason)) is Err,
{
}

/// A confirmed transfer that waits to be credited.
#[derive(Debug, PartialEq, Eq)]
pub struct PendingCredit {
    /// The place of the chain in the registry's token lists.
    pub chain: usize,
    /// The token that was transferred.
    pub token: Address,
    /// The amount that was transferred.
    pub amount: Amount,
    /// The hash of the transaction that transferred it.
    pub tx_hash: String,
}

/// The deposit that a confirmed transfer is credited as: the addresses are
/// written in their checksummed form, the chain by its name.
pub open spec fn deposit_of(
    user_id: [u8; 16],
    wallet: Address,
    tokens: Seq<ChainTokens>,
    credit: PendingCredit,
    d: Deposit,
) -> bool {
    &&& d.user_id == user_id
    &&& d.wallet_address@ == checksum_text(wallet@)
    &&& d.token_address@ == checksum_text(credit.token@)
    &&& d.chain_name == tokens[credit.chain as int].chain
    &&& d.amount == credit.amount
    &&& d.tx_hash == credit.tx_hash
}

/// The deposit that a confirmed transfer is credited as.
pub fn deposit_for(
    state: &SweepState,
    registry: &ChainRegistry,
    chain: usize,
    token: &Address,
    amount: Amount,
    tx_hash: String,
) -> (d: Deposit)
    requires
        chain < registry.tokens@.len(),
    ensures
        deposit_of(
            state.user_id,
            state.wallet,
            registry.tokens@,
            PendingCredit { chain, token: *token, amount, tx_hash },
            d,
        ),
{
    Deposit {
        user_id: state.user_id,
        wallet_address: state.wallet.to_checksum_string(),
        token_address: token.to_checksum_string(),
        chain_name: registry.tokens[chain].chain.clone(),
        amount,
        tx_hash,
    }
}

/// A copy of the reply.
pub fn clone_event(event: &ChainEvent) -> (r: ChainEvent)
    ensures
        r == *event,
{
    match event {
        ChainEvent::Connected => ChainEvent::Connected,
        ChainEvent::GasPrice(p) => ChainEvent::GasPrice(*p),
        ChainEvent::NativeBalance(b) => ChainEvent::NativeBalance(*b),
        ChainEvent::Decimals(d) => ChainEvent::Decimals(*d),
        ChainEvent::Code { empty } => ChainEvent::Code { empty: *empty },
        ChainEvent::TokenBalance(b) => ChainEvent::TokenBalance(*b),
        ChainEvent::GasEstimate(g) => ChainEvent::GasEstimate(*g),
        ChainEvent::Confirmed(h) => ChainEvent::Confirmed(h.clone()),
        ChainEvent::Credited => ChainEvent::Credited,
        ChainEvent::Failed(why) => ChainEvent::Failed(why.clone()),
    }
}

/// Whether none of the first `n` replies confirms a transfer.
pub open spec fn nothing_confirmed(replies: Seq<ChainEvent>, n: int) -> bool {
    forall|j: int| 0 <= j < n ==> !((#[trigger] replies[j]) is Confirmed)
}

/// The credits with `first` before them, where there are credits.
pub open spec fn after_credits(
    first: Seq<PendingCredit>,
    then: Result<Seq<PendingCredit>, AppErrorView>,
) -> Result<Seq<PendingCredit>, AppErrorView> {
    match then {
        Ok(rest) => Ok(first + rest),
        Err(e) => Err(e),
    }
}

/// What an attempt comes to from a state and the step that it waits for, when
/// the chain gives the replies from place `i` on and every ledger write is
/// done: the transfers that are credited, in their order, or the error that
/// ends the attempt. An attempt that runs out of replies fails.
pub open spec fn sweep_trace(
    s: SweepState,
    c: SweepCommand,
    tokens: Seq<ChainTokens>,
    replies: Seq<ChainEvent>,
    i: int,
) -> Result<Seq<PendingCredit>, AppErrorView>
    decreases
            2 * (replies.len() - i) + if c is Credit {
                1int
            } else {
                0int
            },
{
    if i < 0 || i > replies.len() {
        Err(internal_error("No reply from the chain"@))
    } else {
        match c {
            SweepCommand::Commit => Ok(Seq::empty()),
            SweepCommand::Credit { chain, token, amount, tx_hash } => match advance_spec(
                s,
                tokens,
                ChainEvent::Credited,
            ) {
                Err(e) => Err(e),
                Ok(step) => if step.1 is Credit {
                    Err(internal_error("Unexpected chain reply"@))
                } else {
                    after_credits(
                        seq![PendingCredit { chain, token, amount, tx_hash }],
                        sweep_trace(step.0, step.1, tokens, replies, i),
                    )
                },
            },
            _ => if i >= replies.len() {
                Err(internal_error("No reply from the chain"@))
            } else {
                match advance_spec(s, tokens, replies[i]) {
                    Err(e) => Err(e),
                    Ok(step) => sweep_trace(step.0, step.1, tokens, replies, i + 1),
                }
            },
        }
    }
}

/// What an attempt at a wallet comes to: a bad request where the master
/// address or the wallet's own address is malformed, else what the sweep comes
/// to from its first step.
pub open spec fn attempt_credits(
    wallet: Wallet,
    master: Seq<char>,
    tokens: Seq<ChainTokens>,
    replies: Seq<ChainEvent>,
) -> Result<Seq<PendingCredit>, AppErrorView> {
    match (
        address_bytes(encode_utf8(master)),
        address_bytes(encode_utf8(wallet.wallet_address@)),
    ) {
        (None, _) => Err(bad_request("Invalid master wallet address"@)),
        (Some(_), None) => Err(bad_request("Invalid wallet address"@)),
        (Some(to), Some(own)) => {
            let s = initial_state(wallet.user_id, address_of(own), address_of(to), tokens);
            sweep_trace(s, command_of(s, tokens), tokens, replies, 0)
        },
    }
}

/// A result of credits with its values taken by their views.
pub open spec fn credits_view(r: Result<Vec<PendingCredit>, AppError>) -> Result<
    Seq<PendingCredit>,
    AppErrorView,
> {
    match r {
        Ok(v) => Ok(v@),
        Err(e) => Err(e@),
    }
}

/// Runs the sweep from a state and its step against the replies that the chain
/// gave, and collects the transfers that are to be credited.
pub fn collect_credits(
    state: SweepState,
    command: SweepCommand,
    registry: &ChainRegistry,
    replies: &Vec<ChainEvent>,
) -> (r: Result<Vec<PendingCredit>, AppError>)
    requires
        state.wf(registry.tokens@),
        command matches SweepCommand::Credit { chain, amount, .. } ==> chain
            < registry.tokens@.len() && amount.wf(),
    ensures
        credits_view(r) == sweep_trace(state, command, registry.tokens@, replies@, 0),
        r matches Ok(credits) ==> forall|k: int|
            0 <= k < credits@.len() ==> (#[trigger] credits@[k]).chain < registry.tokens@.len()
                && credits@[k].amount.wf(),
{
    let ghost tokens = registry.tokens@;
    let ghost whole = sweep_trace(state, command, tokens, replies@, 0);
    let mut at = state;
    let mut pending = command;
    let mut collected: Vec<PendingCredit> = Vec::new();
    let mut i: usize = 0;
    proof {
        match sweep_trace(state, command, tokens, replies@, 0) {
            Ok(rest) => {
                assert(collected@ + rest =~= rest);
            },
            Err(_) => {},
        }
    }
    loop
        invariant
            tokens == registry.tokens@,
            whole == sweep_trace(state, command, registry.tokens@, replies@, 0),
            at.wf(tokens),
            i <= replies@.len(),
            whole == after_credits(collected@, sweep_trace(at, pending, tokens, replies@, i as int)),
            pending matches SweepCommand::Credit { chain, amount, .. } ==> chain < tokens.len()
                && amount.wf(),
            forall|k: int|
                0 <= k < collected@.len() ==> (#[trigger] collected@[k]).chain < tokens.len()
                    && collected@[k].amount.wf(),
        decreases
                2 * (replies@.len() - i) + if pending is Credit {
                    1int
                } else {
                    0int
                },
    {
                let event = match pending {
            SweepCommand::Commit => {
                proof {
                    assert(collected@ + Seq::<PendingCredit>::empty() =~= collected@);
                }
                return Ok(collected);
            },
            SweepCommand::Credit { chain, token, amount, tx_hash } => {
                let ghost credit = PendingCredit { chain, token, amount, tx_hash };
                proof {
                    match advance_spec(at, tokens, ChainEvent::Credited) {
                        Ok(step) => {
                            if step.1 is Credit {
                                lemma_credit_needs_confirmation(
                                    at,
                                    tokens,
                                    ChainEvent::Credited,
                                );
                            }
                            match sweep_trace(step.0, step.1, tokens, replies@, i as int) {
                                Ok(rest) => {
                                    assert(collected@ + (seq![credit] + rest)
                                        =~= collected@.push(credit) + rest);
                                },
                                Err(_) => {},
                            }
                        },
                        Err(_) => {},
                    }
                }
                collected.push(PendingCredit { chain, token, amount, tx_hash });
                ChainEvent::Credited
            },
            _ => {
                if i >= replies.len() {
                    return Err(AppError::internal("No reply from the chain"));
                }
                let e = clone_event(&replies[i]);
                i = i + 1;
                e
            },
        };
        proof {
            if advance_spec(at, tokens, event) matches Ok(step) && step.1 is Credit {
                lemma_credit_needs_confirmation(at, tokens, event);
            }
        }
        match advance(at, registry, event) {
            Err(e) => {
                return Err(e);
            },
            Ok((s, c)) => {
                at = s;
                pending = c;
            },
        }
    }
}

/// Without a confirmation nothing is credited: an attempt that waits for no
/// ledger write and gets no confirmation among its replies ends, if it ends
/// well, without a credit.
pub proof fn lemma_nothing_confirmed_nothing_credited(
    s: SweepState,
    c: SweepCommand,
    tokens: Seq<ChainTokens>,
    replies: Seq<ChainEvent>,
    i: int,
)
    requires
        0 <= i,
        !(c is Credit),
        nothing_confirmed(replies, replies.len() as int),
    ensures
        sweep_trace(s, c, tokens, replies, i) matches Ok(credits) ==> credits.len() == 0,
    decreases replies.len() - i,
{
    match c {
        SweepCommand::Commit => {},
        SweepCommand::Credit { .. } => {},
        _ => {
            if i < replies.len() {
                match advance_spec(s, tokens, replies[i]) {
                    Err(_) => {},
                    Ok(step) => {
                        if step.1 is Credit {
                            lemma_credit_needs_confirmation(s, tokens, replies[i]);
                        }
                        lemma_nothing_confirmed_nothing_credited(
                            step.0,
                            step.1,
                            tokens,
                            replies,
                            i + 1,
                        );
                    },
                }
            }
        },
    }
}

/// Whether the deposits are what the credits of a wallet's sweep are credited
/// as, one for each and in their order.
pub open spec fn deposits_of(
    user_id: [u8; 16],
    wallet: Address,
    tokens: Seq<ChainTokens>,
    credits: Seq<PendingCredit>,
    deposits: Seq<Deposit>,
) -> bool {
    &&& deposits.len() == credits.len()
    &&& forall|k: int|
        0 <= k < credits.len() ==> deposit_of(
            user_id,
            wallet,
            tokens,
            credits[k],
            #[trigger] deposits[k],
        )
}

/// What a confirmed transfer is credited to: the wallet's user, the token by
/// its checksummed address, and the chain by its name.
pub open spec fn credit_key(
    user_id: [u8; 16],
    tokens: Seq<ChainTokens>,
    credit: PendingCredit,
) -> LedgerKey {
    LedgerKey {
        user: user_id@,
        token: checksum_text(credit.token@),
        chain: tokens[credit.chain as int].chain@,
    }
}

/// The balances after the credits of a wallet's sweep were written, one after
/// the other; `None` where one of the new balances cannot be had exactly.
pub open spec fn credits_map(
    m: Map<LedgerKey, Amount>,
    user_id: [u8; 16],
    tokens: Seq<ChainTokens>,
    credits: Seq<PendingCredit>,
) -> Option<Map<LedgerKey, Amount>>
    decreases credits.len(),
{
    if credits.len() == 0 {
        Some(m)
    } else {
        match credits_map(m, user_id, tokens, credits.drop_last()) {
            None => None,
            Some(before) => credit_map(
                before,
                credit_key(user_id, tokens, credits.last()),
                credits.last().amount,
            ),
        }
    }
}

/// Writing the deposits of a sweep's credits is writing the credits.
pub proof fn lemma_deposits_are_the_credits(
    m: Map<LedgerKey, Amount>,
    user_id: [u8; 16],
    wallet: Address,
    tokens: Seq<ChainTokens>,
    credits: Seq<PendingCredit>,
    deposits: Seq<Deposit>,
)
    requires
        deposits_of(user_id, wallet, tokens, credits, deposits),
    ensures
        credit_all_map(m, deposits) == credits_map(m, user_id, tokens, credits),
    decreases credits.len(),
{
    if credits.len() > 0 {
        assert(deposits_of(user_id, wallet, tokens, credits.drop_last(), deposits.drop_last())) by {
            assert forall|k: int| 0 <= k < credits.drop_last().len() implies deposit_of(
                user_id,
                wallet,
                tokens,
                credits.drop_last()[k],
                #[trigger] deposits.drop_last()[k],
            ) by {
                assert(deposit_of(user_id, wallet, tokens, credits[k], deposits[k]));
            }
        }
        lemma_deposits_are_the_credits(
            m,
            user_id,
            wallet,
            tokens,
            credits.drop_last(),
            deposits.drop_last(),
        );
        assert(deposit_of(
            user_id,
            wallet,
            tokens,
            credits[credits.len() - 1],
            deposits[credits.len() - 1],
        ));
        assert(deposits.last().key() == credit_key(user_id, tokens, credits.last()));
    }
}

/// Whether the receipt records the credit of a wallet's sweep: the addresses
/// in their checksummed form, the chain by its name.
pub open spec fn credit_receipt(
    receipt: crate::ledger::DepositReceipt,
    user_id: [u8; 16],
    wallet: Address,
    tokens: Seq<ChainTokens>,
    credit: PendingCredit,
) -> bool {
    crate::ledger::receipt_records(
        receipt,
        user_id@,
        checksum_text(wallet@),
        checksum_text(credit.token@),
        tokens[credit.chain as int].chain@,
        credit.amount,
        credit.tx_hash@,
    )
}

/// Whether the receipts from place `from` on record the credits of a wallet's
/// sweep, one for each and in their order, up to the place where they end.
pub open spec fn credit_receipts(
    receipts: Seq<crate::ledger::DepositReceipt>,
    from: int,
    user_id: [u8; 16],
    wallet: Address,
    tokens: Seq<ChainTokens>,
    credits: Seq<PendingCredit>,
) -> bool {
    &&& 0 <= from
    &&& from + credits.len() <= receipts.len()
    &&& forall|k: int|
        0 <= k < credits.len() ==> credit_receipt(
            #[trigger] receipts[from + k],
            user_id,
            wallet,
            tokens,
            credits[k],
        )
}

/// The address that a wallet's stored text stands for.
pub open spec fn own_address(w: Wallet) -> Address {
    address_of(address_bytes(encode_utf8(w.wallet_address@))->0)
}

/// Runs one attempt at sweeping a wallet against the replies that the chain
/// gave, in the order in which they were given. A wallet that is no longer
/// there is a success without effect. Where the sweep reaches its end, every
/// confirmed transfer is credited to the ledger, all as one unit, and the
/// wallet is handed back released; where it fails, or where one of the new
/// balances cannot be had exactly, the ledger is as it was.
pub fn process_single_request(
    wallet: Option<Wallet>,
    master_wallet_address: &str,
    registry: &ChainRegistry,
    replies: &Vec<ChainEvent>,
    ledger: &mut Ledger,
) -> (r: Result<Option<Wallet>, AppError>)
    requires
        old(ledger).wf(),
    ensures
        final(ledger).wf(),
        receipts_kept(old(ledger).receipts@, final(ledger).receipts@),
        wallet is None ==> r == Ok::<Option<Wallet>, AppError>(None) && same_contents(
            *final(ledger),
            *old(ledger),
        ),
        wallet matches Some(w) ==> match attempt_credits(
            w,
            master_wallet_address@,
            registry.tokens@,
            replies@,
        ) {
            Err(e) => r matches Err(x) && x@ == e && same_contents(*final(ledger), *old(ledger)),
            Ok(credits) => match credits_map(
                ledger_map(old(ledger).balances@),
                w.user_id,
                registry.tokens@,
                credits,
            ) {
                Some(m) => {
                    &&& r == Ok::<Option<Wallet>, AppError>(Some(freed(w)))
                    &&& ledger_map(final(ledger).balances@) == m
                    &&& final(ledger).receipts@.len() == old(ledger).receipts@.len()
                        + credits.len()
                    &&& credit_receipts(
                        final(ledger).receipts@,
                        old(ledger).receipts@.len() as int,
                        w.user_id,
                        own_address(w),
                        registry.tokens@,
                        credits,
                    )
                },
                None => {
                    &&& r matches Err(x)
                    &&& x@ == internal_error("Balance overflow"@)
                    &&& same_contents(*final(ledger), *old(ledger))
                },
            },
        },
        r is Err || nothing_confirmed(replies@, replies@.len() as int) ==> same_contents(
            *final(ledger),
            *old(ledger),
        ),
{
    let ghost start = *ledger;
    assert(start.receipts@.subrange(0, start.receipts@.len() as int) =~= start.receipts@);
    let row = match wallet {
        None => {
            return Ok(None);
        },
        Some(w) => w,
    };
    let (state, command) = match begin(&row, master_wallet_address, registry) {
        Err(e) => {
            return Err(e);
        },
        Ok(step) => step,
    };
    proof {
        if nothing_confirmed(replies@, replies@.len() as int) {
            lemma_nothing_confirmed_nothing_credited(state, command, registry.tokens@, replies@, 0);
        }
    }
    let credits = match collect_credits(state, command, registry, replies) {
        Err(e) => {
            return Err(e);
        },
        Ok(credits) => credits,
    };
    let mut deposits: Vec<Deposit> = Vec::new();
    let mut k: usize = 0;
    while k < credits.len()
        invariant
            k <= credits@.len(),
            state.wf(registry.tokens@),
            forall|j: int|
                0 <= j < credits@.len() ==> (#[trigger] credits@[j]).chain < registry.tokens@.len()
                    && credits@[j].amount.wf(),
            deposits_of(
                state.user_id,
                state.wallet,
                registry.tokens@,
                credits@.subrange(0, k as int),
                deposits@,
            ),
            forall|j: int| 0 <= j < deposits@.len() ==> (#[trigger] deposits@[j]).amount.wf(),
        decreases credits@.len() - k,
    {
        let credit = &credits[k];
        let deposit = deposit_for(
            &state,
            registry,
            credit.chain,
            &credit.token,
            credit.amount,
            credit.tx_hash.clone(),
        );
        deposits.push(deposit);
        k = k + 1;
    }
    assert(credits@.subrange(0, k as int) =~= credits@);
    proof {
        lemma_deposits_are_the_credits(
            ledger_map(ledger.balances@),
            state.user_id,
            state.wallet,
            registry.tokens@,
            credits@,
            deposits@,
        );
    }
    let ghost from = ledger.receipts@.len() as int;
    match ledger.credit_all(&deposits) {
        Err(e) => Err(e),
        Ok(()) => {
            proof {
                assert forall|k: int| 0 <= k < credits@.len() implies credit_receipt(
                    #[trigger] ledger.receipts@[from + k],
                    state.user_id,
                    state.wallet,
                    registry.tokens@,
                    credits@[k],
                ) by {
                    assert(deposit_of(
                        state.user_id,
                        state.wallet,
                        registry.tokens@,
                        credits@[k],
                        deposits@[k],
                    ));
                }
            }
            Ok(Some(mark_wallet_free(row)))
        },
    }
}

} // verus!
