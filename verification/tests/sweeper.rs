use wallet_sweeper::address::Address;
use wallet_sweeper::decimal::Amount;
use wallet_sweeper::error::ErrorKind;
use wallet_sweeper::ledger::Ledger;
use wallet_sweeper::registry::{ChainRegistry, ChainTokens, TokenEntry};
use wallet_sweeper::sweeper::{
    advance, begin, deposit_for, get_token_decimals, process_single_request, ChainEvent,
    SweepCommand, SweepPhase, SweepState, NATIVE_DECIMALS,
};
use wallet_sweeper::uint::U256;
use wallet_sweeper::wallet::{Wallet, WalletStatus};

const MASTER: &str = "0xfB6916095ca1df60bB79Ce92cE3Ea74c37c5d359";
const OWN: &str = "0x5aaeb6053f3e94c9b9a09f33669435e7ef1beaed";
const OWN_CHECKSUMMED: &str = "0x5aAeb6053F3E94C9b9A09f33669435E7Ef1BeAed";
const USDC: &str = "0x6E5C7663971Be425B4726D7ba90456B935bb95ce";
const USDT: &str = "0xB72FDb9f8190D8e1141e6a8e9c0732b0f4d93c09";
const USER: [u8; 16] = [9; 16];

fn address(text: &str) -> Address {
    Address::parse(text).unwrap()
}

fn wallet() -> Wallet {
    Wallet {
        id: [1; 16],
        user_id: USER,
        wallet_address: OWN.to_string(),
        status: WalletStatus::SweepInProgress,
        active_gas: Amount::zero(),
        created_at: 5,
    }
}

fn one_token() -> ChainRegistry {
    ChainRegistry {
        endpoints: vec![],
        tokens: vec![ChainTokens {
            chain: "base_sepolia".to_string(),
            tokens: vec![TokenEntry { symbol: "USDC".to_string(), address: address(USDC) }],
        }],
    }
}

fn two_tokens() -> ChainRegistry {
    ChainRegistry {
        endpoints: vec![],
        tokens: vec![ChainTokens {
            chain: "base_sepolia".to_string(),
            tokens: vec![
                TokenEntry { symbol: "USDC".to_string(), address: address(USDC) },
                TokenEntry { symbol: "USDT".to_string(), address: address(USDT) },
            ],
        }],
    }
}

fn successful_token(units: u64, decimals: u8, hash: &str) -> Vec<ChainEvent> {
    vec![
        ChainEvent::NativeBalance(U256::from_u64(1_000_000_000)),
        ChainEvent::Decimals(decimals),
        ChainEvent::Code { empty: false },
        ChainEvent::TokenBalance(U256::from_u64(units)),
        ChainEvent::GasEstimate(100_000),
        ChainEvent::Confirmed(hash.to_string()),
    ]
}

fn chain_start(gas_price: u128) -> Vec<ChainEvent> {
    vec![ChainEvent::Connected, ChainEvent::GasPrice(gas_price)]
}

fn as_decimal(a: Amount) -> rust_decimal::Decimal {
    rust_decimal::Decimal::from_i128_with_scale(a.mantissa as i128, a.scale)
}

fn one() -> rust_decimal::Decimal {
    "1.0".parse().unwrap()
}

#[test]
fn swept_wallet_yields_one_receipt_and_is_free() {
    let registry = one_token();
    let mut ledger = Ledger::new();
    let mut replies = chain_start(50);
    replies.extend(successful_token(1_000_000, 6, "0xabc"));
    let released =
        process_single_request(Some(wallet()), MASTER, &registry, &replies, &mut ledger).unwrap();
    assert_eq!(released.unwrap().status, WalletStatus::Free);
    assert_eq!(ledger.receipts.len(), 1);
    let r = &ledger.receipts[0];
    assert_eq!(as_decimal(r.amount), one());
    assert_eq!(r.user_id, USER);
    assert_eq!(r.user_address, OWN_CHECKSUMMED);
    assert_eq!(r.token, USDC);
    assert_eq!(r.chain, "base_sepolia");
    assert_eq!(r.txn_hash, "0xabc");
    assert_eq!(ledger.balances.len(), 1);
    assert_eq!(as_decimal(ledger.balances[0].balance), one());
}

#[test]
fn second_sweep_increments_the_balance_by_the_amount() {
    let registry = one_token();
    let mut ledger = Ledger::new();
    let mut replies = chain_start(50);
    replies.extend(successful_token(2_500_000, 6, "0x1"));
    process_single_request(Some(wallet()), MASTER, &registry, &replies, &mut ledger).unwrap();
    let mut replies = chain_start(50);
    replies.extend(successful_token(1_000_000, 6, "0x2"));
    process_single_request(Some(wallet()), MASTER, &registry, &replies, &mut ledger).unwrap();
    assert_eq!(ledger.receipts.len(), 2);
    assert_eq!(as_decimal(ledger.receipts[1].amount), one());
    assert_eq!(ledger.balances.len(), 1);
    assert_eq!(
        as_decimal(ledger.balances[0].balance),
        "3.5".parse::<rust_decimal::Decimal>().unwrap()
    );
}

#[test]
fn every_token_of_the_chain_is_swept() {
    let registry = two_tokens();
    let mut ledger = Ledger::new();
    let mut replies = chain_start(50);
    replies.extend(successful_token(1_000_000, 6, "0x1"));
    replies.extend(successful_token(5, 0, "0x2"));
    process_single_request(Some(wallet()), MASTER, &registry, &replies, &mut ledger).unwrap();
    assert_eq!(ledger.receipts.len(), 2);
    assert_eq!(ledger.receipts[0].token, USDC);
    assert_eq!(ledger.receipts[1].token, USDT);
    assert_eq!(ledger.balances.len(), 2);
}

#[test]
fn wallet_that_is_gone_is_a_success_without_effect() {
    let mut ledger = Ledger::new();
    let r = process_single_request(None, MASTER, &one_token(), &vec![], &mut ledger);
    assert_eq!(r, Ok(None));
    assert_eq!(ledger, Ledger::new());
    let r = process_single_request(None, "not an address", &one_token(), &vec![], &mut ledger);
    assert_eq!(r, Ok(None));
}

#[test]
fn zero_token_balance_is_passed_over() {
    let mut ledger = Ledger::new();
    let mut replies = chain_start(50);
    replies.extend(vec![
        ChainEvent::NativeBalance(U256::from_u64(1_000_000_000)),
        ChainEvent::Decimals(6),
        ChainEvent::Code { empty: false },
        ChainEvent::TokenBalance(U256::zero()),
    ]);
    let released =
        process_single_request(Some(wallet()), MASTER, &one_token(), &replies, &mut ledger).unwrap();
    assert_eq!(released.unwrap().status, WalletStatus::Free);
    assert_eq!(ledger, Ledger::new());
}

#[test]
fn wallet_short_of_gas_is_passed_over() {
    let mut ledger = Ledger::new();
    let mut replies = chain_start(50);
    replies.extend(vec![
        ChainEvent::NativeBalance(U256::from_u64(5_999_999)),
        ChainEvent::Decimals(6),
        ChainEvent::Code { empty: false },
        ChainEvent::TokenBalance(U256::from_u64(1_000_000)),
        ChainEvent::GasEstimate(100_000),
    ]);
    let released =
        process_single_request(Some(wallet()), MASTER, &one_token(), &replies, &mut ledger).unwrap();
    assert_eq!(released.unwrap().status, WalletStatus::Free);
    assert_eq!(ledger, Ledger::new());
}

#[test]
fn wallet_with_exactly_the_minimum_gas_is_swept() {
    let mut ledger = Ledger::new();
    let mut replies = chain_start(50);
    replies.extend(vec![
        ChainEvent::NativeBalance(U256::from_u64(6_000_000)),
        ChainEvent::Decimals(6),
        ChainEvent::Code { empty: false },
        ChainEvent::TokenBalance(U256::from_u64(1_000_000)),
        ChainEvent::GasEstimate(100_000),
        ChainEvent::Confirmed("0xabc".to_string()),
    ]);
    process_single_request(Some(wallet()), MASTER, &one_token(), &replies, &mut ledger).unwrap();
    assert_eq!(ledger.receipts.len(), 1);
}

#[test]
fn failed_step_discards_every_credit_of_the_attempt() {
    let registry = two_tokens();
    let mut ledger = Ledger::new();
    let mut replies = chain_start(50);
    replies.extend(successful_token(1_000_000, 6, "0x1"));
    replies.push(ChainEvent::NativeBalance(U256::from_u64(1_000_000_000)));
    replies.push(ChainEvent::Failed("timeout".to_string()));
    let e = process_single_request(Some(wallet()), MASTER, &registry, &replies, &mut ledger)
        .unwrap_err();
    assert_eq!(e.kind(), ErrorKind::Internal);
    assert_eq!(e.text(), "Decimals call failed: timeout");
    assert_eq!(ledger, Ledger::new());
}

#[test]
fn failing_attempts_never_change_the_ledger() {
    let registry = one_token();
    let mut ledger = Ledger::new();
    let mut replies = chain_start(50);
    replies.extend(successful_token(1_000_000, 6, "0x1"));
    process_single_request(Some(wallet()), MASTER, &registry, &replies, &mut ledger).unwrap();
    let before = ledger.duplicate();
    for _ in 0..5 {
        let replies = vec![ChainEvent::Connected, ChainEvent::Failed("no gas price".to_string())];
        let r = process_single_request(Some(wallet()), MASTER, &registry, &replies, &mut ledger);
        assert!(r.is_err());
        assert_eq!(ledger, before);
    }
}

#[test]
fn attempt_without_replies_fails() {
    let mut ledger = Ledger::new();
    let e = process_single_request(Some(wallet()), MASTER, &one_token(), &vec![], &mut ledger)
        .unwrap_err();
    assert_eq!(e.text(), "No reply from the chain");
}

#[test]
fn attempt_with_nothing_configured_only_releases() {
    let registry = ChainRegistry { endpoints: vec![], tokens: vec![] };
    let mut ledger = Ledger::new();
    let released =
        process_single_request(Some(wallet()), MASTER, &registry, &vec![], &mut ledger).unwrap();
    assert_eq!(released.unwrap().status, WalletStatus::Free);
}

#[test]
fn malformed_wallet_address_is_a_bad_request() {
    let mut w = wallet();
    w.wallet_address = "0x1234".to_string();
    let mut ledger = Ledger::new();
    let e = process_single_request(Some(w), MASTER, &one_token(), &vec![], &mut ledger).unwrap_err();
    assert_eq!(e.kind(), ErrorKind::BadRequest);
    assert_eq!(e.text(), "Invalid wallet address");
}

#[test]
fn malformed_master_address_is_a_bad_request() {
    let e = begin(&wallet(), "master", &one_token()).unwrap_err();
    assert_eq!(e.kind(), ErrorKind::BadRequest);
    assert_eq!(e.text(), "Invalid master wallet address");
}

#[test]
fn token_without_code_is_a_bad_request() {
    let mut ledger = Ledger::new();
    let mut replies = chain_start(50);
    replies.extend(vec![
        ChainEvent::NativeBalance(U256::from_u64(1)),
        ChainEvent::Decimals(6),
        ChainEvent::Code { empty: true },
    ]);
    let e = process_single_request(Some(wallet()), MASTER, &one_token(), &replies, &mut ledger)
        .unwrap_err();
    assert_eq!(e.kind(), ErrorKind::BadRequest);
    assert_eq!(e.text(), "Not a contract");
}

#[test]
fn native_token_has_eighteen_decimals_and_is_not_asked() {
    let registry = ChainRegistry {
        endpoints: vec![],
        tokens: vec![ChainTokens {
            chain: "base_sepolia".to_string(),
            tokens: vec![TokenEntry { symbol: "ETH".to_string(), address: Address::zero() }],
        }],
    };
    let mut ledger = Ledger::new();
    let mut replies = chain_start(50);
    replies.extend(vec![
        ChainEvent::NativeBalance(U256::from_u64(1_000_000_000)),
        ChainEvent::TokenBalance(U256::from_u64(1)),
        ChainEvent::GasEstimate(21_000),
        ChainEvent::Confirmed("0xeth".to_string()),
    ]);
    process_single_request(Some(wallet()), MASTER, &registry, &replies, &mut ledger).unwrap();
    assert_eq!(
        as_decimal(ledger.receipts[0].amount),
        "0.000000000000000001".parse::<rust_decimal::Decimal>().unwrap()
    );
    assert_eq!(NATIVE_DECIMALS, 18);
}

#[test]
fn token_decimals_rule() {
    assert_eq!(get_token_decimals(&Address::zero(), 6, true), Ok(18));
    assert_eq!(get_token_decimals(&address(USDC), 6, false), Ok(6));
    let e = get_token_decimals(&address(USDC), 6, true).unwrap_err();
    assert_eq!(e.kind(), ErrorKind::BadRequest);
    assert_eq!(e.text(), "Not a contract");
}

#[test]
fn amount_that_cannot_be_converted_ends_the_attempt() {
    let mut ledger = Ledger::new();
    let mut replies = chain_start(50);
    replies.extend(successful_token(1_000_000, 40, "0x1"));
    let e = process_single_request(Some(wallet()), MASTER, &one_token(), &replies, &mut ledger)
        .unwrap_err();
    assert_eq!(e.text(), "Decimal overflow");
    assert_eq!(ledger, Ledger::new());
}

#[test]
fn steps_follow_the_order_of_the_sweep() {
    let registry = one_token();
    let token = address(USDC);
    let own = address(OWN);
    let master = address(MASTER);
    let (s, c) = begin(&wallet(), MASTER, &registry).unwrap();
    assert_eq!(c, SweepCommand::Connect { chain: 0 });
    assert_eq!(s.phase, SweepPhase::Connect);
    assert_eq!(s.wallet, own);
    assert_eq!(s.master, master);
    let (s, c) = advance(s, &registry, ChainEvent::Connected).unwrap();
    assert_eq!(c, SweepCommand::ReadGasPrice { chain: 0 });
    let (s, c) = advance(s, &registry, ChainEvent::GasPrice(50)).unwrap();
    assert_eq!(c, SweepCommand::ReadNativeBalance { chain: 0, wallet: own });
    let (s, c) = advance(s, &registry, ChainEvent::NativeBalance(U256::from_u64(7_000_000))).unwrap();
    assert_eq!(c, SweepCommand::ReadDecimals { chain: 0, token });
    let (s, c) = advance(s, &registry, ChainEvent::Decimals(6)).unwrap();
    assert_eq!(c, SweepCommand::ReadCode { chain: 0, token });
    let (s, c) = advance(s, &registry, ChainEvent::Code { empty: false }).unwrap();
    assert_eq!(c, SweepCommand::ReadTokenBalance { chain: 0, token, wallet: own });
    let (s, c) = advance(s, &registry, ChainEvent::TokenBalance(U256::from_u64(1_000_000))).unwrap();
    assert_eq!(
        c,
        SweepCommand::EstimateTransfer {
            chain: 0,
            token,
            from: master,
            to: master,
            units: U256::from_u64(1)
        }
    );
    let (s, c) = advance(s, &registry, ChainEvent::GasEstimate(100_000)).unwrap();
    assert_eq!(
        c,
        SweepCommand::SendTransfer { chain: 0, token, to: master, units: U256::from_u64(1_000_000) }
    );
    let (s, c) = advance(s, &registry, ChainEvent::Confirmed("0xabc".to_string())).unwrap();
    let deposit = match c {
        SweepCommand::Credit { chain, token: t, amount, tx_hash } => {
            assert_eq!(chain, 0);
            assert_eq!(t, token);
            assert_eq!(as_decimal(amount), one());
            assert_eq!(tx_hash, "0xabc");
            deposit_for(&s, &registry, chain, &t, amount, tx_hash)
        }
        other => panic!("expected a credit, got {:?}", other),
    };
    assert_eq!(deposit.user_id, USER);
    assert_eq!(deposit.wallet_address, OWN_CHECKSUMMED);
    assert_eq!(deposit.token_address, USDC);
    assert_eq!(deposit.chain_name, "base_sepolia");
    let (s, c) = advance(s, &registry, ChainEvent::Credited).unwrap();
    assert_eq!(c, SweepCommand::Commit);
    assert_eq!(s.phase, SweepPhase::Finished);
}

#[test]
fn chains_are_visited_in_the_order_of_the_registry() {
    let registry = ChainRegistry {
        endpoints: vec![],
        tokens: vec![
            ChainTokens { chain: "first".to_string(), tokens: vec![] },
            ChainTokens {
                chain: "second".to_string(),
                tokens: vec![TokenEntry { symbol: "USDC".to_string(), address: address(USDC) }],
            },
        ],
    };
    let (s, c) = begin(&wallet(), MASTER, &registry).unwrap();
    assert_eq!(c, SweepCommand::Connect { chain: 0 });
    let (s, _) = advance(s, &registry, ChainEvent::Connected).unwrap();
    let (s, c) = advance(s, &registry, ChainEvent::GasPrice(1)).unwrap();
    assert_eq!(c, SweepCommand::Connect { chain: 1 });
    let (s, _) = advance(s, &registry, ChainEvent::Connected).unwrap();
    let (s, c) = advance(s, &registry, ChainEvent::GasPrice(2)).unwrap();
    assert_eq!(c, SweepCommand::ReadNativeBalance { chain: 1, wallet: address(OWN) });
    assert_eq!(s.gas_price, 2);
}

#[test]
fn each_failed_step_has_its_own_error() {
    let registry = one_token();
    let fail = |state: SweepState| {
        advance(state, &registry, ChainEvent::Failed("why".to_string())).unwrap_err()
    };
    let (s, _) = begin(&wallet(), MASTER, &registry).unwrap();
    assert_eq!(fail(s).text(), "Provider error: why");
    let (s, _) = advance(s, &registry, ChainEvent::Connected).unwrap();
    assert_eq!(fail(s).text(), "Error Cannot get gas price : why");
    let (s, _) = advance(s, &registry, ChainEvent::GasPrice(50)).unwrap();
    assert_eq!(fail(s).text(), "Cannot fetch native balance: why");
    let (s, _) = advance(s, &registry, ChainEvent::NativeBalance(U256::from_u64(7_000_000))).unwrap();
    assert_eq!(fail(s).text(), "Decimals call failed: why");
    let (s, _) = advance(s, &registry, ChainEvent::Decimals(6)).unwrap();
    assert_eq!(fail(s).text(), "Code check failed: why");
    let (s, _) = advance(s, &registry, ChainEvent::Code { empty: false }).unwrap();
    assert_eq!(fail(s).text(), "Provider error: why");
    let (s, _) = advance(s, &registry, ChainEvent::TokenBalance(U256::from_u64(1))).unwrap();
    assert_eq!(fail(s).text(), "Error Cannot estimate gas : why");
    let (s, _) = advance(s, &registry, ChainEvent::GasEstimate(1)).unwrap();
    assert_eq!(fail(s).text(), "Provider error: why");
    let (s, _) = advance(s, &registry, ChainEvent::Confirmed("0x1".to_string())).unwrap();
    assert_eq!(fail(s).kind(), ErrorKind::Db);
    assert_eq!(fail(s).text(), "why");
}

#[test]
fn reply_that_answers_another_step_ends_the_attempt() {
    let registry = one_token();
    let (s, _) = begin(&wallet(), MASTER, &registry).unwrap();
    let e = advance(s, &registry, ChainEvent::GasPrice(5)).unwrap_err();
    assert_eq!(e.kind(), ErrorKind::Internal);
    assert_eq!(e.text(), "Unexpected chain reply");
}
