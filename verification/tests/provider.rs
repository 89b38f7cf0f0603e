use wallet_sweeper::error::ErrorKind;
use wallet_sweeper::provider::{create_provider, ProbeOutcome, ProviderSearch, ProviderStep};
use wallet_sweeper::registry::{ChainEndpoints, ChainRegistry};

const USER: [u8; 16] = [1, 2, 3, 4, 5, 6, 7, 8, 9, 10, 11, 12, 13, 14, 15, 16];
const SECRET: &str = "00112233445566778899aabbccddeeff";

fn registry(urls: usize) -> ChainRegistry {
    ChainRegistry {
        endpoints: vec![ChainEndpoints {
            chain: "base_sepolia".to_string(),
            urls: (0..urls).map(|i| format!("https://rpc{}.example", i)).collect(),
        }],
        tokens: vec![],
    }
}

fn search(urls: usize) -> ProviderSearch {
    create_provider(&registry(urls), "base_sepolia", &USER, SECRET).unwrap()
}

#[test]
fn failover_takes_the_third_endpoint_when_two_are_dead() {
    let outcomes = vec![ProbeOutcome::Unreachable, ProbeOutcome::Unreachable, ProbeOutcome::Live];
    assert_eq!(search(3).resolve(&outcomes), Ok(2));
}

#[test]
fn first_live_endpoint_wins() {
    let outcomes = vec![ProbeOutcome::Live, ProbeOutcome::Live, ProbeOutcome::Live];
    assert_eq!(search(3).resolve(&outcomes), Ok(0));
    let outcomes = vec![ProbeOutcome::Unparsable, ProbeOutcome::Live, ProbeOutcome::Live];
    assert_eq!(search(3).resolve(&outcomes), Ok(1));
}

#[test]
fn all_endpoints_dead_is_an_internal_error() {
    let outcomes = vec![ProbeOutcome::Unreachable, ProbeOutcome::Unparsable];
    let e = search(2).resolve(&outcomes).unwrap_err();
    assert_eq!(e.kind(), ErrorKind::Internal);
    assert_eq!(e.text(), "All RPC endpoints failed");
}

#[test]
fn chain_with_an_empty_list_fails_at_once() {
    let e = search(0).resolve(&vec![ProbeOutcome::Live]).unwrap_err();
    assert_eq!(e.text(), "All RPC endpoints failed");
}

#[test]
fn live_outcome_beyond_the_list_does_not_count() {
    let outcomes = vec![ProbeOutcome::Unreachable, ProbeOutcome::Live];
    assert!(search(1).resolve(&outcomes).is_err());
}

#[test]
fn endpoint_without_outcome_counts_as_dead() {
    let outcomes = vec![ProbeOutcome::Unreachable];
    assert!(search(3).resolve(&outcomes).is_err());
}

#[test]
fn search_steps_through_the_list() {
    let s = search(2);
    assert_eq!(s.next, 0);
    assert_eq!(s.endpoints, 2);
    assert_eq!(s.start(), ProviderStep::Probe(s));
    let second = match s.on_probe(ProbeOutcome::Unreachable) {
        ProviderStep::Probe(next) => next,
        other => panic!("expected another probe, got {:?}", other),
    };
    assert_eq!(second.next, 1);
    assert_eq!(second.on_probe(ProbeOutcome::Live), ProviderStep::Connected { endpoint: 1 });
    match second.on_probe(ProbeOutcome::Unparsable) {
        ProviderStep::Failed(e) => assert_eq!(e.text(), "All RPC endpoints failed"),
        other => panic!("expected a failure, got {:?}", other),
    }
}

#[test]
fn provider_carries_the_derived_seed() {
    let s = search(1);
    assert_eq!(
        hex::encode(s.seed),
        "c72e29f5b5cc5dd6f130a29e2754a84397583f5669d49537700e156b4a56a62a"
    );
}

#[test]
fn unknown_chain_has_no_endpoints() {
    let e = create_provider(&registry(1), "nowhere", &USER, SECRET).unwrap_err();
    assert_eq!(e.kind(), ErrorKind::Internal);
    assert_eq!(e.text(), "No RPCs found for chain nowhere");
}

#[test]
fn invalid_secret_is_reported_before_an_unknown_chain() {
    let e = create_provider(&registry(1), "nowhere", &USER, "xyz").unwrap_err();
    assert_eq!(e.text(), "Invalid WALLET_GENERATION_SECRET");
}

#[test]
fn seed_that_no_signer_takes_is_an_internal_error() {
    let e = wallet_sweeper::provider::open_search(&registry(1), "base_sepolia", [0u8; 32], false)
        .unwrap_err();
    assert_eq!(e.kind(), ErrorKind::Internal);
    assert_eq!(e.text(), "Signer creation failed");
    let e = wallet_sweeper::provider::open_search(&registry(1), "nowhere", [0u8; 32], false)
        .unwrap_err();
    assert_eq!(e.text(), "Signer creation failed");
}

#[test]
fn search_opens_at_the_first_endpoint() {
    let s = wallet_sweeper::provider::open_search(&registry(4), "base_sepolia", [7u8; 32], true)
        .unwrap();
    assert_eq!(s, ProviderSearch { seed: [7u8; 32], chain: 0, endpoints: 4, next: 0 });
    let e = wallet_sweeper::provider::open_search(&registry(4), "nowhere", [7u8; 32], true)
        .unwrap_err();
    assert_eq!(e.text(), "No RPCs found for chain nowhere");
}
