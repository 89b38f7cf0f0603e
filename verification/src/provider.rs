//! The connection to a chain: the candidate endpoints of the chain are tried
//! in the order of the registry, and the first that answers is taken.

use crate::error::{internal_error, AppError, AppErrorView};
use crate::keys::{derive_signing_key, is_signing_key, signer_accepts, signing_key_of};
use crate::registry::{endpoint_chains, first_index, no_endpoints_text, ChainRegistry};
use vstd::prelude::*;
use vstd::string::StringExecFns;

verus! {

/// What trying one endpoint gave.
#[derive(Debug, Clone, Copy, PartialEq, Eq, Structural)]
pub enum ProbeOutcome {
    /// The endpoint's text is no address that can be connected to.
    Unparsable,
    /// The endpoint did not answer the liveness probe.
    Unreachable,
    /// The endpoint answered.
    Live,
}

/// The search for a live endpoint of one chain on behalf of one user.
#[derive(Debug, Clone, Copy, PartialEq, Eq)]
pub struct ProviderSearch {
    /// The seed of the key with which the connection signs.
    pub seed: [u8; 32],
    /// The place of the chain's endpoint list in the registry.
    pub chain: usize,
    /// How many endpoints the chain has.
    pub endpoints: usize,
    /// The endpoint to try next.
    pub next: usize,
}

/// How a step of the search ends.
#[derive(Debug, PartialEq, Eq)]
pub enum ProviderStep {
    /// Try the endpoint at `state.next`.
    Probe(ProviderSearch),
    /// Use the connection to this endpoint.
    Connected { endpoint: usize },
    /// Give up with this error.
    Failed(AppError),
}

/// The first endpoint among the first `n` that answered, if any did.
pub open spec fn first_live(outcomes: Seq<ProbeOutcome>, n: int) -> Option<int> {
    if exists|i: int| is_first_live(outcomes, n, i) {
        Some(choose|i: int| is_first_live(outcomes, n, i))
    } else {
        None
    }
}

/// Whether endpoint `i` answered and none before it did.
pub open spec fn is_first_live(outcomes: Seq<ProbeOutcome>, n: int, i: int) -> bool {
    &&& 0 <= i < n
    &&& i < outcomes.len()
    &&& outcomes[i] == ProbeOutcome::Live
    &&& forall|j: int| 0 <= j < i ==> outcomes[j] != ProbeOutcome::Live
}

/// The first live endpoint is the first live endpoint.
pub proof fn lemma_first_live_found(outcomes: Seq<ProbeOutcome>, n: int, i: int)
    requires
        is_first_live(outcomes, n, i),
    ensures
        first_live(outcomes, n) == Some(i),
{
    let c = choose|k: int| is_first_live(outcomes, n, k);
    if c < i {
        assert(outcomes[c] != ProbeOutcome::Live);
    } else if i < c {
        assert(outcomes[i] != ProbeOutcome::Live);
    }
}

/// Where no endpoint answered there is no first live endpoint.
pub proof fn lemma_first_live_absent(outcomes: Seq<ProbeOutcome>, n: int)
    requires
        forall|j: int| 0 <= j < n && j < outcomes.len() ==> outcomes[j] != ProbeOutcome::Live,
    ensures
        first_live(outcomes, n) is None,
{
    if exists|i: int| is_first_live(outcomes, n, i) {
        let c = choose|k: int| is_first_live(outcomes, n, k);
        assert(outcomes[c] != ProbeOutcome::Live);
    }
}

/// What opening the search for a chain's endpoints gives, for a seed that a
/// signer takes or refuses.
pub open spec fn opened_search(
    endpoints: Seq<crate::registry::ChainEndpoints>,
    chain: Seq<char>,
    seed: [u8; 32],
    accepted: bool,
) -> Result<ProviderSearch, AppErrorView> {
    if !accepted {
        Err(internal_error("Signer creation failed"@))
    } else {
        match first_index(endpoint_chains(endpoints), chain) {
            None => Err(internal_error(no_endpoints_text(chain))),
            Some(c) => Ok(
                ProviderSearch {
                    seed,
                    chain: c as usize,
                    endpoints: endpoints[c].urls@.len() as usize,
                    next: 0,
                },
            ),
        }
    }
}

/// A search result with its error taken by its view.
pub open spec fn search_view(r: Result<ProviderSearch, AppError>) -> Result<
    ProviderSearch,
    AppErrorView,
> {
    match r {
        Ok(s) => Ok(s),
        Err(e) => Err(e@),
    }
}

/// Opens the search for a live endpoint of `chain` with a seed of which it is
/// known whether a signer takes it: a seed that no signer takes is an internal
/// error, and so is a chain without a list of endpoints.
pub fn open_search(registry: &ChainRegistry, chain: &str, seed: [u8; 32], accepted: bool) -> (r:
    Result<ProviderSearch, AppError>)
    ensures
        search_view(r) == opened_search(registry.endpoints@, chain@, seed, accepted),
        r matches Ok(search) ==> {
            &&& search.wf()
            &&& search.chain < registry.endpoints@.len()
            &&& first_index(endpoint_chains(registry.endpoints@), chain@) == Some(
                search.chain as int,
            )
            &&& search.endpoints == registry.endpoints@[search.chain as int].urls@.len()
        },
{
    if !accepted {
        return Err(AppError::internal("Signer creation failed"));
    }
    match registry.find_endpoints(chain) {
        None => Err(
            AppError::InternalError(String::from_str("No RPCs found for chain ").concat(chain)),
        ),
        Some(c) => Ok(
            ProviderSearch { seed, chain: c, endpoints: registry.endpoints[c].urls.len(), next: 0 },
        ),
    }
}

/// Prepares the connection of a user to a chain: derives the user's signing
/// key from the secret, asks whether a signer can be made from it, and looks
/// up the chain's endpoints. An invalid secret is reported before a key that
/// no signer takes, and that before an unknown chain.
pub fn create_provider(
    registry: &ChainRegistry,
    chain: &str,
    user_id: &[u8; 16],
    secret: &str,
) -> (r: Result<ProviderSearch, AppError>)
    ensures
        match signing_key_of(user_id@, secret@) {
            None => r matches Err(e) && e@ == internal_error(
                "Invalid WALLET_GENERATION_SECRET"@,
            ),
            Some(key) => if !signer_accepts(key) {
                r matches Err(e) && e@ == internal_error("Signer creation failed"@)
            } else {
                match first_index(endpoint_chains(registry.endpoints@), chain@) {
                    None => r matches Err(e) && e@ == internal_error(no_endpoints_text(chain@)),
                    Some(c) => r matches Ok(search) && search.seed@ == key && search.chain == c
                        && search.endpoints == registry.endpoints@[c].urls@.len() && search.next
                        == 0,
                }
            },
        },
        r matches Ok(search) ==> search.wf() && search.chain < registry.endpoints@.len(),
{
    let seed = match derive_signing_key(user_id, secret) {
        Ok(seed) => seed,
        Err(e) => {
            return Err(e);
        },
    };
    let accepted = is_signing_key(&seed);
    open_search(registry, chain, seed, accepted)
}

impl ProviderSearch {
    /// Whether the search stands at or before the end of its list.
    pub open spec fn wf(&self) -> bool {
        self.next <= self.endpoints
    }

    /// The first step of the search: try the first endpoint, or give up where
    /// the chain has none.
    pub fn start(self) -> (r: ProviderStep)
        requires
            self.wf(),
        ensures
            self.next < self.endpoints ==> r == ProviderStep::Probe(self),
            self.next >= self.endpoints ==> (r matches ProviderStep::Failed(e) && e@
                == internal_error("All RPC endpoints failed"@)),
    {
        if self.next < self.endpoints {
            ProviderStep::Probe(self)
        } else {
            ProviderStep::Failed(AppError::internal("All RPC endpoints failed"))
        }
    }

    /// Takes the outcome of trying the endpoint at `next`: a live endpoint is
    /// used at once; after any other the next endpoint is tried, and where
    /// there is no next the search fails.
    pub fn on_probe(self, outcome: ProbeOutcome) -> (r: ProviderStep)
        requires
            self.next < self.endpoints,
        ensures
            outcome == ProbeOutcome::Live ==> r == (ProviderStep::Connected {
                endpoint: self.next,
            }),
            outcome != ProbeOutcome::Live && self.next + 1 < self.endpoints ==> r
                == ProviderStep::Probe(ProviderSearch { next: (self.next + 1) as usize, ..self }),
            outcome != ProbeOutcome::Live && self.next + 1 >= self.endpoints ==> (r
                matches ProviderStep::Failed(e) && e@ == internal_error(
                "All RPC endpoints failed"@,
            )),
    {
        match outcome {
            ProbeOutcome::Live => ProviderStep::Connected { endpoint: self.next },
            _ => {
                if self.next + 1 < self.endpoints {
                    ProviderStep::Probe(ProviderSearch { next: self.next + 1, ..self })
                } else {
                    ProviderStep::Failed(AppError::internal("All RPC endpoints failed"))
                }
            },
        }
    }

    /// Runs the search against what each endpoint would give, in the order of
    /// the list: the result is the first endpoint that is live. Endpoints
    /// before it are passed over without an error; where none is live the
    /// search fails. An endpoint without an outcome counts as not live.
    pub fn resolve(self, outcomes: &Vec<ProbeOutcome>) -> (r: Result<usize, AppError>)
        requires
            self.next == 0,
        ensures
            match first_live(outcomes@, self.endpoints as int) {
                Some(i) => r == Ok::<usize, AppError>(i as usize),
                None => r matches Err(e) && e@ == internal_error("All RPC endpoints failed"@),
            },
    {
        let mut step = self.start();
        let ghost n = self.endpoints as int;
        loop
            invariant
                n == self.endpoints,
                match step {
                    ProviderStep::Probe(s) => s.next < s.endpoints && s.endpoints == n
                        && forall|j: int|
                        0 <= j < s.next && j < outcomes@.len() ==> outcomes@[j]
                            != ProbeOutcome::Live,
                    ProviderStep::Connected { endpoint } => is_first_live(
                        outcomes@,
                        n,
                        endpoint as int,
                    ),
                    ProviderStep::Failed(e) => e@ == internal_error("All RPC endpoints failed"@)
                        && forall|j: int|
                        0 <= j < n && j < outcomes@.len() ==> outcomes@[j] != ProbeOutcome::Live,
                },
            decreases
                    match step {
                        ProviderStep::Probe(s) => 1 + s.endpoints - s.next,
                        _ => 0,
                    },
        {
            match step {
                ProviderStep::Probe(s) => {
                    if s.next < outcomes.len() {
                        step = s.on_probe(outcomes[s.next]);
                    } else {
                        proof {
                            assert forall|j: int|
                                0 <= j < n && j < outcomes@.len() implies outcomes@[j]
                                != ProbeOutcome::Live by {}
                        }
                        step = ProviderStep::Failed(AppError::internal("All RPC endpoints failed"));
                    }
                },
                ProviderStep::Connected { endpoint } => {
                    proof {
                        lemma_first_live_found(outcomes@, n, endpoint as int);
                    }
                    return Ok(endpoint);
                },
                ProviderStep::Failed(e) => {
                    proof {
                        lemma_first_live_absent(outcomes@, n);
                    }
                    return Err(e);
                },
            }
        }
    }
}

/// Failover: where the first endpoints are not live and a later one is, the
/// search connects to that one, and the dead ones give no error.
pub proof fn lemma_failover(outcomes: Seq<ProbeOutcome>, n: int, live: int)
    requires
        0 <= live < n,
        live < outcomes.len(),
        outcomes[live] == ProbeOutcome::Live,
        forall|j: int| 0 <= j < live ==> outcomes[j] != ProbeOutcome::Live,
    ensures
        first_live(outcomes, n) == Some(live),
{
    lemma_first_live_found(outcomes, n, live);
}

} // verus!
