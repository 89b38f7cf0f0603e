//! The read-only table of chains: for each chain its candidate endpoints in
//! order of priority, and the tokens that are swept on it.

use crate::address::Address;
use crate::error::{internal_error, AppError};
use vstd::prelude::*;
use vstd::string::StringExecFns;

verus! {

/// Why a token could not be found.
#[derive(Debug, PartialEq, Eq)]
pub enum TokenError {
    /// No chain of that name is configured.
    UnknownChain(String),
    /// The chain is configured, but not that token on it. Holds the token's
    /// symbol, then the chain's name.
    UnknownToken(String, String),
}

/// What a [`TokenError`] holds.
pub enum TokenErrorView {
    UnknownChain(Seq<char>),
    UnknownToken(Seq<char>, Seq<char>),
}

impl View for TokenError {
    type V = TokenErrorView;

    open spec fn view(&self) -> TokenErrorView {
        match self {
            TokenError::UnknownChain(c) => TokenErrorView::UnknownChain(c@),
            TokenError::UnknownToken(t, c) => TokenErrorView::UnknownToken(t@, c@),
        }
    }
}

/// The line that reports a [`TokenError`].
pub open spec fn token_error_text(e: TokenErrorView) -> Seq<char> {
    match e {
        TokenErrorView::UnknownChain(c) => "Unknown chainId "@ + c,
        TokenErrorView::UnknownToken(t, c) => "Unknown contract "@ + t + " for chainId "@ + c,
    }
}

impl TokenError {
    /// The line that reports this error.
    pub fn message(&self) -> (m: String)
        ensures
            m@ == token_error_text(self@),
    {
        match self {
            TokenError::UnknownChain(c) => String::from_str("Unknown chainId ").concat(c.as_str()),
            TokenError::UnknownToken(t, c) => String::from_str("Unknown contract ").concat(
                t.as_str(),
            ).concat(" for chainId ").concat(c.as_str()),
        }
    }
}

/// A token that is swept: its symbol and the address of its contract.
#[derive(Debug, PartialEq, Eq)]
pub struct TokenEntry {
    pub symbol: String,
    pub address: Address,
}

/// The tokens that are swept on one chain, in the order in which they are
/// visited.
#[derive(Debug, PartialEq, Eq)]
pub struct ChainTokens {
    pub chain: String,
    pub tokens: Vec<TokenEntry>,
}

/// The candidate endpoints of one chain, in order of priority.
#[derive(Debug, PartialEq, Eq)]
pub struct ChainEndpoints {
    pub chain: String,
    pub urls: Vec<String>,
}

/// The table of chains.
#[derive(Debug, PartialEq, Eq)]
pub struct ChainRegistry {
    pub endpoints: Vec<ChainEndpoints>,
    pub tokens: Vec<ChainTokens>,
}

/// Whether `i` is the first place at which `key` stands in `names`.
pub open spec fn is_first(names: Seq<Seq<char>>, key: Seq<char>, i: int) -> bool {
    &&& 0 <= i < names.len()
    &&& names[i] == key
    &&& forall|j: int| 0 <= j < i ==> names[j] != key
}

/// The first place at which `key` stands in `names`, if it stands there at all.
pub open spec fn first_index(names: Seq<Seq<char>>, key: Seq<char>) -> Option<int> {
    if exists|i: int| is_first(names, key, i) {
        Some(choose|i: int| is_first(names, key, i))
    } else {
        None
    }
}

/// A first place is the first place.
pub proof fn lemma_first_index_found(names: Seq<Seq<char>>, key: Seq<char>, i: int)
    requires
        is_first(names, key, i),
    ensures
        first_index(names, key) == Some(i),
{
    let c = choose|k: int| is_first(names, key, k);
    assert(is_first(names, key, c));
    if c < i {
        assert(names[c] != key);
    } else if i < c {
        assert(names[i] != key);
    }
}

/// A key that stands nowhere has no first place.
pub proof fn lemma_first_index_absent(names: Seq<Seq<char>>, key: Seq<char>)
    requires
        forall|j: int| 0 <= j < names.len() ==> names[j] != key,
    ensures
        first_index(names, key) is None,
{
    if exists|i: int| is_first(names, key, i) {
        let c = choose|k: int| is_first(names, key, k);
        assert(names[c] != key);
    }
}

/// The chain names of the endpoint lists, in order.
pub open spec fn endpoint_chains(entries: Seq<ChainEndpoints>) -> Seq<Seq<char>> {
    Seq::new(entries.len(), |i: int| entries[i].chain@)
}

/// The chain names of the token lists, in order.
pub open spec fn token_chains(entries: Seq<ChainTokens>) -> Seq<Seq<char>> {
    Seq::new(entries.len(), |i: int| entries[i].chain@)
}

/// The symbols of a token list, in order.
pub open spec fn token_symbols(entries: Seq<TokenEntry>) -> Seq<Seq<char>> {
    Seq::new(entries.len(), |i: int| entries[i].symbol@)
}

/// The address of a token on a chain, or the reason why there is none.
pub open spec fn token_address_of(
    tokens: Seq<ChainTokens>,
    chain: Seq<char>,
    symbol: Seq<char>,
) -> Result<Address, TokenErrorView> {
    match first_index(token_chains(tokens), chain) {
        None => Err(TokenErrorView::UnknownChain(chain)),
        Some(c) => match first_index(token_symbols(tokens[c].tokens@), symbol) {
            None => Err(TokenErrorView::UnknownToken(symbol, chain)),
            Some(t) => Ok(tokens[c].tokens@[t].address),
        },
    }
}

/// A lookup result with its error taken by its view.
pub open spec fn token_result_view(r: Result<Address, TokenError>) -> Result<
    Address,
    TokenErrorView,
> {
    match r {
        Ok(a) => Ok(a),
        Err(e) => Err(e@),
    }
}

/// The text of the error for a chain without endpoints.
pub open spec fn no_endpoints_text(chain: Seq<char>) -> Seq<char> {
    "No RPCs found for chain "@ + chain
}

impl ChainRegistry {
    /// The place of the endpoint list of `chain`.
    pub fn find_endpoints(&self, chain: &str) -> (r: Option<usize>)
        ensures
            match r {
                Some(i) => i < self.endpoints@.len() && first_index(
                    endpoint_chains(self.endpoints@),
                    chain@,
                ) == Some(i as int),
                None => first_index(endpoint_chains(self.endpoints@), chain@) is None,
            },
    {
        let key = String::from_str(chain);
        let ghost names = endpoint_chains(self.endpoints@);
        let mut i: usize = 0;
        while i < self.endpoints.len()
            invariant
                i <= self.endpoints.len(),
                key@ == chain@,
                names == endpoint_chains(self.endpoints@),
                forall|j: int| 0 <= j < i ==> names[j] != chain@,
            decreases self.endpoints.len() - i,
        {
            if self.endpoints[i].chain == key {
                proof {
                    assert(names[i as int] == chain@);
                    lemma_first_index_found(names, chain@, i as int);
                }
                return Some(i);
            }
            assert(names[i as int] != chain@);
            i = i + 1;
        }
        proof {
            lemma_first_index_absent(names, chain@);
        }
        None
    }

    /// The place of the token list of `chain`.
    pub fn find_tokens(&self, chain: &str) -> (r: Option<usize>)
        ensures
            match r {
                Some(i) => i < self.tokens@.len() && first_index(token_chains(self.tokens@), chain@)
                    == Some(i as int),
                None => first_index(token_chains(self.tokens@), chain@) is None,
            },
    {
        let key = String::from_str(chain);
        let ghost names = token_chains(self.tokens@);
        let mut i: usize = 0;
        while i < self.tokens.len()
            invariant
                i <= self.tokens.len(),
                key@ == chain@,
                names == token_chains(self.tokens@),
                forall|j: int| 0 <= j < i ==> names[j] != chain@,
            decreases self.tokens.len() - i,
        {
            if self.tokens[i].chain == key {
                proof {
                    assert(names[i as int] == chain@);
                    lemma_first_index_found(names, chain@, i as int);
                }
                return Some(i);
            }
            assert(names[i as int] != chain@);
            i = i + 1;
        }
        proof {
            lemma_first_index_absent(names, chain@);
        }
        None
    }

    /// The candidate endpoints of `chain`, in order of priority; an internal
    /// error where the chain has no list of endpoints.
    pub fn endpoints_of(&self, chain: &str) -> (r: Result<&Vec<String>, AppError>)
        ensures
            match first_index(endpoint_chains(self.endpoints@), chain@) {
                Some(i) => r matches Ok(urls) && *urls == self.endpoints@[i].urls,
                None => r matches Err(e) && e@ == internal_error(no_endpoints_text(chain@)),
            },
    {
        match self.find_endpoints(chain) {
            Some(i) => Ok(&self.endpoints[i].urls),
            None => Err(
                AppError::InternalError(String::from_str("No RPCs found for chain ").concat(chain)),
            ),
        }
    }
}

/// The place of the token with the given symbol in a list of tokens.
pub fn find_symbol(tokens: &Vec<TokenEntry>, symbol: &str) -> (r: Option<usize>)
    ensures
        match r {
            Some(i) => i < tokens@.len() && first_index(token_symbols(tokens@), symbol@) == Some(
                i as int,
            ),
            None => first_index(token_symbols(tokens@), symbol@) is None,
        },
{
    let key = String::from_str(symbol);
    let ghost names = token_symbols(tokens@);
    let mut i: usize = 0;
    while i < tokens.len()
        invariant
            i <= tokens.len(),
            key@ == symbol@,
            names == token_symbols(tokens@),
            forall|j: int| 0 <= j < i ==> names[j] != symbol@,
        decreases tokens.len() - i,
    {
        if tokens[i].symbol == key {
            proof {
                assert(names[i as int] == symbol@);
                lemma_first_index_found(names, symbol@, i as int);
            }
            return Some(i);
        }
        assert(names[i as int] != symbol@);
        i = i + 1;
    }
    proof {
        lemma_first_index_absent(names, symbol@);
    }
    None
}

/// The contract address of the token `token_name` on `chain`.
pub fn get_token(registry: &ChainRegistry, chain: String, token_name: &str) -> (r: Result<
    Address,
    TokenError,
>)
    ensures
        token_result_view(r) == token_address_of(registry.tokens@, chain@, token_name@),
{
    match registry.find_tokens(chain.as_str()) {
        None => Err(TokenError::UnknownChain(chain)),
        Some(c) => match find_symbol(&registry.tokens[c].tokens, token_name) {
            None => Err(TokenError::UnknownToken(String::from_str(token_name), chain)),
            Some(t) => Ok(registry.tokens[c].tokens[t].address),
        },
    }
}

} // verus!
