//! Chain addresses: the twenty bytes that name a wallet or a token contract.

use crate::keys::{hex_bytes, is_hex_text};
use vstd::prelude::*;
use vstd::utf8::encode_utf8;

verus! {

/// The mixed-case checksummed text of an address: `0x` and forty hexadecimal
/// digits whose case carries a checksum.
pub uninterp spec fn checksum_text(bytes: Seq<u8>) -> Seq<char>;

/// The text without a leading `0x` or `0X`.
pub open spec fn strip_hex_prefix(text: Seq<u8>) -> Seq<u8> {
    if text.len() >= 2 && text[0] == 48 && (text[1] == 120 || text[1] == 88) {
        text.subrange(2, text.len() as int)
    } else {
        text
    }
}

/// The address that a text stands for: forty hexadecimal digits in either case,
/// with or without a prefix; `None` for any other text.
pub open spec fn address_bytes(text: Seq<u8>) -> Option<Seq<u8>> {
    let body = strip_hex_prefix(text);
    if text.len() % 2 == 0 && body.len() == 40 && is_hex_text(body) {
        Some(hex_bytes(body))
    } else {
        None
    }
}

/// A chain address.
#[derive(Debug, Clone, Copy, PartialEq, Eq)]
pub struct Address {
    pub bytes: [u8; 20],
}

impl View for Address {
    type V = Seq<u8>;

    open spec fn view(&self) -> Seq<u8> {
        self.bytes@
    }
}

/// The address that holds the given twenty bytes.
pub open spec fn address_of(bytes: Seq<u8>) -> Address {
    choose|a: Address| a@ == bytes
}

/// An address is the address of its bytes.
pub proof fn lemma_address_of(a: Address)
    ensures
        address_of(a@) == a,
{
    let b = address_of(a@);
    assert(b@ == a@);
    assert(b.bytes =~= a.bytes);
}

/// Parses with the outside crate's `FromStr` for its address type: the text is
/// decoded as hexadecimal into exactly twenty bytes, after an optional prefix
/// `0x` or `0X`; the case of the digits is not checked against a checksum.
#[verifier::external_body]
fn parse_address_text(text: &str) -> (r: Option<Address>)
    ensures
        match r {
            Some(a) => address_bytes(encode_utf8(text@)) == Some(a@),
            None => address_bytes(encode_utf8(text@)) is None,
        },
{
    let parsed = text.parse::<alloy::primitives::Address>().ok()?;
    Some(Address { bytes: parsed.into_array() })
}

/// Formats with the outside crate's `Display` for its address type, which
/// writes the checksummed text.
#[verifier::external_body]
fn format_address(address: &Address) -> (r: String)
    ensures
        r@ == checksum_text(address@),
{
    alloy::primitives::Address::new(address.bytes).to_string()
}

impl Address {
    /// The address of twenty zero bytes, which stands for the native currency.
    pub fn zero() -> (r: Address)
        ensures
            r@ == Seq::new(20, |i: int| 0u8),
    {
        let r = Address { bytes: [0u8; 20] };
        assert(r@ =~= Seq::new(20, |i: int| 0u8));
        r
    }

    /// The address that `text` stands for, or `None` where it stands for none.
    pub fn parse(text: &str) -> (r: Option<Address>)
        ensures
            match r {
                Some(a) => address_bytes(encode_utf8(text@)) == Some(a@),
                None => address_bytes(encode_utf8(text@)) is None,
            },
    {
        parse_address_text(text)
    }

    /// Whether every byte is zero.
    pub fn is_zero(&self) -> (r: bool)
        ensures
            r == (forall|i: int| 0 <= i < 20 ==> self@[i] == 0),
    {
        let mut i: usize = 0;
        while i < 20
            invariant
                i <= 20,
                forall|j: int| 0 <= j < i ==> self@[j] == 0,
            decreases 20 - i,
        {
            if self.bytes[i] != 0 {
                assert(self@[i as int] != 0);
                return false;
            }
            i = i + 1;
        }
        true
    }

    /// Whether the two addresses hold the same bytes.
    pub fn same(&self, other: &Address) -> (r: bool)
        ensures
            r == (self@ == other@),
    {
        let mut i: usize = 0;
        while i < 20
            invariant
                i <= 20,
                forall|j: int| 0 <= j < i ==> self@[j] == other@[j],
            decreases 20 - i,
        {
            if self.bytes[i] != other.bytes[i] {
                return false;
            }
            i = i + 1;
        }
        assert(self@ =~= other@);
        true
    }

    /// The checksummed text of the address.
    pub fn to_checksum_string(&self) -> (r: String)
        ensures
            r@ == checksum_text(self@),
    {
        format_address(self)
    }
}

} // verus!
