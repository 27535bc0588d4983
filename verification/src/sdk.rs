//! The Soroban SDK types that run through the library, and the SDK calls that
//! its logic makes. The SDK keeps the contents of these values in the host;
//! the library sees them through the names declared here.

use vstd::prelude::*;

verus! {

/// A Soroban address: an account or a contract.
#[verifier::external_type_specification]
#[verifier::external_body]
pub struct ExAddress(soroban_sdk::Address);

/// A Soroban symbol: a short identifier.
#[verifier::external_type_specification]
#[verifier::external_body]
pub struct ExSymbol(soroban_sdk::Symbol);

/// A Soroban byte array, held by the host.
#[verifier::external_type_specification]
#[verifier::external_body]
pub struct ExBytes(soroban_sdk::Bytes);

/// A Soroban string, held by the host.
#[verifier::external_type_specification]
#[verifier::external_body]
pub struct ExSorobanString(soroban_sdk::String);

/// The Soroban environment handed to every contract function.
#[verifier::external_type_specification]
#[verifier::external_body]
pub struct ExEnv(soroban_sdk::Env);

/// The bytes that a `soroban_sdk::Bytes` holds.
pub uninterp spec fn bytes_contents(b: soroban_sdk::Bytes) -> Seq<u8>;

/// The bytes that a `soroban_sdk::String` holds.
pub uninterp spec fn text_contents(s: soroban_sdk::String) -> Seq<u8>;

/// `Clone` for `soroban_sdk::Address` (derived): a copy of the handle, which
/// names the same address. Nothing about the copy is stated.
pub assume_specification [<soroban_sdk::Address as core::clone::Clone>::clone](a: &soroban_sdk::Address) -> soroban_sdk::Address;

/// `Clone` for `soroban_sdk::Symbol` (derived): a copy of the symbol's value.
/// Nothing about the copy is stated.
pub assume_specification [<soroban_sdk::Symbol as core::clone::Clone>::clone](s: &soroban_sdk::Symbol) -> soroban_sdk::Symbol;

/// `Clone` for `soroban_sdk::Bytes` (derived): a copy of the handle to the
/// same host object, so it holds the same bytes.
pub assume_specification [<soroban_sdk::Bytes as core::clone::Clone>::clone](b: &soroban_sdk::Bytes) -> (r: soroban_sdk::Bytes)
    ensures
        bytes_contents(r) == bytes_contents(*b),
;

/// `soroban_sdk::Bytes::len`: the number of bytes held.
#[verifier::external_body]
pub(crate) fn bytes_len(b: &soroban_sdk::Bytes) -> (n: u32)
    ensures
        n == bytes_contents(*b).len(),
{
    b.len()
}

/// `soroban_sdk::Address::to_string`: the address's strkey. The host encodes
/// the 32-byte key of an account, or the 32-byte hash of a contract, as a
/// strkey of 35 bytes in base 32, which is 56 characters; that length is what
/// this contract states, and not which characters they are. The host only
/// ever holds an account or a contract in an address object (it refuses other
/// kinds when it converts values and when it parses strkeys), so the call does
/// not trap.
#[verifier::external_body]
pub(crate) fn address_strkey(a: &soroban_sdk::Address) -> (s: soroban_sdk::String)
    ensures
        text_contents(s).len() == 56,
{
    a.to_string()
}

/// `soroban_sdk::String::is_empty`: whether the string holds no byte.
#[verifier::external_body]
pub(crate) fn text_is_empty(s: &soroban_sdk::String) -> (r: bool)
    ensures
        r == (text_contents(*s).len() == 0),
{
    s.is_empty()
}

} // verus!
