use crate::response::decimal;
use solana_sdk::pubkey::{ParsePubkeyError, Pubkey};
use vstd::prelude::*;
use vstd::string::*;

verus! {

#[verifier::external_type_specification]
#[verifier::external_body]
pub struct ExParsePubkeyError(ParsePubkeyError);

/// The 32 bytes that solana's base58 reading of `text` yields, or `None`
/// where it refuses the text.
pub uninterp spec fn pubkey_decoding(text: Seq<char>) -> Option<Seq<u8>>;

/// The base58 text that solana writes for the account key `key`.
pub uninterp spec fn base58_text(key: Seq<u8>) -> Seq<char>;

/// Relies on `Pubkey::from_str`: it decodes base58 text into a 32-byte key,
/// and refuses any text longer than 44 bytes before decoding.
#[verifier::external_body]
fn decode_pubkey(text: &str) -> (r: Result<[u8; 32], ParsePubkeyError>)
    ensures
        match r {
            Ok(b) => pubkey_decoding(text@) == Some(b@),
            Err(_) => pubkey_decoding(text@) is None,
        },
        text@.len() > 44 ==> r is Err,
{
    <Pubkey as std::str::FromStr>::from_str(text).map(|k| k.to_bytes())
}

/// Relies on `Pubkey`'s `Display`: it writes the key's 32 bytes in base58.
#[verifier::external_body]
fn pubkey_text(key: &[u8; 32]) -> (r: String)
    ensures
        r@ == base58_text(key@),
{
    Pubkey::new_from_array(*key).to_string()
}

/// The address of an account: its 32-byte public key.
#[derive(Clone, Copy, Debug, PartialEq, Eq)]
pub struct Address {
    bytes: [u8; 32],
}

impl View for Address {
    type V = Seq<u8>;

    closed spec fn view(&self) -> Seq<u8> {
        self.bytes@
    }
}

/// Why text is not an account address.
#[derive(Clone, Copy, Debug, PartialEq, Eq, Structural)]
pub enum AddressError {
    /// The text is not the base58 form of a 32-byte key.
    Malformed,
}

impl Address {
    pub fn from_bytes(bytes: [u8; 32]) -> (r: Address)
        ensures
            r@ == bytes@,
    {
        Address { bytes }
    }

    pub fn to_bytes(&self) -> (r: [u8; 32])
        ensures
            r@ == self@,
    {
        self.bytes
    }

    /// The address that `text` spells in base58.
    pub fn parse(text: &str) -> (r: Result<Address, AddressError>)
        ensures
            match r {
                Ok(a) => pubkey_decoding(text@) == Some(a@),
                Err(e) => pubkey_decoding(text@) is None && e == AddressError::Malformed,
            },
            text@.len() > 44 ==> r is Err,
    {
        match decode_pubkey(text) {
            Ok(bytes) => Ok(Address { bytes }),
            Err(_) => Err(AddressError::Malformed),
        }
    }

    /// The address in base58.
    pub fn to_text(&self) -> (r: String)
        ensures
            r@ == base58_text(self@),
    {
        pubkey_text(&self.bytes)
    }
}

/// The answer to a balance query.
pub open spec fn balance_body(key_text: Seq<char>, lamports: nat) -> Seq<char> {
    "Balance for "@ + key_text + ": "@ + decimal(lamports)
}

/// The answer to a balance query, for an address already written out.
pub fn balance_text(key_text: &str, lamports: u64) -> (r: String)
    ensures
        r@ == balance_body(key_text@, lamports as nat),
{
    let mut out = String::from_str("Balance for ");
    out.append(key_text);
    out.append(": ");
    crate::response::push_decimal(&mut out, lamports);
    out
}

/// The answer to a balance query: `lamports` held by `address`.
pub fn balance_report(address: &Address, lamports: u64) -> (r: String)
    ensures
        r@ == balance_body(base58_text(address@), lamports as nat),
{
    let key = address.to_text();
    balance_text(key.as_str(), lamports)
}

} // verus!
