//! Contract addresses: 20 bytes written as 40 hexadecimal digits.
use vstd::prelude::*;
use vstd::string::StringSliceAdditionalSpecFns;
use crate::error::ProofError;
use crate::hexcode::{hex_decoded, is_hex_bytes_text};
use ethers::types::Address;

verus! {

/// The width of an address in bytes.
pub const ADDRESS_BYTES: usize = 20;

/// The account whose storage is proven when a request names none.
pub const DEFAULT_TARGET_CONTRACT: &'static str = "0xdAC17F958D2ee523a2206206994597C13D831ec7";

/// Space, carriage return, line feed and tab.
pub open spec fn is_blank(c: u8) -> bool {
    c == 32 || c == 13 || c == 10 || c == 9
}

/// The digits of an address text: after one optional `0x`, all but blanks.
pub open spec fn address_digits(t: Seq<u8>) -> Seq<u8> {
    let rest = if t.len() >= 2 && t[0] == 48 && t[1] == 120 {
        t.subrange(2, t.len() as int)
    } else {
        t
    };
    rest.filter(|c: u8| !is_blank(c))
}

/// An address text writes exactly 20 bytes.
pub open spec fn address_text_valid(t: Seq<u8>) -> bool {
    is_hex_bytes_text(address_digits(t)) && address_digits(t).len() == 2 * ADDRESS_BYTES
}

/// A 20-byte account address.
#[derive(Clone, Debug)]
pub struct ContractAddress {
    pub bytes: Vec<u8>,
}

impl ContractAddress {
    pub open spec fn wf(&self) -> bool {
        self.bytes@.len() == ADDRESS_BYTES
    }
}

/// Relies on ethers' `Address::from_str` (`H160`): it drops one leading `0x`,
/// skips blanks, and wants exactly 40 hexadecimal digits of either case,
/// read as 20 bytes with the high digit first.
#[verifier::external_body]
fn ethers_address(s: &str) -> (r: Option<Vec<u8>>)
    ensures
        match r {
            Some(v) => address_text_valid(s.spec_bytes()) && v@ == hex_decoded(
                address_digits(s.spec_bytes()),
            ),
            None => !address_text_valid(s.spec_bytes()),
        },
{
    match s.parse::<Address>() {
        Ok(a) => Some(a.as_bytes().to_vec()),
        Err(_) => None,
    }
}

/// Decodes an address text.
pub fn parse_contract_address(s: &str) -> (r: Result<ContractAddress, ProofError>)
    ensures
        match r {
            Ok(a) => address_text_valid(s.spec_bytes()) && a.wf() && a.bytes@ == hex_decoded(
                address_digits(s.spec_bytes()),
            ),
            Err(e) => !address_text_valid(s.spec_bytes()) && e == ProofError::MalformedInput,
        },
{
    match ethers_address(s) {
        Some(bytes) => Ok(ContractAddress { bytes }),
        None => Err(ProofError::MalformedInput),
    }
}

} // verus!
