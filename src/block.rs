//! Block references: a block height, or one of the chain's named positions.
use vstd::prelude::*;
use vstd::string::StringSliceAdditionalSpecFns;
use crate::error::ProofError;
use crate::hexcode::{all_hex_digits, hex_number_value};
use ethers::types::BlockNumber;

verus! {

/// The block at which a storage proof is taken.
#[derive(Clone, Copy, Debug, PartialEq, Eq, Structural)]
pub enum BlockRef {
    Latest,
    Finalized,
    Safe,
    Earliest,
    Pending,
    Number(u64),
}

/// An ASCII decimal digit.
pub open spec fn is_dec_digit(c: u8) -> bool {
    48 <= c && c <= 57
}

/// The number that a run of decimal digits writes, most significant first.
pub open spec fn dec_number_value(t: Seq<u8>) -> nat
    decreases t.len(),
{
    if t.len() == 0 {
        0
    } else {
        (dec_number_value(t.drop_last()) * 10 + (t.last() - 48)) as nat
    }
}

/// The digits of a decimal block height: the text after an optional `+`.
pub open spec fn dec_block_digits(t: Seq<u8>) -> Seq<u8> {
    if t.len() > 0 && t[0] == 43 {
        t.subrange(1, t.len() as int)
    } else {
        t
    }
}

/// What a block-reference text names: one of the tags `latest`, `finalized`,
/// `safe`, `earliest` and `pending`; after `0x`, a height of at most sixteen
/// hexadecimal digits (none stands for zero); otherwise a decimal height,
/// optionally after `+`, that fits in 64 bits.
pub open spec fn block_ref_of_text(t: Seq<u8>) -> Option<BlockRef> {
    if t == seq![108u8, 97, 116, 101, 115, 116] {
        Some(BlockRef::Latest)
    } else if t == seq![102u8, 105, 110, 97, 108, 105, 122, 101, 100] {
        Some(BlockRef::Finalized)
    } else if t == seq![115u8, 97, 102, 101] {
        Some(BlockRef::Safe)
    } else if t == seq![101u8, 97, 114, 108, 105, 101, 115, 116] {
        Some(BlockRef::Earliest)
    } else if t == seq![112u8, 101, 110, 100, 105, 110, 103] {
        Some(BlockRef::Pending)
    } else if t.len() >= 2 && t[0] == 48 && t[1] == 120 {
        let d = t.subrange(2, t.len() as int);
        if all_hex_digits(d) && d.len() <= 16 {
            Some(BlockRef::Number(hex_number_value(d) as u64))
        } else {
            None
        }
    } else {
        let d = dec_block_digits(t);
        if d.len() > 0 && (forall|i: int| 0 <= i < d.len() ==> #[trigger] is_dec_digit(d[i]))
            && dec_number_value(d) <= u64::MAX {
            Some(BlockRef::Number(dec_number_value(d) as u64))
        } else {
            None
        }
    }
}

/// Relies on ethers' `BlockNumber::from_str`, which matches the five tags,
/// reads text after `0x` as a 64-bit hexadecimal number (`U64::from_str`) and
/// anything else as a decimal `u64` (`u64::from_str`).
#[verifier::external_body]
fn ethers_block_number(s: &str) -> (r: Option<BlockRef>)
    ensures
        r == block_ref_of_text(s.spec_bytes()),
{
    match s.parse::<BlockNumber>() {
        Ok(BlockNumber::Latest) => Some(BlockRef::Latest),
        Ok(BlockNumber::Finalized) => Some(BlockRef::Finalized),
        Ok(BlockNumber::Safe) => Some(BlockRef::Safe),
        Ok(BlockNumber::Earliest) => Some(BlockRef::Earliest),
        Ok(BlockNumber::Pending) => Some(BlockRef::Pending),
        Ok(BlockNumber::Number(n)) => Some(BlockRef::Number(n.as_u64())),
        Err(_) => None,
    }
}

/// Decodes a block-reference text.
pub fn parse_block_reference(s: &str) -> (r: Result<BlockRef, ProofError>)
    ensures
        match block_ref_of_text(s.spec_bytes()) {
            Some(b) => r == Ok::<BlockRef, ProofError>(b),
            None => r == Err::<BlockRef, ProofError>(ProofError::MalformedInput),
        },
{
    match ethers_block_number(s) {
        Some(b) => Ok(b),
        None => Err(ProofError::MalformedInput),
    }
}

} // verus!
