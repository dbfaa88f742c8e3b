//! Storage slots: a hexadecimal key of at most 32 bytes, widened to exactly
//! 32 bytes by leading zeros. Longer keys are refused, never cut.
use vstd::prelude::*;
use vstd::string::StringSliceAdditionalSpecFns;
use crate::error::ProofError;
use crate::hexcode::{
    all_hex_digits, decode_hex, hex_decoded, hex_digit_value, hex_encoded,
    is_hex_digit, lower_hex_char, prefixed_hex, to_prefixed_hex,
};

verus! {

/// The width of a storage key in bytes.
pub const SLOT_BYTES: usize = 32;

/// `t` with every leading `0x` removed, as many as there are.
pub open spec fn strip_hex_prefixes(t: Seq<u8>) -> Seq<u8>
    decreases t.len(),
{
    if t.len() >= 2 && t[0] == 48 && t[1] == 120 {
        strip_hex_prefixes(t.subrange(2, t.len() as int))
    } else {
        t
    }
}

/// The digits of a storage-slot text: what follows its `0x` prefixes.
pub open spec fn slot_digits(t: Seq<u8>) -> Seq<u8> {
    strip_hex_prefixes(t)
}

/// Digits made even in number by one leading `0` where needed.
pub open spec fn even_digits(d: Seq<u8>) -> Seq<u8> {
    if d.len() % 2 == 1 {
        seq![48u8] + d
    } else {
        d
    }
}

/// A storage-slot text names a key of at most 32 bytes.
pub open spec fn slot_text_valid(t: Seq<u8>) -> bool {
    all_hex_digits(slot_digits(t)) && slot_digits(t).len() <= 2 * SLOT_BYTES
}

/// `b` widened to 32 bytes by leading zeros.
pub open spec fn left_pad_slot(b: Seq<u8>) -> Seq<u8> {
    Seq::new((SLOT_BYTES - b.len()) as nat, |i: int| 0u8) + b
}

/// The 32-byte key that a valid storage-slot text names.
pub open spec fn slot_key(t: Seq<u8>) -> Seq<u8> {
    left_pad_slot(hex_decoded(even_digits(slot_digits(t))))
}

/// A 32-byte storage key.
#[derive(Clone, Debug)]
pub struct StorageSlot {
    pub bytes: Vec<u8>,
}

impl StorageSlot {
    pub open spec fn wf(&self) -> bool {
        self.bytes@.len() == SLOT_BYTES
    }

    /// The key written as `0x` and two lower-case hexadecimal digits per byte.
    pub fn to_hex(&self) -> (r: String)
        ensures
            r@ == prefixed_hex(self.bytes@),
    {
        to_prefixed_hex(&self.bytes)
    }
}

/// Digits in lower case, widened to `width` digits by leading `0`s.
pub open spec fn zero_padded_lower(d: Seq<u8>, width: nat) -> Seq<char> {
    Seq::new((width - d.len()) as nat, |i: int| '0') + Seq::new(
        d.len(),
        |i: int| lower_hex_char(hex_digit_value(d[i])),
    )
}

proof fn lemma_digit_pair(hi: u8, lo: u8)
    requires
        is_hex_digit(hi),
        is_hex_digit(lo),
    ensures
        0 <= hex_digit_value(hi) < 16,
        0 <= hex_digit_value(lo) < 16,
        ((hex_digit_value(hi) * 16 + hex_digit_value(lo)) as u8) as int / 16 == hex_digit_value(hi),
        ((hex_digit_value(hi) * 16 + hex_digit_value(lo)) as u8) as int % 16 == hex_digit_value(lo),
{
    let a = hex_digit_value(hi);
    let b = hex_digit_value(lo);
    assert(0 <= a * 16 + b < 256) by (nonlinear_arith)
        requires
            0 <= a < 16,
            0 <= b < 16,
    ;
    assert((a * 16 + b) / 16 == a && (a * 16 + b) % 16 == b) by (nonlinear_arith)
        requires
            0 <= a < 16,
            0 <= b < 16,
    ;
}

/// Decoding a valid storage-slot text and writing the key back as hexadecimal
/// gives the text's digits in lower case, widened to 64 digits by leading zeros.
pub proof fn lemma_slot_hex_round_trip(t: Seq<u8>)
    requires
        slot_text_valid(t),
    ensures
        hex_encoded(slot_key(t)) == zero_padded_lower(slot_digits(t), (2 * SLOT_BYTES) as nat),
        prefixed_hex(slot_key(t)) == "0x"@ + zero_padded_lower(
            slot_digits(t),
            (2 * SLOT_BYTES) as nat,
        ),
{
    let d = slot_digits(t);
    let e = even_digits(d);
    let b = hex_decoded(e);
    let p = slot_key(t);
    let n = b.len();
    let off = e.len() - d.len();
    let lhs = hex_encoded(p);
    let rhs = zero_padded_lower(d, (2 * SLOT_BYTES) as nat);
    assert(e.len() == 2 * n && 0 <= off <= 1);
    assert(p.len() == 32);
    assert forall|j: int| 0 <= j < e.len() implies is_hex_digit(#[trigger] e[j]) by {
        if off == 1 && j > 0 {
            assert(e[j] == d[j - 1]);
        }
    }
    assert(((48u8) as char) == '0');
    assert forall|i: int| 0 <= i < 64 implies #[trigger] lhs[i] == rhs[i] by {
        let k = i / 2;
        if k < 32 - n {
            assert(p[k] == 0u8);
        } else {
            let q = k - (32 - n);
            assert(p[k] == b[q]);
            lemma_digit_pair(e[2 * q], e[2 * q + 1]);
            let j = i - (64 - 2 * n);
            if off == 1 && j == 0 {
                assert(e[0] == 48u8);
            } else {
                assert(e[j] == d[j - off]);
            }
        }
    }
    assert(lhs =~= rhs);
}

/// The index at which the digits of `raw` begin, after its `0x` prefixes.
fn digits_start(raw: &[u8]) -> (start: usize)
    ensures
        start <= raw@.len(),
        raw@.subrange(start as int, raw@.len() as int) == slot_digits(raw@),
{
    let mut i: usize = 0;
    assert(raw@.subrange(0, raw@.len() as int) =~= raw@);
    while raw.len() - i >= 2 && raw[i] == 48u8 && raw[i + 1] == 120u8
        invariant
            i <= raw@.len(),
            strip_hex_prefixes(raw@.subrange(i as int, raw@.len() as int)) == slot_digits(raw@),
        decreases raw@.len() - i,
    {
        let ghost rest = raw@.subrange(i as int, raw@.len() as int);
        assert(rest.subrange(2, rest.len() as int) =~= raw@.subrange(i + 2, raw@.len() as int));
        i = i + 2;
    }
    i
}

/// Decodes a storage-slot text: any `0x` prefixes, then at most 64 hexadecimal
/// digits of either case. An odd count is read with a leading zero, and the
/// key is widened to 32 bytes by leading zeros.
pub fn parse_storage_slot(s: &str) -> (r: Result<StorageSlot, ProofError>)
    ensures
        match r {
            Ok(slot) => slot_text_valid(s.spec_bytes()) && slot.wf() && slot.bytes@ == slot_key(
                s.spec_bytes(),
            ),
            Err(e) => !slot_text_valid(s.spec_bytes()) && e == ProofError::MalformedInput,
        },
        slot_digits(s.spec_bytes()).len() > 2 * SLOT_BYTES ==> r == Err::<StorageSlot, ProofError>(
            ProofError::MalformedInput,
        ),
{
    let raw = s.as_bytes();
    let start = digits_start(raw);
    let ghost d = slot_digits(raw@);
    let n = raw.len() - start;
    if n > 2 * SLOT_BYTES {
        return Err(ProofError::MalformedInput);
    }
    let mut digits: Vec<u8> = Vec::new();
    if n % 2 == 1 {
        digits.push(48u8);
    }
    let mut j: usize = start;
    while j < raw.len()
        invariant
            start <= j <= raw@.len(),
            n == raw@.len() - start,
            d == raw@.subrange(start as int, raw@.len() as int),
            digits@ == (if n % 2 == 1 { seq![48u8] } else { Seq::<u8>::empty() }) + raw@.subrange(
                start as int,
                j as int,
            ),
        decreases raw@.len() - j,
    {
        digits.push(raw[j]);
        assert(raw@.subrange(start as int, j + 1) =~= raw@.subrange(start as int, j as int).push(
            raw@[j as int],
        ));
        j = j + 1;
    }
    assert(digits@ =~= even_digits(d));
    match decode_hex(&digits) {
        Err(_) => {
            proof {
                if all_hex_digits(d) {
                    assert forall|i: int| 0 <= i < digits@.len() implies is_hex_digit(
                        digits@[i],
                    ) by {
                        if n % 2 == 1 && i == 0 {
                        } else if n % 2 == 1 {
                            assert(digits@[i] == d[i - 1]);
                        } else {
                            assert(digits@[i] == d[i]);
                        }
                    }
                }
            }
            Err(ProofError::MalformedInput)
        },
        Ok(v) => {
            proof {
                assert forall|i: int| 0 <= i < d.len() implies is_hex_digit(d[i]) by {
                    if n % 2 == 1 {
                        assert(digits@[i + 1] == d[i]);
                    } else {
                        assert(digits@[i] == d[i]);
                    }
                }
            }
            let mut bytes: Vec<u8> = Vec::new();
            let pad = SLOT_BYTES - v.len();
            let mut k: usize = 0;
            while k < pad
                invariant
                    k <= pad,
                    pad + v@.len() == SLOT_BYTES,
                    bytes@ == Seq::new(k as nat, |i: int| 0u8),
                decreases pad - k,
            {
                bytes.push(0u8);
                assert(bytes@ =~= Seq::new((k + 1) as nat, |i: int| 0u8));
                k = k + 1;
            }
            let mut m: usize = 0;
            while m < v.len()
                invariant
                    m <= v@.len(),
                    pad + v@.len() == SLOT_BYTES,
                    bytes@ == Seq::new(pad as nat, |i: int| 0u8) + v@.subrange(0, m as int),
                decreases v@.len() - m,
            {
                bytes.push(v[m]);
                assert(v@.subrange(0, m + 1) =~= v@.subrange(0, m as int).push(v@[m as int]));
                m = m + 1;
            }
            assert(v@.subrange(0, v@.len() as int) =~= v@);
            assert(bytes@ =~= left_pad_slot(v@));
            Ok(StorageSlot { bytes })
        },
    }
}

} // verus!
