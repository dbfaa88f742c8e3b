//! Hexadecimal text: what a digit means, what a run of digits decodes to,
//! and the two calls into the `hex` crate that the relay makes.
use vstd::prelude::*;

verus! {

/// An ASCII hexadecimal digit, in either case.
pub open spec fn is_hex_digit(c: u8) -> bool {
    (48 <= c && c <= 57) || (65 <= c && c <= 70) || (97 <= c && c <= 102)
}

/// The value of a hexadecimal digit.
pub open spec fn hex_digit_value(c: u8) -> int {
    if 48 <= c && c <= 57 {
        c - 48
    } else if 65 <= c && c <= 70 {
        c - 55
    } else {
        c - 87
    }
}

/// Every byte of `t` is a hexadecimal digit.
pub open spec fn all_hex_digits(t: Seq<u8>) -> bool {
    forall|i: int| 0 <= i < t.len() ==> #[trigger] is_hex_digit(t[i])
}

/// `t` is a whole number of bytes written as hexadecimal digit pairs.
pub open spec fn is_hex_bytes_text(t: Seq<u8>) -> bool {
    t.len() % 2 == 0 && all_hex_digits(t)
}

/// The bytes that a run of digit pairs stands for, high digit first.
pub open spec fn hex_decoded(t: Seq<u8>) -> Seq<u8> {
    Seq::new(
        (t.len() / 2) as nat,
        |i: int| (hex_digit_value(t[2 * i]) * 16 + hex_digit_value(t[2 * i + 1])) as u8,
    )
}

/// The number that a run of hexadecimal digits writes, most significant first.
pub open spec fn hex_number_value(t: Seq<u8>) -> nat
    decreases t.len(),
{
    if t.len() == 0 {
        0
    } else {
        (hex_number_value(t.drop_last()) * 16 + hex_digit_value(t.last())) as nat
    }
}

/// The lower-case digit that writes a value below sixteen.
pub open spec fn lower_hex_char(v: int) -> char {
    if v < 10 {
        ((v + 48) as u8) as char
    } else {
        ((v + 87) as u8) as char
    }
}

/// Bytes written as lower-case hexadecimal, two digits per byte, high digit first.
pub open spec fn hex_encoded(b: Seq<u8>) -> Seq<char> {
    Seq::new(
        2 * b.len(),
        |i: int|
            if i % 2 == 0 {
                lower_hex_char(b[i / 2] as int / 16)
            } else {
                lower_hex_char(b[i / 2] as int % 16)
            },
    )
}

/// The error of `hex::decode`, carried through opaquely.
#[verifier::external_type_specification]
#[verifier::external_body]
pub struct ExFromHexError(hex::FromHexError);

/// Relies on `hex::decode`: it accepts an even number of digits of either
/// case and yields one byte per pair; any other input is an error.
#[verifier::external_body]
pub(crate) fn decode_hex(t: &Vec<u8>) -> (r: Result<Vec<u8>, hex::FromHexError>)
    ensures
        match r {
            Ok(v) => is_hex_bytes_text(t@) && v@ == hex_decoded(t@),
            Err(_) => !is_hex_bytes_text(t@),
        },
{
    hex::decode(t)
}

/// Relies on `hex::encode`: two lower-case digits per byte, high digit first.
#[verifier::external_body]
pub(crate) fn encode_hex(b: &Vec<u8>) -> (r: String)
    ensures
        r@ == hex_encoded(b@),
{
    hex::encode(b)
}

/// Bytes written as `0x` and lower-case hexadecimal.
pub open spec fn prefixed_hex(b: Seq<u8>) -> Seq<char> {
    "0x"@ + hex_encoded(b)
}

/// Writes bytes as `0x` and two lower-case hexadecimal digits per byte.
pub fn to_prefixed_hex(b: &Vec<u8>) -> (r: String)
    ensures
        r@ == prefixed_hex(b@),
{
    let digits = encode_hex(b);
    let prefix = String::from_str("0x");
    prefix.concat(digits.as_str())
}

proof fn lemma_lower_hex_char_injective(v: int, w: int)
    requires
        0 <= v < 16,
        0 <= w < 16,
        lower_hex_char(v) == lower_hex_char(w),
    ensures
        v == w,
{
}

/// Different bytes never share a hexadecimal rendering.
pub proof fn lemma_prefixed_hex_injective(x: Seq<u8>, y: Seq<u8>)
    requires
        prefixed_hex(x) == prefixed_hex(y),
    ensures
        x == y,
{
    let p = "0x"@;
    let ex = hex_encoded(x);
    let ey = hex_encoded(y);
    assert((p + ex).subrange(p.len() as int, (p + ex).len() as int) =~= ex);
    assert((p + ey).subrange(p.len() as int, (p + ey).len() as int) =~= ey);
    assert(ex == ey);
    assert(ex.len() == 2 * x.len() && ey.len() == 2 * y.len());
    assert forall|k: int| 0 <= k < x.len() implies x[k] == y[k] by {
        assert(ex[2 * k] == ey[2 * k]);
        assert(ex[2 * k + 1] == ey[2 * k + 1]);
        assert((2 * k) / 2 == k && (2 * k) % 2 == 0);
        assert((2 * k + 1) / 2 == k && (2 * k + 1) % 2 == 1);
        lemma_lower_hex_char_injective(x[k] as int / 16, y[k] as int / 16);
        lemma_lower_hex_char_injective(x[k] as int % 16, y[k] as int % 16);
        let a = x[k] as int;
        let b = y[k] as int;
        assert(a == (a / 16) * 16 + a % 16);
        assert(b == (b / 16) * 16 + b % 16);
    }
    assert(x =~= y);
}

} // verus!
