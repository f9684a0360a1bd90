//! Rendering of the individual CSV field values: decimal strings for the
//! integer fields and a base58 string for the content digest.

use vstd::prelude::*;

verus! {

/// Decimal digit for a value below ten.
pub open spec fn dec_digit(d: nat) -> char
    recommends
        d < 10,
{
    if d == 0 {
        '0'
    } else if d == 1 {
        '1'
    } else if d == 2 {
        '2'
    } else if d == 3 {
        '3'
    } else if d == 4 {
        '4'
    } else if d == 5 {
        '5'
    } else if d == 6 {
        '6'
    } else if d == 7 {
        '7'
    } else if d == 8 {
        '8'
    } else {
        '9'
    }
}

/// The decimal rendering of a natural number, without sign or padding.
pub open spec fn dec_str(n: nat) -> Seq<char>
    decreases n,
{
    if n < 10 {
        seq![dec_digit(n)]
    } else {
        dec_str(n / 10).push(dec_digit(n % 10))
    }
}

/// An ASCII decimal digit.
pub open spec fn is_dec_digit(c: char) -> bool {
    '0' as u32 <= c as u32 <= '9' as u32
}

proof fn lemma_dec_digit_is_digit(d: nat)
    requires
        d < 10,
    ensures
        is_dec_digit(dec_digit(d)),
{
}

/// Every character of a decimal rendering is a digit.
pub proof fn lemma_dec_str_digits(n: nat)
    ensures
        forall|i: int| 0 <= i < dec_str(n).len() ==> is_dec_digit(#[trigger] dec_str(n)[i]),
    decreases n,
{
    if n < 10 {
        lemma_dec_digit_is_digit(n);
    } else {
        lemma_dec_str_digits(n / 10);
        lemma_dec_digit_is_digit(n % 10);
        assert forall|i: int| 0 <= i < dec_str(n).len() implies is_dec_digit(
            #[trigger] dec_str(n)[i],
        ) by {
            if i < dec_str(n / 10).len() {
                assert(dec_str(n)[i] == dec_str(n / 10)[i]);
            } else {
                assert(dec_str(n)[i] == dec_digit(n % 10));
            }
        }
    }
}

fn digit_str(d: u64) -> (r: &'static str)
    requires
        d < 10,
    ensures
        r@ == seq![dec_digit(d as nat)],
{
    let r: &'static str = if d == 0 {
        "0"
    } else if d == 1 {
        "1"
    } else if d == 2 {
        "2"
    } else if d == 3 {
        "3"
    } else if d == 4 {
        "4"
    } else if d == 5 {
        "5"
    } else if d == 6 {
        "6"
    } else if d == 7 {
        "7"
    } else if d == 8 {
        "8"
    } else {
        "9"
    };
    proof {
        reveal_strlit("0");
        reveal_strlit("1");
        reveal_strlit("2");
        reveal_strlit("3");
        reveal_strlit("4");
        reveal_strlit("5");
        reveal_strlit("6");
        reveal_strlit("7");
        reveal_strlit("8");
        reveal_strlit("9");
        assert(r@ =~= seq![dec_digit(d as nat)]);
    }
    r
}

/// Renders an integer in decimal, exactly as its `to_string` would.
pub fn u64_to_string(n: u64) -> (r: String)
    ensures
        r@ == dec_str(n as nat),
    decreases n,
{
    let d = digit_str(n % 10);
    if n < 10 {
        d.to_owned()
    } else {
        let prefix = u64_to_string(n / 10);
        let r = prefix.concat(d);
        proof {
            assert(r@ =~= dec_str(n as nat));
        }
        r
    }
}

/// A character of the base58 alphabet: the digits and letters other than
/// `0`, `O`, `I` and `l`.
pub open spec fn is_base58_char(c: char) -> bool {
    ('1' as u32 <= c as u32 <= '9' as u32) || ('A' as u32 <= c as u32 <= 'Z' as u32 && c != 'I'
        && c != 'O') || ('a' as u32 <= c as u32 <= 'z' as u32 && c != 'l')
}

/// The base58 rendering of a byte string, in the standard (Bitcoin)
/// alphabet. What it is on given bytes is left to the encoder.
pub uninterp spec fn base58_of(bytes: Seq<u8>) -> Seq<char>;

/// Relies on bs58's `encode(..).into_string()`: the result is determined by
/// the input bytes alone, is drawn from the Bitcoin alphabet, and is empty
/// exactly on empty input.
#[verifier::external_body]
pub fn base58_string(bytes: &Vec<u8>) -> (r: String)
    ensures
        r@ == base58_of(bytes@),
        forall|i: int| 0 <= i < r@.len() ==> is_base58_char(#[trigger] r@[i]),
        bytes@.len() == 0 <==> r@.len() == 0,
{
    bs58::encode(bytes.as_slice()).into_string()
}

} // verus!
