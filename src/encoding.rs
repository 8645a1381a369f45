use vstd::prelude::*;
use crate::grammar::{all_alnum, is_alnum};

verus! {

/// The character of digit value `d` in the standard base62 alphabet: `0-9`,
/// then `A-Z`, then `a-z`.
pub open spec fn base62_digit(d: nat) -> u8 {
    if d < 10 {
        (48 + d) as u8
    } else if d < 36 {
        (55 + d) as u8
    } else {
        (61 + d) as u8
    }
}

/// `n` written in base62, most significant digit first, without leading zeros
/// (`0` is written as one digit).
pub open spec fn base62_digits(n: nat) -> Seq<u8>
    decreases n,
{
    if n < 62 {
        seq![base62_digit(n)]
    } else {
        base62_digits(n / 62).push(base62_digit(n % 62))
    }
}

/// The characters whose code points are the bytes of `b`.
pub open spec fn ascii_chars(b: Seq<u8>) -> Seq<char> {
    b.map_values(|x: u8| x as char)
}

/// `62` to the power `k`.
pub open spec fn pow62(k: nat) -> nat
    decreases k,
{
    if k == 0 {
        1
    } else {
        62 * pow62((k - 1) as nat)
    }
}

/// Relies on `base62::encode`: the standard alphabet, most significant digit
/// first, as many digits as the value needs and at least one.
#[verifier::external_body]
pub(crate) fn encode_base62(n: u128) -> (r: String)
    ensures
        r@ == ascii_chars(base62_digits(n as nat)),
{
    base62::encode(n)
}

/// Every base62 digit is an ASCII letter or decimal digit.
pub proof fn lemma_base62_alnum(n: nat)
    ensures
        all_alnum(base62_digits(n)),
        base62_digits(n).len() >= 1,
    decreases n,
{
    if n >= 62 {
        lemma_base62_alnum(n / 62);
        let d = base62_digits(n / 62);
        let e = base62_digits(n);
        assert(is_alnum(base62_digit(n % 62)));
        assert forall|i: int| 0 <= i < e.len() implies is_alnum(#[trigger] e[i]) by {
            if i < d.len() {
                assert(e[i] == d[i]);
            }
        }
    }
}

/// A value below `62^k` has at most `k` digits.
pub proof fn lemma_base62_len(n: nat, k: nat)
    requires
        k >= 1,
        n < pow62(k),
    ensures
        base62_digits(n).len() <= k,
    decreases k,
{
    if n >= 62 {
        let m = pow62((k - 1) as nat);
        assert(k >= 2) by {
            if k == 1 {
                assert(pow62(0) == 1);
            }
        }
        assert(n / 62 < m) by (nonlinear_arith)
            requires
                n < 62 * m,
        ;
        lemma_base62_len(n / 62, (k - 1) as nat);
    }
}

/// Every `u128` has at most 22 base62 digits.
pub proof fn lemma_base62_u128(n: u128)
    ensures
        all_alnum(base62_digits(n as nat)),
        1 <= base62_digits(n as nat).len() <= 22,
{
    lemma_base62_alnum(n as nat);
    reveal_with_fuel(pow62, 23);
    assert(pow62(22) == 2707803647802660400290261537185326956544);
    lemma_base62_len(n as nat, 22);
}

} // verus!
