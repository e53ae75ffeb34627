//! Check-digit algorithms of the payment-slip standard: modulo 10 and
//! modulo 11 over a sequence of ASCII decimal digits, weighted from the
//! rightmost digit.
use vstd::prelude::*;

verus! {

/// Numeric value of an ASCII decimal digit.
pub open spec fn digit_value(c: u8) -> int {
    c as int - 48
}

/// `c` is an ASCII decimal digit.
pub open spec fn is_digit(c: u8) -> bool {
    48u8 <= c && c <= 57u8
}

/// Every byte of `s` is an ASCII decimal digit.
pub open spec fn all_digits(s: Seq<u8>) -> bool {
    forall|i: int| 0 <= i < s.len() ==> is_digit(#[trigger] s[i])
}

/// Weight of position `i` of a sequence of length `n` in the modulo-10
/// sum: 2 for the rightmost digit, then alternating 1, 2, 1, ...
pub open spec fn peso_10(n: int, i: int) -> int {
    if (n - 1 - i) % 2 == 0 { 2 } else { 1 }
}

/// A weighted product of the modulo-10 sum: above 9 its two decimal
/// digits are added.
pub open spec fn parcela_10(c: u8, peso: int) -> int {
    let x = digit_value(c) * peso;
    if x > 9 { x / 10 + x % 10 } else { x }
}

/// Sum of the modulo-10 terms of the first `k` digits of `s`.
pub open spec fn soma_10(s: Seq<u8>, k: int) -> int
    decreases k,
{
    if k <= 0 {
        0
    } else {
        soma_10(s, k - 1) + parcela_10(s[k - 1], peso_10(s.len() as int, k - 1))
    }
}

/// Modulo-10 check digit of `s`, as an ASCII digit.
pub open spec fn modulo_10(s: Seq<u8>) -> u8 {
    ((10 - soma_10(s, s.len() as int) % 10) % 10 + 48) as u8
}

/// Weight of position `i` of a sequence of length `n` in the modulo-11
/// sum: 2 for the rightmost digit, then 3, 4, ... 9, and again from 2.
pub open spec fn peso_11(n: int, i: int) -> int {
    2 + (n - 1 - i) % 8
}

/// Sum of the modulo-11 terms of the first `k` digits of `s`.
pub open spec fn soma_11(s: Seq<u8>, k: int) -> int
    decreases k,
{
    if k <= 0 {
        0
    } else {
        soma_11(s, k - 1) + digit_value(s[k - 1]) * peso_11(s.len() as int, k - 1)
    }
}

/// Modulo-11 check digit of `s`, as an ASCII digit; `None` where the
/// standard leaves it undefined (a raw result of 10 or 11).
pub open spec fn modulo_11(s: Seq<u8>) -> Option<u8> {
    let r = 11 - soma_11(s, s.len() as int) % 11;
    if r == 10 || r == 11 {
        None
    } else {
        Some((r + 48) as u8)
    }
}

/// The check digits are functions of the digits alone: equal sequences of
/// digits have equal modulo-10 and modulo-11 check digits.
pub proof fn lemma_checksums_deterministicos(a: Seq<u8>, b: Seq<u8>)
    requires
        a == b,
    ensures
        modulo_10(a) == modulo_10(b),
        modulo_11(a) == modulo_11(b),
{
}

/// A slice of a sequence of digits is a sequence of digits.
pub proof fn lemma_digitos_subrange(s: Seq<u8>, a: int, b: int)
    requires
        all_digits(s),
        0 <= a <= b <= s.len(),
    ensures
        all_digits(s.subrange(a, b)),
{
    assert forall|k: int| 0 <= k < b - a implies is_digit(#[trigger] s.subrange(a, b)[k]) by {
        assert(s.subrange(a, b)[k] == s[a + k]);
    }
}

proof fn lemma_add_mod(a: int, b: int, m: int)
    requires
        m > 0,
    ensures
        (a % m + b) % m == (a + b) % m,
{
    vstd::arithmetic::div_mod::lemma_add_mod_noop(a, b, m);
    vstd::arithmetic::div_mod::lemma_add_mod_noop(a % m, b, m);
    vstd::arithmetic::div_mod::lemma_mod_twice(a, m);
}

/// Modulo-10 check digit of a sequence of digits, as an ASCII digit.
pub fn mod_10(values: &[u8]) -> (r: u8)
    requires
        all_digits(values@),
    ensures
        r == modulo_10(values@),
        is_digit(r),
{
    let n = values.len();
    let mut soma: u32 = 0;
    let mut i: usize = 0;
    while i < n
        invariant
            n == values@.len(),
            all_digits(values@),
            0 <= i <= n,
            soma < 10,
            soma == soma_10(values@, i as int) % 10,
        decreases n - i,
    {
        let d = values[i] - 48u8;
        let peso: u8 = if (n - 1 - i) % 2 == 0 { 2 } else { 1 };
        let x = d * peso;
        let parcela = if x > 9 { x / 10 + x % 10 } else { x };
        proof {
            assert(is_digit(values@[i as int]));
            assert(parcela == parcela_10(values@[i as int], peso_10(n as int, i as int)));
            lemma_add_mod(soma_10(values@, i as int), parcela as int, 10);
        }
        soma = (soma + parcela as u32) % 10;
        i = i + 1;
    }
    ((10 - soma) % 10) as u8 + 48u8
}

/// Modulo-11 check digit of a sequence of digits, as an ASCII digit, or
/// `None` where the raw result is 10 or 11.
pub fn mod_11(values: &[u8]) -> (r: Option<u8>)
    requires
        all_digits(values@),
    ensures
        r == modulo_11(values@),
        r matches Some(d) ==> is_digit(d),
{
    let n = values.len();
    let mut soma: u32 = 0;
    let mut i: usize = 0;
    while i < n
        invariant
            n == values@.len(),
            all_digits(values@),
            0 <= i <= n,
            soma < 11,
            soma == soma_11(values@, i as int) % 11,
        decreases n - i,
    {
        proof {
            assert(is_digit(values@[i as int]));
        }
        let d = (values[i] - 48u8) as u32;
        let peso: u32 = 2 + ((n - 1 - i) % 8) as u32;
        proof {
            assert(d * peso <= 81) by (nonlinear_arith)
                requires
                    d <= 9,
                    peso <= 9,
            ;
            lemma_add_mod(soma_11(values@, i as int), (d * peso) as int, 11);
        }
        soma = (soma + d * peso) % 11;
        i = i + 1;
    }
    let r = 11 - soma;
    if r == 10 || r == 11 {
        None
    } else {
        Some(r as u8 + 48u8)
    }
}

} // verus!
