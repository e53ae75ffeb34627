//! Decimal fields and the due-date factor.
use vstd::prelude::*;

use crate::dv_utils::{all_digits, digit_value, is_digit, lemma_digitos_subrange};

verus! {

/// A calendar day, as the number of days from the common era
/// (0001-01-01 is day 1): the same numbering as chrono's
/// `NaiveDate::num_days_from_ce`.
#[derive(Clone, Copy, Debug, PartialEq, Eq, Structural)]
pub struct Data(pub i32);

/// Day 1997-10-07: factor 0 of the first series of due dates.
pub const DIA_BASE_ATE_2025: i32 = 729304;

/// Day 2022-05-29: factor 0 of the series in use from 2025-02-22 on.
pub const DIA_BASE_DESDE_2025: i32 = 738304;

/// Day 2025-02-22, from which factors restart at 1000.
pub const DIA_TROCA_DE_BASE: i32 = 739304;

/// Factor of 2010-01-01 in the first series. Factors from here up belong to
/// the first series; those below it, to the second.
pub const FATOR_VENC_2010: u16 = 4469;

/// Day from which factor `f` counts.
pub open spec fn base_do_fator(f: int) -> int {
    if f >= FATOR_VENC_2010 { DIA_BASE_ATE_2025 as int } else { DIA_BASE_DESDE_2025 as int }
}

/// Due date of factor `f`: none below 1000 (0 means "no due date").
pub open spec fn data_do_fator(f: u16) -> Option<Data> {
    if f >= 1000 {
        Some(Data((base_do_fator(f as int) + f) as i32))
    } else {
        None
    }
}

/// Day from which the factor of day `d` counts.
pub open spec fn base_da_data(d: int) -> int {
    if d < DIA_TROCA_DE_BASE { DIA_BASE_ATE_2025 as int } else { DIA_BASE_DESDE_2025 as int }
}

/// Factor of due date `d`, where it fits in a `u16`.
pub open spec fn fator_da_data(d: Data) -> Option<u16> {
    let dif = d.0 - base_da_data(d.0 as int);
    if 0 <= dif <= u16::MAX {
        Some(dif as u16)
    } else {
        None
    }
}

/// Every four-digit factor from 1000 up names a due date, whose factor is
/// that factor again.
pub proof fn lemma_fator_ida_e_volta(f: u16)
    requires
        1000 <= f <= 9999,
    ensures
        data_do_fator(f) matches Some(d) && fator_da_data(d) == Some(f),
{
}

/// Due date of a due-date factor: `None` for factors below 1000.
pub fn fator_vencimento_to_date(fator: u16) -> (r: Option<Data>)
    ensures
        r == data_do_fator(fator),
{
    let base = if fator >= FATOR_VENC_2010 {
        DIA_BASE_ATE_2025
    } else {
        DIA_BASE_DESDE_2025
    };
    if fator >= 1000 {
        Some(Data(base + fator as i32))
    } else {
        None
    }
}

/// Due-date factor of a date, where it fits in a `u16`.
pub fn date_to_fator_vencimento(date: Data) -> (r: Option<u16>)
    ensures
        r == fator_da_data(date),
{
    let base = if date.0 < DIA_TROCA_DE_BASE {
        DIA_BASE_ATE_2025
    } else {
        DIA_BASE_DESDE_2025
    };
    let dif: i64 = date.0 as i64 - base as i64;
    if 0 <= dif && dif <= u16::MAX as i64 {
        Some(dif as u16)
    } else {
        None
    }
}

/// Relies on `std::str::from_utf8`: ASCII bytes are valid UTF-8, and each
/// byte is the one character that it encodes.
#[verifier::external_body]
pub(crate) fn texto_ascii<'a>(b: &'a [u8]) -> (r: &'a str)
    requires
        all_digits(b@),
    ensures
        r@ == b@.map_values(|c: u8| c as char),
{
    std::str::from_utf8(b).unwrap()
}

/// Appends `src[de..ate]` to `dst`.
pub fn copia(dst: &mut Vec<u8>, src: &[u8], de: usize, ate: usize)
    requires
        de <= ate <= src@.len(),
    ensures
        final(dst)@ == old(dst)@ + src@.subrange(de as int, ate as int),
{
    let mut i: usize = de;
    while i < ate
        invariant
            de <= i <= ate <= src@.len(),
            dst@ == old(dst)@ + src@.subrange(de as int, i as int),
        decreases ate - i,
    {
        dst.push(src[i]);
        i = i + 1;
        proof {
            assert(dst@ =~= old(dst)@ + src@.subrange(de as int, i as int));
        }
    }
}

/// A new vector holding `src[de..ate]`.
pub fn fatia(src: &[u8], de: usize, ate: usize) -> (r: Vec<u8>)
    requires
        de <= ate <= src@.len(),
    ensures
        r@ == src@.subrange(de as int, ate as int),
{
    let mut v: Vec<u8> = Vec::new();
    copia(&mut v, src, de, ate);
    proof {
        assert(v@ =~= src@.subrange(de as int, ate as int));
    }
    v
}

/// Value of a sequence of ASCII digits read as a decimal number.
pub open spec fn valor_decimal(s: Seq<u8>) -> int
    decreases s.len(),
{
    if s.len() == 0 {
        0
    } else {
        valor_decimal(s.drop_last()) * 10 + digit_value(s.last())
    }
}

/// `x` written with exactly `n` decimal digits, zeros on the left (the
/// digits of `x mod 10^n`).
pub open spec fn decimal_fixo(x: int, n: nat) -> Seq<u8>
    decreases n,
{
    if n == 0 {
        Seq::empty()
    } else {
        decimal_fixo(x / 10, (n - 1) as nat).push((x % 10 + 48) as u8)
    }
}

/// Writing a number below `10^n` with `n` digits and reading it back gives
/// the number.
pub proof fn lemma_decimal_fixo(x: int, n: nat)
    requires
        0 <= x < pow10(n),
    ensures
        decimal_fixo(x, n).len() == n,
        all_digits(decimal_fixo(x, n)),
        valor_decimal(decimal_fixo(x, n)) == x,
    decreases n,
{
    if n > 0 {
        assert(x / 10 < pow10((n - 1) as nat)) by (nonlinear_arith)
            requires
                0 <= x < pow10(n),
                pow10(n) == 10 * pow10((n - 1) as nat),
        ;
        assert(0 <= x / 10) by (nonlinear_arith)
            requires
                0 <= x,
        ;
        lemma_decimal_fixo(x / 10, (n - 1) as nat);
        let s = decimal_fixo(x, n);
        let p = decimal_fixo(x / 10, (n - 1) as nat);
        assert(s.drop_last() =~= p);
        assert forall|i: int| 0 <= i < s.len() implies is_digit(#[trigger] s[i]) by {
            if i < p.len() {
                assert(s[i] == p[i]);
            }
        }
    }
}

/// Appends `x` written with exactly `n` decimal digits.
pub fn escreve_decimal(dst: &mut Vec<u8>, x: u64, n: usize)
    ensures
        final(dst)@ == old(dst)@ + decimal_fixo(x as int, n as nat),
    decreases n,
{
    if n > 0 {
        escreve_decimal(dst, x / 10, n - 1);
        dst.push((x % 10) as u8 + 48u8);
        proof {
            assert(dst@ =~= old(dst)@ + decimal_fixo(x as int, n as nat));
        }
    } else {
        proof {
            assert(dst@ =~= old(dst)@ + decimal_fixo(x as int, n as nat));
        }
    }
}

/// Ten to the power `n`.
pub open spec fn pow10(n: nat) -> int
    decreases n,
{
    if n == 0 { 1 } else { 10 * pow10((n - 1) as nat) }
}

/// A decimal number of `n` digits is below `10^n`.
pub proof fn lemma_valor_decimal_limite(s: Seq<u8>)
    requires
        all_digits(s),
    ensures
        0 <= valor_decimal(s) < pow10(s.len()),
    decreases s.len(),
{
    if s.len() > 0 {
        let p = s.drop_last();
        assert(all_digits(p)) by {
            assert forall|i: int| 0 <= i < p.len() implies is_digit(#[trigger] p[i]) by {
                assert(p[i] == s[i]);
            }
        }
        lemma_valor_decimal_limite(p);
        assert(is_digit(s[s.len() - 1]));
        let v = valor_decimal(p);
        let d = digit_value(s.last());
        let q = pow10(p.len());
        assert(v * 10 + d < 10 * q) by (nonlinear_arith)
            requires
                0 <= v < q,
                0 <= d <= 9,
        ;
    }
}

/// Reading fewer leading digits never gives a larger number.
proof fn lemma_prefixo_monotono(s: Seq<u8>, i: int, j: int)
    requires
        all_digits(s),
        0 <= i <= j <= s.len(),
    ensures
        0 <= valor_decimal(s.subrange(0, i)) <= valor_decimal(s.subrange(0, j)),
    decreases j - i,
{
    if i < j {
        lemma_prefixo_monotono(s, i, j - 1);
        assert(s.subrange(0, j).drop_last() =~= s.subrange(0, j - 1));
        assert(is_digit(s[j - 1]));
        lemma_digitos_subrange(s, 0, j - 1);
        lemma_valor_decimal_limite(s.subrange(0, j - 1));
    } else {
        lemma_digitos_subrange(s, 0, i);
        lemma_valor_decimal_limite(s.subrange(0, i));
    }
}

/// Decimal value of a sequence of ASCII digits that fits in a `u16`.
pub fn u8_array_to_u16(slice: &[u8]) -> (r: u16)
    requires
        all_digits(slice@),
        valor_decimal(slice@) <= u16::MAX,
    ensures
        r == valor_decimal(slice@),
{
    let n = slice.len();
    let mut acc: u16 = 0;
    let mut i: usize = 0;
    while i < n
        invariant
            n == slice@.len(),
            all_digits(slice@),
            valor_decimal(slice@) <= u16::MAX,
            0 <= i <= n,
            acc == valor_decimal(slice@.subrange(0, i as int)),
        decreases n - i,
    {
        proof {
            assert(is_digit(slice@[i as int]));
            assert(slice@.subrange(0, i + 1).drop_last() =~= slice@.subrange(0, i as int));
            lemma_prefixo_monotono(slice@, i + 1, n as int);
            assert(slice@.subrange(0, n as int) =~= slice@);
        }
        acc = acc * 10 + (slice[i] - 48u8) as u16;
        i = i + 1;
    }
    proof {
        assert(slice@.subrange(0, n as int) =~= slice@);
    }
    acc
}

/// Decimal value of at most 19 ASCII digits.
pub fn u8_array_to_u64(slice: &[u8]) -> (r: u64)
    requires
        all_digits(slice@),
        slice@.len() <= 19,
    ensures
        r == valor_decimal(slice@),
{
    proof {
        lemma_valor_decimal_limite(slice@);
        reveal_with_fuel(pow10, 20);
        assert(pow10(19) == 10000000000000000000);
        lemma_pow10_monotono(slice@.len(), 19);
    }
    let n = slice.len();
    let mut acc: u64 = 0;
    let mut i: usize = 0;
    while i < n
        invariant
            n == slice@.len(),
            all_digits(slice@),
            valor_decimal(slice@) <= u64::MAX,
            0 <= i <= n,
            acc == valor_decimal(slice@.subrange(0, i as int)),
        decreases n - i,
    {
        proof {
            assert(is_digit(slice@[i as int]));
            assert(slice@.subrange(0, i + 1).drop_last() =~= slice@.subrange(0, i as int));
            lemma_prefixo_monotono(slice@, i + 1, n as int);
            assert(slice@.subrange(0, n as int) =~= slice@);
        }
        acc = acc * 10 + (slice[i] - 48u8) as u64;
        i = i + 1;
    }
    proof {
        assert(slice@.subrange(0, n as int) =~= slice@);
    }
    acc
}

proof fn lemma_pow10_monotono(a: nat, b: nat)
    requires
        a <= b,
    ensures
        1 <= pow10(a) <= pow10(b),
    decreases b,
{
    if b > 0 && a < b {
        lemma_pow10_monotono(a, (b - 1) as nat);
    } else if b > 0 {
        lemma_pow10_monotono((a - 1) as nat, (b - 1) as nat);
    }
}

} // verus!
