//! Reading the reference tables (banks, agreements) from CSV text.
use vstd::prelude::*;
use vstd::string::*;

verus! {

/// The records of CSV text `dados`, as read by the csv crate with its
/// default settings (the first row is a header and is skipped; every row
/// must have as many fields as the header): each record as its fields, each
/// field as its characters. `None` where the reader reports an error.
pub uninterp spec fn registros_csv(dados: Seq<u8>) -> Option<Seq<Seq<Seq<char>>>>;

/// The characters of every field of every record.
pub open spec fn visao_registros(v: Seq<Vec<String>>) -> Seq<Seq<Seq<char>>> {
    v.map_values(|r: Vec<String>| r@.map_values(|s: String| s@))
}

/// Relies on `csv::Reader::from_reader` and `Reader::records` (csv 1.x) to
/// split CSV text into records of fields, and on the reader's error to
/// report malformed text.
#[verifier::external_body]
pub(crate) fn le_registros_csv(dados: &[u8]) -> (r: Option<Vec<Vec<String>>>)
    ensures
        r is Some <==> registros_csv(dados@) is Some,
        r matches Some(v) ==> visao_registros(v@) == registros_csv(dados@)->Some_0,
{
    csv::Reader::from_reader(dados)
        .records()
        .map(|registro| registro.map(|campos| campos.iter().map(|c| c.to_string()).collect()))
        .collect::<Result<Vec<Vec<String>>, csv::Error>>()
        .ok()
}

/// Why a reference table could not be read.
#[derive(Clone, Copy, Debug, PartialEq, Eq, Structural)]
pub enum ErroCadastro {
    /// The CSV reader reported an error.
    Csv,
    /// A record has too few fields, or its code is not a number from 0 to
    /// 65535.
    Registro,
}

/// `c` is an ASCII decimal digit.
pub open spec fn digito_char(c: char) -> bool {
    '0' <= c && c <= '9'
}

/// Value of a sequence of decimal digit characters.
pub open spec fn valor_chars(s: Seq<char>) -> int
    decreases s.len(),
{
    if s.len() == 0 {
        0
    } else {
        valor_chars(s.drop_last()) * 10 + (s.last() as int - '0' as int)
    }
}

/// Every character of `d` is a decimal digit.
pub open spec fn so_digitos(d: Seq<char>) -> bool {
    forall|i: int| 0 <= i < d.len() ==> digito_char(#[trigger] d[i])
}

/// Text `s` without a leading `+`.
pub open spec fn sem_sinal(s: Seq<char>) -> Seq<char> {
    if s.len() > 0 && s[0] == '+' { s.drop_first() } else { s }
}

/// The code that text `s` holds, read as Rust reads a `u16`: an optional
/// `+`, then at least one decimal digit, the value at most 65535.
pub open spec fn codigo_de_texto(s: Seq<char>) -> Option<u16> {
    let d = sem_sinal(s);
    if d.len() > 0 && so_digitos(d) && valor_chars(d) <= u16::MAX {
        Some(valor_chars(d) as u16)
    } else {
        None
    }
}

/// The code that a text field holds, as `codigo_de_texto` says.
pub fn codigo_de_campo(campo: &String) -> (r: Option<u16>)
    ensures
        r == codigo_de_texto(campo@),
{
    let s = campo.as_str();
    let n = s.unicode_len();
    let ghost t = s@;
    let inicio: usize = if n > 0 && s.get_char(0) == '+' { 1 } else { 0 };
    let ghost d = sem_sinal(t);
    proof {
        assert(d =~= t.subrange(inicio as int, n as int));
    }
    if inicio >= n {
        return None;
    }
    let mut acc: u32 = 0;
    let mut i: usize = inicio;
    while i < n
        invariant
            t == s@,
            t == campo@,
            d == sem_sinal(t),
            n == t.len(),
            inicio <= i <= n,
            d == t.subrange(inicio as int, n as int),
            forall|k: int| inicio <= k < i ==> digito_char(#[trigger] t[k]),
            valor_chars(t.subrange(inicio as int, i as int)) <= u16::MAX ==> acc == valor_chars(
                t.subrange(inicio as int, i as int),
            ),
            valor_chars(t.subrange(inicio as int, i as int)) > u16::MAX ==> acc == 65536,
            valor_chars(t.subrange(inicio as int, i as int)) >= 0,
        decreases n - i,
    {
        let c = s.get_char(i);
        if !('0' <= c && c <= '9') {
            proof {
                assert(d[i - inicio] == c);
                assert(!digito_char(d[i - inicio]));
            }
            return None;
        }
        let ghost p = t.subrange(inicio as int, i as int);
        let ghost q = t.subrange(inicio as int, i + 1);
        proof {
            assert(q.drop_last() =~= p);
        }
        let digito = (c as u32) - ('0' as u32);
        if acc > 65535 {
            acc = 65536;
        } else {
            acc = acc * 10 + digito;
            if acc > 65535 {
                acc = 65536;
            }
        }
        i = i + 1;
    }
    proof {
        assert(t.subrange(inicio as int, n as int) == d);
        assert forall|k: int| 0 <= k < d.len() implies digito_char(#[trigger] d[k]) by {
            assert(d[k] == t[k + inicio]);
        }
    }
    if acc > 65535 {
        None
    } else {
        Some(acc as u16)
    }
}

} // verus!
