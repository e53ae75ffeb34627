//! Bank collection slips (cobrança): the 44-digit barcode, the 47-digit
//! digitable line, the conversions between them and the decoded record.
use vstd::prelude::*;

use crate::dv_utils::{all_digits, is_digit, lemma_digitos_subrange, mod_10, mod_11, modulo_10, modulo_11};
use crate::utils::{copia, fatia, texto_ascii, data_do_fator, fator_vencimento_to_date, lemma_valor_decimal_limite, pow10, u8_array_to_u16, u8_array_to_u64, valor_decimal, Data};
use crate::BoletoError;

verus! {

/// Length of a collection slip's barcode.
pub const COD_BARRAS_LENGTH: usize = 44;

/// Length of a collection slip's digitable line.
pub const LINHA_DIGITAVEL_LENGTH: usize = 47;

/// Why `v` is not a well-formed collection code of length `n`, checked in
/// this order: length, family tag (a leading 8 marks a utility slip),
/// digits.
pub open spec fn erro_formato(v: Seq<u8>, n: nat) -> Option<BoletoError> {
    if v.len() != n {
        Some(BoletoError::InvalidLength)
    } else if v[0] == 56 {
        Some(BoletoError::InvalidArrecadacaoBarcode)
    } else if !all_digits(v) {
        Some(BoletoError::NumbersOnly)
    } else {
        None
    }
}

/// Field 1 of the digitable line, without its check digit.
pub open spec fn campo_1(b: Seq<u8>) -> Seq<u8> {
    b.subrange(0, 4) + b.subrange(19, 24)
}

/// The digitable line of barcode `b`.
pub open spec fn linha_de_barras(b: Seq<u8>) -> Seq<u8> {
    let c1 = campo_1(b);
    let c2 = b.subrange(24, 34);
    let c3 = b.subrange(34, 44);
    c1.push(modulo_10(c1)) + c2.push(modulo_10(c2)) + c3.push(modulo_10(c3)) + seq![b[4]]
        + b.subrange(5, 19)
}

/// The barcode of digitable line `l`.
pub open spec fn barras_de_linha(l: Seq<u8>) -> Seq<u8> {
    l.subrange(0, 4) + l.subrange(32, 47) + l.subrange(4, 9) + l.subrange(10, 20) + l.subrange(
        21,
        31,
    )
}

/// The general check digit of barcode `b`, as an ASCII digit: modulo 11 over
/// every digit but itself, 1 where modulo 11 leaves it undefined.
pub open spec fn dv_geral(b: Seq<u8>) -> u8 {
    match modulo_11(b.subrange(0, 4) + b.subrange(5, 44)) {
        Some(d) => d,
        None => 49,
    }
}

/// The three field check digits of digitable line `l` match its fields.
pub open spec fn campos_conferem(l: Seq<u8>) -> bool {
    &&& l[9] == modulo_10(l.subrange(0, 9))
    &&& l[20] == modulo_10(l.subrange(10, 20))
    &&& l[31] == modulo_10(l.subrange(21, 31))
}

/// A collection slip's barcode: 44 ASCII digits, the first not 8.
#[derive(Debug)]
pub struct CodBarras(Vec<u8>);

/// A collection slip's digitable line: 47 ASCII digits, the first not 8.
#[derive(Debug)]
pub struct LinhaDigitavel(Vec<u8>);

impl View for CodBarras {
    type V = Seq<u8>;

    closed spec fn view(&self) -> Seq<u8> {
        self.0@
    }
}

impl View for LinhaDigitavel {
    type V = Seq<u8>;

    closed spec fn view(&self) -> Seq<u8> {
        self.0@
    }
}

/// Checks length, family tag and digits of `input` in that order.
fn confere_formato(input: &[u8], n: usize) -> (r: Option<BoletoError>)
    requires
        n > 0,
    ensures
        r == erro_formato(input@, n as nat),
{
    if input.len() != n {
        return Some(BoletoError::InvalidLength);
    }
    if input[0] == 56u8 {
        return Some(BoletoError::InvalidArrecadacaoBarcode);
    }
    let mut i: usize = 0;
    while i < input.len()
        invariant
            0 <= i <= input@.len(),
            input@.len() == n,
            input@[0] != 56,
            forall|k: int| 0 <= k < i ==> is_digit(#[trigger] input@[k]),
        decreases input@.len() - i,
    {
        if !(48u8 <= input[i] && input[i] <= 57u8) {
            proof {
                assert(!is_digit(input@[i as int]));
            }
            return Some(BoletoError::NumbersOnly);
        }
        i = i + 1;
    }
    None
}

/// Copies a slice into a new vector.
fn para_vec(input: &[u8]) -> (r: Vec<u8>)
    ensures
        r@ == input@,
{
    let mut v: Vec<u8> = Vec::new();
    copia(&mut v, input, 0, input.len());
    proof {
        assert(v@ =~= input@);
    }
    v
}

impl CodBarras {
    #[verifier::type_invariant]
    spec fn inv(&self) -> bool {
        &&& self.0@.len() == COD_BARRAS_LENGTH
        &&& all_digits(self.0@)
        &&& self.0@[0] != 56
    }

    /// Takes `input` as a barcode: fails with the first of `InvalidLength`,
    /// `InvalidArrecadacaoBarcode` and `NumbersOnly` that applies.
    pub fn new(input: &[u8]) -> (r: Result<CodBarras, BoletoError>)
        ensures
            r is Ok <==> erro_formato(input@, COD_BARRAS_LENGTH as nat) is None,
            r matches Ok(c) ==> c@ == input@,
            r matches Err(e) ==> erro_formato(input@, COD_BARRAS_LENGTH as nat) == Some(e),
    {
        match confere_formato(input, COD_BARRAS_LENGTH) {
            Some(e) => Err(e),
            None => Ok(CodBarras(para_vec(input))),
        }
    }

    /// The barcode as text.
    pub fn as_str(&self) -> (r: &str)
        ensures
            r@ == self@.map_values(|c: u8| c as char),
    {
        proof {
            use_type_invariant(self);
        }
        texto_ascii(self.0.as_slice())
    }

    /// The digits of the barcode.
    pub fn as_bytes(&self) -> (r: &[u8])
        ensures
            r@ == self@,
            self@.len() == COD_BARRAS_LENGTH,
            all_digits(self@),
            self@[0] != 56,
    {
        proof {
            use_type_invariant(self);
        }
        self.0.as_slice()
    }

    /// The general check digit that the barcode should carry, as a number.
    pub fn calculate_dv(&self) -> (r: u8)
        ensures
            r == dv_geral(self@) - 48,
            r <= 9,
    {
        proof {
            use_type_invariant(self);
        }
        let mut sem_dv: Vec<u8> = Vec::new();
        copia(&mut sem_dv, self.0.as_slice(), 0, 4);
        copia(&mut sem_dv, self.0.as_slice(), 5, 44);
        proof {
            assert(sem_dv@ =~= self@.subrange(0, 4) + self@.subrange(5, 44));
            assert(all_digits(sem_dv@)) by {
                assert forall|k: int| 0 <= k < sem_dv@.len() implies is_digit(#[trigger] sem_dv@[k]) by {
                    if k < 4 {
                        assert(sem_dv@[k] == self@[k]);
                    } else {
                        assert(sem_dv@[k] == self@[k + 1]);
                    }
                }
            }
        }
        match mod_11(sem_dv.as_slice()) {
            Some(d) => d - 48u8,
            None => 1,
        }
    }

    /// Field check digits of the barcode's digitable line, as ASCII digits.
    pub fn calculate_dv_campos(&self) -> (r: (u8, u8, u8))
        ensures
            r == (
                modulo_10(campo_1(self@)),
                modulo_10(self@.subrange(24, 34)),
                modulo_10(self@.subrange(34, 44)),
            ),
    {
        proof {
            use_type_invariant(self);
        }
        let mut c1: Vec<u8> = Vec::new();
        copia(&mut c1, self.0.as_slice(), 0, 4);
        copia(&mut c1, self.0.as_slice(), 19, 24);
        let mut c2: Vec<u8> = Vec::new();
        copia(&mut c2, self.0.as_slice(), 24, 34);
        let mut c3: Vec<u8> = Vec::new();
        copia(&mut c3, self.0.as_slice(), 34, 44);
        proof {
            assert(c1@ =~= campo_1(self@));
            lemma_digitos_subrange(self@, 0, 4);
            lemma_digitos_subrange(self@, 19, 24);
            lemma_digitos_subrange(self@, 24, 34);
            lemma_digitos_subrange(self@, 34, 44);
            lemma_digitos_concat(self@.subrange(0, 4), self@.subrange(19, 24));
        }
        (mod_10(c1.as_slice()), mod_10(c2.as_slice()), mod_10(c3.as_slice()))
    }

    /// Writes the general check digit that the barcode should carry.
    pub fn update_dv(&mut self)
        ensures
            final(self)@ == old(self)@.update(4, dv_geral(old(self)@)),
    {
        let dv = self.calculate_dv();
        proof {
            use_type_invariant(&*self);
        }
        let mut v: Vec<u8> = Vec::new();
        copia(&mut v, self.0.as_slice(), 0, 4);
        v.push(dv + 48u8);
        copia(&mut v, self.0.as_slice(), 5, 44);
        proof {
            assert(v@ =~= self@.update(4, dv_geral(self@)));
        }
        *self = CodBarras(v);
    }

    /// The barcode of a digitable line.
    pub fn from_linha_digitavel(linha_digitavel: &LinhaDigitavel) -> (r: CodBarras)
        ensures
            r@ == barras_de_linha(linha_digitavel@),
    {
        proof {
            use_type_invariant(linha_digitavel);
        }
        let src = linha_digitavel.0.as_slice();
        let mut b: Vec<u8> = Vec::new();
        copia(&mut b, src, 0, 4);
        copia(&mut b, src, 32, 47);
        copia(&mut b, src, 4, 9);
        copia(&mut b, src, 10, 20);
        copia(&mut b, src, 21, 31);
        proof {
            assert(b@ =~= barras_de_linha(linha_digitavel@));
            lemma_barras_digitos(linha_digitavel@);
        }
        CodBarras(b)
    }
}

impl<'a> From<&'a LinhaDigitavel> for CodBarras {
    fn from(v: &'a LinhaDigitavel) -> (r: CodBarras) {
        CodBarras::from_linha_digitavel(v)
    }
}

impl<'a> vstd::std_specs::convert::FromSpecImpl<&'a LinhaDigitavel> for CodBarras {
    open spec fn obeys_from_spec() -> bool {
        false
    }

    open spec fn from_spec(v: &'a LinhaDigitavel) -> CodBarras {
        arbitrary()
    }
}

impl<'a> From<&'a CodBarras> for LinhaDigitavel {
    fn from(v: &'a CodBarras) -> (r: LinhaDigitavel) {
        LinhaDigitavel::from_cod_barras(v)
    }
}

impl<'a> vstd::std_specs::convert::FromSpecImpl<&'a CodBarras> for LinhaDigitavel {
    open spec fn obeys_from_spec() -> bool {
        false
    }

    open spec fn from_spec(v: &'a CodBarras) -> LinhaDigitavel {
        arbitrary()
    }
}

/// Currency of a collection slip.
#[derive(Clone, Copy, Debug, PartialEq, Eq, Structural)]
pub enum CodigoMoeda {
    /// Digit 9: Brazilian real.
    Real,
    /// Digit 0: another currency.
    Outras,
}

impl CodigoMoeda {
    /// The digit that encodes the currency, as an ASCII digit.
    pub fn into_u8(self) -> (r: u8)
        ensures
            r == digito_moeda(self),
    {
        match self {
            CodigoMoeda::Real => 57u8,
            CodigoMoeda::Outras => 48u8,
        }
    }

    /// Name of the currency.
    pub fn nome(&self) -> (r: &'static str) {
        match self {
            CodigoMoeda::Real => "Real",
            CodigoMoeda::Outras => "Outras",
        }
    }
}

/// The ASCII digit that encodes currency `m`.
pub open spec fn digito_moeda(m: CodigoMoeda) -> u8 {
    match m {
        CodigoMoeda::Real => 57,
        CodigoMoeda::Outras => 48,
    }
}

/// Code of the issuing bank (three digits).
#[derive(Clone, Copy, Debug, PartialEq, Eq, Structural)]
pub struct CodBanco(pub u16);

/// A decoded collection slip.
#[derive(Debug)]
pub struct Cobranca {
    pub cod_barras: CodBarras,
    pub linha_digitavel: LinhaDigitavel,
    pub cod_banco: CodBanco,
    pub cod_moeda: CodigoMoeda,
    /// The general check digit, as a number.
    pub digito_verificador: u8,
    /// Days from the base date; 0 when the slip has no due date.
    pub fator_vencimento: u16,
    pub data_vencimento: Option<Data>,
    /// Amount in cents; `None` when the amount field is zero.
    pub valor: Option<u64>,
}

/// The barcode of input `v`: `v` itself, or the barcode of a digitable line.
pub open spec fn barras_cobranca(v: Seq<u8>) -> Seq<u8> {
    if v.len() == LINHA_DIGITAVEL_LENGTH { barras_de_linha(v) } else { v }
}

/// The digitable line of input `v`: `v` itself, or that of a barcode.
pub open spec fn linha_cobranca(v: Seq<u8>) -> Seq<u8> {
    if v.len() == LINHA_DIGITAVEL_LENGTH { v } else { linha_de_barras(v) }
}

/// The due-date factor of barcode `b`.
pub open spec fn fator_de_barras(b: Seq<u8>) -> int {
    valor_decimal(b.subrange(5, 9))
}

/// The amount of barcode `b` in cents; `None` when it is zero.
pub open spec fn valor_de_barras(b: Seq<u8>) -> Option<u64> {
    let x = valor_decimal(b.subrange(9, 19));
    if x == 0 { None } else { Some(x as u64) }
}

/// The first reason, if any, for which input `v` is no valid collection slip.
pub open spec fn erro_cobranca(v: Seq<u8>) -> Option<BoletoError> {
    if v.len() != COD_BARRAS_LENGTH && v.len() != LINHA_DIGITAVEL_LENGTH {
        Some(BoletoError::InvalidLength)
    } else if erro_formato(v, v.len()) is Some {
        erro_formato(v, v.len())
    } else {
        let b = barras_cobranca(v);
        if b[3] != 57 && b[3] != 48 {
            Some(BoletoError::InvalidCodigoMoeda)
        } else if 0 < fator_de_barras(b) < 1000 {
            Some(BoletoError::InvalidFatorVencimento)
        } else if b[4] != dv_geral(b) {
            Some(BoletoError::InvalidDigitoVerificadorGeral)
        } else if !campos_conferem(linha_cobranca(v)) {
            Some(BoletoError::InvalidDigitoVerificadorCampos)
        } else {
            None
        }
    }
}

/// The fields of `c` are those that barcode `b` encodes.
pub open spec fn dados_de_barras(c: Cobranca, b: Seq<u8>) -> bool {
    &&& c.cod_banco == CodBanco(valor_decimal(b.subrange(0, 3)) as u16)
    &&& c.cod_moeda == (if b[3] == 57 { CodigoMoeda::Real } else { CodigoMoeda::Outras })
    &&& c.digito_verificador == b[4] - 48
    &&& c.fator_vencimento == fator_de_barras(b)
    &&& c.data_vencimento == data_do_fator(c.fator_vencimento)
    &&& c.valor == valor_de_barras(b)
}

impl Cobranca {
    /// Decodes a collection slip from its barcode (44 digits) or its
    /// digitable line (47 digits), and checks every check digit.
    pub fn new(value: &[u8]) -> (r: Result<Cobranca, BoletoError>)
        ensures
            r is Ok <==> erro_cobranca(value@) is None,
            r matches Err(e) ==> erro_cobranca(value@) == Some(e),
            r matches Ok(c) ==> {
                &&& c.cod_barras@ == barras_cobranca(value@)
                &&& c.linha_digitavel@ == linha_cobranca(value@)
                &&& dados_de_barras(c, c.cod_barras@)
            },
    {
        let (cod_barras, linha_digitavel) = if value.len() == COD_BARRAS_LENGTH {
            let cod_barras = match CodBarras::new(value) {
                Ok(c) => c,
                Err(e) => return Err(e),
            };
            let linha_digitavel = LinhaDigitavel::from_cod_barras(&cod_barras);
            (cod_barras, linha_digitavel)
        } else if value.len() == LINHA_DIGITAVEL_LENGTH {
            let linha_digitavel = match LinhaDigitavel::new(value) {
                Ok(l) => l,
                Err(e) => return Err(e),
            };
            (CodBarras::from_linha_digitavel(&linha_digitavel), linha_digitavel)
        } else {
            return Err(BoletoError::InvalidLength);
        };
        proof {
            use_type_invariant(&cod_barras);
            use_type_invariant(&linha_digitavel);
        }
        let b = cod_barras.0.as_slice();
        let ghost bv = cod_barras@;
        proof {
            lemma_digitos_subrange(bv, 0, 3);
            lemma_digitos_subrange(bv, 5, 9);
            lemma_digitos_subrange(bv, 9, 19);
            lemma_valor_decimal_limite(bv.subrange(0, 3));
            lemma_valor_decimal_limite(bv.subrange(5, 9));
            reveal_with_fuel(pow10, 5);
        }
        let cod_banco = CodBanco(u8_array_to_u16(fatia(b, 0, 3).as_slice()));
        let cod_moeda = if b[3] == 57u8 {
            CodigoMoeda::Real
        } else if b[3] == 48u8 {
            CodigoMoeda::Outras
        } else {
            return Err(BoletoError::InvalidCodigoMoeda);
        };
        let fator_vencimento = u8_array_to_u16(fatia(b, 5, 9).as_slice());
        if fator_vencimento > 0 && fator_vencimento < 1000 {
            return Err(BoletoError::InvalidFatorVencimento);
        }
        let centavos = u8_array_to_u64(fatia(b, 9, 19).as_slice());
        let valor = if centavos == 0 {
            None
        } else {
            Some(centavos)
        };
        let digito_verificador = cod_barras.calculate_dv();
        if digito_verificador != b[4] - 48u8 {
            return Err(BoletoError::InvalidDigitoVerificadorGeral);
        }
        let (dv1, dv2, dv3) = linha_digitavel.calculate_dv_campos();
        let l = linha_digitavel.0.as_slice();
        if l[9] != dv1 || l[20] != dv2 || l[31] != dv3 {
            return Err(BoletoError::InvalidDigitoVerificadorCampos);
        }
        Ok(Cobranca {
            cod_barras,
            linha_digitavel,
            cod_banco,
            cod_moeda,
            digito_verificador,
            fator_vencimento,
            data_vencimento: fator_vencimento_to_date(fator_vencimento),
            valor,
        })
    }
}

/// Two sequences of digits make one.
pub proof fn lemma_digitos_concat(a: Seq<u8>, b: Seq<u8>)
    requires
        all_digits(a),
        all_digits(b),
    ensures
        all_digits(a + b),
{
    assert forall|k: int| 0 <= k < (a + b).len() implies is_digit(#[trigger] (a + b)[k]) by {
        if k < a.len() {
            assert((a + b)[k] == a[k]);
        } else {
            assert((a + b)[k] == b[k - a.len()]);
        }
    }
}

impl LinhaDigitavel {
    #[verifier::type_invariant]
    spec fn inv(&self) -> bool {
        &&& self.0@.len() == LINHA_DIGITAVEL_LENGTH
        &&& all_digits(self.0@)
        &&& self.0@[0] != 56
    }

    /// Takes `input` as a digitable line: fails with the first of
    /// `InvalidLength`, `InvalidArrecadacaoBarcode` and `NumbersOnly` that
    /// applies.
    pub fn new(input: &[u8]) -> (r: Result<LinhaDigitavel, BoletoError>)
        ensures
            r is Ok <==> erro_formato(input@, LINHA_DIGITAVEL_LENGTH as nat) is None,
            r matches Ok(l) ==> l@ == input@,
            r matches Err(e) ==> erro_formato(input@, LINHA_DIGITAVEL_LENGTH as nat) == Some(e),
    {
        match confere_formato(input, LINHA_DIGITAVEL_LENGTH) {
            Some(e) => Err(e),
            None => Ok(LinhaDigitavel(para_vec(input))),
        }
    }

    /// The digitable line as text.
    pub fn as_str(&self) -> (r: &str)
        ensures
            r@ == self@.map_values(|c: u8| c as char),
    {
        proof {
            use_type_invariant(self);
        }
        texto_ascii(self.0.as_slice())
    }

    /// The digits of the digitable line.
    pub fn as_bytes(&self) -> (r: &[u8])
        ensures
            r@ == self@,
            self@.len() == LINHA_DIGITAVEL_LENGTH,
            all_digits(self@),
            self@[0] != 56,
    {
        proof {
            use_type_invariant(self);
        }
        self.0.as_slice()
    }

    /// The field check digits that the digitable line should carry, as ASCII
    /// digits.
    pub fn calculate_dv_campos(&self) -> (r: (u8, u8, u8))
        ensures
            r == (
                modulo_10(self@.subrange(0, 9)),
                modulo_10(self@.subrange(10, 20)),
                modulo_10(self@.subrange(21, 31)),
            ),
    {
        proof {
            use_type_invariant(self);
            lemma_digitos_subrange(self@, 0, 9);
            lemma_digitos_subrange(self@, 10, 20);
            lemma_digitos_subrange(self@, 21, 31);
        }
        let c1 = fatia(self.0.as_slice(), 0, 9);
        let c2 = fatia(self.0.as_slice(), 10, 20);
        let c3 = fatia(self.0.as_slice(), 21, 31);
        (mod_10(c1.as_slice()), mod_10(c2.as_slice()), mod_10(c3.as_slice()))
    }

    /// The digitable line of a barcode, with its field check digits computed.
    pub fn from_cod_barras(cod_barras: &CodBarras) -> (r: LinhaDigitavel)
        ensures
            r@ == linha_de_barras(cod_barras@),
    {
        proof {
            use_type_invariant(cod_barras);
        }
        let (dv1, dv2, dv3) = cod_barras.calculate_dv_campos();
        let src = cod_barras.0.as_slice();
        let mut l: Vec<u8> = Vec::new();
        copia(&mut l, src, 0, 4);
        copia(&mut l, src, 19, 24);
        l.push(dv1);
        copia(&mut l, src, 24, 34);
        l.push(dv2);
        copia(&mut l, src, 34, 44);
        l.push(dv3);
        l.push(src[4]);
        copia(&mut l, src, 5, 19);
        proof {
            let b = cod_barras@;
            assert(l@ =~= linha_de_barras(b));
            lemma_linha_digitos(b);
        }
        LinhaDigitavel(l)
    }
}

/// The digitable line of a barcode of digits is made of digits, and keeps
/// the leading digit.
pub proof fn lemma_linha_digitos(b: Seq<u8>)
    requires
        b.len() == COD_BARRAS_LENGTH,
        all_digits(b),
    ensures
        linha_de_barras(b).len() == LINHA_DIGITAVEL_LENGTH,
        all_digits(linha_de_barras(b)),
        linha_de_barras(b)[0] == b[0],
{
    let l = linha_de_barras(b);
    let c1 = campo_1(b);
    let c2 = b.subrange(24, 34);
    let c3 = b.subrange(34, 44);
    lemma_digitos_subrange(b, 0, 4);
    lemma_digitos_subrange(b, 19, 24);
    lemma_digitos_subrange(b, 24, 34);
    lemma_digitos_subrange(b, 34, 44);
    lemma_digitos_concat(b.subrange(0, 4), b.subrange(19, 24));
    lemma_modulo_10_digito(c1);
    lemma_modulo_10_digito(c2);
    lemma_modulo_10_digito(c3);
    assert forall|k: int| 0 <= k < 47 implies is_digit(#[trigger] l[k]) by {
        if k < 9 {
            assert(l[k] == c1[k]);
        } else if k == 9 {
            assert(l[k] == modulo_10(c1));
        } else if k < 20 {
            assert(l[k] == c2[k - 10]);
        } else if k == 20 {
            assert(l[k] == modulo_10(c2));
        } else if k < 31 {
            assert(l[k] == c3[k - 21]);
        } else if k == 31 {
            assert(l[k] == modulo_10(c3));
        } else if k == 32 {
            assert(l[k] == b[4]);
        } else {
            assert(l[k] == b[k - 28]);
        }
    }
}

/// The barcode of a digitable line of digits is made of digits, and keeps
/// the leading digit.
pub proof fn lemma_barras_digitos(l: Seq<u8>)
    requires
        l.len() == LINHA_DIGITAVEL_LENGTH,
        all_digits(l),
    ensures
        barras_de_linha(l).len() == COD_BARRAS_LENGTH,
        all_digits(barras_de_linha(l)),
        barras_de_linha(l)[0] == l[0],
{
    let b = barras_de_linha(l);
    assert forall|k: int| 0 <= k < 44 implies is_digit(#[trigger] b[k]) by {
        if k < 4 {
            assert(b[k] == l[k]);
        } else if k < 19 {
            assert(b[k] == l[k + 28]);
        } else if k < 24 {
            assert(b[k] == l[k - 15]);
        } else if k < 34 {
            assert(b[k] == l[k - 14]);
        } else {
            assert(b[k] == l[k - 13]);
        }
    }
}

/// Corrected codes: writing the general check digit leaves it unchanged,
/// and the digitable line of a barcode carries matching field check digits.
pub proof fn lemma_correcao(b: Seq<u8>)
    requires
        b.len() == COD_BARRAS_LENGTH,
    ensures
        dv_geral(b.update(4, dv_geral(b))) == dv_geral(b),
        campos_conferem(linha_de_barras(b)),
{
    let c = b.update(4, dv_geral(b));
    assert(c.subrange(0, 4) + c.subrange(5, 44) =~= b.subrange(0, 4) + b.subrange(5, 44));
    let l = linha_de_barras(b);
    assert(l.subrange(0, 9) =~= campo_1(b));
    assert(l.subrange(10, 20) =~= b.subrange(24, 34));
    assert(l.subrange(21, 31) =~= b.subrange(34, 44));
}

/// Round trip from the barcode: the barcode of a barcode's digitable line
/// is that barcode.
pub proof fn lemma_ida_e_volta_barras(b: Seq<u8>)
    requires
        b.len() == COD_BARRAS_LENGTH,
    ensures
        barras_de_linha(linha_de_barras(b)) == b,
{
    assert(barras_de_linha(linha_de_barras(b)) =~= b);
}

/// Round trip from the digitable line: a digitable line whose field check
/// digits match is the digitable line of its own barcode.
pub proof fn lemma_ida_e_volta_linha(l: Seq<u8>)
    requires
        l.len() == LINHA_DIGITAVEL_LENGTH,
        campos_conferem(l),
    ensures
        linha_de_barras(barras_de_linha(l)) == l,
{
    let b = barras_de_linha(l);
    assert(campo_1(b) =~= l.subrange(0, 9));
    assert(b.subrange(24, 34) =~= l.subrange(10, 20));
    assert(b.subrange(34, 44) =~= l.subrange(21, 31));
    assert(linha_de_barras(b) =~= l);
}

/// Validation does not depend on the form: where a slip is valid, its
/// barcode and its digitable line are valid too, and both give the same
/// barcode and the same digitable line, hence the same record.
pub proof fn lemma_validacao_idempotente(v: Seq<u8>)
    requires
        erro_cobranca(v) is None,
    ensures
        erro_cobranca(barras_cobranca(v)) is None,
        erro_cobranca(linha_cobranca(v)) is None,
        barras_cobranca(barras_cobranca(v)) == barras_cobranca(v),
        barras_cobranca(linha_cobranca(v)) == barras_cobranca(v),
        linha_cobranca(barras_cobranca(v)) == linha_cobranca(v),
        linha_cobranca(linha_cobranca(v)) == linha_cobranca(v),
{
    if v.len() == COD_BARRAS_LENGTH {
        lemma_ida_e_volta_barras(v);
        lemma_linha_digitos(v);
    } else {
        lemma_ida_e_volta_linha(v);
        lemma_barras_digitos(v);
    }
}

/// The modulo-10 check digit is an ASCII digit.
pub proof fn lemma_modulo_10_digito(s: Seq<u8>)
    ensures
        is_digit(modulo_10(s)),
{
}

} // verus!
