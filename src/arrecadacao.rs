//! Utility and tax slips (arrecadação): the 44-digit barcode, the 48-digit
//! digitable line, the conversions between them and the decoded record.
use vstd::prelude::*;

use crate::cobranca::lemma_digitos_concat;
use crate::dv_utils::{all_digits, is_digit, lemma_digitos_subrange, mod_10, mod_11, modulo_10, modulo_11};
use crate::utils::{copia, fatia, texto_ascii, lemma_valor_decimal_limite, pow10, u8_array_to_u16, u8_array_to_u64, valor_decimal};
use crate::BoletoError;

verus! {

/// Length of a utility slip's barcode.
pub const COD_BARRAS_LENGTH: usize = 44;

/// Length of a utility slip's digitable line.
pub const LINHA_DIGITAVEL_LENGTH: usize = 48;

/// Segment of a utility slip: the kind of payee.
#[derive(Clone, Copy, Debug, PartialEq, Eq, Structural)]
pub enum Segmento {
    Prefeituras,
    Saneamento,
    EnergiaEletricaEGas,
    Telecomunicacoes,
    OrgaosGovernamentais,
    Carnes,
    MultasTransito,
    ExclusivoDoBanco,
}

/// Value type of a utility slip: whether the amount field holds reais or a
/// quantity of another unit, and which check-digit algorithm the slip uses.
#[derive(Clone, Copy, Debug, PartialEq, Eq, Structural)]
pub enum TipoValor {
    ValorReaisMod10,
    QtdeMoedaMod10,
    ValorReaisMod11,
    QtdeMoedaMod11,
}

/// Agreement (convênio) of a utility slip.
#[derive(Clone, Copy, Debug, PartialEq, Eq, Structural)]
pub enum Convenio {
    /// Payment-book slips: the identifier is opaque, with no registry to
    /// resolve it.
    Carne,
    /// Any other segment: the agreement code, to look up in a registry.
    Outros(u16),
}

/// The segment that ASCII digit `c` encodes: digits 1 to 7 and 9.
pub open spec fn segmento_de(c: u8) -> Option<Segmento> {
    if c == 49 {
        Some(Segmento::Prefeituras)
    } else if c == 50 {
        Some(Segmento::Saneamento)
    } else if c == 51 {
        Some(Segmento::EnergiaEletricaEGas)
    } else if c == 52 {
        Some(Segmento::Telecomunicacoes)
    } else if c == 53 {
        Some(Segmento::OrgaosGovernamentais)
    } else if c == 54 {
        Some(Segmento::Carnes)
    } else if c == 55 {
        Some(Segmento::MultasTransito)
    } else if c == 57 {
        Some(Segmento::ExclusivoDoBanco)
    } else {
        None
    }
}

/// The value type that ASCII digit `c` encodes: digits 6 to 9.
pub open spec fn tipo_de(c: u8) -> Option<TipoValor> {
    if c == 54 {
        Some(TipoValor::ValorReaisMod10)
    } else if c == 55 {
        Some(TipoValor::QtdeMoedaMod10)
    } else if c == 56 {
        Some(TipoValor::ValorReaisMod11)
    } else if c == 57 {
        Some(TipoValor::QtdeMoedaMod11)
    } else {
        None
    }
}

/// Value type `t` uses modulo 10 for its check digits.
pub open spec fn usa_mod_10(t: TipoValor) -> bool {
    t == TipoValor::ValorReaisMod10 || t == TipoValor::QtdeMoedaMod10
}

/// Value type `t` gives an amount in reais.
pub open spec fn valor_em_reais(t: TipoValor) -> bool {
    t == TipoValor::ValorReaisMod10 || t == TipoValor::ValorReaisMod11
}

/// Check digit of `s` under value type `t`, as an ASCII digit: modulo 10,
/// or modulo 11 with 0 where modulo 11 leaves it undefined.
pub open spec fn dv_de(t: TipoValor, s: Seq<u8>) -> u8 {
    if usa_mod_10(t) {
        modulo_10(s)
    } else {
        match modulo_11(s) {
            Some(d) => d,
            None => 48,
        }
    }
}

/// The value type of a code: digit 2, the same place in both forms.
pub open spec fn tipo_do_codigo(v: Seq<u8>) -> TipoValor {
    tipo_de(v[2])->Some_0
}

/// Why `v` is not a well-formed utility code of length `n`, checked in
/// this order: family tag, length, digits, value type.
pub open spec fn erro_formato(v: Seq<u8>, n: nat) -> Option<BoletoError> {
    if v.len() == 0 || v[0] != 56 {
        Some(BoletoError::InvalidArrecadacaoBarcode)
    } else if v.len() != n {
        Some(BoletoError::InvalidLength)
    } else if !all_digits(v) {
        Some(BoletoError::NumbersOnly)
    } else if tipo_de(v[2]) is None {
        Some(BoletoError::InvalidTipoValor)
    } else {
        None
    }
}

/// Block `i` (0 to 3) of a barcode: 11 digits.
pub open spec fn bloco(b: Seq<u8>, i: int) -> Seq<u8> {
    b.subrange(11 * i, 11 * i + 11)
}

/// Block `i` (0 to 3) of a digitable line, without its check digit.
pub open spec fn bloco_linha(l: Seq<u8>, i: int) -> Seq<u8> {
    l.subrange(12 * i, 12 * i + 11)
}

/// The digitable line of barcode `b`: each block followed by its check digit.
pub open spec fn linha_de_barras(b: Seq<u8>) -> Seq<u8> {
    let t = tipo_do_codigo(b);
    bloco(b, 0).push(dv_de(t, bloco(b, 0))) + bloco(b, 1).push(dv_de(t, bloco(b, 1))) + bloco(
        b,
        2,
    ).push(dv_de(t, bloco(b, 2))) + bloco(b, 3).push(dv_de(t, bloco(b, 3)))
}

/// The barcode of digitable line `l`: its blocks without check digits.
pub open spec fn barras_de_linha(l: Seq<u8>) -> Seq<u8> {
    bloco_linha(l, 0) + bloco_linha(l, 1) + bloco_linha(l, 2) + bloco_linha(l, 3)
}

/// The general check digit of barcode `b`, as an ASCII digit, over every
/// digit but itself.
pub open spec fn dv_geral(b: Seq<u8>) -> u8 {
    dv_de(tipo_do_codigo(b), b.subrange(0, 3) + b.subrange(4, 44))
}

/// The four block check digits of digitable line `l` match its blocks.
pub open spec fn campos_conferem(l: Seq<u8>) -> bool {
    let t = tipo_do_codigo(l);
    &&& l[11] == dv_de(t, bloco_linha(l, 0))
    &&& l[23] == dv_de(t, bloco_linha(l, 1))
    &&& l[35] == dv_de(t, bloco_linha(l, 2))
    &&& l[47] == dv_de(t, bloco_linha(l, 3))
}

impl Segmento {
    /// The segment that an ASCII digit encodes.
    pub fn from_digito(c: u8) -> (r: Option<Segmento>)
        ensures
            r == segmento_de(c),
    {
        if c == 49u8 {
            Some(Segmento::Prefeituras)
        } else if c == 50u8 {
            Some(Segmento::Saneamento)
        } else if c == 51u8 {
            Some(Segmento::EnergiaEletricaEGas)
        } else if c == 52u8 {
            Some(Segmento::Telecomunicacoes)
        } else if c == 53u8 {
            Some(Segmento::OrgaosGovernamentais)
        } else if c == 54u8 {
            Some(Segmento::Carnes)
        } else if c == 55u8 {
            Some(Segmento::MultasTransito)
        } else if c == 57u8 {
            Some(Segmento::ExclusivoDoBanco)
        } else {
            None
        }
    }

    /// Name of the segment.
    pub fn nome(&self) -> (r: &'static str) {
        match self {
            Segmento::Prefeituras => "Prefeituras",
            Segmento::Saneamento => "Saneamento",
            Segmento::EnergiaEletricaEGas => "Energia elétrica e gás",
            Segmento::Telecomunicacoes => "Telecomunicações",
            Segmento::OrgaosGovernamentais => "Órgãos governamentais",
            Segmento::Carnes => "Carnês",
            Segmento::MultasTransito => "Multas de Trânsito",
            Segmento::ExclusivoDoBanco => "Uso exclusivo do banco emissor",
        }
    }
}

impl TipoValor {
    /// The value type that an ASCII digit encodes.
    pub fn from_digito(c: u8) -> (r: Option<TipoValor>)
        ensures
            r == tipo_de(c),
    {
        if c == 54u8 {
            Some(TipoValor::ValorReaisMod10)
        } else if c == 55u8 {
            Some(TipoValor::QtdeMoedaMod10)
        } else if c == 56u8 {
            Some(TipoValor::ValorReaisMod11)
        } else if c == 57u8 {
            Some(TipoValor::QtdeMoedaMod11)
        } else {
            None
        }
    }
}

/// Check digit of a sequence of digits under a value type, as an ASCII digit.
pub fn calcula_dv(tipo: TipoValor, values: &[u8]) -> (r: u8)
    requires
        all_digits(values@),
    ensures
        r == dv_de(tipo, values@),
        is_digit(r),
{
    match tipo {
        TipoValor::ValorReaisMod10 | TipoValor::QtdeMoedaMod10 => mod_10(values),
        _ => match mod_11(values) {
            Some(d) => d,
            None => 48u8,
        },
    }
}

/// A utility slip's barcode: 44 ASCII digits, the first 8, a known value type.
#[derive(Debug)]
pub struct CodBarras(Vec<u8>);

/// A utility slip's digitable line: 48 ASCII digits, the first 8, a known
/// value type.
#[derive(Debug)]
pub struct LinhaDigitavel(Vec<u8>);

impl View for CodBarras {
    type V = Seq<u8>;

    closed spec fn view(&self) -> Seq<u8> {
        self.0@
    }
}

impl View for LinhaDigitavel {
    type V = Seq<u8>;

    closed spec fn view(&self) -> Seq<u8> {
        self.0@
    }
}

/// Checks family tag, length, digits and value type of `input` in that order.
fn confere_formato(input: &[u8], n: usize) -> (r: Option<BoletoError>)
    requires
        n > 2,
    ensures
        r == erro_formato(input@, n as nat),
{
    if input.len() == 0 || input[0] != 56u8 {
        return Some(BoletoError::InvalidArrecadacaoBarcode);
    }
    if input.len() != n {
        return Some(BoletoError::InvalidLength);
    }
    let mut i: usize = 0;
    while i < input.len()
        invariant
            0 <= i <= input@.len(),
            input@.len() == n,
            input@[0] == 56,
            forall|k: int| 0 <= k < i ==> is_digit(#[trigger] input@[k]),
        decreases input@.len() - i,
    {
        if !(48u8 <= input[i] && input[i] <= 57u8) {
            proof {
                assert(!is_digit(input@[i as int]));
            }
            return Some(BoletoError::NumbersOnly);
        }
        i = i + 1;
    }
    if TipoValor::from_digito(input[2]).is_none() {
        return Some(BoletoError::InvalidTipoValor);
    }
    None
}

/// Copies a slice into a new vector.
fn para_vec(input: &[u8]) -> (r: Vec<u8>)
    ensures
        r@ == input@,
{
    fatia(input, 0, input.len())
}

/// The check digit under any value type is an ASCII digit.
pub proof fn lemma_dv_digito(t: TipoValor, s: Seq<u8>)
    ensures
        is_digit(dv_de(t, s)),
{
}

/// The digitable line of a barcode of digits is made of digits, and keeps
/// the family tag and the value type.
pub proof fn lemma_linha_digitos(b: Seq<u8>)
    requires
        b.len() == COD_BARRAS_LENGTH,
        all_digits(b),
    ensures
        linha_de_barras(b).len() == LINHA_DIGITAVEL_LENGTH,
        all_digits(linha_de_barras(b)),
        linha_de_barras(b)[0] == b[0],
        linha_de_barras(b)[2] == b[2],
{
    let l = linha_de_barras(b);
    let t = tipo_do_codigo(b);
    assert forall|k: int| 0 <= k < 48 implies is_digit(#[trigger] l[k]) by {
        let i = k / 12;
        let j = k % 12;
        if j < 11 {
            assert(l[k] == b[11 * i + j]);
        } else {
            assert(l[k] == dv_de(t, bloco(b, i)));
            lemma_dv_digito(t, bloco(b, i));
        }
    }
}

/// The barcode of a digitable line of digits is made of digits, and keeps
/// the family tag and the value type.
pub proof fn lemma_barras_digitos(l: Seq<u8>)
    requires
        l.len() == LINHA_DIGITAVEL_LENGTH,
        all_digits(l),
    ensures
        barras_de_linha(l).len() == COD_BARRAS_LENGTH,
        all_digits(barras_de_linha(l)),
        barras_de_linha(l)[0] == l[0],
        barras_de_linha(l)[2] == l[2],
{
    let b = barras_de_linha(l);
    assert forall|k: int| 0 <= k < 44 implies is_digit(#[trigger] b[k]) by {
        let i = k / 11;
        let j = k % 11;
        assert(b[k] == l[12 * i + j]);
    }
}

impl CodBarras {
    #[verifier::type_invariant]
    spec fn inv(&self) -> bool {
        &&& self.0@.len() == COD_BARRAS_LENGTH
        &&& all_digits(self.0@)
        &&& self.0@[0] == 56
        &&& tipo_de(self.0@[2]) is Some
    }

    /// Takes `input` as a barcode: fails with the first of
    /// `InvalidArrecadacaoBarcode`, `InvalidLength`, `NumbersOnly` and
    /// `InvalidTipoValor` that applies.
    pub fn new(input: &[u8]) -> (r: Result<CodBarras, BoletoError>)
        ensures
            r is Ok <==> erro_formato(input@, COD_BARRAS_LENGTH as nat) is None,
            r matches Ok(c) ==> c@ == input@,
            r matches Err(e) ==> erro_formato(input@, COD_BARRAS_LENGTH as nat) == Some(e),
    {
        match confere_formato(input, COD_BARRAS_LENGTH) {
            Some(e) => Err(e),
            None => Ok(CodBarras(para_vec(input))),
        }
    }

    /// The barcode as text.
    pub fn as_str(&self) -> (r: &str)
        ensures
            r@ == self@.map_values(|c: u8| c as char),
    {
        proof {
            use_type_invariant(self);
        }
        texto_ascii(self.0.as_slice())
    }

    /// The digits of the barcode.
    pub fn as_bytes(&self) -> (r: &[u8])
        ensures
            r@ == self@,
            self@.len() == COD_BARRAS_LENGTH,
            all_digits(self@),
            self@[0] == 56,
            tipo_de(self@[2]) is Some,
    {
        proof {
            use_type_invariant(self);
        }
        self.0.as_slice()
    }

    /// The value type of the barcode.
    pub fn tipo_valor(&self) -> (r: Result<TipoValor, BoletoError>)
        ensures
            r == Ok::<TipoValor, BoletoError>(tipo_do_codigo(self@)),
    {
        proof {
            use_type_invariant(self);
        }
        match TipoValor::from_digito(self.0[2]) {
            Some(t) => Ok(t),
            None => Err(BoletoError::InvalidTipoValor),
        }
    }

    /// The segment of the barcode: `InvalidSegmento` for an unknown digit.
    pub fn segmento(&self) -> (r: Result<Segmento, BoletoError>)
        ensures
            segmento_de(self@[1]) matches Some(s) ==> r == Ok::<Segmento, BoletoError>(s),
            segmento_de(self@[1]) is None ==> r == Err::<Segmento, BoletoError>(
                BoletoError::InvalidSegmento,
            ),
    {
        proof {
            use_type_invariant(self);
        }
        match Segmento::from_digito(self.0[1]) {
            Some(s) => Ok(s),
            None => Err(BoletoError::InvalidSegmento),
        }
    }

    /// The general check digit that the barcode should carry, as a number.
    pub fn calculate_dv(&self) -> (r: u8)
        ensures
            r == dv_geral(self@) - 48,
            r <= 9,
    {
        proof {
            use_type_invariant(self);
        }
        let tipo = TipoValor::from_digito(self.0[2]).unwrap();
        let mut sem_dv: Vec<u8> = Vec::new();
        copia(&mut sem_dv, self.0.as_slice(), 0, 3);
        copia(&mut sem_dv, self.0.as_slice(), 4, 44);
        proof {
            assert(sem_dv@ =~= self@.subrange(0, 3) + self@.subrange(4, 44));
            lemma_digitos_subrange(self@, 0, 3);
            lemma_digitos_subrange(self@, 4, 44);
            lemma_digitos_concat(self@.subrange(0, 3), self@.subrange(4, 44));
        }
        calcula_dv(tipo, sem_dv.as_slice()) - 48u8
    }

    /// The four block check digits of the barcode's digitable line, as ASCII
    /// digits.
    pub fn calculate_dv_campos(&self) -> (r: (u8, u8, u8, u8))
        ensures
            ({
                let t = tipo_do_codigo(self@);
                r == (
                    dv_de(t, bloco(self@, 0)),
                    dv_de(t, bloco(self@, 1)),
                    dv_de(t, bloco(self@, 2)),
                    dv_de(t, bloco(self@, 3)),
                )
            }),
    {
        proof {
            use_type_invariant(self);
            lemma_digitos_subrange(self@, 0, 11);
            lemma_digitos_subrange(self@, 11, 22);
            lemma_digitos_subrange(self@, 22, 33);
            lemma_digitos_subrange(self@, 33, 44);
        }
        let tipo = TipoValor::from_digito(self.0[2]).unwrap();
        let b = self.0.as_slice();
        (
            calcula_dv(tipo, fatia(b, 0, 11).as_slice()),
            calcula_dv(tipo, fatia(b, 11, 22).as_slice()),
            calcula_dv(tipo, fatia(b, 22, 33).as_slice()),
            calcula_dv(tipo, fatia(b, 33, 44).as_slice()),
        )
    }

    /// Writes the general check digit that the barcode should carry.
    pub fn update_dv(&mut self)
        ensures
            final(self)@ == old(self)@.update(3, dv_geral(old(self)@)),
    {
        let dv = self.calculate_dv();
        proof {
            use_type_invariant(&*self);
        }
        let mut v: Vec<u8> = Vec::new();
        copia(&mut v, self.0.as_slice(), 0, 3);
        v.push(dv + 48u8);
        copia(&mut v, self.0.as_slice(), 4, 44);
        proof {
            assert(v@ =~= self@.update(3, dv_geral(self@)));
            lemma_dv_digito(tipo_do_codigo(self@), self@.subrange(0, 3) + self@.subrange(4, 44));
        }
        *self = CodBarras(v);
    }

    /// The barcode of a digitable line.
    pub fn from_linha_digitavel(linha_digitavel: &LinhaDigitavel) -> (r: CodBarras)
        ensures
            r@ == barras_de_linha(linha_digitavel@),
    {
        proof {
            use_type_invariant(linha_digitavel);
        }
        let src = linha_digitavel.0.as_slice();
        let mut b: Vec<u8> = Vec::new();
        copia(&mut b, src, 0, 11);
        copia(&mut b, src, 12, 23);
        copia(&mut b, src, 24, 35);
        copia(&mut b, src, 36, 47);
        proof {
            assert(b@ =~= barras_de_linha(linha_digitavel@));
            lemma_barras_digitos(linha_digitavel@);
        }
        CodBarras(b)
    }
}

impl LinhaDigitavel {
    #[verifier::type_invariant]
    spec fn inv(&self) -> bool {
        &&& self.0@.len() == LINHA_DIGITAVEL_LENGTH
        &&& all_digits(self.0@)
        &&& self.0@[0] == 56
        &&& tipo_de(self.0@[2]) is Some
    }

    /// Takes `input` as a digitable line: fails with the first of
    /// `InvalidArrecadacaoBarcode`, `InvalidLength`, `NumbersOnly` and
    /// `InvalidTipoValor` that applies.
    pub fn new(input: &[u8]) -> (r: Result<LinhaDigitavel, BoletoError>)
        ensures
            r is Ok <==> erro_formato(input@, LINHA_DIGITAVEL_LENGTH as nat) is None,
            r matches Ok(l) ==> l@ == input@,
            r matches Err(e) ==> erro_formato(input@, LINHA_DIGITAVEL_LENGTH as nat) == Some(e),
    {
        match confere_formato(input, LINHA_DIGITAVEL_LENGTH) {
            Some(e) => Err(e),
            None => Ok(LinhaDigitavel(para_vec(input))),
        }
    }

    /// The digitable line as text.
    pub fn as_str(&self) -> (r: &str)
        ensures
            r@ == self@.map_values(|c: u8| c as char),
    {
        proof {
            use_type_invariant(self);
        }
        texto_ascii(self.0.as_slice())
    }

    /// The digits of the digitable line.
    pub fn as_bytes(&self) -> (r: &[u8])
        ensures
            r@ == self@,
            self@.len() == LINHA_DIGITAVEL_LENGTH,
            all_digits(self@),
            self@[0] == 56,
            tipo_de(self@[2]) is Some,
    {
        proof {
            use_type_invariant(self);
        }
        self.0.as_slice()
    }

    /// The four block check digits that the digitable line should carry, as
    /// ASCII digits.
    pub fn calculate_dvs(&self) -> (r: (u8, u8, u8, u8))
        ensures
            ({
                let t = tipo_do_codigo(self@);
                r == (
                    dv_de(t, bloco_linha(self@, 0)),
                    dv_de(t, bloco_linha(self@, 1)),
                    dv_de(t, bloco_linha(self@, 2)),
                    dv_de(t, bloco_linha(self@, 3)),
                )
            }),
    {
        proof {
            use_type_invariant(self);
            lemma_digitos_subrange(self@, 0, 11);
            lemma_digitos_subrange(self@, 12, 23);
            lemma_digitos_subrange(self@, 24, 35);
            lemma_digitos_subrange(self@, 36, 47);
        }
        let tipo = TipoValor::from_digito(self.0[2]).unwrap();
        let l = self.0.as_slice();
        (
            calcula_dv(tipo, fatia(l, 0, 11).as_slice()),
            calcula_dv(tipo, fatia(l, 12, 23).as_slice()),
            calcula_dv(tipo, fatia(l, 24, 35).as_slice()),
            calcula_dv(tipo, fatia(l, 36, 47).as_slice()),
        )
    }

    /// The digitable line of a barcode, with its block check digits computed.
    pub fn from_cod_barras(cod_barras: &CodBarras) -> (r: LinhaDigitavel)
        ensures
            r@ == linha_de_barras(cod_barras@),
    {
        proof {
            use_type_invariant(cod_barras);
        }
        let (dv1, dv2, dv3, dv4) = cod_barras.calculate_dv_campos();
        let src = cod_barras.0.as_slice();
        let mut l: Vec<u8> = Vec::new();
        copia(&mut l, src, 0, 11);
        l.push(dv1);
        copia(&mut l, src, 11, 22);
        l.push(dv2);
        copia(&mut l, src, 22, 33);
        l.push(dv3);
        copia(&mut l, src, 33, 44);
        l.push(dv4);
        proof {
            assert(l@ =~= linha_de_barras(cod_barras@));
            lemma_linha_digitos(cod_barras@);
        }
        LinhaDigitavel(l)
    }
}

impl<'a> From<&'a LinhaDigitavel> for CodBarras {
    fn from(v: &'a LinhaDigitavel) -> (r: CodBarras) {
        CodBarras::from_linha_digitavel(v)
    }
}

impl<'a> vstd::std_specs::convert::FromSpecImpl<&'a LinhaDigitavel> for CodBarras {
    open spec fn obeys_from_spec() -> bool {
        false
    }

    open spec fn from_spec(v: &'a LinhaDigitavel) -> CodBarras {
        arbitrary()
    }
}

impl<'a> From<&'a CodBarras> for LinhaDigitavel {
    fn from(v: &'a CodBarras) -> (r: LinhaDigitavel) {
        LinhaDigitavel::from_cod_barras(v)
    }
}

impl<'a> vstd::std_specs::convert::FromSpecImpl<&'a CodBarras> for LinhaDigitavel {
    open spec fn obeys_from_spec() -> bool {
        false
    }

    open spec fn from_spec(v: &'a CodBarras) -> LinhaDigitavel {
        arbitrary()
    }
}

/// A decoded utility slip.
#[derive(Debug)]
pub struct Arrecadacao {
    pub cod_barras: CodBarras,
    pub linha_digitavel: LinhaDigitavel,
    pub segmento: Segmento,
    pub tipo_valor: TipoValor,
    /// The general check digit, as a number.
    pub digito_verificador: u8,
    /// Amount in cents, for value types in reais whose amount is not zero.
    pub valor: Option<u64>,
    pub convenio: Convenio,
}

/// The barcode of input `v`: `v` itself, or the barcode of a digitable line.
pub open spec fn barras_arrecadacao(v: Seq<u8>) -> Seq<u8> {
    if v.len() == LINHA_DIGITAVEL_LENGTH { barras_de_linha(v) } else { v }
}

/// The digitable line of input `v`: `v` itself, or that of a barcode.
pub open spec fn linha_arrecadacao(v: Seq<u8>) -> Seq<u8> {
    if v.len() == LINHA_DIGITAVEL_LENGTH { v } else { linha_de_barras(v) }
}

/// The first reason, if any, for which input `v` is no valid utility slip.
pub open spec fn erro_arrecadacao(v: Seq<u8>) -> Option<BoletoError> {
    if v.len() != COD_BARRAS_LENGTH && v.len() != LINHA_DIGITAVEL_LENGTH {
        Some(BoletoError::InvalidLength)
    } else if erro_formato(v, v.len()) is Some {
        erro_formato(v, v.len())
    } else {
        let b = barras_arrecadacao(v);
        if segmento_de(b[1]) is None {
            Some(BoletoError::InvalidSegmento)
        } else if b[3] != dv_geral(b) {
            Some(BoletoError::InvalidDigitoVerificador)
        } else if !campos_conferem(linha_arrecadacao(v)) {
            Some(BoletoError::InvalidDigitoVerificador)
        } else {
            None
        }
    }
}

/// The amount of barcode `b` in cents: for value types in reais, the 11
/// digits from place 4, unless they are zero.
pub open spec fn valor_de_barras(b: Seq<u8>) -> Option<u64> {
    let x = valor_decimal(b.subrange(4, 15));
    if valor_em_reais(tipo_do_codigo(b)) && x != 0 {
        Some(x as u64)
    } else {
        None
    }
}

/// The agreement of barcode `b`.
pub open spec fn convenio_de_barras(b: Seq<u8>) -> Convenio {
    if segmento_de(b[1]) == Some(Segmento::Carnes) {
        Convenio::Carne
    } else {
        Convenio::Outros(valor_decimal(b.subrange(15, 19)) as u16)
    }
}

/// The fields of `a` are those that barcode `b` encodes.
pub open spec fn dados_de_barras(a: Arrecadacao, b: Seq<u8>) -> bool {
    &&& segmento_de(b[1]) == Some(a.segmento)
    &&& a.tipo_valor == tipo_do_codigo(b)
    &&& a.digito_verificador == b[3] - 48
    &&& a.valor == valor_de_barras(b)
    &&& a.convenio == convenio_de_barras(b)
}

impl Arrecadacao {
    /// Decodes a utility slip from its barcode (44 digits) or its digitable
    /// line (48 digits), and checks every check digit.
    pub fn new(value: &[u8]) -> (r: Result<Arrecadacao, BoletoError>)
        ensures
            r is Ok <==> erro_arrecadacao(value@) is None,
            r matches Err(e) ==> erro_arrecadacao(value@) == Some(e),
            r matches Ok(a) ==> {
                &&& a.cod_barras@ == barras_arrecadacao(value@)
                &&& a.linha_digitavel@ == linha_arrecadacao(value@)
                &&& dados_de_barras(a, a.cod_barras@)
            },
    {
        let (cod_barras, linha_digitavel) = if value.len() == COD_BARRAS_LENGTH {
            let cod_barras = match CodBarras::new(value) {
                Ok(c) => c,
                Err(e) => return Err(e),
            };
            let linha_digitavel = LinhaDigitavel::from_cod_barras(&cod_barras);
            (cod_barras, linha_digitavel)
        } else if value.len() == LINHA_DIGITAVEL_LENGTH {
            let linha_digitavel = match LinhaDigitavel::new(value) {
                Ok(l) => l,
                Err(e) => return Err(e),
            };
            (CodBarras::from_linha_digitavel(&linha_digitavel), linha_digitavel)
        } else {
            return Err(BoletoError::InvalidLength);
        };
        proof {
            use_type_invariant(&cod_barras);
            use_type_invariant(&linha_digitavel);
        }
        let tipo_valor = match cod_barras.tipo_valor() {
            Ok(t) => t,
            Err(e) => return Err(e),
        };
        let segmento = match cod_barras.segmento() {
            Ok(s) => s,
            Err(e) => return Err(e),
        };
        let b = cod_barras.0.as_slice();
        let ghost bv = cod_barras@;
        proof {
            lemma_digitos_subrange(bv, 15, 19);
            lemma_digitos_subrange(bv, 4, 15);
            lemma_valor_decimal_limite(bv.subrange(15, 19));
            reveal_with_fuel(pow10, 5);
        }
        let convenio = match segmento {
            Segmento::Carnes => Convenio::Carne,
            _ => Convenio::Outros(u8_array_to_u16(fatia(b, 15, 19).as_slice())),
        };
        let digito_verificador = cod_barras.calculate_dv();
        if digito_verificador != b[3] - 48u8 {
            return Err(BoletoError::InvalidDigitoVerificador);
        }
        let (dv1, dv2, dv3, dv4) = linha_digitavel.calculate_dvs();
        let l = linha_digitavel.0.as_slice();
        if l[11] != dv1 || l[23] != dv2 || l[35] != dv3 || l[47] != dv4 {
            return Err(BoletoError::InvalidDigitoVerificador);
        }
        let valor = match tipo_valor {
            TipoValor::ValorReaisMod10 | TipoValor::ValorReaisMod11 => {
                let centavos = u8_array_to_u64(fatia(b, 4, 15).as_slice());
                if centavos == 0 {
                    None
                } else {
                    Some(centavos)
                }
            },
            _ => None,
        };
        Ok(Arrecadacao {
            cod_barras,
            linha_digitavel,
            segmento,
            tipo_valor,
            digito_verificador,
            valor,
            convenio,
        })
    }
}

/// Corrected codes: writing the general check digit leaves it unchanged,
/// and the digitable line of a barcode carries matching block check digits.
pub proof fn lemma_correcao(b: Seq<u8>)
    requires
        b.len() == COD_BARRAS_LENGTH,
    ensures
        dv_geral(b.update(3, dv_geral(b))) == dv_geral(b),
        campos_conferem(linha_de_barras(b)),
{
    let c = b.update(3, dv_geral(b));
    assert(c.subrange(0, 3) + c.subrange(4, 44) =~= b.subrange(0, 3) + b.subrange(4, 44));
    assert(c[2] == b[2]);
    let l = linha_de_barras(b);
    assert(bloco_linha(l, 0) =~= bloco(b, 0));
    assert(bloco_linha(l, 1) =~= bloco(b, 1));
    assert(bloco_linha(l, 2) =~= bloco(b, 2));
    assert(bloco_linha(l, 3) =~= bloco(b, 3));
    assert(l[2] == b[2]);
}

/// Round trip from the barcode: the barcode of a barcode's digitable line
/// is that barcode.
pub proof fn lemma_ida_e_volta_barras(b: Seq<u8>)
    requires
        b.len() == COD_BARRAS_LENGTH,
    ensures
        barras_de_linha(linha_de_barras(b)) == b,
{
    assert(barras_de_linha(linha_de_barras(b)) =~= b);
}

/// Round trip from the digitable line: a digitable line whose block check
/// digits match is the digitable line of its own barcode.
pub proof fn lemma_ida_e_volta_linha(l: Seq<u8>)
    requires
        l.len() == LINHA_DIGITAVEL_LENGTH,
        campos_conferem(l),
    ensures
        linha_de_barras(barras_de_linha(l)) == l,
{
    let b = barras_de_linha(l);
    assert(b[2] == l[2]);
    assert(bloco(b, 0) =~= bloco_linha(l, 0));
    assert(bloco(b, 1) =~= bloco_linha(l, 1));
    assert(bloco(b, 2) =~= bloco_linha(l, 2));
    assert(bloco(b, 3) =~= bloco_linha(l, 3));
    assert(linha_de_barras(b) =~= l);
}

/// Validation does not depend on the form: where a slip is valid, its
/// barcode and its digitable line are valid too, and both give the same
/// barcode and the same digitable line, hence the same record.
pub proof fn lemma_validacao_idempotente(v: Seq<u8>)
    requires
        erro_arrecadacao(v) is None,
    ensures
        erro_arrecadacao(barras_arrecadacao(v)) is None,
        erro_arrecadacao(linha_arrecadacao(v)) is None,
        barras_arrecadacao(barras_arrecadacao(v)) == barras_arrecadacao(v),
        barras_arrecadacao(linha_arrecadacao(v)) == barras_arrecadacao(v),
        linha_arrecadacao(barras_arrecadacao(v)) == linha_arrecadacao(v),
        linha_arrecadacao(linha_arrecadacao(v)) == linha_arrecadacao(v),
{
    if v.len() == COD_BARRAS_LENGTH {
        lemma_ida_e_volta_barras(v);
        lemma_linha_digitos(v);
    } else {
        lemma_ida_e_volta_linha(v);
        lemma_barras_digitos(v);
    }
}

} // verus!
