//! Decoding and validation of Brazilian payment slips ("boletos"): the
//! 44-digit barcode and the digitable line typed by hand, for bank
//! collection slips (cobrança) and utility/tax slips (arrecadação).
use vstd::prelude::*;

pub mod dv_utils;
pub mod utils;
pub mod cobranca;
pub mod arrecadacao;
pub mod builder;
pub mod cadastro;
pub mod instituicoes_bancarias;
pub mod concessionarias;

use crate::arrecadacao::{erro_arrecadacao, Arrecadacao};
use crate::cobranca::{erro_cobranca, Cobranca};

verus! {

/// Why an input is not a valid payment slip.
#[derive(Clone, Copy, Debug, PartialEq, Eq, Structural)]
pub enum BoletoError {
    /// A byte is not an ASCII decimal digit.
    NumbersOnly,
    /// The length is none of the accepted ones.
    InvalidLength,
    /// The currency digit of a collection slip is neither 9 nor 0.
    InvalidCodigoMoeda,
    /// A check digit of a utility slip does not match.
    InvalidDigitoVerificador,
    /// The general check digit of a collection slip does not match.
    InvalidDigitoVerificadorGeral,
    /// A field check digit of a collection slip's digitable line does not match.
    InvalidDigitoVerificadorCampos,
    /// The input is not a collection slip.
    InvalidCobrancaBarcode,
    /// The due-date factor lies between 1 and 999.
    InvalidFatorVencimento,
    /// The input is not a utility slip, or is one where a collection slip was asked for.
    InvalidArrecadacaoBarcode,
    /// The segment digit of a utility slip is unknown.
    InvalidSegmento,
    /// The value-type digit of a utility slip is unknown.
    InvalidTipoValor,
}

impl BoletoError {
    /// Human-readable message of the error.
    pub fn mensagem(&self) -> (r: &'static str) {
        match self {
            BoletoError::NumbersOnly => "deve conter apenas números",
            BoletoError::InvalidLength => "tamanho inválido",
            BoletoError::InvalidCodigoMoeda => "código moeda inválido",
            BoletoError::InvalidDigitoVerificador => "dígito verificador inválido",
            BoletoError::InvalidDigitoVerificadorGeral => "dígito verificador geral inválido",
            BoletoError::InvalidDigitoVerificadorCampos => "dígito verificador de campos inválido",
            BoletoError::InvalidCobrancaBarcode => "código de barras de cobrança inválido",
            BoletoError::InvalidFatorVencimento => "fator de vencimento inválido",
            BoletoError::InvalidArrecadacaoBarcode => "código de barras de arrecadação inválido",
            BoletoError::InvalidSegmento => "segmento inválido",
            BoletoError::InvalidTipoValor => "tipo de valor inválido",
        }
    }
}

/// Why the check digits of input `v` cannot be computed: only the form is
/// checked (family tag, length, digits, and for utility slips the value
/// type), not the digits of the fields.
pub open spec fn erro_digitos(v: Seq<u8>) -> Option<BoletoError> {
    if v.len() == 0 {
        Some(BoletoError::InvalidLength)
    } else if v[0] == 56 {
        if v.len() == arrecadacao::LINHA_DIGITAVEL_LENGTH {
            arrecadacao::erro_formato(v, arrecadacao::LINHA_DIGITAVEL_LENGTH as nat)
        } else {
            arrecadacao::erro_formato(v, arrecadacao::COD_BARRAS_LENGTH as nat)
        }
    } else {
        if v.len() == cobranca::LINHA_DIGITAVEL_LENGTH {
            cobranca::erro_formato(v, cobranca::LINHA_DIGITAVEL_LENGTH as nat)
        } else {
            cobranca::erro_formato(v, cobranca::COD_BARRAS_LENGTH as nat)
        }
    }
}

/// The general check digit that input `v` should carry, as an ASCII digit.
pub open spec fn dv_geral_de(v: Seq<u8>) -> u8 {
    if v[0] == 56 {
        arrecadacao::dv_geral(arrecadacao::barras_arrecadacao(v))
    } else {
        cobranca::dv_geral(cobranca::barras_cobranca(v))
    }
}

/// The barcode of input `v` with its general check digit written.
pub open spec fn barras_corrigidas(v: Seq<u8>) -> Seq<u8> {
    if v[0] == 56 {
        arrecadacao::barras_arrecadacao(v).update(3, dv_geral_de(v))
    } else {
        cobranca::barras_cobranca(v).update(4, dv_geral_de(v))
    }
}

/// The digitable line of the corrected barcode of input `v`.
pub open spec fn linha_corrigida(v: Seq<u8>) -> Seq<u8> {
    if v[0] == 56 {
        arrecadacao::linha_de_barras(barras_corrigidas(v))
    } else {
        cobranca::linha_de_barras(barras_corrigidas(v))
    }
}

/// The field check digits of the corrected digitable line of input `v`, as
/// numbers.
pub open spec fn campos_corrigidos(v: Seq<u8>) -> Seq<u8> {
    let l = linha_corrigida(v);
    if v[0] == 56 {
        seq![(l[11] - 48) as u8, (l[23] - 48) as u8, (l[35] - 48) as u8, (l[47] - 48) as u8]
    } else {
        seq![(l[9] - 48) as u8, (l[20] - 48) as u8, (l[31] - 48) as u8]
    }
}

/// The check digits of a slip, computed from its other digits, and its two
/// forms with those digits written in.
#[derive(Debug)]
pub struct DigitosVerificadores {
    /// The general check digit, as a number.
    pub geral: u8,
    /// The field check digits of the digitable line, as numbers: three for
    /// a collection slip, four for a utility slip.
    pub campos: Vec<u8>,
    /// The barcode with its general check digit written.
    pub cod_barras: Vec<u8>,
    /// The digitable line of that barcode.
    pub linha_digitavel: Vec<u8>,
}

fn digitos_cobranca(cod_barras: cobranca::CodBarras) -> (r: DigitosVerificadores)
    ensures
        r.geral == cobranca::dv_geral(cod_barras@) - 48,
        r.cod_barras@ == cod_barras@.update(4, cobranca::dv_geral(cod_barras@)),
        r.linha_digitavel@ == cobranca::linha_de_barras(r.cod_barras@),
        r.campos@ == seq![
            (r.linha_digitavel@[9] - 48) as u8,
            (r.linha_digitavel@[20] - 48) as u8,
            (r.linha_digitavel@[31] - 48) as u8,
        ],
{
    let mut cod_barras = cod_barras;
    let geral = cod_barras.calculate_dv();
    cod_barras.update_dv();
    let linha = cobranca::LinhaDigitavel::from_cod_barras(&cod_barras);
    let (a, b, c) = cod_barras.calculate_dv_campos();
    proof {
        cobranca::lemma_modulo_10_digito(cobranca::campo_1(cod_barras@));
        cobranca::lemma_modulo_10_digito(cod_barras@.subrange(24, 34));
        cobranca::lemma_modulo_10_digito(cod_barras@.subrange(34, 44));
    }
    let mut campos: Vec<u8> = Vec::new();
    campos.push(a - 48u8);
    campos.push(b - 48u8);
    campos.push(c - 48u8);
    let bytes_barras = cod_barras.as_bytes();
    let bytes_linha = linha.as_bytes();
    let r = DigitosVerificadores {
        geral,
        campos,
        cod_barras: utils::fatia(bytes_barras, 0, bytes_barras.len()),
        linha_digitavel: utils::fatia(bytes_linha, 0, bytes_linha.len()),
    };
    proof {
        assert(r.cod_barras@ =~= cod_barras@);
        assert(r.linha_digitavel@ =~= linha@);
        assert(r.campos@ =~= seq![
            (r.linha_digitavel@[9] - 48) as u8,
            (r.linha_digitavel@[20] - 48) as u8,
            (r.linha_digitavel@[31] - 48) as u8,
        ]);
    }
    r
}

fn digitos_arrecadacao(cod_barras: arrecadacao::CodBarras) -> (r: DigitosVerificadores)
    ensures
        r.geral == arrecadacao::dv_geral(cod_barras@) - 48,
        r.cod_barras@ == cod_barras@.update(3, arrecadacao::dv_geral(cod_barras@)),
        r.linha_digitavel@ == arrecadacao::linha_de_barras(r.cod_barras@),
        r.campos@ == seq![
            (r.linha_digitavel@[11] - 48) as u8,
            (r.linha_digitavel@[23] - 48) as u8,
            (r.linha_digitavel@[35] - 48) as u8,
            (r.linha_digitavel@[47] - 48) as u8,
        ],
{
    let mut cod_barras = cod_barras;
    let geral = cod_barras.calculate_dv();
    cod_barras.update_dv();
    let linha = arrecadacao::LinhaDigitavel::from_cod_barras(&cod_barras);
    let (a, b, c, d) = cod_barras.calculate_dv_campos();
    proof {
        let t = arrecadacao::tipo_do_codigo(cod_barras@);
        arrecadacao::lemma_dv_digito(t, arrecadacao::bloco(cod_barras@, 0));
        arrecadacao::lemma_dv_digito(t, arrecadacao::bloco(cod_barras@, 1));
        arrecadacao::lemma_dv_digito(t, arrecadacao::bloco(cod_barras@, 2));
        arrecadacao::lemma_dv_digito(t, arrecadacao::bloco(cod_barras@, 3));
    }
    let mut campos: Vec<u8> = Vec::new();
    campos.push(a - 48u8);
    campos.push(b - 48u8);
    campos.push(c - 48u8);
    campos.push(d - 48u8);
    let bytes_barras = cod_barras.as_bytes();
    let bytes_linha = linha.as_bytes();
    let r = DigitosVerificadores {
        geral,
        campos,
        cod_barras: utils::fatia(bytes_barras, 0, bytes_barras.len()),
        linha_digitavel: utils::fatia(bytes_linha, 0, bytes_linha.len()),
    };
    proof {
        assert(r.cod_barras@ =~= cod_barras@);
        assert(r.linha_digitavel@ =~= linha@);
        assert(r.campos@ =~= seq![
            (r.linha_digitavel@[11] - 48) as u8,
            (r.linha_digitavel@[23] - 48) as u8,
            (r.linha_digitavel@[35] - 48) as u8,
            (r.linha_digitavel@[47] - 48) as u8,
        ]);
    }
    r
}

fn digitos_de_arrecadacao(value: &[u8]) -> (r: Result<DigitosVerificadores, BoletoError>)
    requires
        value@.len() > 0,
        value@[0] == 56,
    ensures
        r is Ok <==> erro_digitos(value@) is None,
        r matches Err(e) ==> erro_digitos(value@) == Some(e),
        r matches Ok(d) ==> {
            &&& d.geral == dv_geral_de(value@) - 48
            &&& d.campos@ == campos_corrigidos(value@)
            &&& d.cod_barras@ == barras_corrigidas(value@)
            &&& d.linha_digitavel@ == linha_corrigida(value@)
            &&& arrecadacao::dv_geral(d.cod_barras@) == d.cod_barras@[3]
            &&& arrecadacao::campos_conferem(d.linha_digitavel@)
        },
{
    let cod_barras = if value.len() == arrecadacao::LINHA_DIGITAVEL_LENGTH {
        match arrecadacao::LinhaDigitavel::new(value) {
            Ok(l) => arrecadacao::CodBarras::from_linha_digitavel(&l),
            Err(e) => return Err(e),
        }
    } else {
        match arrecadacao::CodBarras::new(value) {
            Ok(c) => c,
            Err(e) => return Err(e),
        }
    };
    let ghost b = cod_barras@;
    proof {
        assert(b == arrecadacao::barras_arrecadacao(value@));
        assert(dv_geral_de(value@) == arrecadacao::dv_geral(b));
        assert(barras_corrigidas(value@) == b.update(3, arrecadacao::dv_geral(b)));
    }
    let d = digitos_arrecadacao(cod_barras);
    proof {
        arrecadacao::lemma_correcao(b);
        arrecadacao::lemma_correcao(d.cod_barras@);
        assert(d.linha_digitavel@ == linha_corrigida(value@));
        assert(d.campos@ == campos_corrigidos(value@));
    }
    Ok(d)
}

fn digitos_de_cobranca(value: &[u8]) -> (r: Result<DigitosVerificadores, BoletoError>)
    requires
        value@.len() > 0,
        value@[0] != 56,
    ensures
        r is Ok <==> erro_digitos(value@) is None,
        r matches Err(e) ==> erro_digitos(value@) == Some(e),
        r matches Ok(d) ==> {
            &&& d.geral == dv_geral_de(value@) - 48
            &&& d.campos@ == campos_corrigidos(value@)
            &&& d.cod_barras@ == barras_corrigidas(value@)
            &&& d.linha_digitavel@ == linha_corrigida(value@)
            &&& cobranca::dv_geral(d.cod_barras@) == d.cod_barras@[4]
            &&& cobranca::campos_conferem(d.linha_digitavel@)
        },
{
    let cod_barras = if value.len() == cobranca::LINHA_DIGITAVEL_LENGTH {
        match cobranca::LinhaDigitavel::new(value) {
            Ok(l) => cobranca::CodBarras::from_linha_digitavel(&l),
            Err(e) => return Err(e),
        }
    } else {
        match cobranca::CodBarras::new(value) {
            Ok(c) => c,
            Err(e) => return Err(e),
        }
    };
    let ghost b = cod_barras@;
    proof {
        assert(b == cobranca::barras_cobranca(value@));
        assert(dv_geral_de(value@) == cobranca::dv_geral(b));
        assert(barras_corrigidas(value@) == b.update(4, cobranca::dv_geral(b)));
    }
    let d = digitos_cobranca(cod_barras);
    proof {
        cobranca::lemma_correcao(b);
        cobranca::lemma_correcao(d.cod_barras@);
        assert(d.linha_digitavel@ == linha_corrigida(value@));
        assert(d.campos@ == campos_corrigidos(value@));
    }
    Ok(d)
}

/// A decoded payment slip of either family.
#[derive(Debug)]
pub enum Boleto {
    Arrecadacao(Arrecadacao),
    Cobranca(Cobranca),
}

/// The first reason, if any, for which input `v` is no valid payment slip:
/// a leading 8 marks a utility slip, anything else a collection slip.
pub open spec fn erro_boleto(v: Seq<u8>) -> Option<BoletoError> {
    if v.len() == 0 {
        Some(BoletoError::InvalidLength)
    } else if v[0] == 56 {
        erro_arrecadacao(v)
    } else {
        erro_cobranca(v)
    }
}

impl Boleto {
    /// Decodes a payment slip from a barcode or a digitable line, choosing the
    /// family by the leading digit.
    pub fn new(value: &[u8]) -> (r: Result<Boleto, BoletoError>)
        ensures
            r is Ok <==> erro_boleto(value@) is None,
            r matches Err(e) ==> erro_boleto(value@) == Some(e),
            value@.len() != 44 && value@.len() != 47 && value@.len() != 48 ==> r == Err::<
                Boleto,
                BoletoError,
            >(BoletoError::InvalidLength),
            r matches Ok(Boleto::Arrecadacao(a)) ==> {
                &&& value@[0] == 56
                &&& a.cod_barras@ == arrecadacao::barras_arrecadacao(value@)
                &&& a.linha_digitavel@ == arrecadacao::linha_arrecadacao(value@)
                &&& arrecadacao::dados_de_barras(a, a.cod_barras@)
            },
            r matches Ok(Boleto::Cobranca(c)) ==> {
                &&& value@[0] != 56
                &&& c.cod_barras@ == cobranca::barras_cobranca(value@)
                &&& c.linha_digitavel@ == cobranca::linha_cobranca(value@)
                &&& cobranca::dados_de_barras(c, c.cod_barras@)
            },
    {
        if value.len() == 0 {
            Err(BoletoError::InvalidLength)
        } else if value[0] == 56u8 {
            match Arrecadacao::new(value) {
                Ok(a) => Ok(Boleto::Arrecadacao(a)),
                Err(e) => Err(e),
            }
        } else {
            match Cobranca::new(value) {
                Ok(c) => Ok(Boleto::Cobranca(c)),
                Err(e) => Err(e),
            }
        }
    }

    /// Computes the check digits of a barcode or digitable line of either
    /// family, checking only its form: the other digits need not make a
    /// valid slip, and the check digits it carries are ignored. Gives the
    /// general and field check digits, and both forms with them written in.
    pub fn digitos_verificadores(value: &[u8]) -> (r: Result<DigitosVerificadores, BoletoError>)
        ensures
            r is Ok <==> erro_digitos(value@) is None,
            r matches Err(e) ==> erro_digitos(value@) == Some(e),
            r matches Ok(d) ==> {
                &&& d.geral == dv_geral_de(value@) - 48
                &&& d.campos@ == campos_corrigidos(value@)
                &&& d.cod_barras@ == barras_corrigidas(value@)
                &&& d.linha_digitavel@ == linha_corrigida(value@)
            },
            r matches Ok(d) ==> (value@[0] == 56 ==> {
                &&& arrecadacao::dv_geral(d.cod_barras@) == d.cod_barras@[3]
                &&& arrecadacao::campos_conferem(d.linha_digitavel@)
            }),
            r matches Ok(d) ==> (value@[0] != 56 ==> {
                &&& cobranca::dv_geral(d.cod_barras@) == d.cod_barras@[4]
                &&& cobranca::campos_conferem(d.linha_digitavel@)
            }),
    {
        if value.len() == 0 {
            Err(BoletoError::InvalidLength)
        } else if value[0] == 56u8 {
            digitos_de_arrecadacao(value)
        } else {
            digitos_de_cobranca(value)
        }
    }

    /// The general check digit that a barcode or digitable line of either
    /// family should carry, as a number; only its form is checked.
    pub fn calculate_digito_verificador(value: &[u8]) -> (r: Result<u8, BoletoError>)
        ensures
            r is Ok <==> erro_digitos(value@) is None,
            r matches Err(e) ==> erro_digitos(value@) == Some(e),
            r matches Ok(d) ==> d == dv_geral_de(value@) - 48,
    {
        match Boleto::digitos_verificadores(value) {
            Ok(d) => Ok(d.geral),
            Err(e) => Err(e),
        }
    }
}

} // verus!
