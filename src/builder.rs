//! Assembling a collection slip from its fields.
use vstd::prelude::*;

use crate::cobranca::{
    dados_de_barras, digito_moeda, dv_geral, erro_cobranca, lemma_correcao, CodBanco, CodBarras,
    Cobranca, CodigoMoeda,
};
use crate::dv_utils::{all_digits, is_digit};
use crate::utils::{
    date_to_fator_vencimento, decimal_fixo, escreve_decimal, fator_da_data, lemma_decimal_fixo, pow10,
    Data,
};
use crate::BoletoError;

verus! {

/// Marks a builder whose currency is not set yet.
pub struct NoCodMoeda;

/// Marks a builder whose bank code is not set yet.
pub struct NoCodBanco;

/// Collects the fields of a collection slip. The bank code and the currency
/// are required: `build` exists only once both are set.
pub struct CobrancaBuilder<CB, CM> {
    pub cod_banco: CB,
    pub cod_moeda: CM,
    pub data_vencimento: Option<Data>,
    /// Amount in cents.
    pub valor: Option<u64>,
}

/// The due-date factor that a builder writes: that of the due date, or 0
/// when there is none or its factor does not fit in a `u16`.
pub open spec fn fator_do_vencimento(d: Option<Data>) -> int {
    match d {
        Some(x) => match fator_da_data(x) {
            Some(f) => f as int,
            None => 0,
        },
        None => 0,
    }
}

/// The barcode that a builder assembles, before its general check digit:
/// bank code, currency, a 0 in place of the check digit, due-date factor,
/// amount, and a free field of zeros.
pub open spec fn barras_sem_dv(banco: int, moeda: CodigoMoeda, fator: int, valor: int) -> Seq<u8> {
    decimal_fixo(banco, 3).push(digito_moeda(moeda)).push(48) + decimal_fixo(fator, 4)
        + decimal_fixo(valor, 10) + decimal_fixo(0, 25)
}

/// The barcode that a builder assembles, its general check digit written.
pub open spec fn barras_montadas(banco: int, moeda: CodigoMoeda, fator: int, valor: int) -> Seq<u8> {
    let b = barras_sem_dv(banco, moeda, fator, valor);
    b.update(4, dv_geral(b))
}

impl Cobranca {
    /// A builder with no field set.
    pub fn builder() -> (r: CobrancaBuilder<NoCodBanco, NoCodMoeda>)
        ensures
            r.data_vencimento is None,
            r.valor is None,
    {
        CobrancaBuilder::new()
    }
}

impl CobrancaBuilder<NoCodBanco, NoCodMoeda> {
    /// A builder with no field set.
    pub fn new() -> (r: CobrancaBuilder<NoCodBanco, NoCodMoeda>)
        ensures
            r.data_vencimento is None,
            r.valor is None,
    {
        CobrancaBuilder { cod_banco: NoCodBanco, cod_moeda: NoCodMoeda, data_vencimento: None, valor: None }
    }
}

impl<CM> CobrancaBuilder<NoCodBanco, CM> {
    /// Sets the bank code.
    pub fn cod_banco(self, cod_banco: CodBanco) -> (r: CobrancaBuilder<CodBanco, CM>)
        ensures
            r.cod_banco == cod_banco,
            r.cod_moeda == self.cod_moeda,
            r.data_vencimento == self.data_vencimento,
            r.valor == self.valor,
    {
        CobrancaBuilder {
            cod_banco: cod_banco,
            cod_moeda: self.cod_moeda,
            data_vencimento: self.data_vencimento,
            valor: self.valor,
        }
    }
}

impl<CB> CobrancaBuilder<CB, NoCodMoeda> {
    /// Sets the currency.
    pub fn cod_moeda(self, cod_moeda: CodigoMoeda) -> (r: CobrancaBuilder<CB, CodigoMoeda>)
        ensures
            r.cod_banco == self.cod_banco,
            r.cod_moeda == cod_moeda,
            r.data_vencimento == self.data_vencimento,
            r.valor == self.valor,
    {
        CobrancaBuilder {
            cod_banco: self.cod_banco,
            cod_moeda: cod_moeda,
            data_vencimento: self.data_vencimento,
            valor: self.valor,
        }
    }
}

impl<CB, CM> CobrancaBuilder<CB, CM> {
    /// Sets the due date.
    pub fn data_vencimento(self, data_vencimento: Data) -> (r: CobrancaBuilder<CB, CM>)
        ensures
            r.cod_banco == self.cod_banco,
            r.cod_moeda == self.cod_moeda,
            r.data_vencimento == Some(data_vencimento),
            r.valor == self.valor,
    {
        CobrancaBuilder {
            cod_banco: self.cod_banco,
            cod_moeda: self.cod_moeda,
            data_vencimento: Some(data_vencimento),
            valor: self.valor,
        }
    }

    /// Sets the amount, in cents.
    pub fn valor(self, valor: u64) -> (r: CobrancaBuilder<CB, CM>)
        ensures
            r.cod_banco == self.cod_banco,
            r.cod_moeda == self.cod_moeda,
            r.data_vencimento == self.data_vencimento,
            r.valor == Some(valor),
    {
        CobrancaBuilder {
            cod_banco: self.cod_banco,
            cod_moeda: self.cod_moeda,
            data_vencimento: self.data_vencimento,
            valor: Some(valor),
        }
    }
}

/// The amount that a builder writes, in cents.
pub open spec fn valor_do_builder(v: Option<u64>) -> int {
    match v {
        Some(x) => x as int,
        None => 0,
    }
}

impl CobrancaBuilder<CodBanco, CodigoMoeda> {
    /// Assembles the barcode (free field all zeros), writes its general
    /// check digit and decodes it. Fails with `InvalidFatorVencimento` where
    /// the due date's factor needs more than four digits, and otherwise
    /// where decoding the assembled barcode fails, which happens exactly
    /// for a bank code from 800 up or a factor from 1 to 999.
    pub fn build(self) -> (r: Result<Cobranca, BoletoError>)
        requires
            self.cod_banco.0 <= 999,
            valor_do_builder(self.valor) < 10_000_000_000,
        ensures
            ({
                let f = fator_do_vencimento(self.data_vencimento);
                let m = barras_montadas(
                    self.cod_banco.0 as int,
                    self.cod_moeda,
                    f,
                    valor_do_builder(self.valor),
                );
                &&& f > 9999 ==> r == Err::<Cobranca, BoletoError>(
                    BoletoError::InvalidFatorVencimento,
                )
                &&& f <= 9999 ==> (r is Ok <==> erro_cobranca(m) is None)
                &&& f <= 9999 ==> (r matches Err(e) ==> erro_cobranca(m) == Some(e))
                &&& r matches Ok(c) ==> c.cod_barras@ == m && dados_de_barras(c, m)
                &&& (f <= 9999 && !(0 < f < 1000) && self.cod_banco.0 < 800) ==> r is Ok
            }),
    {
        let fator: u16 = match self.data_vencimento {
            Some(d) => match date_to_fator_vencimento(d) {
                Some(f) => f,
                None => 0,
            },
            None => 0,
        };
        if fator > 9999 {
            return Err(BoletoError::InvalidFatorVencimento);
        }
        let valor: u64 = match self.valor {
            Some(v) => v,
            None => 0,
        };
        let mut b: Vec<u8> = Vec::new();
        escreve_decimal(&mut b, self.cod_banco.0 as u64, 3);
        b.push(self.cod_moeda.into_u8());
        b.push(48u8);
        escreve_decimal(&mut b, fator as u64, 4);
        escreve_decimal(&mut b, valor, 10);
        escreve_decimal(&mut b, 0, 25);
        let ghost sem_dv = barras_sem_dv(self.cod_banco.0 as int, self.cod_moeda, fator as int, valor as int);
        proof {
            assert(b@ =~= sem_dv);
            lemma_barras_sem_dv(self.cod_banco.0 as int, self.cod_moeda, fator as int, valor as int);
        }
        let mut cod_barras = match CodBarras::new(b.as_slice()) {
            Ok(c) => c,
            Err(e) => return Err(e),
        };
        cod_barras.update_dv();
        let r = Cobranca::new(cod_barras.as_bytes());
        proof {
            let m = sem_dv.update(4, dv_geral(sem_dv));
            lemma_correcao(sem_dv);
            lemma_correcao(m);
            assert(m.subrange(5, 9) =~= sem_dv.subrange(5, 9));
            assert(m.subrange(0, 3) =~= sem_dv.subrange(0, 3));
            assert(m.subrange(9, 19) =~= sem_dv.subrange(9, 19));
        }
        r
    }
}

/// The assembled barcode, before its check digit: 44 digits, whose fields
/// read back as the values written, and whose leading digit is below 8 for
/// a bank code below 800.
proof fn lemma_barras_sem_dv(banco: int, moeda: CodigoMoeda, fator: int, valor: int)
    requires
        0 <= banco <= 999,
        0 <= fator <= 9999,
        0 <= valor < 10_000_000_000,
    ensures
        ({
            let b = barras_sem_dv(banco, moeda, fator, valor);
            &&& b.len() == 44
            &&& all_digits(b)
            &&& b[3] == digito_moeda(moeda)
            &&& crate::utils::valor_decimal(b.subrange(0, 3)) == banco
            &&& crate::utils::valor_decimal(b.subrange(5, 9)) == fator
            &&& crate::utils::valor_decimal(b.subrange(9, 19)) == valor
            &&& banco < 800 ==> b[0] != 56
        }),
{
    reveal_with_fuel(pow10, 26);
    lemma_decimal_fixo(banco, 3);
    lemma_decimal_fixo(fator, 4);
    lemma_decimal_fixo(valor, 10);
    lemma_decimal_fixo(0, 25);
    let b = barras_sem_dv(banco, moeda, fator, valor);
    let c = decimal_fixo(banco, 3);
    assert(b.subrange(0, 3) =~= c);
    assert(b.subrange(5, 9) =~= decimal_fixo(fator, 4));
    assert(b.subrange(9, 19) =~= decimal_fixo(valor, 10));
    assert forall|i: int| 0 <= i < 44 implies is_digit(#[trigger] b[i]) by {
        if i < 3 {
            assert(b[i] == c[i]);
        } else if i < 5 {
        } else if i < 9 {
            assert(b[i] == decimal_fixo(fator, 4)[i - 5]);
        } else if i < 19 {
            assert(b[i] == decimal_fixo(valor, 10)[i - 9]);
        } else {
            assert(b[i] == decimal_fixo(0, 25)[i - 19]);
        }
    }
    reveal_with_fuel(decimal_fixo, 4);
    assert(b[0] == c[0]);
    assert(c[0] == ((banco / 10) / 10) % 10 + 48);
    assert(banco < 800 ==> (banco / 10) / 10 < 8) by (nonlinear_arith)
        requires
            0 <= banco,
    ;
}

} // verus!
