use boleto_utils::cobranca::{CodBanco, Cobranca, CodigoMoeda};
use boleto_utils::utils::Data;
use boleto_utils::BoletoError;
use chrono::{Datelike, NaiveDate};

fn data(ano: i32, mes: u32, dia: u32) -> Data {
    Data(NaiveDate::from_ymd_opt(ano, mes, dia).unwrap().num_days_from_ce())
}

#[test]
fn basic_functionality() {
    let builder = Cobranca::builder();
    let result = builder
        .cod_moeda(CodigoMoeda::Real)
        .cod_banco(CodBanco(301))
        .valor(9999999999)
        .data_vencimento(data(2023, 7, 29))
        .build()
        .unwrap();
    assert_eq!(result.cod_barras.as_bytes(), b"30198942699999999990000000000000000000000000");
}

#[test]
fn builder_without_date_or_amount() {
    let result = Cobranca::builder().cod_banco(CodBanco(1)).cod_moeda(CodigoMoeda::Outras).build().unwrap();
    assert_eq!(result.fator_vencimento, 0);
    assert_eq!(result.data_vencimento, None);
    assert_eq!(result.valor, None);
    assert_eq!(result.cod_banco, CodBanco(1));
    assert_eq!(result.cod_barras.as_str().len(), 44);
    assert_eq!(&result.cod_barras.as_str()[0..4], "0010");
}

#[test]
fn builder_rejects_unencodable_fields() {
    let cedo = Cobranca::builder()
        .cod_banco(CodBanco(1))
        .cod_moeda(CodigoMoeda::Real)
        .data_vencimento(data(1998, 1, 1))
        .build();
    assert!(matches!(cedo, Err(BoletoError::InvalidFatorVencimento)));
    let tarde = Cobranca::builder()
        .cod_banco(CodBanco(1))
        .cod_moeda(CodigoMoeda::Real)
        .data_vencimento(data(2060, 1, 1))
        .build();
    assert!(matches!(tarde, Err(BoletoError::InvalidFatorVencimento)));
    let banco = Cobranca::builder().cod_banco(CodBanco(800)).cod_moeda(CodigoMoeda::Real).build();
    assert!(matches!(banco, Err(BoletoError::InvalidArrecadacaoBarcode)));
    let novo = Cobranca::builder()
        .cod_banco(CodBanco(237))
        .cod_moeda(CodigoMoeda::Real)
        .data_vencimento(data(2025, 2, 22))
        .valor(12345)
        .build()
        .unwrap();
    assert_eq!(novo.fator_vencimento, 1000);
    assert_eq!(novo.valor, Some(12345));
}
