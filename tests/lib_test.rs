use boleto_utils::cobranca::{CodBanco, Cobranca, CodigoMoeda};
use boleto_utils::utils::Data;
use boleto_utils::{Boleto, BoletoError};
use chrono::{Datelike, NaiveDate};

fn data(ano: i32, mes: u32, dia: u32) -> Data {
    Data(NaiveDate::from_ymd_opt(ano, mes, dia).unwrap().num_days_from_ce())
}

fn cobranca(entrada: &[u8]) -> Cobranca {
    match Boleto::new(entrada) {
        Ok(Boleto::Cobranca(c)) => c,
        _ => panic!("Barcode should be considered valid."),
    }
}

#[test]
fn lib_valid_barcode() {
    let barcode = b"10499898100000214032006561000100040099726390";
    let boleto = Boleto::new(barcode).unwrap();
    match boleto {
        Boleto::Cobranca(cob) => {
            assert_eq!(cob.data_vencimento, Some(data(2022, 5, 10)));
            assert_eq!(cob.valor.map(|c| c as f64 / 100.0), Some(214.03));
        }
        _ => panic!("Should be Cobranca"),
    }
}

#[test]
fn lib_test_invalid_input_error() {
    let input = "A".repeat(44);
    let result = Boleto::new(input.as_bytes());
    assert!(matches!(result, Err(BoletoError::NumbersOnly)));
}

#[test]
fn lib_test_invalid_length_error() {
    let invalid_lengths = [1, 10, 20, 30, 40, 43, 46, 45, 49, 50];
    for i in invalid_lengths {
        let input = "0".repeat(i);
        let result = Boleto::new(input.as_bytes());
        assert!(matches!(result, Err(BoletoError::InvalidLength)));
    }
}

#[test]
fn cod_moeda_validation() {
    let invalid_inputs = [
        b"11111444455555555556666666666666666666666666",
        b"11121444455555555556666666666666666666666666",
        b"11131444455555555556666666666666666666666666",
        b"11141444455555555556666666666666666666666666",
        b"11151444455555555556666666666666666666666666",
        b"11161444455555555556666666666666666666666666",
        b"11171444455555555556666666666666666666666666",
        b"11181444455555555556666666666666666666666666",
    ];
    for input in invalid_inputs {
        let result = Boleto::new(input);
        assert!(matches!(result, Err(BoletoError::InvalidCodigoMoeda)));
    }
    let cob = cobranca(b"11191444455555555556666666666666666666666666");
    assert!(matches!(cob.cod_moeda, CodigoMoeda::Real), "cod_moeda should be 'Real'");
    let cob = cobranca(b"11105444455555555556666666666666666666666666");
    assert!(matches!(cob.cod_moeda, CodigoMoeda::Outras), "cod_moeda should be 'Outras'");
}

#[test]
fn cod_banco_validation() {
    let barcodes: [(&[u8], u16); 5] = [
        (b"11191444455555555556666666666666666666666666", 111),
        (b"99996444455555555556666666666666666666666666", 999),
        (b"12395444455555555556666666666666666666666666", 123),
        (b"66691444455555555556666666666666666666666666", 666),
        (b"00091444455555555556666666666666666666666666", 0),
    ];
    for (barcode, expected) in barcodes.iter() {
        let result = cobranca(barcode);
        assert_eq!(result.cod_banco, CodBanco(*expected));
    }
}

#[test]
fn fator_vencimento_validation() {
    let barcodes: [(&[u8; 44], u16, Option<Data>); 12] = [
        (b"11196000055555555556666666666666666666666666", 0, None),
        (b"11199100055555555556666666666666666666666666", 1000, Some(data(2025, 2, 22))),
        (b"11191100255555555556666666666666666666666666", 1002, Some(data(2025, 2, 24))),
        (b"11196166755555555556666666666666666666666666", 1667, Some(data(2026, 12, 21))),
        (b"11198478955555555556666666666666666666666666", 4789, Some(data(2010, 11, 17))),
        (b"11193999955555555556666666666666666666666666", 9999, Some(data(2025, 2, 21))),
        (b"75696903800002500001434301033723400014933001", 9038, Some(data(2022, 7, 6))),
        (b"00191667900002434790000002656973019362470618", 6679, Some(data(2016, 1, 20))),
        (b"00195586200000773520000002464206011816073018", 5862, Some(data(2013, 10, 25))),
        (b"75592896700003787000003389850761252543475984", 8967, Some(data(2022, 4, 26))),
        (b"23791672000003249052028269705944177105205220", 6720, Some(data(2016, 3, 1))),
        (b"23791672000003097902028060007024617500249000", 6720, Some(data(2016, 3, 1))),
    ];
    for (barcode, expected_fator, expected_date) in barcodes {
        let result = cobranca(barcode.as_slice());
        assert_eq!(result.fator_vencimento, expected_fator);
        assert_eq!(result.data_vencimento, expected_date);
    }
    assert!(matches!(
        Boleto::new(b"11196000155555555556666666666666666666666666".as_slice()),
        Err(BoletoError::InvalidFatorVencimento),
    ));
    assert!(matches!(
        Boleto::new(b"11196099955555555556666666666666666666666666".as_slice()),
        Err(BoletoError::InvalidFatorVencimento),
    ));
}

#[test]
fn valor_validation() {
    let barcodes = [
        (b"11191444455555555556666666666666666666666666", Some(55555555.55_f64)),
        (b"11196444499999999996666666666666666666666666", Some(99999999.99)),
        (b"11193444400000000006666666666666666666666666", None),
    ];
    for (barcode, expected) in barcodes.iter() {
        let result = cobranca(barcode.as_slice());
        assert_eq!(result.valor.map(|c| c as f64 / 100.0), *expected);
    }
}

#[test]
fn digito_verificador_validation() {
    let barcodes = [
        (b"11191444455555555556666666666666666666666666", 1_u8),
        (b"10499898100000214032006561000100040099726390", 9_u8),
        (b"75696903800002500001434301033723400014933001", 6_u8),
        (b"00191667900002434790000002656973019362470618", 1_u8),
        (b"00195586200000773520000002464206011816073018", 5_u8),
        (b"75592896700003787000003389850761252543475984", 2_u8),
        (b"23791672000003249052028269705944177105205220", 1_u8),
        (b"23791672000003097902028060007024617500249000", 1_u8),
        (b"11191100255555555556666666666666666666666666", 1_u8),
    ];
    for (barcode, expected) in barcodes.iter() {
        let result = cobranca(barcode.as_slice());
        assert_eq!(result.digito_verificador, *expected);
    }
}

#[test]
fn decodes_collection_barcode() {
    let c = cobranca(b"11191444455555555556666666666666666666666666");
    assert_eq!(c.cod_banco, CodBanco(111));
    assert_eq!(c.cod_moeda, CodigoMoeda::Real);
    assert_eq!(c.valor.map(|v| v as f64 / 100.0), Some(55555555.55));
    // Places 5 to 8 of the barcode hold the due-date factor: 4444.
    assert_eq!(c.fator_vencimento, 4444);
    assert_eq!(c.data_vencimento, Some(data(2034, 7, 29)));
    assert_eq!(c.digito_verificador, 1);
}

#[test]
fn collection_barcode_and_its_line() {
    let c = cobranca(b"75696903800002500001434301033723400014933001");
    assert_eq!(c.fator_vencimento, 9038);
    assert_eq!(c.digito_verificador, 6);
    assert_eq!(c.linha_digitavel.as_str(), "75691434360103372340200149330011690380000250000");
}

#[test]
fn letters_are_rejected() {
    let entrada = "A".repeat(44);
    assert!(matches!(Boleto::new(entrada.as_bytes()), Err(BoletoError::NumbersOnly)));
    assert!(matches!(Cobranca::new(entrada.as_bytes()), Err(BoletoError::NumbersOnly)));
    assert!(matches!(Boleto::digitos_verificadores(entrada.as_bytes()), Err(BoletoError::NumbersOnly)));
}

#[test]
fn length_45_is_rejected() {
    let entrada = "0".repeat(45);
    assert!(matches!(Boleto::new(entrada.as_bytes()), Err(BoletoError::InvalidLength)));
}

#[test]
fn invalid_lengths_regardless_of_content() {
    for n in [0, 43, 45, 46, 49] {
        for c in ["0", "8", "A", "9"] {
            let entrada = c.repeat(n);
            assert!(matches!(Boleto::new(entrada.as_bytes()), Err(BoletoError::InvalidLength)), "{n} {c}");
        }
    }
    // A utility slip has no 47-digit form, a collection slip no 48-digit one.
    assert!(matches!(Boleto::new("8".repeat(47).as_bytes()), Err(BoletoError::InvalidLength)));
    assert!(matches!(Boleto::new("1".repeat(48).as_bytes()), Err(BoletoError::InvalidLength)));
}

#[test]
fn boleto_dispatches_by_leading_digit() {
    assert!(matches!(
        Boleto::new(b"81675555555555566667777777777777777777777777"),
        Ok(Boleto::Arrecadacao(_)),
    ));
    assert!(matches!(
        Boleto::new(b"816755555553555566667773777777777775777777777775"),
        Ok(Boleto::Arrecadacao(_)),
    ));
    assert!(matches!(
        Boleto::new(b"75691434360103372340200149330011690380000250000"),
        Ok(Boleto::Cobranca(_)),
    ));
}

#[test]
fn check_digits_of_collection_slip() {
    let d = Boleto::digitos_verificadores(b"75690903800002500001434301033723400014933001").unwrap();
    assert_eq!(d.geral, 6);
    assert_eq!(d.campos, vec![6, 2, 1]);
    assert_eq!(d.cod_barras, b"75696903800002500001434301033723400014933001".to_vec());
    assert_eq!(d.linha_digitavel, b"75691434360103372340200149330011690380000250000".to_vec());
    // From a digitable line whose check digits are all placeholders.
    let d = Boleto::digitos_verificadores(b"75691434300103372340000149330010090380000250000").unwrap();
    assert_eq!(d.geral, 6);
    assert_eq!(d.campos, vec![6, 2, 1]);
    assert_eq!(d.linha_digitavel, b"75691434360103372340200149330011690380000250000".to_vec());
    assert!(matches!(Boleto::new(&d.linha_digitavel), Ok(Boleto::Cobranca(_))));
    assert_eq!(Boleto::calculate_digito_verificador(b"75690903800002500001434301033723400014933001").unwrap(), 6);
    // Only the form is checked: an invalid currency digit still gets its check digit.
    assert_eq!(Boleto::calculate_digito_verificador(b"11111444455555555556666666666666666666666666").unwrap(), 7);
}

#[test]
fn check_digits_of_utility_slip() {
    let d = Boleto::digitos_verificadores(b"81605555555555566667777777777777777777777777").unwrap();
    assert_eq!(d.geral, 7);
    assert_eq!(d.campos, vec![3, 3, 5, 5]);
    assert_eq!(d.cod_barras, b"81675555555555566667777777777777777777777777".to_vec());
    assert_eq!(d.linha_digitavel, b"816755555553555566667773777777777775777777777775".to_vec());
    let d = Boleto::digitos_verificadores(b"816055555550555566667770777777777770777777777770").unwrap();
    assert_eq!(d.geral, 7);
    assert_eq!(d.linha_digitavel, b"816755555553555566667773777777777775777777777775".to_vec());
    assert_eq!(Boleto::calculate_digito_verificador(b"83800000000570100310200140444030700008190320").unwrap(), 0);
    assert!(matches!(Boleto::calculate_digito_verificador(b""), Err(BoletoError::InvalidLength)));
    assert!(matches!(
        Boleto::calculate_digito_verificador(b"86105555555555566667777777777777777777777777"),
        Err(BoletoError::InvalidTipoValor),
    ));
}

#[test]
fn error_messages() {
    assert_eq!(BoletoError::InvalidLength.mensagem(), "tamanho inválido");
    assert_eq!(BoletoError::NumbersOnly.mensagem(), "deve conter apenas números");
}
