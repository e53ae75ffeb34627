use boleto_utils::dv_utils::{mod_10, mod_11};
use boleto_utils::utils::{
    date_to_fator_vencimento, fator_vencimento_to_date, u8_array_to_u16, u8_array_to_u64, Data,
    DIA_BASE_ATE_2025, DIA_BASE_DESDE_2025, DIA_TROCA_DE_BASE, FATOR_VENC_2010,
};
use chrono::{Datelike, NaiveDate};

fn data(ano: i32, mes: u32, dia: u32) -> Data {
    Data(NaiveDate::from_ymd_opt(ano, mes, dia).unwrap().num_days_from_ce())
}

#[test]
fn convert_fator_vencimento_to_naive_date_correctly() {
    assert_eq!(fator_vencimento_to_date(FATOR_VENC_2010), Some(data(2010, 1, 1)));
    assert_eq!(fator_vencimento_to_date(FATOR_VENC_2010 + 1), Some(data(2010, 1, 2)));
    assert_eq!(fator_vencimento_to_date(FATOR_VENC_2010 - 1), Some(data(2034, 8, 22)));
    assert_eq!(fator_vencimento_to_date(4789), Some(data(2010, 11, 17)));
    assert_eq!(fator_vencimento_to_date(9999), Some(data(2025, 2, 21)));
    assert_eq!(fator_vencimento_to_date(1000), Some(data(2025, 2, 22)));
    assert_eq!(fator_vencimento_to_date(1002), Some(data(2025, 2, 24)));
    assert_eq!(fator_vencimento_to_date(1667), Some(data(2026, 12, 21)));
}

#[test]
fn convert_naive_date_to_fator_vencimento_correctly() {
    assert_eq!(date_to_fator_vencimento(data(2010, 1, 2)), Some(FATOR_VENC_2010 + 1));
    assert_eq!(date_to_fator_vencimento(data(2034, 8, 22)), Some(FATOR_VENC_2010 - 1));
    assert_eq!(date_to_fator_vencimento(data(2010, 11, 17)), Some(4789));
    assert_eq!(date_to_fator_vencimento(data(2025, 2, 21)), Some(9999));
    assert_eq!(date_to_fator_vencimento(data(2025, 2, 22)), Some(1000));
    assert_eq!(date_to_fator_vencimento(data(2025, 2, 24)), Some(1002));
    assert_eq!(date_to_fator_vencimento(data(2026, 12, 21)), Some(1667));
}

#[test]
fn calculate_mod_10_correctly() {
    assert_eq!(mod_10(b"01230067896"), b'3');
    assert_eq!(mod_10(b"01230167896"), b'2');
    assert_eq!(mod_10(b"01230267896"), b'1');
    assert_eq!(mod_10(b"01230367896"), b'0');
    assert_eq!(mod_10(b"01230467896"), b'9');
    assert_eq!(mod_10(b"01230567896"), b'8');
    assert_eq!(mod_10(b"01230667896"), b'7');
    assert_eq!(mod_10(b"01230767896"), b'6');
    assert_eq!(mod_10(b"01230867896"), b'5');
    assert_eq!(mod_10(b"01230967896"), b'4');
}

#[test]
fn calculate_mod_11_correctly() {
    assert_eq!(mod_11(b"8220000215048200974123220154098290108605940"), None);
    assert_eq!(mod_11(b"01230067896"), None);
    assert_eq!(mod_11(b"31230067896"), None);
    assert_eq!(mod_11(b"01231068896"), Some(b'9'));
    assert_eq!(mod_11(b"01230267896"), Some(b'8'));
    assert_eq!(mod_11(b"01231167896"), Some(b'7'));
    assert_eq!(mod_11(b"01232067896"), Some(b'6'));
    assert_eq!(mod_11(b"01241067896"), Some(b'5'));
    assert_eq!(mod_11(b"01250067896"), Some(b'4'));
    assert_eq!(mod_11(b"02232067896"), Some(b'3'));
    assert_eq!(mod_11(b"01250067897"), Some(b'2'));
    assert_eq!(mod_11(b"01230367896"), Some(b'1'));
}

#[test]
fn convert_u8_array_to_u32_correctly() {
    assert_eq!(u8_array_to_u16(b"001"), 1);
    assert_eq!(u8_array_to_u16(b"010"), 10);
    assert_eq!(u8_array_to_u16(b"100"), 100);
    assert_eq!(u8_array_to_u16(b"999"), 999);
    assert_eq!(u8_array_to_u16(b"9999"), 9999);
}

#[test]
fn checksums_are_deterministic() {
    let entrada = b"75691434360103372340200149330011690380000250000";
    assert_eq!(mod_10(entrada), mod_10(&entrada.to_vec()));
    assert_eq!(mod_11(entrada), mod_11(&entrada.to_vec()));
}

#[test]
fn checksums_of_edge_inputs() {
    // A single digit: 9 * 2 = 18, cross sum 9, check digit 1.
    assert_eq!(mod_10(b"9"), b'1');
    // 5 * 2 = 10 -> raw result 11 - 10 = 1.
    assert_eq!(mod_11(b"5"), Some(b'1'));
    // 0 -> raw result 11: undefined.
    assert_eq!(mod_11(b"0"), None);
    // The empty sequence.
    assert_eq!(mod_10(b""), b'0');
    assert_eq!(mod_11(b""), None);
}

#[test]
fn decimal_fields_read_exactly() {
    assert_eq!(u8_array_to_u16(b""), 0);
    assert_eq!(u8_array_to_u16(b"65535"), 65535);
    assert_eq!(u8_array_to_u64(b"99999999999"), 99_999_999_999);
    assert_eq!(u8_array_to_u64(b"0000021403"), 21403);
    assert_eq!(u8_array_to_u64(b"9999999999999999999"), 9_999_999_999_999_999_999);
}

#[test]
fn base_dates_match_the_calendar() {
    assert_eq!(Data(DIA_BASE_ATE_2025), data(1997, 10, 7));
    assert_eq!(Data(DIA_BASE_DESDE_2025), data(2022, 5, 29));
    assert_eq!(Data(DIA_TROCA_DE_BASE), data(2025, 2, 22));
}

#[test]
fn due_date_factor_boundaries() {
    assert_eq!(fator_vencimento_to_date(0), None);
    assert_eq!(fator_vencimento_to_date(999), None);
    assert_eq!(fator_vencimento_to_date(1000), Some(data(2025, 2, 22)));
    assert_eq!(date_to_fator_vencimento(data(1997, 10, 6)), None);
    assert_eq!(date_to_fator_vencimento(data(1997, 10, 7)), Some(0));
    assert_eq!(date_to_fator_vencimento(data(2025, 2, 21)), Some(9999));
}
