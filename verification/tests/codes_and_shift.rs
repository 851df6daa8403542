//! Checks of the character-level encoders and of shift aggregation.

use pos_engine::codes::{encode_code128b, generate_voucher_code, hex_to_bytes, remove_accents,
    CodeError};
use pos_engine::shift::{get_shift_totals, CashMovementDto, ShiftSaleRow};

#[test]
fn hex_decoding_ignores_spaces() {
    assert_eq!(hex_to_bytes("0A FF").unwrap(), vec![10, 255]);
    assert_eq!(hex_to_bytes("1b 00 7f").unwrap(), vec![27, 0, 127]);
    assert_eq!(hex_to_bytes("").unwrap(), Vec::<u8>::new());
}

#[test]
fn hex_decoding_rejects_bad_input() {
    assert_eq!(hex_to_bytes("ABC").unwrap_err(), CodeError::OddLength);
    assert_eq!(hex_to_bytes("0G").unwrap_err(), CodeError::InvalidHexDigit);
}

#[test]
fn accents_fold_to_ascii() {
    assert_eq!(remove_accents("caf\u{e9}"), "cafe");
    assert_eq!(remove_accents("\u{d1}and\u{fa}"), "nandu");
    assert_eq!(remove_accents("plain"), "plain");
    assert_eq!(remove_accents("sm\u{f8}rrebr\u{f8}d"), "sm?rrebr?d");
}

#[test]
fn voucher_codes_prefix_the_folio() {
    assert_eq!(generate_voucher_code("00000042"), "V00000042");
    assert_eq!(generate_voucher_code(""), "V");
}

#[test]
fn code128_has_expected_shape() {
    let bars = encode_code128b("AB").unwrap();
    assert_eq!(bars.len(), 55 + 11 * 2);
    assert!(bars.iter().all(|&b| b == 0 || b == 1));
    // Quiet zones on either side.
    assert!(bars[..10].iter().all(|&b| b == 0));
    assert!(bars[bars.len() - 10..].iter().all(|&b| b == 0));
    let empty = encode_code128b("").unwrap();
    assert_eq!(empty.len(), 55);
}

#[test]
fn code128_rejects_characters_outside_set_b() {
    match encode_code128b("caf\u{e9}") {
        Err(CodeError::UnsupportedChar) => {},
        other => panic!("expected unsupported char, got {:?}", other),
    }
}

fn movement(is_in: bool, amount: i64) -> CashMovementDto {
    CashMovementDto {
        id: 1,
        shift_id: 1,
        is_in,
        amount,
        concept: "c".to_string(),
        description: None,
        created_at: "2024-01-01 10:00:00".to_string(),
    }
}

fn sale_row(method: &str, total: i64, cash: i64, card: i64) -> ShiftSaleRow {
    ShiftSaleRow {
        payment_method: method.to_string(),
        total,
        cash_amount: cash,
        card_transfer_amount: card,
    }
}

#[test]
fn shift_totals_add_up() {
    let movements = vec![movement(true, 5000), movement(false, 2000), movement(true, 1000)];
    let sales = vec![
        sale_row("cash", 10000, 10000, 0),
        sale_row("mixed", 8000, 5000, 3000),
        sale_row("credit", 7000, 0, 0),
        sale_row("voucher", 4000, 0, 0),
    ];
    let debts = vec![1500, 500];
    let t = get_shift_totals(20000, &movements, &sales, &debts);
    assert_eq!(t.movements_in, 6000);
    assert_eq!(t.movements_out, 2000);
    assert_eq!(t.sales_count, 4);
    assert_eq!(t.cash_sales, 15000);
    assert_eq!(t.card_sales, 3000);
    assert_eq!(t.credit_sales, 7000);
    assert_eq!(t.voucher_sales, 4000);
    assert_eq!(t.debt_payments, 2000);
    assert_eq!(t.theoretical_cash, 20000 + 15000 + 2000 + 6000 - 2000);
}
