//! Checks of the returns engine: remaining-quantity bounds, voucher
//! accumulation, status recomputation and the cancellation window.

use pos_engine::errors::{PosError, SaleStatus};
use pos_engine::kits::KitRule;
use pos_engine::refunds::{
    process_return, recompute_status, ProcessReturnRequest, ReturnItemRequest, SaleItemRecord,
    SaleRecord, VoucherPlan, VoucherState,
};

fn sale_item(id: &str, product: &str, qty: i64, total: i64, already: i64) -> SaleItemRecord {
    SaleItemRecord {
        id: id.to_string(),
        product_id: product.to_string(),
        product_name: format!("product {}", product),
        product_code: format!("C-{}", product),
        kit_option_id: None,
        promotion_id: None,
        quantity: qty,
        total,
        already_returned: already,
    }
}

fn sale_record(date: &str) -> SaleRecord {
    SaleRecord {
        id: "s1".to_string(),
        folio: "00000042".to_string(),
        sale_date: date.to_string(),
        status: SaleStatus::Completed,
    }
}

fn request(items: Vec<ReturnItemRequest>, reason: &str) -> ProcessReturnRequest {
    ProcessReturnRequest {
        sale_id: "s1".to_string(),
        reason: reason.to_string(),
        notes: String::new(),
        user_id: "u1".to_string(),
        items,
    }
}

fn req_line(sale_item: &str, product: &str, qty: i64) -> ReturnItemRequest {
    ReturnItemRequest {
        sale_item_id: sale_item.to_string(),
        product_id: product.to_string(),
        quantity: qty,
        unit_price: 0,
    }
}

#[test]
fn excess_return_reports_available_quantity() {
    // Original five units, three already returned, three more requested.
    let items = vec![sale_item("i1", "X", 5000, 50000, 3000)];
    let payload = request(vec![req_line("i1", "X", 3000)], "defect");
    match process_return(&payload, Some(&sale_record("2024-01-01 10:00:00")), &items, &vec![], None, 0, 0) {
        Err(PosError::ExcessReturn { available, requested, .. }) => {
            assert_eq!(available, 2000);
            assert_eq!(requested, 3000);
        },
        other => panic!("expected excess return, got {:?}", other),
    }
}

#[test]
fn partial_return_within_bounds_is_accepted() {
    let items = vec![sale_item("i1", "X", 5000, 50000, 3000)];
    let payload = request(vec![req_line("i1", "X", 2000)], "defect");
    let plan = process_return(
        &payload,
        Some(&sale_record("2024-01-01 10:00:00")),
        &items,
        &vec![],
        None,
        7,
        0,
    )
    .unwrap();
    // Unit price 100.00, two units back: 200.00 refunded.
    assert_eq!(plan.total, 20000);
    assert_eq!(plan.folio, 8);
    assert_eq!(plan.lines.len(), 1);
    assert_eq!(plan.lines[0].unit_price, 10000);
    assert_eq!(plan.lines[0].subtotal, 20000);
    assert_eq!(plan.new_status, SaleStatus::FullyReturned);
    assert_eq!(plan.restocks.len(), 1);
    assert_eq!(plan.restocks[0].1, 2000);
    match plan.voucher {
        VoucherPlan::Create { ref code, balance } => {
            assert_eq!(code, "V00000042");
            assert_eq!(balance, 20000);
        },
        ref other => panic!("expected voucher creation, got {:?}", other),
    }
}

#[test]
fn repeated_returns_accumulate_on_the_voucher() {
    let items = vec![sale_item("i1", "X", 5000, 50000, 1000)];
    let payload = request(vec![req_line("i1", "X", 1000)], "defect");
    let voucher = VoucherState {
        id: "v1".to_string(),
        code: "V00000042".to_string(),
        current_balance: 10000,
        initial_balance: 10000,
    };
    let plan = process_return(
        &payload,
        Some(&sale_record("2024-01-01 10:00:00")),
        &items,
        &vec![],
        Some(&voucher),
        8,
        0,
    )
    .unwrap();
    assert_eq!(plan.total, 10000);
    match plan.voucher {
        VoucherPlan::Update { new_current, new_initial, ref code, .. } => {
            assert_eq!(new_current, 20000);
            assert_eq!(new_initial, 20000);
            assert_eq!(code, "V00000042");
        },
        ref other => panic!("expected voucher update, got {:?}", other),
    }
    assert_eq!(plan.new_status, SaleStatus::PartialReturn);
}

#[test]
fn cancellation_window_expires_after_an_hour() {
    let items = vec![sale_item("i1", "X", 1000, 10000, 0)];
    let payload = request(vec![req_line("i1", "X", 1000)], "cancellation");
    let base = chrono::NaiveDateTime::parse_from_str("2024-01-01 10:00:00", "%Y-%m-%d %H:%M:%S")
        .unwrap()
        .and_utc()
        .timestamp();
    match process_return(
        &payload,
        Some(&sale_record("2024-01-01 10:00:00")),
        &items,
        &vec![],
        None,
        0,
        base + 7200,
    ) {
        Err(PosError::CancellationWindowExpired) => {},
        other => panic!("expected window expired, got {:?}", other),
    }
    let plan = process_return(
        &payload,
        Some(&sale_record("2024-01-01 10:00:00")),
        &items,
        &vec![],
        None,
        0,
        base + 600,
    )
    .unwrap();
    assert_eq!(plan.new_status, SaleStatus::Cancelled);
}

#[test]
fn unreadable_sale_date_blocks_cancellation() {
    let items = vec![sale_item("i1", "X", 1000, 10000, 0)];
    let payload = request(vec![req_line("i1", "X", 1000)], "cancellation");
    match process_return(&payload, Some(&sale_record("not a date")), &items, &vec![], None, 0, 0) {
        Err(PosError::SaleDateUnreadable) => {},
        other => panic!("expected unreadable date, got {:?}", other),
    }
}

#[test]
fn empty_and_blank_requests_are_rejected() {
    let items = vec![sale_item("i1", "X", 1000, 10000, 0)];
    let empty = request(vec![], "defect");
    match process_return(&empty, Some(&sale_record("2024-01-01 10:00:00")), &items, &vec![], None, 0, 0) {
        Err(PosError::EmptyReturn) => {},
        other => panic!("expected empty return, got {:?}", other),
    }
    let blank = request(vec![req_line("i1", "X", 1000)], "   ");
    match process_return(&blank, Some(&sale_record("2024-01-01 10:00:00")), &items, &vec![], None, 0, 0) {
        Err(PosError::EmptyReason) => {},
        other => panic!("expected empty reason, got {:?}", other),
    }
    let payload = request(vec![req_line("i1", "X", 1000)], "defect");
    match process_return(&payload, None, &items, &vec![], None, 0, 0) {
        Err(PosError::SaleNotFound) => {},
        other => panic!("expected sale not found, got {:?}", other),
    }
}

#[test]
fn zero_value_return_is_rejected() {
    let items = vec![sale_item("i1", "X", 1000, 0, 0)];
    let payload = request(vec![req_line("i1", "X", 1000)], "defect");
    match process_return(&payload, Some(&sale_record("2024-01-01 10:00:00")), &items, &vec![], None, 0, 0) {
        Err(PosError::NonPositiveReturnTotal { total }) => assert_eq!(total, 0),
        other => panic!("expected non-positive total, got {:?}", other),
    }
}

#[test]
fn duplicate_lines_cannot_exceed_the_original() {
    // Two lines of three units each against an item of five: the request
    // as a whole is over the remaining quantity.
    let items = vec![sale_item("i1", "X", 5000, 50000, 0)];
    let payload = request(
        vec![req_line("i1", "X", 3000), req_line("i1", "X", 3000)],
        "defect",
    );
    match process_return(&payload, Some(&sale_record("2024-01-01 10:00:00")), &items, &vec![], None, 0, 0) {
        Err(PosError::ExcessReturn { line, available, requested }) => {
            assert_eq!(line, 1);
            assert_eq!(available, 2000);
            assert_eq!(requested, 3000);
        },
        other => panic!("expected excess on second line, got {:?}", other),
    }
}

#[test]
fn status_recomputation_follows_quantities() {
    assert_eq!(recompute_status(&vec![(5000, 0)], false), SaleStatus::Completed);
    assert_eq!(recompute_status(&vec![(5000, 2000)], false), SaleStatus::PartialReturn);
    assert_eq!(recompute_status(&vec![(5000, 5000)], false), SaleStatus::FullyReturned);
    assert_eq!(recompute_status(&vec![(5000, 5000)], true), SaleStatus::Cancelled);
    // Growing the returned quantities never lowers the status.
    assert_eq!(recompute_status(&vec![(5000, 2000), (1000, 0)], false), SaleStatus::PartialReturn);
    assert_eq!(
        recompute_status(&vec![(5000, 5000), (1000, 1000)], false),
        SaleStatus::FullyReturned
    );
}

fn kit_sale_item(id: &str, product: &str, kit: &str, qty: i64, total: i64) -> SaleItemRecord {
    SaleItemRecord {
        id: id.to_string(),
        product_id: product.to_string(),
        product_name: format!("product {}", product),
        product_code: format!("C-{}", product),
        kit_option_id: Some(kit.to_string()),
        promotion_id: None,
        quantity: qty,
        total,
        already_returned: 0,
    }
}

#[test]
fn kit_return_must_balance_triggers_and_gifts() {
    let rules = vec![KitRule {
        id: "k1".to_string(),
        name: "kit k1".to_string(),
        max_selections: 1,
        triggers: vec!["A".to_string()],
        items: vec!["B".to_string()],
    }];
    let items = vec![
        kit_sale_item("i1", "A", "k1", 1000, 10000),
        kit_sale_item("i2", "B", "k1", 1000, 0),
    ];
    // Returning only the gift leaves the credits unbalanced.
    let gift_only = request(vec![req_line("i2", "B", 1000)], "defect");
    match process_return(&gift_only, Some(&sale_record("2024-01-01 10:00:00")), &items, &rules, None, 0, 0) {
        Err(PosError::KitReturnImbalance { credits, consumption, .. }) => {
            assert_eq!(credits, 0);
            assert_eq!(consumption, 1000);
        },
        other => panic!("expected kit imbalance, got {:?}", other),
    }
    // Returning the trigger together with its gift is accepted.
    let both = request(vec![req_line("i1", "A", 1000), req_line("i2", "B", 1000)], "defect");
    let plan = process_return(&both, Some(&sale_record("2024-01-01 10:00:00")), &items, &rules, None, 0, 0)
        .unwrap();
    assert_eq!(plan.total, 10000);
    assert_eq!(plan.new_status, SaleStatus::FullyReturned);
    // The free gift line moves no priced stock back.
    assert_eq!(plan.restocks.len(), 1);
    assert_eq!(plan.restocks[0].0, "A");
}

fn promo_sale_item(id: &str, product: &str, promo: &str, qty: i64, total: i64) -> SaleItemRecord {
    SaleItemRecord {
        id: id.to_string(),
        product_id: product.to_string(),
        product_name: format!("product {}", product),
        product_code: format!("C-{}", product),
        kit_option_id: None,
        promotion_id: Some(promo.to_string()),
        quantity: qty,
        total,
        already_returned: 0,
    }
}

#[test]
fn promotion_return_must_keep_shares() {
    let items = vec![
        promo_sale_item("i1", "X", "p1", 2000, 8000),
        promo_sale_item("i2", "Y", "p1", 1000, 2000),
    ];
    // Returning only one product of the promotion is out of proportion.
    let lopsided = request(vec![req_line("i1", "X", 2000)], "defect");
    match process_return(&lopsided, Some(&sale_record("2024-01-01 10:00:00")), &items, &vec![], None, 0, 0) {
        Err(PosError::PromotionReturnUnbalanced { .. }) => {},
        other => panic!("expected unbalanced promotion return, got {:?}", other),
    }
    // Returning the whole combo keeps the shares equal.
    let whole = request(vec![req_line("i1", "X", 2000), req_line("i2", "Y", 1000)], "defect");
    let plan = process_return(&whole, Some(&sale_record("2024-01-01 10:00:00")), &items, &vec![], None, 0, 0)
        .unwrap();
    assert_eq!(plan.total, 10000);
}
