//! End-to-end checks of the kit, promotion and pricing engines and of the
//! sale commit flow.

use pos_engine::cart::{CustomerAccount, PriceType, ProductInfo, SaleItemRequest, SaleRequest};
use pos_engine::errors::PosError;
use pos_engine::kits::{apply_kit_rules, load_kit_rules, relevant_kit_indices, KitLinkRow, KitRule};
use pos_engine::pricing::calculate_sale_items;
use pos_engine::promotions::{validate_promotions, ComboItemDto, PromotionDef};
use pos_engine::sale::{generate_smart_folio, get_sequence, process_sale};

fn line(product: &str, qty: i64, pt: PriceType) -> SaleItemRequest {
    SaleItemRequest {
        id: None,
        product_id: product.to_string(),
        quantity: qty,
        price_type: pt,
        promotion_id: None,
        kit_option_id: None,
    }
}

fn promo_line(product: &str, qty: i64, promo: &str) -> SaleItemRequest {
    SaleItemRequest {
        id: None,
        product_id: product.to_string(),
        quantity: qty,
        price_type: PriceType::Promo,
        promotion_id: Some(promo.to_string()),
        kit_option_id: None,
    }
}

fn kit_rule(id: &str, max_selections: i64, triggers: &[&str], items: &[&str]) -> KitRule {
    KitRule {
        id: id.to_string(),
        name: format!("kit {}", id),
        max_selections,
        triggers: triggers.iter().map(|s| s.to_string()).collect(),
        items: items.iter().map(|s| s.to_string()).collect(),
    }
}

fn product(id: &str, retail: i64, wholesale: i64) -> ProductInfo {
    ProductInfo {
        id: id.to_string(),
        code: format!("C-{}", id),
        name: format!("product {}", id),
        retail_price: retail,
        wholesale_price: wholesale,
    }
}

fn promo_def(id: &str, price: i64, items: &[(&str, i32)]) -> PromotionDef {
    PromotionDef {
        id: id.to_string(),
        combo_price: price,
        start_day: 0,
        end_day: 100,
        is_active: true,
        items: items
            .iter()
            .map(|(p, q)| ComboItemDto { product_id: p.to_string(), quantity: *q })
            .collect(),
    }
}

#[test]
fn kit_trigger_licenses_both_gifts() {
    // One trigger unit at max_selections 2 licenses two gift units; both
    // gift lines resolve to the kit and the trigger line links to it too.
    let rules = vec![kit_rule("k1", 2, &["A"], &["B", "C"])];
    let items = vec![
        line("A", 1000, PriceType::Retail),
        line("B", 1000, PriceType::KitItem),
        line("C", 1000, PriceType::KitItem),
    ];
    let out = apply_kit_rules(&items, &rules).unwrap();
    assert_eq!(out.len(), 3);
    assert_eq!(out[1].kit_option_id.as_deref(), Some("k1"));
    assert_eq!(out[2].kit_option_id.as_deref(), Some("k1"));
    assert_eq!(out[0].kit_option_id.as_deref(), Some("k1"));
}

#[test]
fn kit_with_leftover_credit_is_incomplete() {
    let rules = vec![kit_rule("k1", 2, &["A"], &["B"])];
    let items = vec![line("A", 1000, PriceType::Retail)];
    match apply_kit_rules(&items, &rules) {
        Err(PosError::IncompleteKit { remaining, .. }) => assert_eq!(remaining, 2000),
        other => panic!("expected incomplete kit, got {:?}", other),
    }
}

#[test]
fn kit_gift_beyond_credit_is_rejected() {
    let rules = vec![kit_rule("k1", 2, &["A"], &["B"])];
    let items = vec![
        line("A", 1000, PriceType::Retail),
        line("B", 3000, PriceType::KitItem),
    ];
    match apply_kit_rules(&items, &rules) {
        Err(PosError::InsufficientKitCredit { available, requested, .. }) => {
            assert_eq!(available, 2000);
            assert_eq!(requested, 3000);
        },
        other => panic!("expected insufficient credit, got {:?}", other),
    }
}

#[test]
fn kit_gift_without_any_kit_is_rejected() {
    let rules = vec![kit_rule("k1", 2, &["A"], &["B"])];
    let items = vec![line("Z", 1000, PriceType::KitItem)];
    match apply_kit_rules(&items, &rules) {
        Err(PosError::GiftActivatesNoKit { line }) => assert_eq!(line, 0),
        other => panic!("expected gift-activates-no-kit, got {:?}", other),
    }
}

#[test]
fn plain_cart_passes_kits_unchanged() {
    let rules = vec![kit_rule("k1", 2, &["A"], &["B"])];
    let items = vec![line("X", 2500, PriceType::Retail)];
    let out = apply_kit_rules(&items, &rules).unwrap();
    assert_eq!(out.len(), 1);
    assert!(out[0].kit_option_id.is_none());
}

#[test]
fn promotion_double_combo_accepted() {
    // {X:2, Y:1} provided as {X:4, Y:2}: multiplier two.
    let promos = vec![promo_def("p1", 5000, &[("X", 2), ("Y", 1)])];
    let items = vec![
        promo_line("X", 2000, "p1"),
        promo_line("X", 2000, "p1"),
        promo_line("Y", 1000, "p1"),
        promo_line("Y", 1000, "p1"),
    ];
    let v = validate_promotions(&items, &promos, 50).unwrap();
    assert_eq!(v.len(), 1);
    assert_eq!(v[0].promotion_id, "p1");
    assert_eq!(v[0].instance_count, 2);
    assert_eq!(v[0].combo_price, 5000);
}

#[test]
fn promotion_rejects_partial_multiple() {
    let promos = vec![promo_def("p1", 5000, &[("X", 2), ("Y", 1)])];
    let items = vec![promo_line("X", 3000, "p1"), promo_line("Y", 1000, "p1")];
    match validate_promotions(&items, &promos, 50) {
        Err(PosError::PromotionBadMultiplier { provided, required, .. }) => {
            assert_eq!(provided, 3000);
            assert_eq!(required, 2);
        },
        other => panic!("expected bad multiplier, got {:?}", other),
    }
}

#[test]
fn promotion_rejects_foreign_product() {
    let promos = vec![promo_def("p1", 5000, &[("X", 1)])];
    let items = vec![
        promo_line("X", 1000, "p1"),
        promo_line("Z", 1000, "p1"),
    ];
    match validate_promotions(&items, &promos, 50) {
        Err(PosError::PromotionCardinality { required, provided, .. }) => {
            assert_eq!(required, 1);
            assert_eq!(provided, 2);
        },
        other => panic!("expected cardinality rejection, got {:?}", other),
    }
}

#[test]
fn promotion_outside_window_rejected() {
    let promos = vec![promo_def("p1", 5000, &[("X", 1)])];
    let items = vec![promo_line("X", 1000, "p1")];
    match validate_promotions(&items, &promos, 365) {
        Err(PosError::PromotionNotAvailable { .. }) => {},
        other => panic!("expected not available, got {:?}", other),
    }
}

#[test]
fn promotion_allocation_follows_retail_shares() {
    // Combo price 50.00 x 2 instances = 100.00 split over four lines in
    // proportion to retail value.
    let promos = vec![promo_def("p1", 5000, &[("X", 2), ("Y", 1)])];
    let products = vec![product("X", 1000, 800), product("Y", 500, 400)];
    let items = vec![
        promo_line("X", 2000, "p1"),
        promo_line("X", 2000, "p1"),
        promo_line("Y", 1000, "p1"),
        promo_line("Y", 1000, "p1"),
    ];
    let v = validate_promotions(&items, &promos, 50).unwrap();
    let (gross, disc, lines) = calculate_sale_items(&items, &products, &v, 0).unwrap();
    assert_eq!(gross, 10000);
    assert_eq!(disc, 0);
    assert_eq!(lines[0].subtotal, 4000);
    assert_eq!(lines[1].subtotal, 4000);
    assert_eq!(lines[2].subtotal, 1000);
    assert_eq!(lines[3].subtotal, 1000);
    assert_eq!(lines[0].unit_price, 2000);
    assert_eq!(lines[2].unit_price, 1000);
    assert_eq!(lines[0].total, 4000);
}

#[test]
fn promotion_allocation_conserves_remainder_cents() {
    // A 1.00 combo over retail values 10.00 and 20.00 cannot split into
    // whole cents proportionally; the cumulative rounding gives 0.33 and
    // 0.67, and the group still sums to the combo price exactly.
    let promos = vec![promo_def("p1", 100, &[("X", 1), ("Y", 1)])];
    let products = vec![product("X", 1000, 800), product("Y", 2000, 1600)];
    let items = vec![promo_line("X", 1000, "p1"), promo_line("Y", 1000, "p1")];
    let v = validate_promotions(&items, &promos, 50).unwrap();
    let (gross, _, lines) = calculate_sale_items(&items, &products, &v, 0).unwrap();
    assert_eq!(lines[0].subtotal, 33);
    assert_eq!(lines[1].subtotal, 67);
    assert_eq!(gross, 100);
}

#[test]
fn pricing_is_idempotent() {
    let promos = vec![promo_def("p1", 5000, &[("X", 2), ("Y", 1)])];
    let products = vec![product("X", 1000, 800), product("Y", 500, 400)];
    let items = vec![
        promo_line("X", 4000, "p1"),
        promo_line("Y", 2000, "p1"),
        line("X", 1500, PriceType::Retail),
    ];
    let v = validate_promotions(&items, &promos, 50).unwrap();
    let (g1, d1, l1) = calculate_sale_items(&items, &products, &v, 750).unwrap();
    let (g2, d2, l2) = calculate_sale_items(&items, &products, &v, 750).unwrap();
    assert_eq!(g1, g2);
    assert_eq!(d1, d2);
    assert_eq!(l1.len(), l2.len());
    for (a, b) in l1.iter().zip(l2.iter()) {
        assert_eq!(a.subtotal, b.subtotal);
        assert_eq!(a.discount_amount, b.discount_amount);
        assert_eq!(a.total, b.total);
        assert_eq!(a.unit_price, b.unit_price);
    }
}

#[test]
fn pricing_applies_global_discount() {
    let products = vec![product("X", 10000, 8000)];
    let items = vec![line("X", 1000, PriceType::Retail)];
    let (gross, disc, lines) = calculate_sale_items(&items, &products, &vec![], 1000).unwrap();
    assert_eq!(gross, 10000);
    assert_eq!(disc, 1000);
    assert_eq!(lines[0].total, 9000);
}

#[test]
fn pricing_rejects_unknown_product() {
    let items = vec![line("X", 1000, PriceType::Retail)];
    match calculate_sale_items(&items, &vec![], &vec![], 0) {
        Err(PosError::ProductNotFound { line }) => assert_eq!(line, 0),
        other => panic!("expected product not found, got {:?}", other),
    }
}

fn sale_payload(items: Vec<SaleItemRequest>, cash: i64, card: i64, method: &str) -> SaleRequest {
    SaleRequest {
        discount_percentage: 0,
        customer_id: None,
        user_id: "u1".to_string(),
        cash_register_shift_id: "s1".to_string(),
        payment_method: method.to_string(),
        cash_amount: cash,
        card_transfer_amount: card,
        notes: None,
        items,
        should_print: false,
    }
}

#[test]
fn insufficient_payment_carries_figures() {
    // Total 100.00 paid 60.00 cash + 30.00 card: rejected with both sums.
    let products = vec![product("X", 10000, 8000)];
    let inventory = vec!["X".to_string()];
    let payload = sale_payload(vec![line("X", 1000, PriceType::Retail)], 6000, 3000, "cash");
    match process_sale(&payload, &vec![], &vec![], &products, &inventory, None, None, 50) {
        Err(PosError::InsufficientPayment { calculated, paid }) => {
            assert_eq!(calculated, 10000);
            assert_eq!(paid, 9000);
        },
        other => panic!("expected insufficient payment, got {:?}", other),
    }
}

#[test]
fn sale_commit_produces_folio_and_change() {
    let products = vec![product("X", 10000, 8000)];
    let inventory = vec!["X".to_string()];
    let payload = sale_payload(vec![line("X", 1000, PriceType::Retail)], 12000, 0, "cash");
    let plan = process_sale(&payload, &vec![], &vec![], &products, &inventory, None, None, 50)
        .unwrap();
    assert_eq!(plan.total, 10000);
    assert_eq!(plan.change, 2000);
    assert_eq!(plan.folio, "00000001");
    assert_eq!(plan.items.len(), 1);
    assert_eq!(plan.items[0].unit_price, 10000);
}

#[test]
fn empty_cart_is_rejected() {
    let payload = sale_payload(vec![], 0, 0, "cash");
    match process_sale(&payload, &vec![], &vec![], &vec![], &vec![], None, None, 50) {
        Err(PosError::EmptyCart) => {},
        other => panic!("expected empty cart, got {:?}", other),
    }
}

#[test]
fn discount_beyond_maximum_is_rejected() {
    let products = vec![product("X", 10000, 8000)];
    let mut payload = sale_payload(vec![line("X", 1000, PriceType::Retail)], 20000, 0, "cash");
    payload.discount_percentage = 2500;
    match process_sale(&payload, &vec![], &vec![], &products, &vec![], None, None, 50) {
        Err(PosError::InvalidDiscount { requested, max }) => {
            assert_eq!(requested, 2500);
            assert_eq!(max, 2000);
        },
        other => panic!("expected invalid discount, got {:?}", other),
    }
}

#[test]
fn credit_sale_needs_customer_and_limit() {
    let products = vec![product("X", 10000, 8000)];
    let inventory = vec!["X".to_string()];
    let payload = sale_payload(vec![line("X", 1000, PriceType::Retail)], 10000, 0, "credit");
    match process_sale(&payload, &vec![], &vec![], &products, &inventory, None, None, 50) {
        Err(PosError::CreditCustomerRequired) => {},
        other => panic!("expected customer required, got {:?}", other),
    }

    let mut with_customer = sale_payload(vec![line("X", 1000, PriceType::Retail)], 10000, 0, "credit");
    with_customer.customer_id = Some("c1".to_string());
    let account = CustomerAccount {
        id: "c1".to_string(),
        current_balance: 5000,
        credit_limit: 12000,
    };
    match process_sale(
        &with_customer,
        &vec![],
        &vec![],
        &products,
        &inventory,
        Some(&account),
        None,
        50,
    ) {
        Err(PosError::CreditLimitExceeded { available, new_balance }) => {
            assert_eq!(available, 7000);
            assert_eq!(new_balance, 15000);
        },
        other => panic!("expected credit limit exceeded, got {:?}", other),
    }
}

#[test]
fn missing_inventory_row_is_rejected() {
    let products = vec![product("X", 10000, 8000)];
    let payload = sale_payload(vec![line("X", 1000, PriceType::Retail)], 10000, 0, "cash");
    match process_sale(&payload, &vec![], &vec![], &products, &vec![], None, None, 50) {
        Err(PosError::InventoryRowMissing { line }) => assert_eq!(line, 0),
        other => panic!("expected inventory row missing, got {:?}", other),
    }
}

#[test]
fn folio_sequence_reads_previous_folios() {
    assert_eq!(get_sequence(None), 1);
    assert_eq!(get_sequence(Some(&"00000007".to_string())), 8);
    assert_eq!(get_sequence(Some(&"TKT-123".to_string())), 124);
    assert_eq!(get_sequence(Some(&"garbage".to_string())), 1);
    assert_eq!(generate_smart_folio(8), "00000008");
    assert_eq!(generate_smart_folio(123456789), "123456789");
}

#[test]
fn rule_loader_hydrates_and_filters() {
    let headers = vec![
        ("k1".to_string(), 2, "combo one".to_string()),
        ("k2".to_string(), 1, "combo two".to_string()),
    ];
    let triggers = vec![
        KitLinkRow { kit_option_id: "k1".to_string(), product_id: "A".to_string() },
        KitLinkRow { kit_option_id: "k2".to_string(), product_id: "Q".to_string() },
    ];
    let gifts = vec![
        KitLinkRow { kit_option_id: "k1".to_string(), product_id: "B".to_string() },
        KitLinkRow { kit_option_id: "k1".to_string(), product_id: "C".to_string() },
    ];
    let rules = load_kit_rules(&headers, &triggers, &gifts);
    assert_eq!(rules.len(), 2);
    assert_eq!(rules[0].id, "k1");
    assert_eq!(rules[0].max_selections, 2);
    assert_eq!(rules[0].name, "combo one");
    assert_eq!(rules[0].triggers, vec!["A".to_string()]);
    assert_eq!(rules[0].items, vec!["B".to_string(), "C".to_string()]);
    assert_eq!(rules[1].triggers, vec!["Q".to_string()]);
    assert!(rules[1].items.is_empty());
    // Only the kit whose trigger is in the cart is relevant.
    let cart_products = vec!["A".to_string(), "B".to_string()];
    let relevant = relevant_kit_indices(&rules, &cart_products);
    assert_eq!(relevant, vec![0]);
}
