//! Kit validation: decides whether the gift lines of a cart are justified by
//! its trigger lines, resolves which kit licenses each gift, and links
//! trigger lines to the kits they activate.
//!
//! Each kit rule grants `quantity x max_selections` gift credit for every
//! trigger line, and every consuming gift line spends its quantity of credit.
//! An accepted cart leaves every kit's balance within one milliunit of zero.

use vstd::prelude::*;
use crate::cart::{cart_wf, copy_line, PriceType, SaleItemRequest};
use crate::errors::PosError;
use crate::util::{contains_str, has_str};
use crate::{MAX_QTY, MAX_SELECTIONS, QTY_EPS};

verus! {

/// One kit definition, as hydrated from storage for a sale or a return.
#[derive(Clone, Debug)]
pub struct KitRule {
    pub id: String,
    pub name: String,
    /// Gift units licensed by one unit of a trigger product.
    pub max_selections: i64,
    /// Products that unlock the kit.
    pub triggers: Vec<String>,
    /// Products eligible as gifts of the kit.
    pub items: Vec<String>,
}

pub open spec fn rule_wf(r: KitRule) -> bool {
    0 <= r.max_selections <= MAX_SELECTIONS
}

/// Rules are within bounds and carry pairwise distinct ids.
pub open spec fn rules_wf(rs: Seq<KitRule>) -> bool {
    &&& forall|i: int| 0 <= i < rs.len() ==> rule_wf(#[trigger] rs[i])
    &&& forall|i: int, j: int|
        0 <= i < rs.len() && 0 <= j < rs.len() && i != j ==> rs[i].id@ != rs[j].id@
}

/// Gift credit a cart earns for one kit: the sum over trigger lines of
/// quantity times `max_selections`, in milliunits.
pub open spec fn kit_credit(items: Seq<SaleItemRequest>, rule: KitRule) -> int
    decreases items.len(),
{
    if items.len() == 0 {
        0
    } else {
        kit_credit(items.drop_last(), rule) + if has_str(
            rule.triggers@,
            items.last().product_id@,
        ) {
            items.last().quantity * rule.max_selections
        } else {
            0
        }
    }
}

/// A line spends credit of `rule` when it is assigned to that kit and its
/// product is not itself a trigger of the kit.
pub open spec fn consumes_for(l: SaleItemRequest, rule: KitRule) -> bool {
    &&& l.kit_option_id matches Some(k) && k@ == rule.id@
    &&& !has_str(rule.triggers@, l.product_id@)
}

/// Gift credit a cart spends on one kit, in milliunits.
pub open spec fn kit_consumption(items: Seq<SaleItemRequest>, rule: KitRule) -> int
    decreases items.len(),
{
    if items.len() == 0 {
        0
    } else {
        kit_consumption(items.drop_last(), rule) + if consumes_for(items.last(), rule) {
            items.last().quantity as int
        } else {
            0
        }
    }
}

/// The adjusted line keeps everything of the original but its kit link.
pub open spec fn same_line_except_kit(a: SaleItemRequest, b: SaleItemRequest) -> bool {
    &&& b.id == a.id
    &&& b.product_id@ == a.product_id@
    &&& b.quantity == a.quantity
    &&& b.price_type == a.price_type
    &&& b.promotion_id == a.promotion_id
}

/// A line's kit link, if present, names a known rule that lists the line's
/// product as a gift or as a trigger.
pub open spec fn kit_ref_eligible(l: SaleItemRequest, rs: Seq<KitRule>) -> bool {
    l.kit_option_id matches Some(k) ==> exists|j: int|
        0 <= j < rs.len() && (#[trigger] rs[j]).id@ == k@ && (has_str(rs[j].items@, l.product_id@)
            || has_str(rs[j].triggers@, l.product_id@))
}

/// No line of the cart touches any kit: nothing is declared or gift-typed,
/// and no product triggers a rule.
pub open spec fn no_kit_involvement(items: Seq<SaleItemRequest>, rs: Seq<KitRule>) -> bool {
    &&& forall|i: int|
        0 <= i < items.len() ==> (#[trigger] items[i]).kit_option_id is None && !(items[i].price_type
            is KitItem)
    &&& forall|i: int, j: int|
        0 <= i < items.len() && 0 <= j < rs.len() ==> !has_str(
            (#[trigger] rs[j]).triggers@,
            (#[trigger] items[i]).product_id@,
        )
}

/// A prefix of the cart with kit links resolved the way validation may
/// resolve them: lines unchanged but for their kit link, declared links
/// kept, gift-typed lines linked, and every link naming a rule that lists
/// the product.
pub open spec fn partial_resolution(
    items: Seq<SaleItemRequest>,
    partial: Seq<SaleItemRequest>,
    rules: Seq<KitRule>,
    upto: int,
) -> bool {
    &&& 0 <= upto <= items.len()
    &&& partial.len() == upto
    &&& forall|i: int| 0 <= i < upto ==> same_line_except_kit(items[i], #[trigger] partial[i])
    &&& forall|i: int|
        0 <= i < upto && items[i].kit_option_id is Some ==> (#[trigger] partial[i]).kit_option_id
            == items[i].kit_option_id
    &&& forall|i: int|
        0 <= i < upto && (#[trigger] partial[i]).price_type is KitItem ==> partial[i].kit_option_id
            is Some
    &&& forall|i: int| 0 <= i < upto ==> kit_ref_eligible(#[trigger] partial[i], rules)
}

proof fn lemma_kit_credit_zero(items: Seq<SaleItemRequest>, rule: KitRule)
    requires
        forall|i: int|
            0 <= i < items.len() ==> !has_str(rule.triggers@, (#[trigger] items[i]).product_id@),
    ensures
        kit_credit(items, rule) == 0,
    decreases items.len(),
{
    if items.len() > 0 {
        lemma_kit_credit_zero(items.drop_last(), rule);
    }
}

proof fn lemma_kit_consumption_nonneg(items: Seq<SaleItemRequest>, rule: KitRule)
    requires
        forall|i: int| 0 <= i < items.len() ==> (#[trigger] items[i]).quantity >= 0,
    ensures
        kit_consumption(items, rule) >= 0,
    decreases items.len(),
{
    if items.len() > 0 {
        lemma_kit_consumption_nonneg(items.drop_last(), rule);
    }
}

proof fn lemma_kit_consumption_push(s: Seq<SaleItemRequest>, l: SaleItemRequest, rule: KitRule)
    ensures
        kit_consumption(s.push(l), rule) == kit_consumption(s, rule) + if consumes_for(l, rule) {
            l.quantity as int
        } else {
            0
        },
{
    assert(s.push(l).drop_last() =~= s);
    assert(s.push(l).last() == l);
}

/// Finds the rule carrying the given kit id.
pub fn find_rule(rules: &Vec<KitRule>, kid: &String) -> (r: Option<usize>)
    ensures
        match r {
            Some(j) => j < rules@.len() && rules@[j as int].id@ == kid@,
            None => forall|j: int| 0 <= j < rules@.len() ==> (#[trigger] rules@[j]).id@ != kid@,
        },
{
    let mut j: usize = 0;
    while j < rules.len()
        invariant
            0 <= j <= rules@.len(),
            forall|q: int| 0 <= q < j ==> (#[trigger] rules@[q]).id@ != kid@,
        decreases rules@.len() - j,
    {
        if rules[j].id == *kid {
            return Some(j);
        }
        j += 1;
    }
    None
}

/// What each rejection of kit validation says of the cart and the rules.
pub open spec fn kit_rejection(e: PosError, items: Seq<SaleItemRequest>, rules: Seq<KitRule>) -> bool {
    match e {
                    PosError::KitNotFound { line } => {
                        &&& line < items.len()
                        &&& items[line as int].kit_option_id matches Some(k) && (forall|j: int|
                            0 <= j < rules.len() ==> (#[trigger] rules[j]).id@ != k@)
                    },
                    PosError::KitProductNotEligible { line } => {
                        &&& line < items.len()
                        &&& items[line as int].kit_option_id matches Some(k) && (exists|j: int|
                            0 <= j < rules.len() && (#[trigger] rules[j]).id@ == k@ && !has_str(
                                rules[j].items@,
                                items[line as int].product_id@,
                            ) && !has_str(rules[j].triggers@, items[line as int].product_id@))
                    },
                    PosError::InsufficientKitCredit { line, available, requested } => {
                        &&& line < items.len()
                        &&& requested == items[line as int].quantity
                        &&& exists|partial: Seq<SaleItemRequest>|
                            #[trigger] partial_resolution(items, partial, rules, line as int)
                                && ((items[line as int].kit_option_id matches Some(k) && (exists|
                                j: int,
                            |
                                0 <= j < rules.len() && (#[trigger] rules[j]).id@ == k@
                                    && has_str(rules[j].items@, items[line as int].product_id@)
                                    && !has_str(
                                    rules[j].triggers@,
                                    items[line as int].product_id@,
                                ) && available == kit_credit(items, rules[j]) - kit_consumption(
                                    partial,
                                    rules[j],
                                ) && available < requested - QTY_EPS)) || (
                            items[line as int].kit_option_id is None
                                && items[line as int].price_type is KitItem && (exists|j: int|
                                0 <= j < rules.len() && has_str(
                                    (#[trigger] rules[j]).items@,
                                    items[line as int].product_id@,
                                )) && (forall|j: int|
                                0 <= j < rules.len() && has_str(
                                    (#[trigger] rules[j]).items@,
                                    items[line as int].product_id@,
                                ) ==> !has_str(
                                    rules[j].triggers@,
                                    items[line as int].product_id@,
                                ) && kit_credit(items, rules[j]) - kit_consumption(
                                    partial,
                                    rules[j],
                                ) < requested - QTY_EPS)))
                    },
                    PosError::GiftActivatesNoKit { line } => {
                        &&& line < items.len()
                        &&& items[line as int].price_type is KitItem
                        &&& items[line as int].kit_option_id is None
                        &&& forall|j: int|
                            0 <= j < rules.len() ==> !has_str(
                                (#[trigger] rules[j]).items@,
                                items[line as int].product_id@,
                            )
                    },
                    PosError::IncompleteKit { kit, remaining } => {
                        &&& kit < rules.len()
                        &&& remaining > QTY_EPS
                        &&& exists|adj: Seq<SaleItemRequest>|
                            #[trigger] partial_resolution(items, adj, rules, items.len() as int)
                                && remaining == kit_credit(items, rules[kit as int])
                                - kit_consumption(adj, rules[kit as int])
                    },
                    _ => false,
                }
}

/// Validates the cart's gift lines against the relevant kit rules and
/// resolves kit links.
///
/// On acceptance, every kit's earned credit and spent credit cancel out to
/// within one milliunit of zero; every gift-typed line leaves with a kit
/// link; and every kit link names a rule that lists the line's product. A
/// cart that touches no kit at all is always accepted, unchanged.
pub fn apply_kit_rules(items: &Vec<SaleItemRequest>, rules: &Vec<KitRule>) -> (r: Result<
    Vec<SaleItemRequest>,
    PosError,
>)
    requires
        cart_wf(items@),
        rules_wf(rules@),
    ensures
        match r {
            Ok(out) => {
                &&& out@.len() == items@.len()
                &&& forall|i: int|
                    0 <= i < items@.len() ==> same_line_except_kit(items@[i], #[trigger] out@[i])
                &&& forall|i: int|
                    0 <= i < items@.len() && items@[i].kit_option_id is Some ==> (
                    #[trigger] out@[i]).kit_option_id == items@[i].kit_option_id
                &&& forall|j: int|
                    0 <= j < rules@.len() ==> -QTY_EPS <= kit_credit(items@, #[trigger] rules@[j])
                        - kit_consumption(out@, rules@[j]) <= QTY_EPS
                &&& forall|i: int|
                    0 <= i < out@.len() && (#[trigger] out@[i]).price_type is KitItem
                        ==> out@[i].kit_option_id is Some
                &&& forall|i: int| 0 <= i < out@.len() ==> kit_ref_eligible(#[trigger] out@[i], rules@)
                &&& no_kit_involvement(items@, rules@) ==> out@ == items@
            },
            Err(e) => {
                &&& kit_rejection(e, items@, rules@)
                &&& !no_kit_involvement(items@, rules@)
            },
        },
{
    let n: usize = items.len();
    let m: usize = rules.len();

    // Credit earned per kit.
    let mut credits: Vec<i64> = Vec::new();
    let mut j: usize = 0;
    while j < m
        invariant
            0 <= j <= m,
            m == rules@.len(),
            n == items@.len(),
            cart_wf(items@),
            rules_wf(rules@),
            credits@.len() == j,
            forall|q: int| 0 <= q < j ==> #[trigger] credits@[q] == kit_credit(items@, rules@[q]),
            forall|q: int| 0 <= q < j ==> #[trigger] credits@[q] >= 0,
        decreases m - j,
    {
        let mut c: i64 = 0;
        let mut k: usize = 0;
        proof {
            assert(items@.take(0) =~= Seq::<SaleItemRequest>::empty());
        }
        while k < n
            invariant
                0 <= k <= n,
                n == items@.len(),
                j < rules@.len(),
                cart_wf(items@),
                rules_wf(rules@),
                c == kit_credit(items@.take(k as int), rules@[j as int]),
                0 <= c <= (k as int) * (MAX_QTY * MAX_SELECTIONS),
            decreases n - k,
        {
            let ghost pre = items@.take(k as int);
            proof {
                assert(items@.take(k + 1).drop_last() =~= pre);
                assert(items@.take(k + 1).last() == items@[k as int]);
                vstd::arithmetic::mul::lemma_mul_is_distributive_add_other_way(
                    MAX_QTY * MAX_SELECTIONS,
                    k as int,
                    1,
                );
            }
            if contains_str(&rules[j].triggers, &items[k].product_id) {
                proof {
                    vstd::arithmetic::mul::lemma_mul_nonnegative(
                        items@[k as int].quantity as int,
                        rules@[j as int].max_selections as int,
                    );
                    vstd::arithmetic::mul::lemma_mul_upper_bound(
                        items@[k as int].quantity as int,
                        MAX_QTY as int,
                        rules@[j as int].max_selections as int,
                        MAX_SELECTIONS as int,
                    );
                }
                let add_amt: i64 = items[k].quantity * rules[j].max_selections;
                c = c + add_amt;
            }
            k += 1;
        }
        proof {
            assert(items@.take(n as int) =~= items@);
        }
        credits.push(c);
        j += 1;
    }

    // Resolve and consume, line by line.
    let mut out: Vec<SaleItemRequest> = Vec::new();
    let mut i: usize = 0;
    while i < n
        invariant
            0 <= i <= n,
            n == items@.len(),
            m == rules@.len(),
            cart_wf(items@),
            rules_wf(rules@),
            credits@.len() == m,
            out@.len() == i,
            forall|q: int|
                0 <= q < m ==> #[trigger] credits@[q] == kit_credit(items@, rules@[q])
                    - kit_consumption(out@, rules@[q]),
            forall|q: int| 0 <= q < m ==> #[trigger] credits@[q] >= -QTY_EPS,
            forall|k: int| 0 <= k < i ==> same_line_except_kit(items@[k], #[trigger] out@[k]),
            forall|k: int|
                0 <= k < i && items@[k].kit_option_id is Some ==> (#[trigger] out@[k]).kit_option_id
                    == items@[k].kit_option_id,
            forall|k: int|
                0 <= k < i && (#[trigger] out@[k]).price_type is KitItem ==> out@[k].kit_option_id
                    is Some,
            forall|k: int| 0 <= k < i ==> kit_ref_eligible(#[trigger] out@[k], rules@),
            forall|k: int|
                0 <= k < i && items@[k].kit_option_id is None && !(items@[k].price_type is KitItem)
                    ==> #[trigger] out@[k] == items@[k],
        decreases n - i,
    {
        let l = &items[i];
        let ghost old_out = out@;
        match &l.kit_option_id {
            Some(kid) => {
                match find_rule(rules, kid) {
                    None => {
                        proof {
                            assert(!(items@[i as int].kit_option_id is None));
                            assert(!no_kit_involvement(items@, rules@));
                        }
                        return Err(PosError::KitNotFound { line: i });
                    },
                    Some(rj) => {
                        if contains_str(&rules[rj].triggers, &l.product_id) {
                            let nl = copy_line(l);
                            out.push(nl);
                            proof {
                                assert forall|q: int| 0 <= q < m implies kit_consumption(
                                    out@,
                                    #[trigger] rules@[q],
                                ) == kit_consumption(old_out, rules@[q]) by {
                                    lemma_kit_consumption_push(old_out, nl, rules@[q]);
                                    if consumes_for(nl, rules@[q]) {
                                        assert(rules@[q].id@ == rules@[rj as int].id@);
                                        assert(q == rj);
                                    }
                                }
                                assert(kit_ref_eligible(nl, rules@));
                            }
                        } else if !contains_str(&rules[rj].items, &l.product_id) {
                            proof {
                                assert(!(items@[i as int].kit_option_id is None));
                                assert(!no_kit_involvement(items@, rules@));
                            }
                            return Err(PosError::KitProductNotEligible { line: i });
                        } else {
                            if credits[rj] >= l.quantity - QTY_EPS {
                                let cur: i64 = credits[rj];
                                credits.set(rj, cur - l.quantity);
                                let nl = copy_line(l);
                                out.push(nl);
                                proof {
                                    assert(consumes_for(nl, rules@[rj as int]));
                                    assert forall|q: int| 0 <= q < m implies kit_consumption(
                                        out@,
                                        #[trigger] rules@[q],
                                    ) == kit_consumption(old_out, rules@[q]) + if q == rj {
                                        nl.quantity as int
                                    } else {
                                        0
                                    } by {
                                        lemma_kit_consumption_push(old_out, nl, rules@[q]);
                                        if q != rj && consumes_for(nl, rules@[q]) {
                                            assert(rules@[q].id@ == rules@[rj as int].id@);
                                        }
                                    }
                                    assert(kit_ref_eligible(nl, rules@));
                                }
                            } else {
                                proof {
                                    assert(!(items@[i as int].kit_option_id is None));
                                    assert(!no_kit_involvement(items@, rules@));
                                    assert(partial_resolution(items@, out@, rules@, i as int));
                                }
                                return Err(PosError::InsufficientKitCredit {
                                    line: i,
                                    available: credits[rj],
                                    requested: l.quantity,
                                });
                            }
                        }
                    },
                }
            },
            None => {
                if matches!(l.price_type, PriceType::KitItem) {
                    // Auto-resolve: the first rule listing the product as a
                    // gift and holding enough credit takes the line; a rule
                    // that lists it as a trigger links without spending.
                    let mut rj: usize = 0;
                    let mut chosen: Option<usize> = None;
                    let mut chosen_consumes: bool = false;
                    let mut any_eligible: bool = false;
                    let mut best_available: i64 = 0;
                    while rj < m
                        invariant_except_break
                            0 <= rj <= m,
                            m == rules@.len(),
                            n == items@.len(),
                            i < n,
                            credits@.len() == m,
                            cart_wf(items@),
                            chosen is None,
                            any_eligible ==> exists|q: int|
                                0 <= q < m && has_str(
                                    (#[trigger] rules@[q]).items@,
                                    items@[i as int].product_id@,
                                ),
                            !any_eligible ==> forall|q: int|
                                0 <= q < rj ==> !has_str(
                                    (#[trigger] rules@[q]).items@,
                                    items@[i as int].product_id@,
                                ),
                            forall|q: int|
                                0 <= q < rj && has_str(
                                    (#[trigger] rules@[q]).items@,
                                    items@[i as int].product_id@,
                                ) ==> !has_str(
                                    rules@[q].triggers@,
                                    items@[i as int].product_id@,
                                ) && credits@[q] < items@[i as int].quantity - QTY_EPS,
                        ensures
                            match chosen {
                                Some(cj) => {
                                    &&& cj < m
                                    &&& has_str(
                                        rules@[cj as int].items@,
                                        items@[i as int].product_id@,
                                    )
                                    &&& chosen_consumes == !has_str(
                                        rules@[cj as int].triggers@,
                                        items@[i as int].product_id@,
                                    )
                                    &&& chosen_consumes ==> credits@[cj as int] >= items@[i as int].quantity
                                        - QTY_EPS
                                },
                                None => {
                                    &&& any_eligible ==> exists|q: int|
                                        0 <= q < m && has_str(
                                            (#[trigger] rules@[q]).items@,
                                            items@[i as int].product_id@,
                                        )
                                    &&& !any_eligible ==> forall|q: int|
                                        0 <= q < m ==> !has_str(
                                            (#[trigger] rules@[q]).items@,
                                            items@[i as int].product_id@,
                                        )
                                    &&& forall|q: int|
                                        0 <= q < m && has_str(
                                            (#[trigger] rules@[q]).items@,
                                            items@[i as int].product_id@,
                                        ) ==> !has_str(
                                            rules@[q].triggers@,
                                            items@[i as int].product_id@,
                                        ) && credits@[q] < items@[i as int].quantity - QTY_EPS
                                },
                            },
                        decreases m - rj,
                    {
                        if contains_str(&rules[rj].items, &items[i].product_id) {
                            any_eligible = true;
                            if contains_str(&rules[rj].triggers, &items[i].product_id) {
                                chosen = Some(rj);
                                chosen_consumes = false;
                                break;
                            } else if credits[rj] >= items[i].quantity - QTY_EPS {
                                chosen = Some(rj);
                                chosen_consumes = true;
                                break;
                            } else {
                                if credits[rj] > best_available {
                                    best_available = credits[rj];
                                }
                            }
                        }
                        rj += 1;
                    }
                    match chosen {
                        Some(cj) => {
                            let mut nl = copy_line(l);
                            nl.kit_option_id = Some(rules[cj].id.clone());
                            if chosen_consumes {
                                let cur: i64 = credits[cj];
                                credits.set(cj, cur - l.quantity);
                            }
                            out.push(nl);
                            proof {
                                assert forall|q: int| 0 <= q < m implies kit_consumption(
                                    out@,
                                    #[trigger] rules@[q],
                                ) == kit_consumption(old_out, rules@[q]) + if q == cj
                                    && chosen_consumes {
                                    nl.quantity as int
                                } else {
                                    0
                                } by {
                                    lemma_kit_consumption_push(old_out, nl, rules@[q]);
                                    if q != cj && consumes_for(nl, rules@[q]) {
                                        assert(rules@[q].id@ == rules@[cj as int].id@);
                                    }
                                }
                                assert(kit_ref_eligible(nl, rules@));
                            }
                        },
                        None => {
                            if any_eligible {
                                proof {
                                    assert(items@[i as int].price_type is KitItem);
                                    assert(!no_kit_involvement(items@, rules@));
                                    assert(partial_resolution(items@, out@, rules@, i as int));
                                }
                                return Err(PosError::InsufficientKitCredit {
                                    line: i,
                                    available: best_available,
                                    requested: l.quantity,
                                });
                            } else {
                                proof {
                                    assert(items@[i as int].price_type is KitItem);
                                    assert(!no_kit_involvement(items@, rules@));
                                }
                                return Err(PosError::GiftActivatesNoKit { line: i });
                            }
                        },
                    }
                } else {
                    let nl = copy_line(l);
                    out.push(nl);
                    proof {
                        assert forall|q: int| 0 <= q < m implies kit_consumption(
                            out@,
                            #[trigger] rules@[q],
                        ) == kit_consumption(old_out, rules@[q]) by {
                            lemma_kit_consumption_push(old_out, nl, rules@[q]);
                        }
                    }
                }
            },
        }
        i += 1;
    }

    // Completeness: no kit may keep usable credit.
    let mut cj: usize = 0;
    while cj < m
        invariant
            0 <= cj <= m,
            m == rules@.len(),
            n == items@.len(),
            cart_wf(items@),
            rules_wf(rules@),
            credits@.len() == m,
            out@.len() == n,
            forall|q: int|
                0 <= q < m ==> #[trigger] credits@[q] == kit_credit(items@, rules@[q])
                    - kit_consumption(out@, rules@[q]),
            forall|q: int| 0 <= q < m ==> #[trigger] credits@[q] >= -QTY_EPS,
            forall|q: int| 0 <= q < cj ==> #[trigger] credits@[q] <= QTY_EPS,
            forall|k: int| 0 <= k < n ==> same_line_except_kit(items@[k], #[trigger] out@[k]),
            forall|k: int|
                0 <= k < n && items@[k].kit_option_id is Some ==> (#[trigger] out@[k]).kit_option_id
                    == items@[k].kit_option_id,
            forall|k: int|
                0 <= k < n && (#[trigger] out@[k]).price_type is KitItem ==> out@[k].kit_option_id
                    is Some,
            forall|k: int| 0 <= k < n ==> kit_ref_eligible(#[trigger] out@[k], rules@),
        decreases m - cj,
    {
        if credits[cj] > QTY_EPS {
            proof {
                assert(partial_resolution(items@, out@, rules@, items@.len() as int));
                if no_kit_involvement(items@, rules@) {
                    lemma_kit_credit_zero(items@, rules@[cj as int]);
                    assert(forall|k: int|
                        0 <= k < out@.len() ==> (#[trigger] out@[k]).quantity
                            == items@[k].quantity);
                    lemma_kit_consumption_nonneg(out@, rules@[cj as int]);
                }
            }
            return Err(PosError::IncompleteKit { kit: cj, remaining: credits[cj] });
        }
        cj += 1;
    }

    // Link trigger lines to the kits their purchase activated.
    let mut active: Vec<String> = Vec::new();
    let mut ai: usize = 0;
    #[verifier::loop_isolation(false)]
    while ai < n
        invariant
            0 <= ai <= n,
        decreases n - ai,
    {
        match &out[ai].kit_option_id {
            Some(k) => {
                active.push(k.clone());
            },
            None => {},
        }
        ai += 1;
    }

    let mut out2: Vec<SaleItemRequest> = Vec::new();
    let mut bi: usize = 0;
    proof {
        assert(out@.take(0) =~= Seq::<SaleItemRequest>::empty());
        assert forall|q: int| 0 <= q < m implies -QTY_EPS <= kit_credit(items@, #[trigger] rules@[q])
            - kit_consumption(out@, rules@[q]) <= QTY_EPS by {
            assert(credits@[q] == kit_credit(items@, rules@[q]) - kit_consumption(out@, rules@[q]));
        }
    }
    while bi < n
        invariant
            0 <= bi <= n,
            n == items@.len(),
            m == rules@.len(),
            cart_wf(items@),
            rules_wf(rules@),
            out@.len() == n,
            out2@.len() == bi,
            forall|q: int|
                0 <= q < m ==> -QTY_EPS <= kit_credit(items@, #[trigger] rules@[q])
                    - kit_consumption(out@, rules@[q]) <= QTY_EPS,
            forall|k: int| 0 <= k < n ==> same_line_except_kit(items@[k], #[trigger] out@[k]),
            forall|k: int|
                0 <= k < n && items@[k].kit_option_id is Some ==> (#[trigger] out@[k]).kit_option_id
                    == items@[k].kit_option_id,
            forall|k: int|
                0 <= k < n && (#[trigger] out@[k]).price_type is KitItem ==> out@[k].kit_option_id
                    is Some,
            forall|k: int| 0 <= k < n ==> kit_ref_eligible(#[trigger] out@[k], rules@),
            forall|k: int|
                0 <= k < n && items@[k].kit_option_id is None && !(items@[k].price_type is KitItem)
                    ==> #[trigger] out@[k] == items@[k],
            forall|q: int|
                0 <= q < m ==> kit_consumption(out2@, #[trigger] rules@[q]) == kit_consumption(
                    out@.take(bi as int),
                    rules@[q],
                ),
            forall|k: int| 0 <= k < bi ==> same_line_except_kit(items@[k], #[trigger] out2@[k]),
            forall|k: int|
                0 <= k < bi && items@[k].kit_option_id is Some ==> (
                #[trigger] out2@[k]).kit_option_id == items@[k].kit_option_id,
            forall|k: int|
                0 <= k < bi && (#[trigger] out2@[k]).price_type is KitItem ==> out2@[k].kit_option_id
                    is Some,
            forall|k: int| 0 <= k < bi ==> kit_ref_eligible(#[trigger] out2@[k], rules@),
            no_kit_involvement(items@, rules@) ==> forall|k: int|
                0 <= k < bi ==> #[trigger] out2@[k] == items@[k],
        decreases n - bi,
    {
        let ghost pre = out@.take(bi as int);
        let ghost old_out2 = out2@;
        proof {
            assert(out@.take(bi + 1).drop_last() =~= pre);
            assert(out@.take(bi + 1).last() == out@[bi as int]);
        }
        let l = &out[bi];
        let mut nl = copy_line(l);
        let mut linked: Option<usize> = None;
        if nl.kit_option_id.is_none() {
            // Scan rules in order: the first active kit triggered by this
            // product takes the link.
            let mut rj: usize = 0;
            while rj < m
                invariant_except_break
                    0 <= rj <= m,
                    m == rules@.len(),
                    n == out@.len(),
                    bi < n,
                    linked is None,
                ensures
                    match linked {
                        Some(lj) => lj < m && m == rules@.len() && has_str(
                            rules@[lj as int].triggers@,
                            out@[bi as int].product_id@,
                        ),
                        None => true,
                    },
                decreases m - rj,
            {
                if contains_str(&rules[rj].triggers, &out[bi].product_id) && contains_str(
                    &active,
                    &rules[rj].id,
                ) {
                    linked = Some(rj);
                    break;
                }
                rj += 1;
            }
            if let Some(lj) = linked {
                nl.kit_option_id = Some(rules[lj].id.clone());
                proof {
                    if no_kit_involvement(items@, rules@) {
                        assert(out@[bi as int] == items@[bi as int]);
                        assert(has_str(
                            rules@[lj as int].triggers@,
                            items@[bi as int].product_id@,
                        ));
                    }
                    assert(kit_ref_eligible(nl, rules@));
                }
            }
        }
        out2.push(nl);
        proof {
            assert forall|q: int| 0 <= q < m implies kit_consumption(out2@, #[trigger] rules@[q])
                == kit_consumption(out@.take(bi + 1), rules@[q]) by {
                lemma_kit_consumption_push(old_out2, nl, rules@[q]);
                match linked {
                    Some(lj) => {
                        assert(!consumes_for(out@[bi as int], rules@[q]));
                        if consumes_for(nl, rules@[q]) {
                            assert(rules@[q].id@ == rules@[lj as int].id@);
                            assert(q == lj);
                            assert(has_str(rules@[q].triggers@, nl.product_id@));
                        }
                    },
                    None => {
                        assert(nl == out@[bi as int]);
                    },
                }
            }
        }
        bi += 1;
    }
    proof {
        assert(out@.take(n as int) =~= out@);
        if no_kit_involvement(items@, rules@) {
            assert(out2@ =~= items@);
        }
    }
    Ok(out2)
}

/// One kit-to-product link row as hydrated from storage.
#[derive(Clone, Debug)]
pub struct KitLinkRow {
    pub kit_option_id: String,
    pub product_id: String,
}

/// Some row links the kit to the product.
pub open spec fn row_links(rows: Seq<KitLinkRow>, kid: Seq<char>, pid: Seq<char>) -> bool {
    exists|i: int|
        0 <= i < rows.len() && (#[trigger] rows[i]).kit_option_id@ == kid && rows[i].product_id@
            == pid
}

/// Collects the products the rows link to one kit.
fn collect_links(rows: &Vec<KitLinkRow>, kid: &String) -> (r: Vec<String>)
    ensures
        forall|t: int| 0 <= t < r@.len() ==> row_links(rows@, kid@, (#[trigger] r@[t])@),
        forall|i: int|
            0 <= i < rows@.len() && (#[trigger] rows@[i]).kit_option_id@ == kid@ ==> has_str(
                r@,
                rows@[i].product_id@,
            ),
{
    let mut r: Vec<String> = Vec::new();
    let mut i: usize = 0;
    while i < rows.len()
        invariant
            0 <= i <= rows@.len(),
            forall|t: int| 0 <= t < r@.len() ==> row_links(rows@, kid@, (#[trigger] r@[t])@),
            forall|q: int|
                0 <= q < i && (#[trigger] rows@[q]).kit_option_id@ == kid@ ==> has_str(
                    r@,
                    rows@[q].product_id@,
                ),
        decreases rows@.len() - i,
    {
        if rows[i].kit_option_id == *kid {
            let ghost old_r = r@;
            r.push(rows[i].product_id.clone());
            proof {
                assert(r@.last()@ == rows@[i as int].product_id@);
                assert(row_links(rows@, kid@, r@.last()@));
                assert forall|q: int|
                    0 <= q < i + 1 && (#[trigger] rows@[q]).kit_option_id@ == kid@ implies has_str(
                    r@,
                    rows@[q].product_id@,
                ) by {
                    crate::util::lemma_has_str_push(old_r, r@.last(), rows@[q].product_id@);
                }
            }
        }
        i += 1;
    }
    r
}

/// Hydrates full kit rules from header rows and link rows: each rule's
/// trigger and gift lists hold exactly the products its rows link.
pub fn load_kit_rules(
    headers: &Vec<(String, i64, String)>,
    trigger_rows: &Vec<KitLinkRow>,
    item_rows: &Vec<KitLinkRow>,
) -> (r: Vec<KitRule>)
    ensures
        r@.len() == headers@.len(),
        forall|j: int|
            0 <= j < headers@.len() ==> {
                let rule = #[trigger] r@[j];
                &&& rule.id@ == headers@[j].0@
                &&& rule.max_selections == headers@[j].1
                &&& rule.name@ == headers@[j].2@
                &&& forall|t: int|
                    0 <= t < rule.triggers@.len() ==> row_links(
                        trigger_rows@,
                        rule.id@,
                        (#[trigger] rule.triggers@[t])@,
                    )
                &&& forall|i: int|
                    0 <= i < trigger_rows@.len() && (#[trigger] trigger_rows@[i]).kit_option_id@
                        == rule.id@ ==> has_str(rule.triggers@, trigger_rows@[i].product_id@)
                &&& forall|t: int|
                    0 <= t < rule.items@.len() ==> row_links(
                        item_rows@,
                        rule.id@,
                        (#[trigger] rule.items@[t])@,
                    )
                &&& forall|i: int|
                    0 <= i < item_rows@.len() && (#[trigger] item_rows@[i]).kit_option_id@
                        == rule.id@ ==> has_str(rule.items@, item_rows@[i].product_id@)
            },
{
    let mut r: Vec<KitRule> = Vec::new();
    let mut j: usize = 0;
    while j < headers.len()
        invariant
            0 <= j <= headers@.len(),
            r@.len() == j,
            forall|q: int|
                0 <= q < j ==> {
                    let rule = #[trigger] r@[q];
                    &&& rule.id@ == headers@[q].0@
                    &&& rule.max_selections == headers@[q].1
                    &&& rule.name@ == headers@[q].2@
                    &&& forall|t: int|
                        0 <= t < rule.triggers@.len() ==> row_links(
                            trigger_rows@,
                            rule.id@,
                            (#[trigger] rule.triggers@[t])@,
                        )
                    &&& forall|i: int|
                        0 <= i < trigger_rows@.len() && (#[trigger] trigger_rows@[i]).kit_option_id@
                            == rule.id@ ==> has_str(rule.triggers@, trigger_rows@[i].product_id@)
                    &&& forall|t: int|
                        0 <= t < rule.items@.len() ==> row_links(
                            item_rows@,
                            rule.id@,
                            (#[trigger] rule.items@[t])@,
                        )
                    &&& forall|i: int|
                        0 <= i < item_rows@.len() && (#[trigger] item_rows@[i]).kit_option_id@
                            == rule.id@ ==> has_str(rule.items@, item_rows@[i].product_id@)
                },
        decreases headers@.len() - j,
    {
        let id = headers[j].0.clone();
        let triggers = collect_links(trigger_rows, &id);
        let items = collect_links(item_rows, &id);
        r.push(
            KitRule {
                id,
                name: headers[j].2.clone(),
                max_selections: headers[j].1,
                triggers,
                items,
            },
        );
        j += 1;
    }
    r
}

/// A kit is relevant to a cart's product set when one of its triggers
/// appears in it.
pub open spec fn kit_relevant(rule: KitRule, pids: Seq<String>) -> bool {
    exists|t: int| 0 <= t < rule.triggers@.len() && has_str(pids, (#[trigger] rule.triggers@[t])@)
}

/// Picks out, in order, the rules relevant to a product set.
pub fn relevant_kit_indices(rules: &Vec<KitRule>, product_ids: &Vec<String>) -> (r: Vec<usize>)
    ensures
        forall|q: int|
            0 <= q < r@.len() ==> #[trigger] r@[q] < rules@.len() && kit_relevant(
                rules@[r@[q] as int],
                product_ids@,
            ),
        forall|j: int|
            0 <= j < rules@.len() && kit_relevant(#[trigger] rules@[j], product_ids@) ==> exists|
                q: int,
            | 0 <= q < r@.len() && #[trigger] r@[q] == j,
{
    let mut r: Vec<usize> = Vec::new();
    let mut j: usize = 0;
    while j < rules.len()
        invariant
            0 <= j <= rules@.len(),
            forall|q: int|
                0 <= q < r@.len() ==> #[trigger] r@[q] < rules@.len() && kit_relevant(
                    rules@[r@[q] as int],
                    product_ids@,
                ),
            forall|q: int|
                0 <= q < j && kit_relevant(#[trigger] rules@[q], product_ids@) ==> exists|w: int|
                    0 <= w < r@.len() && #[trigger] r@[w] == q,
        decreases rules@.len() - j,
    {
        let mut found: bool = false;
        let mut t: usize = 0;
        while t < rules[j].triggers.len()
            invariant
                0 <= t <= rules@[j as int].triggers@.len(),
                j < rules@.len(),
                found == exists|t2: int|
                    0 <= t2 < t && has_str(
                        product_ids@,
                        (#[trigger] rules@[j as int].triggers@[t2])@,
                    ),
            decreases rules@[j as int].triggers@.len() - t,
        {
            if contains_str(product_ids, &rules[j].triggers[t]) {
                found = true;
            }
            t += 1;
        }
        if found {
            let ghost old_r = r@;
            r.push(j);
            proof {
                assert(r@[r@.len() - 1] == j);
                assert forall|q: int|
                    0 <= q < j + 1 && kit_relevant(#[trigger] rules@[q], product_ids@) implies exists|
                    w: int,
                | 0 <= w < r@.len() && #[trigger] r@[w] == q by {
                    if q < j {
                        let w = choose|w: int| 0 <= w < old_r.len() && old_r[w] == q;
                        assert(r@[w] == q);
                    } else {
                        assert(r@[r@.len() - 1] == q);
                    }
                }
            }
        } else {
            proof {
                assert(!kit_relevant(rules@[j as int], product_ids@));
            }
        }
        j += 1;
    }
    r
}

} // verus!
