//! Tests of the order aggregate's exact total computation.

use order_service::decimal::Decimal;
use order_service::order::{Order, ProductOrderItem};
use uuid::Uuid;

fn item(quantity: Decimal, unit_price: Decimal) -> ProductOrderItem {
    ProductOrderItem {
        order_id: Uuid::new_v4().as_u128(),
        product_id: Uuid::new_v4().as_u128(),
        quantity,
        unit_price,
    }
}

fn order_of(items: Vec<ProductOrderItem>) -> Order {
    Order {
        order_id: Uuid::new_v4().as_u128(),
        customer_id: Uuid::new_v4().as_u128(),
        items,
    }
}

#[test]
fn test_total() {
    let product_order_item_0 = ProductOrderItem {
        order_id: Uuid::new_v4().as_u128(),
        product_id: Uuid::new_v4().as_u128(),
        quantity: Decimal::new(1, 0),
        unit_price: Decimal::new(200, 2),
    };

    let order = Order {
        order_id: Uuid::new_v4().as_u128(),
        customer_id: Uuid::new_v4().as_u128(),
        items: vec![product_order_item_0],
    };

    assert_eq!(order.total(), Decimal::new(2, 0))
}

#[test]
fn total_of_empty_order_is_zero() {
    let order = order_of(vec![]);
    assert_eq!(order.total(), Decimal::new(0, 0));
}

#[test]
fn total_of_single_item_is_its_subtotal() {
    // 1 unit at 2.00 totals exactly 2.00
    let order = order_of(vec![item(Decimal::new(1, 0), Decimal::new(200, 2))]);
    assert_eq!(order.total(), Decimal::new(2, 0));
}

#[test]
fn total_adds_many_items() {
    // 2 x 3.50 + 1.5 x 2.00 + 3 x 0.25 = 7.00 + 3.00 + 0.75 = 10.75
    let order = order_of(vec![
        item(Decimal::new(2, 0), Decimal::new(350, 2)),
        item(Decimal::new(15, 1), Decimal::new(200, 2)),
        item(Decimal::new(3, 0), Decimal::new(25, 2)),
    ]);
    assert_eq!(order.total(), Decimal::new(1075, 2));
}

#[test]
fn total_is_exact_where_binary_floats_are_not() {
    // 1 x 2.00 gives exactly 2, down to the representation: mantissa 200
    // at scale 2, never an approximation.
    let order = order_of(vec![item(Decimal::new(1, 0), Decimal::new(200, 2))]);
    let total = order.total();
    assert_eq!(total.mantissa, 200);
    assert_eq!(total.scale, 2);
    assert_eq!(total, Decimal::new(2, 0));

    // 1 x 0.1 + 1 x 0.2 is exactly 0.3.
    let order = order_of(vec![
        item(Decimal::new(1, 0), Decimal::new(1, 1)),
        item(Decimal::new(1, 0), Decimal::new(2, 1)),
    ]);
    assert_eq!(order.total(), Decimal::new(3, 1));
}

#[test]
fn total_ignores_item_order() {
    let a = item(Decimal::new(2, 0), Decimal::new(350, 2));
    let b = item(Decimal::new(15, 1), Decimal::new(200, 2));
    let c = item(Decimal::new(3, 0), Decimal::new(25, 2));
    let forward = order_of(vec![a, b, c]);
    let shuffled = order_of(vec![c, a, b]);
    assert_eq!(forward.total(), shuffled.total());
}

#[test]
fn total_lets_negative_amounts_flow_through() {
    // the aggregate does not police signs: -1 x 2.00 totals -2.00
    let order = order_of(vec![item(Decimal::new(-1, 0), Decimal::new(200, 2))]);
    assert_eq!(order.total(), Decimal::new(-2, 0));
}

#[test]
fn total_reaches_the_representation_limits() {
    // the largest representable mantissa, times one, passes through intact
    let order = order_of(vec![item(
        Decimal::new(order_service::decimal::MAX_MANTISSA, 0),
        Decimal::new(1, 0),
    )]);
    assert_eq!(
        order.total(),
        Decimal::new(order_service::decimal::MAX_MANTISSA, 0)
    );

    // the finest representable grain, 10^-28, survives summation exactly
    let order = order_of(vec![
        item(Decimal::new(1, 28), Decimal::new(1, 0)),
        item(Decimal::new(2, 28), Decimal::new(1, 0)),
    ]);
    assert_eq!(order.total(), Decimal::new(3, 28));
}

#[test]
fn decimal_equality_is_value_equality() {
    assert_eq!(Decimal::new(200, 2), Decimal::new(2, 0));
    assert_eq!(Decimal::new(-200, 2), Decimal::new(-2, 0));
    assert_eq!(Decimal::new(0, 5), Decimal::new(0, 0));
    assert_ne!(Decimal::new(2001, 3), Decimal::new(2, 0));
    assert_ne!(Decimal::new(1, 28), Decimal::new(1, 0));
}

#[test]
fn well_formedness_is_checkable_at_the_boundary() {
    assert!(Decimal::new(1, 0).well_formed());
    let out_of_range = Decimal {
        mantissa: i128::MAX,
        scale: 0,
    };
    assert!(!out_of_range.well_formed());
    let too_fine = Decimal {
        mantissa: 1,
        scale: 29,
    };
    assert!(!too_fine.well_formed());

    let ok = order_of(vec![item(Decimal::new(1, 0), Decimal::new(200, 2))]);
    assert!(ok.well_formed());
    let mut bad = order_of(vec![item(Decimal::new(1, 0), Decimal::new(200, 2))]);
    bad.items[0].unit_price = too_fine;
    assert!(!bad.well_formed());
}
