//! Tests of the repository port's contract, through the in-memory fake
//! adapter.

use order_service::decimal::Decimal;
use order_service::order::{Order, ProductOrderItem};
use order_service::order_repo::{FakeOrderRepo, OrderRepo, OrderRepoError};
use uuid::Uuid;

fn sample_order() -> Order {
    let item = ProductOrderItem {
        order_id: Uuid::new_v4().as_u128(),
        product_id: Uuid::new_v4().as_u128(),
        quantity: Decimal::new(3, 0),
        unit_price: Decimal::new(199, 2),
    };
    Order {
        order_id: Uuid::new_v4().as_u128(),
        customer_id: Uuid::new_v4().as_u128(),
        items: vec![item],
    }
}

#[test]
fn create_echoes_the_order_total() {
    let repo = FakeOrderRepo { fail_with: None };
    let order = sample_order();
    let expected_total = order.total();
    let persisted = repo.create(order).expect("create should succeed");
    // 3 x 1.99 = 5.97
    assert_eq!(persisted.total(), expected_total);
    assert_eq!(persisted.total(), Decimal::new(597, 2));
}

#[test]
fn create_surfaces_storage_failure() {
    let repo = FakeOrderRepo {
        fail_with: Some(OrderRepoError::TransientStorage),
    };
    let result = repo.create(sample_order());
    assert_eq!(result.unwrap_err(), OrderRepoError::TransientStorage);
}

#[test]
fn create_reports_each_failure_kind() {
    let kinds = [
        OrderRepoError::Validation,
        OrderRepoError::Conflict,
        OrderRepoError::TransientStorage,
        OrderRepoError::PermanentStorage,
    ];
    for kind in kinds {
        let repo = FakeOrderRepo {
            fail_with: Some(kind),
        };
        assert_eq!(repo.create(sample_order()).unwrap_err(), kind);
    }
}

#[test]
fn create_accepts_an_empty_order() {
    let repo = FakeOrderRepo { fail_with: None };
    let order = Order {
        order_id: Uuid::new_v4().as_u128(),
        customer_id: Uuid::new_v4().as_u128(),
        items: vec![],
    };
    let persisted = repo.create(order).expect("create should succeed");
    assert_eq!(persisted.total(), Decimal::new(0, 0));
}
