//! A purchase-order aggregate and its persistence port.
//!
//! The aggregate is an `Order`: a list of line items, each carrying an
//! exact decimal quantity and unit price.  Its one derived computation,
//! `Order::total`, is proved to return the exact decimal sum of the
//! per-item subtotals.  Storage is abstracted behind the `OrderRepo`
//! port, whose contract every adapter must satisfy.

pub mod decimal;
pub mod health;
pub mod order;
pub mod order_repo;
