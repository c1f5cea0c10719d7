//! The purchase-order aggregate: an order, its line items, and the exact
//! decimal total.
//!
//! The money arithmetic lives on [`crate::decimal::Decimal`]; identifiers
//! are opaque 128-bit values, pre-generated by the caller.  The value of a
//! decimal is read in units of `10^-28` ([`Decimal::units`]); a product of
//! two such values is therefore measured in units of `10^-56`, and so is
//! the sum of products [`sum_subtotals`] that [`Order::total`] is proved to
//! return.

use vstd::prelude::*;

verus! {

use crate::decimal::{pow10, Decimal, MAX_MANTISSA, MAX_SCALE};
use vstd::arithmetic::mul::lemma_mul_is_distributive_add_other_way;
use vstd::arithmetic::power::lemma_pow_adds;
use vstd::math::max;

/// A line item: a quantity of one product at a unit price, priced within
/// exactly one order.
#[derive(Clone, Copy, Debug)]
pub struct ProductOrderItem {
    /// Back-reference to the owning order.
    pub order_id: u128,
    /// Identifier of the purchased product; opaque to the aggregate.
    pub product_id: u128,
    /// Exact decimal amount purchased.
    pub quantity: Decimal,
    /// Exact decimal price of one unit.
    pub unit_price: Decimal,
}

impl ProductOrderItem {
    /// Both decimal fields are well-formed.
    pub open spec fn wf(self) -> bool {
        self.quantity.wf() && self.unit_price.wf()
    }

    /// Mantissa of the exact product `quantity * unit_price`.
    pub open spec fn subtotal_mantissa(self) -> int {
        self.quantity.mantissa * self.unit_price.mantissa
    }

    /// Scale of the exact product `quantity * unit_price`.
    pub open spec fn subtotal_scale(self) -> int {
        self.quantity.scale + self.unit_price.scale
    }

    /// The exact value of `quantity * unit_price`, in units of `10^-56`.
    pub open spec fn subtotal_units(self) -> int {
        self.quantity.units() * self.unit_price.units()
    }

    /// The exact product of quantity and unit price stays representable.
    pub open spec fn subtotal_exact(self) -> bool {
        &&& -MAX_MANTISSA <= self.subtotal_mantissa() <= MAX_MANTISSA
        &&& self.subtotal_scale() <= MAX_SCALE
    }

    #[allow(dead_code)]
    fn order_id(&self) -> (r: u128)
        ensures
            r == self.order_id,
    {
        self.order_id
    }

    /// The exact subtotal `quantity * unit_price` as a decimal.
    fn total(&self) -> (r: Decimal)
        requires
            self.wf(),
            self.subtotal_exact(),
        ensures
            r.wf(),
            r.mantissa == self.subtotal_mantissa(),
            r.scale == self.subtotal_scale(),
            r.units() * pow10(MAX_SCALE as nat) == self.subtotal_units(),
    {
        let r = Decimal {
            mantissa: self.quantity.mantissa * self.unit_price.mantissa,
            scale: self.quantity.scale + self.unit_price.scale,
        };
        proof {
            lemma_subtotal_units(*self);
        }
        r
    }
}

/// The aggregate root: a purchase order.
#[derive(Clone, Debug)]
pub struct Order {
    /// Globally unique identifier, assigned by the caller before the
    /// aggregate is constructed.
    pub order_id: u128,
    /// Identifier of the purchasing party; opaque to the aggregate.
    pub customer_id: u128,
    /// The line items, in insertion order; may be empty.
    pub items: Vec<ProductOrderItem>,
}

/// Every item's decimals are well-formed.
pub open spec fn items_wf(items: Seq<ProductOrderItem>) -> bool {
    forall|i: int| 0 <= i < items.len() ==> (#[trigger] items[i]).wf()
}

/// The exact sum of the items' subtotals, in units of `10^-56`.
pub open spec fn sum_subtotals(items: Seq<ProductOrderItem>) -> int
    decreases items.len(),
{
    if items.len() == 0 {
        0
    } else {
        sum_subtotals(items.drop_last()) + items.last().subtotal_units()
    }
}

/// Scale of the running total after summing `items` left to right,
/// starting from `0` at scale `0`: the widest subtotal scale seen so far.
pub open spec fn fold_scale(items: Seq<ProductOrderItem>) -> int
    decreases items.len(),
{
    if items.len() == 0 {
        0
    } else {
        max(fold_scale(items.drop_last()), items.last().subtotal_scale())
    }
}

/// Mantissa of the running total after summing `items` left to right: the
/// previous total and the last subtotal, both brought to the common scale.
pub open spec fn fold_mantissa(items: Seq<ProductOrderItem>) -> int
    decreases items.len(),
{
    if items.len() == 0 {
        0
    } else {
        fold_mantissa(items.drop_last()) * pow10(
            (fold_scale(items) - fold_scale(items.drop_last())) as nat,
        ) + items.last().subtotal_mantissa() * pow10(
            (fold_scale(items) - items.last().subtotal_scale()) as nat,
        )
    }
}

/// Every step of the summation is exact: each subtotal and each running
/// total stays within the mantissa range.  Anything beyond would be a
/// fatal arithmetic error, which [`Order::total`] rules out up front
/// rather than rounding or wrapping.
pub open spec fn total_exact(items: Seq<ProductOrderItem>) -> bool
    decreases items.len(),
{
    if items.len() == 0 {
        true
    } else {
        let prev = items.drop_last();
        let s = fold_scale(items);
        &&& total_exact(prev)
        &&& items.last().subtotal_exact()
        &&& -MAX_MANTISSA <= fold_mantissa(prev) * pow10((s - fold_scale(prev)) as nat)
            <= MAX_MANTISSA
        &&& -MAX_MANTISSA <= items.last().subtotal_mantissa() * pow10(
            (s - items.last().subtotal_scale()) as nat,
        ) <= MAX_MANTISSA
        &&& -MAX_MANTISSA <= fold_mantissa(items) <= MAX_MANTISSA
    }
}

impl Order {
    /// The aggregate is well-formed: every line item is.
    pub open spec fn wf(self) -> bool {
        items_wf(self.items@)
    }

    /// True exactly when [`Order::wf`] holds; lets unverified callers
    /// establish the repository port's precondition before calling it.
    pub fn well_formed(&self) -> (r: bool)
        ensures
            r == self.wf(),
    {
        let n = self.items.len();
        let mut i: usize = 0;
        while i < n
            invariant
                i <= n,
                n == self.items@.len(),
                forall|j: int| 0 <= j < i ==> (#[trigger] self.items@[j]).wf(),
            decreases n - i,
        {
            let it = self.items[i];
            if !(it.quantity.well_formed() && it.unit_price.well_formed()) {
                return false;
            }
            i = i + 1;
        }
        true
    }

    /// The exact decimal sum of `quantity * unit_price` over all line
    /// items; an empty order totals exactly zero.
    ///
    /// The postcondition pins the result completely: its representation is
    /// the left-to-right fold of exact products and exact sums, and its
    /// value, in units of `10^-56`, is exactly [`sum_subtotals`].
    #[verifier::loop_isolation(false)]
    pub fn total(&self) -> (r: Decimal)
        requires
            self.wf(),
            total_exact(self.items@),
        ensures
            r.wf(),
            r.mantissa == fold_mantissa(self.items@),
            r.scale == fold_scale(self.items@),
            r.units() * pow10(MAX_SCALE as nat) == sum_subtotals(self.items@),
    {
        let mut acc = Decimal { mantissa: 0, scale: 0 };
        let n = self.items.len();
        let mut i: usize = 0;
        while i < n
            invariant
                i <= n,
                acc.wf(),
                acc.mantissa == fold_mantissa(self.items@.take(i as int)),
                acc.scale == fold_scale(self.items@.take(i as int)),
            decreases n - i,
        {
            let it = self.items[i];
            proof {
                lemma_total_exact_prefix(self.items@, i + 1);
                assert(self.items@.take(i + 1).drop_last() =~= self.items@.take(i as int));
                assert(self.items@.take(i + 1).last() == it);
            }
            let t = it.total();
            acc = acc.plus(t);
            i = i + 1;
        }
        proof {
            assert(self.items@.take(n as int) =~= self.items@);
            lemma_fold_units(self.items@);
        }
        acc
    }
}

/// Exactness of the whole summation carries over to every prefix.
proof fn lemma_total_exact_prefix(items: Seq<ProductOrderItem>, j: int)
    requires
        total_exact(items),
        0 <= j <= items.len(),
    ensures
        total_exact(items.take(j)),
    decreases items.len() - j,
{
    if j == items.len() {
        assert(items.take(j) =~= items);
    } else {
        lemma_total_exact_prefix(items, j + 1);
        assert(items.take(j + 1).drop_last() =~= items.take(j));
    }
}

/// The fold's result, read at scale [`MAX_SCALE`] and then in units of
/// `10^-56`, is exactly the sum of the items' subtotal values.
proof fn lemma_fold_units(items: Seq<ProductOrderItem>)
    requires
        items_wf(items),
        total_exact(items),
    ensures
        fold_mantissa(items) * pow10((MAX_SCALE - fold_scale(items)) as nat) * pow10(
            MAX_SCALE as nat,
        ) == sum_subtotals(items),
    decreases items.len(),
{
    if items.len() > 0 {
        let prev = items.drop_last();
        let last = items.last();
        let s = fold_scale(items);
        let sp = fold_scale(prev);
        let sl = last.subtotal_scale();
        assert(items_wf(prev) && prev.len() < items.len()) by {
            assert(forall|i: int| 0 <= i < prev.len() ==> prev[i] == items[i]);
        }
        lemma_fold_units(prev);
        lemma_subtotal_units(last);
        lemma_fold_scale_bounds(items);
        lemma_fold_scale_bounds(prev);
        let x = fold_mantissa(prev);
        let y = last.subtotal_mantissa();
        assert(pow10((s - sp) as nat) * pow10((MAX_SCALE - s) as nat) == pow10(
            (MAX_SCALE - sp) as nat,
        )) by {
            lemma_pow_adds(10, (s - sp) as nat, (MAX_SCALE - s) as nat);
        }
        assert(pow10((s - sl) as nat) * pow10((MAX_SCALE - s) as nat) == pow10(
            (MAX_SCALE - sl) as nat,
        )) by {
            lemma_pow_adds(10, (s - sl) as nat, (MAX_SCALE - s) as nat);
        }
        let ap = pow10((MAX_SCALE - sp) as nat);
        let bp = pow10((MAX_SCALE - sl) as nat);
        let d = pow10(MAX_SCALE as nat);
        lemma_fold_distribute(
            x,
            y,
            pow10((s - sp) as nat),
            pow10((s - sl) as nat),
            pow10((MAX_SCALE - s) as nat),
            ap,
            bp,
        );
        lemma_mul_is_distributive_add_other_way(d, x * ap, y * bp);
    }
}

/// Ring identity behind [`lemma_fold_units`]: bringing both summands to the
/// common scale distributes over the sum.
proof fn lemma_fold_distribute(
    x: int,
    y: int,
    a: int,
    b: int,
    c: int,
    ap: int,
    bp: int,
) by (nonlinear_arith)
    requires
        a * c == ap,
        b * c == bp,
    ensures
        (x * a + y * b) * c == x * ap + y * bp,
{
}

/// Under [`total_exact`], the fold's scale stays within `0 ..= MAX_SCALE`.
proof fn lemma_fold_scale_bounds(items: Seq<ProductOrderItem>)
    requires
        total_exact(items),
    ensures
        0 <= fold_scale(items) <= MAX_SCALE,
    decreases items.len(),
{
    if items.len() > 0 {
        lemma_fold_scale_bounds(items.drop_last());
    }
}

/// Law: reordering the line items of an order does not change its total.
///
/// Two orders whose items are a permutation of one another have the same
/// exact sum of subtotals; and wherever both totals are computable, the
/// decimals [`Order::total`] returns for them denote the same number
/// (their [`Decimal::units`] agree, so they compare equal).
pub proof fn lemma_total_commutative(a: Order, b: Order)
    requires
        a.items@.to_multiset() == b.items@.to_multiset(),
    ensures
        sum_subtotals(a.items@) == sum_subtotals(b.items@),
        a.wf() && b.wf() && total_exact(a.items@) && total_exact(b.items@) ==> fold_mantissa(
            a.items@,
        ) * pow10((MAX_SCALE - fold_scale(a.items@)) as nat) == fold_mantissa(b.items@) * pow10(
            (MAX_SCALE - fold_scale(b.items@)) as nat,
        ),
{
    lemma_sum_subtotals_permutation(a.items@, b.items@);
    if a.wf() && b.wf() && total_exact(a.items@) && total_exact(b.items@) {
        lemma_fold_units(a.items@);
        lemma_fold_units(b.items@);
        let ua = fold_mantissa(a.items@) * pow10((MAX_SCALE - fold_scale(a.items@)) as nat);
        let ub = fold_mantissa(b.items@) * pow10((MAX_SCALE - fold_scale(b.items@)) as nat);
        vstd::arithmetic::power::lemma_pow_positive(10, MAX_SCALE as nat);
        assert(ua == ub) by (nonlinear_arith)
            requires
                ua * pow10(MAX_SCALE as nat) == ub * pow10(MAX_SCALE as nat),
                pow10(MAX_SCALE as nat) > 0,
        ;
    }
}

/// Summing subtotals is invariant under permutation of the sequence.
proof fn lemma_sum_subtotals_permutation(a: Seq<ProductOrderItem>, b: Seq<ProductOrderItem>)
    requires
        a.to_multiset() == b.to_multiset(),
    ensures
        sum_subtotals(a) == sum_subtotals(b),
    decreases a.len(),
{
    broadcast use vstd::seq_lib::group_to_multiset_ensures;

    if a.len() == 0 {
        assert(b.to_multiset().len() == 0);
    } else {
        let x = a.last();
        let i = a.len() - 1;
        assert(a.to_multiset().count(x) > 0) by {
            assert(a.contains(x));
        }
        assert(b.contains(x));
        let j = choose|j: int| 0 <= j < b.len() && b[j] == x;
        lemma_sum_subtotals_remove(b, j);
        assert(a.remove(i) =~= a.drop_last());
        assert(a.drop_last().to_multiset() == b.remove(j).to_multiset()) by {
            assert(a.remove(i).to_multiset() =~= a.to_multiset().remove(x));
            assert(b.remove(j).to_multiset() =~= b.to_multiset().remove(x));
        }
        lemma_sum_subtotals_permutation(a.drop_last(), b.remove(j));
    }
}

/// Taking one item out of the sum leaves the sum of the rest.
proof fn lemma_sum_subtotals_remove(s: Seq<ProductOrderItem>, i: int)
    requires
        0 <= i < s.len(),
    ensures
        sum_subtotals(s) == sum_subtotals(s.remove(i)) + s[i].subtotal_units(),
    decreases s.len(),
{
    if i == s.len() - 1 {
        assert(s.remove(i) =~= s.drop_last());
    } else {
        lemma_sum_subtotals_remove(s.drop_last(), i);
        assert(s.remove(i).drop_last() =~= s.drop_last().remove(i));
        assert(s.remove(i).last() == s.last());
    }
}

/// A subtotal's mantissa and scale, read at scale [`MAX_SCALE`] and then in
/// units of `10^-56`, give exactly the product of the two factors' values.
proof fn lemma_subtotal_units(it: ProductOrderItem)
    requires
        it.wf(),
        it.subtotal_scale() <= MAX_SCALE,
    ensures
        it.subtotal_mantissa() * pow10((MAX_SCALE - it.subtotal_scale()) as nat) * pow10(
            MAX_SCALE as nat,
        ) == it.subtotal_units(),
{
    let sq = it.quantity.scale as int;
    let sp = it.unit_price.scale as int;
    let a = pow10((MAX_SCALE - sq) as nat);
    let b = pow10((MAX_SCALE - sp) as nat);
    let c = pow10((MAX_SCALE - sq - sp) as nat);
    let d = pow10(MAX_SCALE as nat);
    assert(a * b == c * d) by {
        lemma_pow_adds(10, (MAX_SCALE - sq) as nat, (MAX_SCALE - sp) as nat);
        lemma_pow_adds(10, (MAX_SCALE - sq - sp) as nat, MAX_SCALE as nat);
    }
    assert(it.quantity.mantissa * it.unit_price.mantissa * c * d == (it.quantity.mantissa * a) * (
    it.unit_price.mantissa * b)) by (nonlinear_arith)
        requires
            a * b == c * d,
    ;
}

} // verus!
