//! Pricing an order from the catalogue. Every line is priced from the stored
//! product, never from what the client sent, so a tampered checkout cannot
//! lower what an order costs.

use vstd::prelude::*;

use crate::error::{AppError, ErrorKind};
use crate::models::{parse_object_id, ProductDoc};
use crate::shared::{item_views, OrderItem, OrderItemView};
use crate::text::decode_hex;

verus! {

/// The line for `item` priced from a stored product with this name and price:
/// the client's product id and quantity, the product's name and price.
pub open spec fn priced_line(item: OrderItemView, name: Seq<char>, price: i64) -> OrderItemView {
    OrderItemView { product_id: item.product_id, name, price, quantity: item.quantity }
}

/// Every line of `items` priced from the product at the same position.
pub open spec fn repriced(items: Seq<OrderItemView>, names: Seq<Seq<char>>, prices: Seq<i64>) -> Seq<
    OrderItemView,
> {
    Seq::new(items.len(), |i: int| priced_line(items[i], names[i], prices[i]))
}

/// The sum over the lines of the stored price times the ordered quantity.
pub open spec fn amount(items: Seq<OrderItemView>, prices: Seq<i64>) -> int
    decreases items.len(),
{
    if items.len() == 0 || prices.len() < items.len() {
        0
    } else {
        amount(items.drop_last(), prices.take(items.len() - 1)) + prices[items.len() - 1]
            * items.last().quantity
    }
}

/// Whether a value lies in the range of `i64`.
pub open spec fn fits_i64(v: int) -> bool {
    i64::MIN <= v <= i64::MAX
}

/// The lines priced so far and their running total.
pub struct PricedOrder {
    pub items: Vec<OrderItem>,
    pub total: i64,
}

impl PricedOrder {
    /// No line yet, a total of zero.
    pub fn new() -> (p: PricedOrder)
        ensures
            p.items@.len() == 0,
            p.total == 0,
    {
        PricedOrder { items: Vec::new(), total: 0 }
    }

    /// Adds the line for `item` priced from the stored `product`. Answers
    /// `false`, changing nothing, when the line's amount or the new total
    /// would leave the range of `i64`.
    pub fn add_line(&mut self, item: &OrderItem, product: &ProductDoc) -> (ok: bool)
        ensures
            ok == (fits_i64(product.price * item.quantity) && fits_i64(
                old(self).total + product.price * item.quantity,
            )),
            ok ==> item_views(final(self).items@) == item_views(old(self).items@).push(
                priced_line(item@, product.name@, product.price),
            ),
            ok ==> final(self).total == old(self).total + product.price * item.quantity,
            !ok ==> item_views(final(self).items@) == item_views(old(self).items@),
            !ok ==> final(self).total == old(self).total,
    {
        let line_amount = match product.price.checked_mul(item.quantity) {
            Some(a) => a,
            None => return false,
        };
        let new_total = match self.total.checked_add(line_amount) {
            Some(t) => t,
            None => return false,
        };
        let line = OrderItem {
            product_id: item.product_id.clone(),
            name: product.name.clone(),
            price: product.price,
            quantity: item.quantity,
        };
        let ghost before = self.items@;
        self.items.push(line);
        assert(item_views(self.items@) =~= item_views(before).push(line@));
        self.total = new_total;
        true
    }

    /// The identifier under which the product of `item` is looked up: its
    /// product id read as 24 hexadecimal digits, or the `invalid product id`
    /// rejection when it is not one.
    pub fn lookup_key(item: &OrderItem) -> (r: Result<[u8; 12], AppError>)
        ensures
            match r {
                Ok(b) => decode_hex(item.product_id@, 12) == Some(b@),
                Err(e) => {
                    &&& decode_hex(item.product_id@, 12) is None
                    &&& e.kind == ErrorKind::BadRequest
                    &&& e.message@ == "invalid product id"@
                },
            },
    {
        match parse_object_id(item.product_id.as_str()) {
            Some(b) => Ok(b),
            None => Err(AppError::bad_request("invalid product id")),
        }
    }

    /// Prices the line for `item` with what the lookup of its product found.
    /// Nothing found is the `product not found` rejection and changes
    /// nothing; a stored product adds the line priced from it, as
    /// [`PricedOrder::add_line`] does.
    pub fn price_item(&mut self, item: &OrderItem, found: Option<ProductDoc>) -> (r: Result<
        (),
        AppError,
    >)
        requires
            found matches Some(p) ==> fits_i64(p.price * item.quantity) && fits_i64(
                old(self).total + p.price * item.quantity,
            ),
        ensures
            match found {
                None => {
                    &&& r matches Err(e)
                    &&& e.kind == ErrorKind::BadRequest
                    &&& e.message@ == "product not found"@
                    &&& item_views(final(self).items@) == item_views(old(self).items@)
                    &&& final(self).total == old(self).total
                },
                Some(p) => {
                    &&& r is Ok
                    &&& item_views(final(self).items@) == item_views(old(self).items@).push(
                        priced_line(item@, p.name@, p.price),
                    )
                    &&& final(self).total == old(self).total + p.price * item.quantity
                },
            },
    {
        match found {
            None => Err(AppError::bad_request("product not found")),
            Some(p) => {
                let ok = self.add_line(item, &p);
                assert(ok);
                Ok(())
            },
        }
    }
}

/// Adding the next line to lines priced so far gives the pricing of one more
/// line: successive calls of [`PricedOrder::add_line`] build [`repriced`] and
/// [`amount`] of the whole order.
pub proof fn law_lines_accumulate(
    items: Seq<OrderItemView>,
    names: Seq<Seq<char>>,
    prices: Seq<i64>,
    k: int,
)
    requires
        0 <= k < items.len(),
        names.len() == items.len(),
        prices.len() == items.len(),
    ensures
        repriced(items.take(k), names.take(k), prices.take(k)).push(
            priced_line(items[k], names[k], prices[k]),
        ) == repriced(items.take(k + 1), names.take(k + 1), prices.take(k + 1)),
        amount(items.take(k), prices.take(k)) + prices[k] * items[k].quantity == amount(
            items.take(k + 1),
            prices.take(k + 1),
        ),
{
    assert(repriced(items.take(k), names.take(k), prices.take(k)).push(
        priced_line(items[k], names[k], prices[k]),
    ) =~= repriced(items.take(k + 1), names.take(k + 1), prices.take(k + 1)));
    assert(items.take(k + 1).drop_last() =~= items.take(k));
    assert(prices.take(k + 1).take(k) =~= prices.take(k));
}

/// What the client sent as names and prices changes nothing: two orders with
/// the same products and quantities are priced the same, line by line and in
/// total.
pub proof fn law_client_prices_ignored(
    a: Seq<OrderItemView>,
    b: Seq<OrderItemView>,
    names: Seq<Seq<char>>,
    prices: Seq<i64>,
)
    requires
        a.len() == b.len(),
        forall|i: int|
            0 <= i < a.len() ==> (#[trigger] a[i]).product_id == b[i].product_id && a[i].quantity
                == b[i].quantity,
    ensures
        repriced(a, names, prices) == repriced(b, names, prices),
        amount(a, prices) == amount(b, prices),
    decreases a.len(),
{
    assert(repriced(a, names, prices) =~= repriced(b, names, prices));
    if a.len() > 0 && prices.len() >= a.len() {
        let n = a.len() - 1;
        assert forall|i: int| 0 <= i < a.drop_last().len() implies (
        #[trigger] a.drop_last()[i]).product_id == b.drop_last()[i].product_id
            && a.drop_last()[i].quantity == b.drop_last()[i].quantity by {
            assert(a.drop_last()[i] == a[i]);
            assert(b.drop_last()[i] == b[i]);
        }
        law_client_prices_ignored(a.drop_last(), b.drop_last(), names, prices.take(n));
        assert(a.last() == a[n]);
        assert(b.last() == b[n]);
    }
}

} // verus!
