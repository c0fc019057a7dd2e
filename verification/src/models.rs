//! The records as the database stores them, and their conversion to and
//! from what the client sees. A database identifier is its 12 bytes; the
//! client sees it as 24 lower-case hexadecimal digits.

use vstd::prelude::*;

use crate::shared::{
    item_views, Category, Order, OrderInput, OrderItem, OrderStatus, PaymentMethod, Product,
    ProductInput,
};
use crate::text::{
    decode_hex, decode_hex_12, hex_lower, hex_pair_value, lemma_hex_lower_decodes, push_hex_lower,
    string_from_chars,
};

verus! {

/// The 24-digit hexadecimal text of a database identifier, or the empty text
/// for a record not stored yet.
pub open spec fn id_text(id: Option<[u8; 12]>) -> Seq<char> {
    match id {
        Some(b) => hex_lower(b@),
        None => Seq::empty(),
    }
}

/// The hexadecimal text of an identifier, as `ObjectId::to_hex` writes it.
pub fn object_id_to_hex(id: &[u8; 12]) -> (s: String)
    ensures
        s@ == hex_lower(id@),
{
    let mut out: Vec<char> = Vec::new();
    push_hex_lower(&mut out, id.as_slice());
    assert(out@ =~= hex_lower(id@));
    string_from_chars(&out)
}

/// Reads an identifier from its text, as `ObjectId::parse_str` does: exactly
/// 24 hexadecimal digits of either case.
pub fn parse_object_id(s: &str) -> (r: Option<[u8; 12]>)
    ensures
        match r {
            Some(b) => decode_hex(s@, 12) == Some(b@),
            None => decode_hex(s@, 12) is None,
        },
{
    decode_hex_12(s)
}

fn id_to_text(id: Option<[u8; 12]>) -> (s: String)
    ensures
        s@ == id_text(id),
{
    match id {
        Some(b) => object_id_to_hex(&b),
        None => String::new(),
    }
}

/// The query of the product list: an optional category wire name that the
/// listed products must have.
#[derive(Debug, Clone, PartialEq)]
pub struct ProductQuery {
    pub category: Option<String>,
}

/// A stored product.
#[derive(Debug, Clone, PartialEq)]
pub struct ProductDoc {
    pub id: Option<[u8; 12]>,
    pub name: String,
    pub description: String,
    pub price: i64,
    pub category: Category,
    pub image_url: String,
    pub stock: i64,
    pub created_at: i64,
}

impl ProductDoc {
    /// A new, not yet stored, product made from an administrator's input.
    pub fn from_input(input: ProductInput, created_at: i64) -> (d: ProductDoc)
        ensures
            d.id is None,
            d.name@ == input.name@,
            d.description@ == input.description@,
            d.price == input.price,
            d.category == input.category,
            d.image_url@ == input.image_url@,
            d.stock == input.stock,
            d.created_at == created_at,
    {
        ProductDoc {
            id: None,
            name: input.name,
            description: input.description,
            price: input.price,
            category: input.category,
            image_url: input.image_url,
            stock: input.stock,
            created_at,
        }
    }

    /// The product as the client sees it.
    pub fn into_dto(self) -> (p: Product)
        ensures
            p.id@ == id_text(self.id),
            p.name@ == self.name@,
            p.description@ == self.description@,
            p.price == self.price,
            p.category == self.category,
            p.image_url@ == self.image_url@,
            p.stock == self.stock,
            p.created_at == self.created_at,
    {
        Product {
            id: id_to_text(self.id),
            name: self.name,
            description: self.description,
            price: self.price,
            category: self.category,
            image_url: self.image_url,
            stock: self.stock,
            created_at: self.created_at,
        }
    }
}

/// A stored order.
#[derive(Debug, Clone, PartialEq)]
pub struct OrderDoc {
    pub id: Option<[u8; 12]>,
    pub customer_name: String,
    pub phone: String,
    pub address: String,
    pub note: String,
    pub items: Vec<OrderItem>,
    pub total: i64,
    pub payment_method: PaymentMethod,
    pub status: OrderStatus,
    pub created_at: i64,
}

impl OrderDoc {
    /// A new, not yet stored, order: pending, with the given total and time.
    pub fn from_input(input: OrderInput, total: i64, created_at: i64) -> (d: OrderDoc)
        ensures
            d.id is None,
            d.customer_name@ == input.customer_name@,
            d.phone@ == input.phone@,
            d.address@ == input.address@,
            d.note@ == input.note@,
            item_views(d.items@) == item_views(input.items@),
            d.total == total,
            d.payment_method == input.payment_method,
            d.status == OrderStatus::Pending,
            d.created_at == created_at,
    {
        OrderDoc {
            id: None,
            customer_name: input.customer_name,
            phone: input.phone,
            address: input.address,
            note: input.note,
            items: input.items,
            total,
            payment_method: input.payment_method,
            status: OrderStatus::Pending,
            created_at,
        }
    }

    /// The order as the client sees it.
    pub fn into_dto(self) -> (o: Order)
        ensures
            o.id@ == id_text(self.id),
            o.customer_name@ == self.customer_name@,
            o.phone@ == self.phone@,
            o.address@ == self.address@,
            o.note@ == self.note@,
            item_views(o.items@) == item_views(self.items@),
            o.total == self.total,
            o.payment_method == self.payment_method,
            o.status == self.status,
            o.created_at == self.created_at,
    {
        Order {
            id: id_to_text(self.id),
            customer_name: self.customer_name,
            phone: self.phone,
            address: self.address,
            note: self.note,
            items: self.items,
            total: self.total,
            payment_method: self.payment_method,
            status: self.status,
            created_at: self.created_at,
        }
    }
}

/// The text of an identifier reads back as the same identifier.
pub proof fn law_object_id_text_round_trip(bytes: Seq<u8>)
    requires
        bytes.len() == 12,
    ensures
        decode_hex(hex_lower(bytes), 12) == Some(bytes),
{
    lemma_hex_lower_decodes(bytes);
    assert(Seq::new(12, |i: int| hex_pair_value(hex_lower(bytes), i)) =~= bytes);
}

} // verus!
