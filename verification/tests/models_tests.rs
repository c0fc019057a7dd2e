use greeniem::error::ErrorKind;
use greeniem::models::{object_id_to_hex, parse_object_id, OrderDoc, ProductDoc};
use greeniem::orders::PricedOrder;
use greeniem::shared::{Category, OrderInput, OrderItem, OrderStatus, PaymentMethod, ProductInput};

const ID: [u8; 12] = [0x65, 0x0f, 0x1a, 0x2b, 0x3c, 0x4d, 0x5e, 0x6f, 0x70, 0x81, 0x92, 0xa3];

#[test]
fn object_ids_round_trip_through_text() {
    let hex = object_id_to_hex(&ID);
    assert_eq!(hex, "650f1a2b3c4d5e6f708192a3");
    assert_eq!(parse_object_id(&hex), Some(ID));
    assert_eq!(parse_object_id(&hex.to_uppercase()), Some(ID));
    assert_eq!(parse_object_id("not-an-id"), None);
}

#[test]
fn product_documents_convert_both_ways() {
    let input = ProductInput {
        name: "DAC".to_string(),
        description: "d".to_string(),
        price: 990_000,
        category: Category::Dongle,
        image_url: "https://x/y".to_string(),
        stock: 40,
    };
    let mut doc = ProductDoc::from_input(input, 1_700_000_000);
    assert_eq!(doc.id, None);
    assert_eq!(doc.clone().into_dto().id, "");
    doc.id = Some(ID);
    let p = doc.into_dto();
    assert_eq!(p.id, "650f1a2b3c4d5e6f708192a3");
    assert_eq!(p.price, 990_000);
    assert_eq!(p.category, Category::Dongle);
    assert_eq!(p.created_at, 1_700_000_000);
}

#[test]
fn new_orders_are_pending() {
    let input = OrderInput {
        customer_name: "A".to_string(),
        phone: "1".to_string(),
        address: "x".to_string(),
        note: String::new(),
        items: vec![],
        payment_method: PaymentMethod::BankTransfer,
    };
    let doc = OrderDoc::from_input(input, 42, 7);
    assert_eq!(doc.status, OrderStatus::Pending);
    let o = doc.into_dto();
    assert_eq!(o.total, 42);
    assert_eq!(o.created_at, 7);
    assert_eq!(o.payment_method, PaymentMethod::BankTransfer);
}

fn stored(name: &str, price: i64) -> ProductDoc {
    ProductDoc {
        id: Some(ID),
        name: name.to_string(),
        description: String::new(),
        price,
        category: Category::Iem,
        image_url: String::new(),
        stock: 1,
        created_at: 0,
    }
}

#[test]
fn orders_are_priced_from_the_catalogue() {
    let mut priced = PricedOrder::new();
    let tampered = OrderItem { product_id: "p1".to_string(), name: "cheap".to_string(), price: 1, quantity: 3 };
    assert!(priced.add_line(&tampered, &stored("Nova X1", 1_890_000)));
    let second = OrderItem { product_id: "p2".to_string(), name: "x".to_string(), price: 0, quantity: 2 };
    assert!(priced.add_line(&second, &stored("Cable", 450_000)));
    assert_eq!(priced.total, 3 * 1_890_000 + 2 * 450_000);
    assert_eq!(
        priced.items,
        vec![
            OrderItem { product_id: "p1".to_string(), name: "Nova X1".to_string(), price: 1_890_000, quantity: 3 },
            OrderItem { product_id: "p2".to_string(), name: "Cable".to_string(), price: 450_000, quantity: 2 },
        ]
    );
}

#[test]
fn pricing_refuses_overflow_and_keeps_state() {
    let mut priced = PricedOrder::new();
    let item = OrderItem { product_id: "p".to_string(), name: String::new(), price: 0, quantity: 2 };
    assert!(!priced.add_line(&item, &stored("huge", i64::MAX)));
    assert_eq!(priced.total, 0);
    assert!(priced.items.is_empty());
}

#[test]
fn order_lines_are_looked_up_by_their_product_id() {
    let item = OrderItem { product_id: "650F1A2B3C4D5E6F708192A3".to_string(), name: String::new(), price: 0, quantity: 1 };
    assert_eq!(PricedOrder::lookup_key(&item), Ok(ID));
    let bad = OrderItem { product_id: "p1".to_string(), name: String::new(), price: 0, quantity: 1 };
    let err = PricedOrder::lookup_key(&bad).unwrap_err();
    assert_eq!(err.kind, ErrorKind::BadRequest);
    assert_eq!(err.message, "invalid product id");
}

#[test]
fn a_missing_product_stops_pricing_and_keeps_state() {
    let mut priced = PricedOrder::new();
    let first = OrderItem { product_id: "p1".to_string(), name: "cheap".to_string(), price: 1, quantity: 2 };
    assert_eq!(priced.price_item(&first, Some(stored("Nova X1", 1_890_000))), Ok(()));
    let second = OrderItem { product_id: "p2".to_string(), name: "x".to_string(), price: 0, quantity: 1 };
    let err = priced.price_item(&second, None).unwrap_err();
    assert_eq!(err.kind, ErrorKind::BadRequest);
    assert_eq!(err.message, "product not found");
    assert_eq!(priced.total, 2 * 1_890_000);
    assert_eq!(
        priced.items,
        vec![OrderItem { product_id: "p1".to_string(), name: "Nova X1".to_string(), price: 1_890_000, quantity: 2 }]
    );
}
