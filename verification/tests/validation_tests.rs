use greeniem::error::ErrorKind;
use greeniem::shared::{AdminCredentials, Category, OrderInput, OrderItem, PaymentMethod, ProductInput};
use greeniem::validation::{validate_credentials, validate_order_input, validate_product_input};

fn creds(u: &str, p: &str) -> AdminCredentials {
    AdminCredentials { username: u.to_string(), password: p.to_string() }
}

fn message<T>(r: Result<T, greeniem::error::AppError>) -> String {
    let e = r.err().unwrap();
    assert_eq!(e.kind, ErrorKind::BadRequest);
    assert_eq!(e.status(), 400);
    e.message
}

#[test]
fn credentials_rules() {
    assert!(validate_credentials(&creds("admin", "password1")).is_ok());
    assert_eq!(message(validate_credentials(&creds(" ab ", "password1"))), "username must be 3-64 characters");
    assert_eq!(message(validate_credentials(&creds(&"a".repeat(65), "password1"))), "username must be 3-64 characters");
    assert_eq!(message(validate_credentials(&creds("admin", "short"))), "password must be at least 8 characters");
    assert_eq!(message(validate_credentials(&creds("admin", &"p".repeat(201)))), "password must be at least 8 characters");
    // Lengths count bytes: "ắắ" is 6 bytes.
    assert!(validate_credentials(&creds("ắắ", "password1")).is_ok());
}

fn order(items: Vec<OrderItem>) -> OrderInput {
    OrderInput {
        customer_name: "Nguyễn Văn A".to_string(),
        phone: "0901234567".to_string(),
        address: "1 Lê Lợi, Q1".to_string(),
        note: String::new(),
        items,
        payment_method: PaymentMethod::Cod,
    }
}

fn item(q: i64) -> OrderItem {
    OrderItem { product_id: "p".to_string(), name: "n".to_string(), price: 1, quantity: q }
}

#[test]
fn order_rules_in_order() {
    assert!(validate_order_input(&order(vec![item(1), item(1000)])).is_ok());
    let mut o = order(vec![item(1)]);
    o.customer_name = "  ".to_string();
    assert_eq!(message(validate_order_input(&o)), "invalid customer_name");
    let mut o = order(vec![item(1)]);
    o.phone = "1".repeat(31);
    assert_eq!(message(validate_order_input(&o)), "invalid phone");
    let mut o = order(vec![item(1)]);
    o.address = String::new();
    assert_eq!(message(validate_order_input(&o)), "invalid address");
    let mut o = order(vec![item(1)]);
    o.note = "x".repeat(1001);
    assert_eq!(message(validate_order_input(&o)), "note too long");
    assert_eq!(message(validate_order_input(&order(vec![]))), "invalid items");
    assert_eq!(message(validate_order_input(&order(vec![item(1); 101]))), "invalid items");
    assert_eq!(message(validate_order_input(&order(vec![item(1), item(0)]))), "invalid quantity");
    assert_eq!(message(validate_order_input(&order(vec![item(1001)]))), "invalid quantity");
}

fn product() -> ProductInput {
    ProductInput {
        name: "GreenIEM Nova X1".to_string(),
        description: "IEM".to_string(),
        price: 1_890_000,
        category: Category::Iem,
        image_url: "https://example.com/a.png".to_string(),
        stock: 25,
    }
}

#[test]
fn product_rules_in_order() {
    assert!(validate_product_input(&product()).is_ok());
    let mut p = product();
    p.name = "\t".to_string();
    assert_eq!(message(validate_product_input(&p)), "invalid name");
    let mut p = product();
    p.description = "d".repeat(5001);
    assert_eq!(message(validate_product_input(&p)), "description too long");
    let mut p = product();
    p.price = -1;
    assert_eq!(message(validate_product_input(&p)), "invalid price");
    let mut p = product();
    p.price = 1_000_000_001;
    assert_eq!(message(validate_product_input(&p)), "invalid price");
    let mut p = product();
    p.stock = 1_000_001;
    assert_eq!(message(validate_product_input(&p)), "invalid stock");
    let mut p = product();
    p.image_url = "ftp://example.com/a.png".to_string();
    assert_eq!(message(validate_product_input(&p)), "invalid image url");
    let mut p = product();
    p.image_url = format!("http://{}", "a".repeat(2000));
    assert_eq!(message(validate_product_input(&p)), "invalid image url");
    let mut p = product();
    p.image_url = "http://x".to_string();
    assert!(validate_product_input(&p).is_ok());
}
