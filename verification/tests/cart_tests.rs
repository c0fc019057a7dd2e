use greeniem::cart::{CartAction, CartLine, CartState};
use greeniem::shared::{Category, Product};

fn product(id: &str, price: i64) -> Product {
    Product {
        id: id.to_string(),
        name: format!("name-{id}"),
        description: String::new(),
        price,
        category: Category::Iem,
        image_url: format!("https://img/{id}"),
        stock: 5,
        created_at: 0,
    }
}

fn ids(c: &CartState) -> Vec<(String, i64)> {
    c.lines.iter().map(|l| (l.product_id.clone(), l.quantity)).collect()
}

#[test]
fn adding_merges_lines_of_the_same_product() {
    let c = CartState::default();
    let c = c.reduce(CartAction::Add(product("a", 100), 2));
    let c = c.reduce(CartAction::Add(product("b", 50), 1));
    let c = c.reduce(CartAction::Add(product("a", 999), 3));
    assert_eq!(ids(&c), vec![("a".to_string(), 5), ("b".to_string(), 1)]);
    // The stored price stays the one the line was created with.
    assert_eq!(c.lines[0].price, 100);
    assert_eq!(c.total(), 550);
    assert_eq!(c.item_count(), 6);
    assert_eq!(c.lines[0].name, "name-a");
    assert_eq!(c.lines[0].image_url, "https://img/a");
}

#[test]
fn set_quantity_updates_or_removes() {
    let c = CartState::default()
        .reduce(CartAction::Add(product("a", 10), 1))
        .reduce(CartAction::Add(product("b", 20), 1));
    let c2 = c.reduce(CartAction::SetQuantity("b".to_string(), 4));
    assert_eq!(ids(&c2), vec![("a".to_string(), 1), ("b".to_string(), 4)]);
    let c3 = c2.reduce(CartAction::SetQuantity("a".to_string(), 0));
    assert_eq!(ids(&c3), vec![("b".to_string(), 4)]);
    let c4 = c3.reduce(CartAction::SetQuantity("zzz".to_string(), 3));
    assert_eq!(c4, c3);
}

#[test]
fn remove_clear_and_load() {
    let c = CartState::default()
        .reduce(CartAction::Add(product("a", 10), 1))
        .reduce(CartAction::Add(product("b", 20), 2));
    let removed = c.reduce(CartAction::Remove("a".to_string()));
    assert_eq!(ids(&removed), vec![("b".to_string(), 2)]);
    let cleared = c.reduce(CartAction::Clear);
    assert!(cleared.lines.is_empty());
    assert_eq!(cleared.total(), 0);
    assert_eq!(cleared.item_count(), 0);
    let loaded = cleared.reduce(CartAction::Load(c.clone()));
    assert_eq!(loaded, c);
}

#[test]
fn totals_report_overflow() {
    let line = |q: i64| CartLine {
        product_id: "x".to_string(),
        name: String::new(),
        price: i64::MAX,
        image_url: String::new(),
        quantity: q,
    };
    let c = CartState { lines: vec![line(1), line(1)] };
    assert_eq!(c.checked_total(), None);
    assert_eq!(c.checked_item_count(), Some(2));
    let d = CartState { lines: vec![line(2)] };
    assert_eq!(d.checked_total(), None);
    let e = CartState { lines: vec![line(i64::MAX), line(1)] };
    assert_eq!(e.checked_item_count(), None);
}
