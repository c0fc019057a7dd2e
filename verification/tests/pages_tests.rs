use greeniem::api_client::ApiClientError;
use greeniem::cart::{CartAction, CartState};
use greeniem::pages::{
    category_from_value, checkout_failure, checkout_order, filter_products, gate_failure,
    gate_mode_after_status, gate_submit_path, order_items_summary, order_status_path, parse_quantity,
    payment_label, product_path, product_save_target, save_failure, saved_message, short_order_id,
    status_from_value, status_value, stock_label, CaptchaGateState, FormState, GateMode,
    ProductFilter, VerifyOutcome,
};
use greeniem::shared::{CaptchaChallenge, Category, OrderItem, OrderStatus, PaymentMethod, Product};

fn product(id: &str, category: Category) -> Product {
    Product {
        id: id.to_string(),
        name: format!("p{id}"),
        description: "d".to_string(),
        price: 1_890_000,
        category,
        image_url: "https://x".to_string(),
        stock: 3,
        created_at: 0,
    }
}

#[test]
fn selector_values_round_trip() {
    for s in OrderStatus::all() {
        assert_eq!(status_from_value(status_value(s)), s);
    }
    assert_eq!(status_from_value("bogus"), OrderStatus::Pending);
    for c in [Category::Iem, Category::Dongle, Category::Accessory] {
        assert_eq!(category_from_value(c.as_str()), c);
    }
    assert_eq!(category_from_value("x"), Category::Iem);
    assert_eq!(payment_label(PaymentMethod::Cod), "COD");
    assert_eq!(payment_label(PaymentMethod::BankTransfer), "Chuyển khoản");
}

#[test]
fn product_form_round_trip() {
    let p = product("abc", Category::Dongle);
    let f = FormState::from_product(&p);
    assert_eq!(f.editing_id.as_deref(), Some("abc"));
    assert_eq!(f.price, "1890000");
    let input = f.to_input().unwrap();
    assert_eq!(input.price, p.price);
    assert_eq!(input.stock, p.stock);
    assert_eq!(input.category, Category::Dongle);
    let mut g = FormState::default();
    g.price = " 12 ".to_string();
    g.stock = "x".to_string();
    assert_eq!(g.to_input().unwrap_err(), "Giá và tồn kho phải là số nguyên.");
    g.stock = "+4".to_string();
    assert_eq!(g.to_input().unwrap().price, 12);
    assert_eq!(product_save_target(&Some("abc".to_string())), (true, "/api/admin/products/abc".to_string()));
    assert_eq!(product_save_target(&None), (false, "/api/admin/products".to_string()));
    assert_eq!(saved_message(true), "Đã cập nhật sản phẩm.");
    assert_eq!(saved_message(false), "Đã thêm sản phẩm mới.");
    assert_eq!(product_path(&"abc".to_string()), "/api/products/abc");
    assert_eq!(order_status_path(&"o1".to_string()), "/api/admin/orders/o1/status");
}

#[test]
fn order_table_cells() {
    let items = vec![
        OrderItem { product_id: "a".to_string(), name: "Nova".to_string(), price: 1, quantity: 2 },
        OrderItem { product_id: "b".to_string(), name: "Cáp".to_string(), price: 1, quantity: 1 },
    ];
    assert_eq!(order_items_summary(&items), "Nova x2, Cáp x1");
    assert_eq!(order_items_summary(&vec![]), "");
    assert_eq!(short_order_id("650f1a2b3c4d5e6f708192a3"), "708192a3");
    assert_eq!(short_order_id("abc"), "abc");
}

#[test]
fn catalogue_filter() {
    let list = vec![product("1", Category::Iem), product("2", Category::Dongle), product("3", Category::Iem)];
    let iem: Vec<String> = filter_products(&list, ProductFilter::Category(Category::Iem)).into_iter().map(|p| p.id).collect();
    assert_eq!(iem, vec!["1", "3"]);
    assert_eq!(filter_products(&list, ProductFilter::All), list);
    assert!(filter_products(&list, ProductFilter::Category(Category::Accessory)).is_empty());
}

#[test]
fn product_page_helpers() {
    assert_eq!(parse_quantity("3"), Some(3));
    assert_eq!(parse_quantity("0"), Some(1));
    assert_eq!(parse_quantity("-4"), Some(1));
    assert_eq!(parse_quantity(""), None);
    assert_eq!(parse_quantity(" 2"), None);
    assert_eq!(stock_label(25), "Còn 25 sản phẩm");
    assert_eq!(stock_label(0), "Hết hàng");
}

#[test]
fn checkout_builds_the_order() {
    let empty = CartState::default();
    let name = "A".to_string();
    let r = checkout_order(&empty, &name, &name, &name, &String::new(), PaymentMethod::Cod);
    assert_eq!(r.unwrap_err(), "Giỏ hàng đang trống.");
    let cart = empty.reduce(CartAction::Add(product("1", Category::Iem), 2));
    let o = checkout_order(&cart, &name, &"090".to_string(), &"HN".to_string(), &"note".to_string(), PaymentMethod::BankTransfer).unwrap();
    assert_eq!(o.items, vec![OrderItem { product_id: "1".to_string(), name: "p1".to_string(), price: 1_890_000, quantity: 2 }]);
    assert_eq!(o.phone, "090");
    assert_eq!(o.payment_method, PaymentMethod::BankTransfer);
    let n = checkout_failure(&ApiClientError::CaptchaRequired);
    assert!(n.open_captcha);
    assert_eq!(n.message, "Vui lòng xác minh captcha rồi bấm Đặt hàng lại.");
    let n = checkout_failure(&ApiClientError::Status(400, "invalid phone".to_string()));
    assert!(!n.open_captcha);
    assert_eq!(n.message, "Lỗi 400: invalid phone");
}

#[test]
fn admin_gate_flow() {
    assert_eq!(gate_mode_after_status(Some(true)), GateMode::Setup);
    assert_eq!(gate_mode_after_status(Some(false)), GateMode::Login);
    assert_eq!(gate_mode_after_status(None), GateMode::Login);
    let a = "password1".to_string();
    let b = "password2".to_string();
    assert_eq!(gate_submit_path(GateMode::Setup, &a, &b).unwrap_err(), "Mật khẩu xác nhận không khớp.");
    assert_eq!(gate_submit_path(GateMode::Setup, &a, &a).unwrap(), "/api/admin/setup");
    assert_eq!(gate_submit_path(GateMode::Login, &a, &b).unwrap(), "/api/admin/login");
    let (m, n) = gate_failure(GateMode::Setup, &ApiClientError::Status(403, "an admin account already exists".to_string()));
    assert_eq!(m, GateMode::Login);
    assert_eq!(n.message, "Lỗi 403: an admin account already exists");
    let (m, n) = gate_failure(GateMode::Setup, &ApiClientError::CaptchaRequired);
    assert_eq!(m, GateMode::Setup);
    assert!(n.open_captcha);
    assert_eq!(n.message, "Vui lòng xác minh captcha rồi thử lại.");
}

#[test]
fn captcha_dialog_states() {
    let ch = CaptchaChallenge { token: "t".to_string(), question: "1 + 2 = ?".to_string() };
    assert!(CaptchaGateState::opened().open);
    let asking = CaptchaGateState::asking(ch.clone());
    assert_eq!(asking.challenge, Some(ch.clone()));
    assert!(!CaptchaGateState::after_answer(ch.clone(), VerifyOutcome::Accepted).open);
    let wrong = CaptchaGateState::after_answer(ch.clone(), VerifyOutcome::Rejected);
    assert_eq!(wrong.error.as_deref(), Some("Sai đáp án, vui lòng thử lại."));
    assert_eq!(wrong.challenge, Some(ch.clone()));
    let failed = CaptchaGateState::after_answer(ch.clone(), VerifyOutcome::Failed("offline".to_string()));
    assert_eq!(failed.error.as_deref(), Some("Lỗi kết nối: offline"));
    let unsent = CaptchaGateState::after_answer(ch, VerifyOutcome::NotSent("bad body".to_string()));
    assert_eq!(unsent.error.as_deref(), Some("Lỗi: bad body"));
}

#[test]
fn failed_product_saves_open_the_captcha_or_show_the_error() {
    let f = save_failure(&ApiClientError::CaptchaRequired);
    assert!(f.open_captcha);
    assert_eq!(f.message, None);
    let f = save_failure(&ApiClientError::Status(403, "forbidden".to_string()));
    assert!(!f.open_captcha);
    assert_eq!(f.message, Some("Lỗi 403: forbidden".to_string()));
}
