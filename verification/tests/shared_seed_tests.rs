use greeniem::models::ProductDoc;
use greeniem::seed::{needs_seeding, sample_products};
use greeniem::shared::{Category, OrderStatus, ProductInput};
use greeniem::validation::validate_product_input;

#[test]
fn labels_and_wire_names() {
    assert_eq!(Category::Iem.as_str(), "iem");
    assert_eq!(Category::Dongle.as_str(), "dongle");
    assert_eq!(Category::Accessory.as_str(), "accessory");
    assert_eq!(Category::Accessory.label(), "Phụ kiện");
    assert_eq!(Category::Iem.label(), "IEM");
    assert_eq!(Category::default(), Category::Iem);
    assert_eq!(OrderStatus::Pending.label(), "Chờ xử lý");
    assert_eq!(OrderStatus::Cancelled.label(), "Đã hủy");
    assert_eq!(
        OrderStatus::all(),
        [OrderStatus::Pending, OrderStatus::Confirmed, OrderStatus::Shipped, OrderStatus::Completed, OrderStatus::Cancelled]
    );
}

fn as_input(d: &ProductDoc) -> ProductInput {
    ProductInput {
        name: d.name.clone(),
        description: d.description.clone(),
        price: d.price,
        category: d.category,
        image_url: d.image_url.clone(),
        stock: d.stock,
    }
}

#[test]
fn sample_catalogue_is_valid() {
    assert!(needs_seeding(0));
    assert!(!needs_seeding(3));
    let samples = sample_products(123);
    assert_eq!(samples.len(), 8);
    assert_eq!(samples[0].name, "GreenIEM Nova X1");
    assert_eq!(samples[0].price, 1_890_000);
    assert_eq!(samples[7].category, Category::Accessory);
    for d in &samples {
        assert!(validate_product_input(&as_input(d)).is_ok(), "{}", d.name);
        assert_eq!(d.created_at, 123);
        assert!(d.id.is_none());
    }
}
