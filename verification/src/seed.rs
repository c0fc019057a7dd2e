//! The sample catalogue stored when the product collection is empty.

use vstd::prelude::*;

use crate::models::ProductDoc;
use crate::shared::Category;

verus! {

/// Whether the catalogue has to be seeded: only when it holds no product.
pub fn needs_seeding(product_count: u64) -> (r: bool)
    ensures
        r == (product_count == 0),
{
    product_count == 0
}

/// The names of the sample products, in order.
pub open spec fn sample_names() -> Seq<Seq<char>> {
    seq![
            "GreenIEM Nova X1"@,
            "GreenIEM Terra S2"@,
            "GreenIEM Aurora Pro"@,
            "GreenIEM DAC-Lite"@,
            "GreenIEM DAC-Pro Balanced"@,
            "Cáp nâng cấp OFC 4 lõi"@,
            "Case đựng tai nghe GreenIEM"@,
            "Đầu chuyển 4.4mm sang 3.5mm"@,
        ]
}

/// The descriptions of the sample products, in order.
pub open spec fn sample_descriptions() -> Seq<Seq<char>> {
    seq![
            "IEM 1DD + 1BA, âm thanh cân bằng, vỏ nhôm CNC."@,
            "IEM 2BA, chi tiết cao, tách lớp tốt cho nghe vocal."@,
            "IEM flagship hybrid 1DD + 4BA, kèm dây bạc nguyên chất."@,
            "Dongle DAC/AMP USB-C, hỗ trợ tới 32bit/384kHz."@,
            "Dongle DAC/AMP có ngõ ra balanced 4.4mm, công suất lớn."@,
            "Cáp thay thế 4 lõi OFC bện tay, đầu cắm 2 pin/MMCX."@,
            "Hộp đựng chống sốc, khóa nam châm, lót nhung bên trong."@,
            "Adapter mạ vàng, tương thích đa số DAP/dongle."@,
        ]
}

/// The image addresses of the sample products, in order.
pub open spec fn sample_images() -> Seq<Seq<char>> {
    seq![
            "https://picsum.photos/seed/greeniem-nova-x1/600/600"@,
            "https://picsum.photos/seed/greeniem-terra-s2/600/600"@,
            "https://picsum.photos/seed/greeniem-aurora-pro/600/600"@,
            "https://picsum.photos/seed/greeniem-dac-lite/600/600"@,
            "https://picsum.photos/seed/greeniem-dac-pro/600/600"@,
            "https://picsum.photos/seed/greeniem-cable/600/600"@,
            "https://picsum.photos/seed/greeniem-case/600/600"@,
            "https://picsum.photos/seed/greeniem-adapter/600/600"@,
        ]
}

/// The prices of the sample products, in order.
pub open spec fn sample_prices() -> Seq<i64> {
    seq![
            1_890_000i64,
            2_490_000i64,
            5_990_000i64,
            990_000i64,
            2_290_000i64,
            450_000i64,
            250_000i64,
            190_000i64,
        ]
}

/// The categories of the sample products, in order.
pub open spec fn sample_categories() -> Seq<Category> {
    seq![
            Category::Iem,
            Category::Iem,
            Category::Iem,
            Category::Dongle,
            Category::Dongle,
            Category::Accessory,
            Category::Accessory,
            Category::Accessory,
        ]
}

/// The stock of the sample products, in order.
pub open spec fn sample_stock() -> Seq<i64> {
    seq![
            25i64,
            18i64,
            10i64,
            40i64,
            20i64,
            60i64,
            80i64,
            100i64,
        ]
}

fn sample(
    name: &str,
    description: &str,
    price: i64,
    category: Category,
    image_url: &str,
    stock: i64,
    now: i64,
) -> (d: ProductDoc)
    ensures
        d.id is None,
        d.name@ == name@,
        d.description@ == description@,
        d.price == price,
        d.category == category,
        d.image_url@ == image_url@,
        d.stock == stock,
        d.created_at == now,
{
    ProductDoc {
        id: None,
        name: String::from_str(name),
        description: String::from_str(description),
        price,
        category,
        image_url: String::from_str(image_url),
        stock,
        created_at: now,
    }
}

/// The eight sample products, not yet stored, all created at `now`.
pub fn sample_products(now: i64) -> (r: Vec<ProductDoc>)
    ensures
        r@.len() == 8,
        forall|i: int|
            0 <= i < 8 ==> {
                &&& (#[trigger] r@[i]).id is None
                &&& r@[i].name@ == sample_names()[i]
                &&& r@[i].description@ == sample_descriptions()[i]
                &&& r@[i].price == sample_prices()[i]
                &&& r@[i].category == sample_categories()[i]
                &&& r@[i].image_url@ == sample_images()[i]
                &&& r@[i].stock == sample_stock()[i]
                &&& r@[i].created_at == now
            },
{
    let mut out: Vec<ProductDoc> = Vec::new();
    out.push(sample("GreenIEM Nova X1", "IEM 1DD + 1BA, âm thanh cân bằng, vỏ nhôm CNC.", 1_890_000, Category::Iem, "https://picsum.photos/seed/greeniem-nova-x1/600/600", 25, now));
    out.push(sample("GreenIEM Terra S2", "IEM 2BA, chi tiết cao, tách lớp tốt cho nghe vocal.", 2_490_000, Category::Iem, "https://picsum.photos/seed/greeniem-terra-s2/600/600", 18, now));
    out.push(sample("GreenIEM Aurora Pro", "IEM flagship hybrid 1DD + 4BA, kèm dây bạc nguyên chất.", 5_990_000, Category::Iem, "https://picsum.photos/seed/greeniem-aurora-pro/600/600", 10, now));
    out.push(sample("GreenIEM DAC-Lite", "Dongle DAC/AMP USB-C, hỗ trợ tới 32bit/384kHz.", 990_000, Category::Dongle, "https://picsum.photos/seed/greeniem-dac-lite/600/600", 40, now));
    out.push(sample("GreenIEM DAC-Pro Balanced", "Dongle DAC/AMP có ngõ ra balanced 4.4mm, công suất lớn.", 2_290_000, Category::Dongle, "https://picsum.photos/seed/greeniem-dac-pro/600/600", 20, now));
    out.push(sample("Cáp nâng cấp OFC 4 lõi", "Cáp thay thế 4 lõi OFC bện tay, đầu cắm 2 pin/MMCX.", 450_000, Category::Accessory, "https://picsum.photos/seed/greeniem-cable/600/600", 60, now));
    out.push(sample("Case đựng tai nghe GreenIEM", "Hộp đựng chống sốc, khóa nam châm, lót nhung bên trong.", 250_000, Category::Accessory, "https://picsum.photos/seed/greeniem-case/600/600", 80, now));
    out.push(sample("Đầu chuyển 4.4mm sang 3.5mm", "Adapter mạ vàng, tương thích đa số DAP/dongle.", 190_000, Category::Accessory, "https://picsum.photos/seed/greeniem-adapter/600/600", 100, now));
    out
}

} // verus!
