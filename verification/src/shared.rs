//! The records that the storefront and the server exchange.

use vstd::prelude::*;

verus! {

/// What a product is sold as.
#[derive(Debug, Default, Clone, Copy, PartialEq, Eq, Structural)]
pub enum Category {
    #[default]
    Iem,
    Dongle,
    Accessory,
}

/// The wire name of a category.
pub open spec fn category_wire_name(c: Category) -> Seq<char> {
    match c {
        Category::Iem => "iem"@,
        Category::Dongle => "dongle"@,
        Category::Accessory => "accessory"@,
    }
}

/// The label a shopper reads for a category.
pub open spec fn category_label(c: Category) -> Seq<char> {
    match c {
        Category::Iem => "IEM"@,
        Category::Dongle => "Dongle"@,
        Category::Accessory => "Phụ kiện"@,
    }
}

impl Category {
    /// The wire name: `iem`, `dongle` or `accessory`.
    pub fn as_str(&self) -> (r: &'static str)
        ensures
            r@ == category_wire_name(*self),
    {
        match self {
            Category::Iem => "iem",
            Category::Dongle => "dongle",
            Category::Accessory => "accessory",
        }
    }

    /// The label shown to shoppers.
    pub fn label(&self) -> (r: &'static str)
        ensures
            r@ == category_label(*self),
    {
        match self {
            Category::Iem => "IEM",
            Category::Dongle => "Dongle",
            Category::Accessory => "Phụ kiện",
        }
    }
}

/// A product as the catalogue shows it.
#[derive(Debug, Clone, PartialEq)]
pub struct Product {
    pub id: String,
    pub name: String,
    pub description: String,
    /// Price in whole VND (no decimals).
    pub price: i64,
    pub category: Category,
    pub image_url: String,
    pub stock: i64,
    pub created_at: i64,
}

/// What an administrator submits to create or change a product.
#[derive(Debug, Clone, PartialEq)]
pub struct ProductInput {
    pub name: String,
    pub description: String,
    pub price: i64,
    pub category: Category,
    pub image_url: String,
    pub stock: i64,
}

/// How an order is paid.
#[derive(Debug, Clone, Copy, PartialEq, Eq, Structural)]
pub enum PaymentMethod {
    Cod,
    BankTransfer,
}

/// Where an order stands.
#[derive(Debug, Clone, Copy, PartialEq, Eq, Structural)]
pub enum OrderStatus {
    Pending,
    Confirmed,
    Shipped,
    Completed,
    Cancelled,
}

/// The label an administrator reads for a status.
pub open spec fn order_status_label(s: OrderStatus) -> Seq<char> {
    match s {
        OrderStatus::Pending => "Chờ xử lý"@,
        OrderStatus::Confirmed => "Đã xác nhận"@,
        OrderStatus::Shipped => "Đang giao"@,
        OrderStatus::Completed => "Hoàn tất"@,
        OrderStatus::Cancelled => "Đã hủy"@,
    }
}

impl OrderStatus {
    /// The label shown to administrators.
    pub fn label(&self) -> (r: &'static str)
        ensures
            r@ == order_status_label(*self),
    {
        match self {
            OrderStatus::Pending => "Chờ xử lý",
            OrderStatus::Confirmed => "Đã xác nhận",
            OrderStatus::Shipped => "Đang giao",
            OrderStatus::Completed => "Hoàn tất",
            OrderStatus::Cancelled => "Đã hủy",
        }
    }

    /// Every status, in the order an order moves through them.
    pub fn all() -> (r: [OrderStatus; 5])
        ensures
            r@ == seq![
                OrderStatus::Pending,
                OrderStatus::Confirmed,
                OrderStatus::Shipped,
                OrderStatus::Completed,
                OrderStatus::Cancelled,
            ],
    {
        let r = [
            OrderStatus::Pending,
            OrderStatus::Confirmed,
            OrderStatus::Shipped,
            OrderStatus::Completed,
            OrderStatus::Cancelled,
        ];
        assert(r@ =~= seq![
            OrderStatus::Pending,
            OrderStatus::Confirmed,
            OrderStatus::Shipped,
            OrderStatus::Completed,
            OrderStatus::Cancelled,
        ]);
        r
    }
}

/// One line of an order.
#[derive(Debug, Clone, PartialEq)]
pub struct OrderItem {
    pub product_id: String,
    pub name: String,
    pub price: i64,
    pub quantity: i64,
}

/// The mathematical content of an [`OrderItem`].
pub struct OrderItemView {
    pub product_id: Seq<char>,
    pub name: Seq<char>,
    pub price: i64,
    pub quantity: i64,
}

impl View for OrderItem {
    type V = OrderItemView;

    open spec fn view(&self) -> OrderItemView {
        OrderItemView {
            product_id: self.product_id@,
            name: self.name@,
            price: self.price,
            quantity: self.quantity,
        }
    }
}

/// The views of a list of order items.
pub open spec fn item_views(items: Seq<OrderItem>) -> Seq<OrderItemView> {
    items.map_values(|i: OrderItem| i@)
}

/// An order as the server reports it.
#[derive(Debug, Clone, PartialEq)]
pub struct Order {
    pub id: String,
    pub customer_name: String,
    pub phone: String,
    pub address: String,
    pub note: String,
    pub items: Vec<OrderItem>,
    pub total: i64,
    pub payment_method: PaymentMethod,
    pub status: OrderStatus,
    pub created_at: i64,
}

/// What a shopper submits at checkout.
#[derive(Debug, Clone, PartialEq)]
pub struct OrderInput {
    pub customer_name: String,
    pub phone: String,
    pub address: String,
    pub note: String,
    pub items: Vec<OrderItem>,
    pub payment_method: PaymentMethod,
}

/// An administrator's request to move an order to another status.
#[derive(Debug, Clone, PartialEq)]
pub struct UpdateOrderStatusInput {
    pub status: OrderStatus,
}

/// Whether the first administrator account still has to be created.
#[derive(Debug, Clone, PartialEq)]
pub struct SetupStatus {
    pub needs_setup: bool,
}

/// A user name and password, as submitted at setup or login.
#[derive(Debug, Clone, PartialEq)]
pub struct AdminCredentials {
    pub username: String,
    pub password: String,
}

/// The signed-in administrator.
#[derive(Debug, Clone, PartialEq)]
pub struct AdminMe {
    pub username: String,
}

/// An arithmetic question and the token that identifies it.
#[derive(Debug, Clone, PartialEq)]
pub struct CaptchaChallenge {
    pub token: String,
    pub question: String,
}

/// A client's answer to a captcha question.
#[derive(Debug, Clone, PartialEq)]
pub struct CaptchaAnswer {
    pub token: String,
    pub answer: String,
}

/// The body of an error response.
#[derive(Debug, Clone, PartialEq)]
pub struct ApiError {
    pub error: String,
    pub captcha_required: bool,
}

} // verus!
