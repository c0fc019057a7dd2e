//! The decisions the storefront's pages make: what a form submits, what a
//! list shows, which message an outcome gets.

use vstd::prelude::*;
use vstd::string::StringSliceAdditionalSpecFns;

use crate::api_client::{client_error_text, ApiClientError};
use crate::cart::{CartLine, CartState};
use crate::shared::{
    category_wire_name, item_views, Category, CaptchaChallenge, OrderInput, OrderItem, OrderItemView,
    OrderStatus, PaymentMethod, Product, ProductInput,
};
use crate::text::{
    byte_len, decimal_int, int_decimal_chars, lemma_decimal_int_parses_back, parse_i64,
    parse_i64_spec, push_str, push_string, str_eq, string_from_chars, trim, trim_str,
};

verus! {

// ---------------------------------------------------------------------------
// Order status and category selectors
// ---------------------------------------------------------------------------

/// The value an order status has in the status selector.
pub open spec fn status_value_text(s: OrderStatus) -> Seq<char> {
    match s {
        OrderStatus::Pending => "pending"@,
        OrderStatus::Confirmed => "confirmed"@,
        OrderStatus::Shipped => "shipped"@,
        OrderStatus::Completed => "completed"@,
        OrderStatus::Cancelled => "cancelled"@,
    }
}

/// The status a selector value stands for; any unknown value means pending.
pub open spec fn status_of_value(v: Seq<char>) -> OrderStatus {
    if v == "confirmed"@ {
        OrderStatus::Confirmed
    } else if v == "shipped"@ {
        OrderStatus::Shipped
    } else if v == "completed"@ {
        OrderStatus::Completed
    } else if v == "cancelled"@ {
        OrderStatus::Cancelled
    } else {
        OrderStatus::Pending
    }
}

/// The status a selector value stands for.
pub fn status_from_value(value: &str) -> (s: OrderStatus)
    ensures
        s == status_of_value(value@),
{
    if str_eq(value, "confirmed") {
        OrderStatus::Confirmed
    } else if str_eq(value, "shipped") {
        OrderStatus::Shipped
    } else if str_eq(value, "completed") {
        OrderStatus::Completed
    } else if str_eq(value, "cancelled") {
        OrderStatus::Cancelled
    } else {
        OrderStatus::Pending
    }
}

/// The selector value of a status.
pub fn status_value(status: OrderStatus) -> (v: &'static str)
    ensures
        v@ == status_value_text(status),
{
    match status {
        OrderStatus::Pending => "pending",
        OrderStatus::Confirmed => "confirmed",
        OrderStatus::Shipped => "shipped",
        OrderStatus::Completed => "completed",
        OrderStatus::Cancelled => "cancelled",
    }
}

/// The category a selector value stands for; any unknown value means IEM.
pub open spec fn category_of_value(v: Seq<char>) -> Category {
    if v == "dongle"@ {
        Category::Dongle
    } else if v == "accessory"@ {
        Category::Accessory
    } else {
        Category::Iem
    }
}

/// The category a selector value stands for.
pub fn category_from_value(value: &str) -> (c: Category)
    ensures
        c == category_of_value(value@),
{
    if str_eq(value, "dongle") {
        Category::Dongle
    } else if str_eq(value, "accessory") {
        Category::Accessory
    } else {
        Category::Iem
    }
}

/// Every status survives the selector: its value reads back as itself.
pub proof fn law_status_value_round_trip(s: OrderStatus)
    ensures
        status_of_value(status_value_text(s)) == s,
{
    reveal_strlit("pending");
    reveal_strlit("confirmed");
    reveal_strlit("shipped");
    reveal_strlit("completed");
    reveal_strlit("cancelled");
    match s {
        OrderStatus::Pending => {
            assert("pending"@[0] != "confirmed"@[0]);
            assert("pending"@[0] != "shipped"@[0]);
            assert("pending"@[0] != "completed"@[0]);
            assert("pending"@[0] != "cancelled"@[0]);
        },
        OrderStatus::Confirmed => {},
        OrderStatus::Shipped => {
            assert("shipped"@[0] != "confirmed"@[0]);
        },
        OrderStatus::Completed => {
            assert("completed"@[2] != "confirmed"@[2]);
            assert("completed"@[0] != "shipped"@[0]);
        },
        OrderStatus::Cancelled => {
            assert("cancelled"@[1] != "confirmed"@[1]);
            assert("cancelled"@[0] != "shipped"@[0]);
            assert("cancelled"@[1] != "completed"@[1]);
        },
    }
}

/// Every category survives the selector: its wire name reads back as itself.
pub proof fn law_category_value_round_trip(c: Category)
    ensures
        category_of_value(category_wire_name(c)) == c,
{
    reveal_strlit("iem");
    reveal_strlit("dongle");
    reveal_strlit("accessory");
    match c {
        Category::Iem => {
            assert("iem"@[0] != "dongle"@[0]);
            assert("iem"@[0] != "accessory"@[0]);
        },
        Category::Dongle => {},
        Category::Accessory => {
            assert("accessory"@[0] != "dongle"@[0]);
        },
    }
}

/// The label of a payment method in the order table.
pub open spec fn payment_label_text(m: PaymentMethod) -> Seq<char> {
    match m {
        PaymentMethod::Cod => "COD"@,
        PaymentMethod::BankTransfer => "Chuyển khoản"@,
    }
}

/// The label of a payment method in the order table.
pub fn payment_label(m: PaymentMethod) -> (s: &'static str)
    ensures
        s@ == payment_label_text(m),
{
    match m {
        PaymentMethod::Cod => "COD",
        PaymentMethod::BankTransfer => "Chuyển khoản",
    }
}

// ---------------------------------------------------------------------------
// Product form
// ---------------------------------------------------------------------------

/// The product form of the administration console: the fields as typed, and
/// the product being edited, if any.
#[derive(Debug, Clone, PartialEq)]
pub struct FormState {
    pub editing_id: Option<String>,
    pub name: String,
    pub description: String,
    pub price: String,
    pub category: Category,
    pub image_url: String,
    pub stock: String,
}

impl Default for FormState {
    fn default() -> (f: FormState)
        ensures
            f.editing_id is None,
            f.name@.len() == 0,
            f.description@.len() == 0,
            f.price@.len() == 0,
            f.category == Category::Iem,
            f.image_url@.len() == 0,
            f.stock@.len() == 0,
    {
        FormState {
            editing_id: None,
            name: String::new(),
            description: String::new(),
            price: String::new(),
            category: Category::Iem,
            image_url: String::new(),
            stock: String::new(),
        }
    }
}

/// The message shown when price or stock is not an integer.
pub open spec fn not_integer_message() -> Seq<char> {
    "Giá và tồn kho phải là số nguyên."@
}

impl FormState {
    /// The form filled in to edit `p`, with price and stock in decimal.
    pub fn from_product(p: &Product) -> (f: FormState)
        ensures
            f.editing_id matches Some(id) && id@ == p.id@,
            f.name@ == p.name@,
            f.description@ == p.description@,
            f.price@ == decimal_int(p.price as int),
            f.category == p.category,
            f.image_url@ == p.image_url@,
            f.stock@ == decimal_int(p.stock as int),
    {
        FormState {
            editing_id: Some(p.id.clone()),
            name: p.name.clone(),
            description: p.description.clone(),
            price: string_of_int(p.price),
            category: p.category,
            image_url: p.image_url.clone(),
            stock: string_of_int(p.stock),
        }
    }

    /// What the form submits: price and stock read as integers once trimmed;
    /// the other fields as typed. Refused with a message when price or stock
    /// is not an integer.
    pub fn to_input(&self) -> (r: Result<ProductInput, String>)
        ensures
            match (parse_i64_spec(trim(self.price@)), parse_i64_spec(trim(self.stock@))) {
                (Some(price), Some(stock)) => r matches Ok(input) && input.name@ == self.name@
                    && input.description@ == self.description@ && input.price == price
                    && input.category == self.category && input.image_url@ == self.image_url@
                    && input.stock == stock,
                _ => r matches Err(msg) && msg@ == not_integer_message(),
            },
    {
        let price = parse_i64(trim_str(self.price.as_str()));
        let stock = parse_i64(trim_str(self.stock.as_str()));
        match (price, stock) {
            (Some(price), Some(stock)) => Ok(
                ProductInput {
                    name: self.name.clone(),
                    description: self.description.clone(),
                    price,
                    category: self.category,
                    image_url: self.image_url.clone(),
                    stock,
                },
            ),
            _ => Err(String::from_str("Giá và tồn kho phải là số nguyên.")),
        }
    }
}

fn string_of_int(v: i64) -> (s: String)
    ensures
        s@ == decimal_int(v as int),
{
    let cs = int_decimal_chars(v);
    string_from_chars(&cs)
}

/// Editing a product and saving the form unchanged submits the product as it
/// is: price and stock written in decimal read back as the same numbers.
pub proof fn law_edit_form_round_trip(price: i64, stock: i64)
    ensures
        parse_i64_spec(trim(decimal_int(price as int))) == Some(price),
        parse_i64_spec(trim(decimal_int(stock as int))) == Some(stock),
{
    lemma_decimal_int_parses_back(price);
    lemma_decimal_int_parses_back(stock);
}

/// The message shown after a product is saved.
pub open spec fn saved_message_text(editing: bool) -> Seq<char> {
    if editing {
        "Đã cập nhật sản phẩm."@
    } else {
        "Đã thêm sản phẩm mới."@
    }
}

/// The message shown after a product is saved: updated when editing, added
/// otherwise.
pub fn saved_message(editing: bool) -> (s: &'static str)
    ensures
        s@ == saved_message_text(editing),
{
    if editing {
        "Đã cập nhật sản phẩm."
    } else {
        "Đã thêm sản phẩm mới."
    }
}

/// The address of a product in the administration API.
pub open spec fn admin_product_path_text(id: Seq<char>) -> Seq<char> {
    "/api/admin/products/"@ + id
}

/// Where the product form is sent: `PUT` to the product's address when
/// editing (`true`), `POST` to the product list otherwise (`false`).
pub fn product_save_target(editing_id: &Option<String>) -> (r: (bool, String))
    ensures
        match editing_id {
            Some(id) => r.0 && r.1@ == admin_product_path_text(id@),
            None => !r.0 && r.1@ == "/api/admin/products"@,
        },
{
    match editing_id {
        Some(id) => (true, admin_product_path(id)),
        None => (false, String::from_str("/api/admin/products")),
    }
}

/// The address of a product in the administration API.
pub fn admin_product_path(id: &String) -> (s: String)
    ensures
        s@ == admin_product_path_text(id@),
{
    let mut out: Vec<char> = Vec::new();
    push_str(&mut out, "/api/admin/products/");
    push_string(&mut out, id);
    string_from_chars(&out)
}

/// The address of a product in the public API.
pub fn product_path(id: &String) -> (s: String)
    ensures
        s@ == "/api/products/"@ + id@,
{
    let mut out: Vec<char> = Vec::new();
    push_str(&mut out, "/api/products/");
    push_string(&mut out, id);
    string_from_chars(&out)
}

/// The address that changes an order's status.
pub fn order_status_path(id: &String) -> (s: String)
    ensures
        s@ == "/api/admin/orders/"@ + id@ + "/status"@,
{
    let mut out: Vec<char> = Vec::new();
    push_str(&mut out, "/api/admin/orders/");
    push_string(&mut out, id);
    push_str(&mut out, "/status");
    string_from_chars(&out)
}

// ---------------------------------------------------------------------------
// Order table
// ---------------------------------------------------------------------------

/// One line of an order as the table summarises it: `{name} x{quantity}`.
pub open spec fn item_summary(i: OrderItemView) -> Seq<char> {
    i.name + " x"@ + decimal_int(i.quantity as int)
}

/// The lines of an order, summarised and joined by `, `.
pub open spec fn items_summary(items: Seq<OrderItemView>) -> Seq<char>
    decreases items.len(),
{
    if items.len() == 0 {
        Seq::empty()
    } else if items.len() == 1 {
        item_summary(items[0])
    } else {
        items_summary(items.drop_last()) + ", "@ + item_summary(items.last())
    }
}

/// Summarises the lines of an order for the order table.
pub fn order_items_summary(items: &Vec<OrderItem>) -> (s: String)
    ensures
        s@ == items_summary(item_views(items@)),
{
    let ghost views = item_views(items@);
    let mut out: Vec<char> = Vec::new();
    let mut i: usize = 0;
    while i < items.len()
        invariant
            i <= items@.len(),
            views == item_views(items@),
            out@ == items_summary(views.take(i as int)),
        decreases items.len() - i,
    {
        let ghost before = out@;
        let ghost next = views.take(i + 1);
        assert(next.drop_last() =~= views.take(i as int));
        assert(next.last() == items@[i as int]@);
        if i > 0 {
            push_str(&mut out, ", ");
        }
        push_string(&mut out, &items[i].name);
        push_str(&mut out, " x");
        let mut q = int_decimal_chars(items[i].quantity);
        out.append(&mut q);
        proof {
            if i == 0 {
                assert(next.len() == 1);
                assert(next[0] == items@[0]@);
                assert(out@ =~= item_summary(next[0]));
            } else {
                assert(out@ =~= before + ", "@ + item_summary(next.last()));
            }
        }
        i = i + 1;
    }
    assert(views.take(items@.len() as int) =~= views);
    string_from_chars(&out)
}

/// Where an order's short id starts: eight bytes before the end, or at the
/// start of a shorter id.
pub open spec fn short_id_start(id: &str) -> int {
    let n = byte_len(id@);
    if n >= 8 {
        n - 8
    } else {
        0
    }
}

/// The last eight bytes of an order id, as the order table shows it.
pub fn short_order_id(id: &str) -> (s: &str)
    requires
        vstd::utf8::is_char_boundary(id.spec_bytes(), short_id_start(id)),
    ensures
        s.spec_bytes() == id.spec_bytes().subrange(short_id_start(id), id.spec_bytes().len() as int),
{
    let n = id.len();
    let start: usize = if n >= 8 {
        n - 8
    } else {
        0
    };
    let (_, tail) = id.split_at(start);
    tail
}

// ---------------------------------------------------------------------------
// Catalogue filter
// ---------------------------------------------------------------------------

/// Which products the catalogue shows.
#[derive(Debug, Clone, Copy, PartialEq, Eq, Structural)]
pub enum ProductFilter {
    All,
    Category(Category),
}

/// Whether a product passes the filter.
pub open spec fn passes_filter(p: Product, f: ProductFilter) -> bool {
    match f {
        ProductFilter::All => true,
        ProductFilter::Category(c) => p.category == c,
    }
}

/// The products that pass the filter, in order.
pub open spec fn filtered(ps: Seq<Product>, f: ProductFilter) -> Seq<Product>
    decreases ps.len(),
{
    if ps.len() == 0 {
        ps
    } else if passes_filter(ps.last(), f) {
        filtered(ps.drop_last(), f).push(ps.last())
    } else {
        filtered(ps.drop_last(), f)
    }
}

fn copy_product(p: &Product) -> (r: Product)
    ensures
        r == *p,
{
    Product {
        id: p.id.clone(),
        name: p.name.clone(),
        description: p.description.clone(),
        price: p.price,
        category: p.category,
        image_url: p.image_url.clone(),
        stock: p.stock,
        created_at: p.created_at,
    }
}

/// The products the catalogue shows under a filter, in their order.
pub fn filter_products(list: &Vec<Product>, filter: ProductFilter) -> (r: Vec<Product>)
    ensures
        r@ == filtered(list@, filter),
{
    let mut out: Vec<Product> = Vec::new();
    let mut i: usize = 0;
    while i < list.len()
        invariant
            i <= list@.len(),
            out@ == filtered(list@.take(i as int), filter),
        decreases list.len() - i,
    {
        let ghost next = list@.take(i + 1);
        assert(next.drop_last() =~= list@.take(i as int));
        assert(next.last() == list@[i as int]);
        let keep = match filter {
            ProductFilter::All => true,
            ProductFilter::Category(c) => list[i].category == c,
        };
        if keep {
            out.push(copy_product(&list[i]));
        }
        i = i + 1;
    }
    assert(list@.take(list@.len() as int) =~= list@);
    out
}

// ---------------------------------------------------------------------------
// Product page
// ---------------------------------------------------------------------------

/// The quantity typed on a product page: the text read as an integer, at
/// least 1; `None` leaves the quantity as it was.
pub fn parse_quantity(input: &str) -> (q: Option<i64>)
    ensures
        q == (match parse_i64_spec(input@) {
            Some(v) => Some(if v < 1 {
                1i64
            } else {
                v
            }),
            None => None,
        }),
{
    match parse_i64(input) {
        Some(v) => Some(if v < 1 {
            1
        } else {
            v
        }),
        None => None,
    }
}

/// The stock line of a product page.
pub open spec fn stock_label_text(stock: i64) -> Seq<char> {
    if stock > 0 {
        "Còn "@ + decimal_int(stock as int) + " sản phẩm"@
    } else {
        "Hết hàng"@
    }
}

/// The stock line of a product page: how many are left, or sold out.
pub fn stock_label(stock: i64) -> (s: String)
    ensures
        s@ == stock_label_text(stock),
{
    if stock > 0 {
        let mut out: Vec<char> = Vec::new();
        push_str(&mut out, "Còn ");
        let mut d = int_decimal_chars(stock);
        out.append(&mut d);
        push_str(&mut out, " sản phẩm");
        assert(out@ =~= stock_label_text(stock));
        string_from_chars(&out)
    } else {
        String::from_str("Hết hàng")
    }
}

// ---------------------------------------------------------------------------
// Checkout
// ---------------------------------------------------------------------------

/// The order line for a cart line.
pub open spec fn cart_line_item(l: CartLine) -> OrderItemView {
    OrderItemView { product_id: l.product_id@, name: l.name@, price: l.price, quantity: l.quantity }
}

/// The message shown when the cart is empty at checkout.
pub open spec fn empty_cart_message() -> Seq<char> {
    "Giỏ hàng đang trống."@
}

/// The order submitted at checkout: the shopper's details and one line per
/// cart line, in order. Refused with a message when the cart is empty.
pub fn checkout_order(
    cart: &CartState,
    customer_name: &String,
    phone: &String,
    address: &String,
    note: &String,
    payment_method: PaymentMethod,
) -> (r: Result<OrderInput, String>)
    ensures
        cart.lines@.len() == 0 ==> (r matches Err(m) && m@ == empty_cart_message()),
        cart.lines@.len() > 0 ==> (r matches Ok(o) && o.customer_name@ == customer_name@
            && o.phone@ == phone@ && o.address@ == address@ && o.note@ == note@ && o.payment_method
            == payment_method && item_views(o.items@) == cart.lines@.map_values(
            |l: CartLine| cart_line_item(l),
        )),
{
    if cart.lines.len() == 0 {
        return Err(String::from_str("Giỏ hàng đang trống."));
    }
    let mut items: Vec<OrderItem> = Vec::new();
    let mut i: usize = 0;
    while i < cart.lines.len()
        invariant
            i <= cart.lines@.len(),
            item_views(items@) == cart.lines@.take(i as int).map_values(
                |l: CartLine| cart_line_item(l),
            ),
        decreases cart.lines.len() - i,
    {
        let l = &cart.lines[i];
        let item = OrderItem {
            product_id: l.product_id.clone(),
            name: l.name.clone(),
            price: l.price,
            quantity: l.quantity,
        };
        let ghost before = items@;
        items.push(item);
        assert(item@ == cart_line_item(cart.lines@[i as int]));
        assert(item_views(items@) =~= item_views(before).push(item@));
        assert(cart.lines@.take(i + 1).map_values(|l: CartLine| cart_line_item(l)) =~= cart.lines@.take(
            i as int,
        ).map_values(|l: CartLine| cart_line_item(l)).push(cart_line_item(cart.lines@[i as int])));
        i = i + 1;
    }
    assert(cart.lines@.take(cart.lines@.len() as int) =~= cart.lines@);
    Ok(
        OrderInput {
            customer_name: customer_name.clone(),
            phone: phone.clone(),
            address: address.clone(),
            note: note.clone(),
            items,
            payment_method,
        },
    )
}

/// What a failed submission shows, and whether the captcha dialog opens.
pub struct FailureNotice {
    pub message: String,
    pub open_captcha: bool,
}

/// A failed order: when a captcha is required, the dialog opens and the
/// shopper is asked to order again after solving it; otherwise the error's
/// own message is shown.
pub fn checkout_failure(err: &ApiClientError) -> (n: FailureNotice)
    ensures
        n.open_captcha == (*err is CaptchaRequired),
        *err is CaptchaRequired ==> n.message@ == "Vui lòng xác minh captcha rồi bấm Đặt hàng lại."@,
        !(*err is CaptchaRequired) ==> n.message@ == client_error_text(*err),
{
    match err {
        ApiClientError::CaptchaRequired => FailureNotice {
            message: String::from_str("Vui lòng xác minh captcha rồi bấm Đặt hàng lại."),
            open_captcha: true,
        },
        _ => FailureNotice { message: err.to_string(), open_captcha: false },
    }
}

/// What a failed product save does on the administration page.
pub struct SaveFailure {
    pub open_captcha: bool,
    pub message: Option<String>,
}

/// A failed product save: when a captcha is required, the dialog opens and
/// the error shown stays as it was; otherwise the error's own message is
/// shown.
pub fn save_failure(err: &ApiClientError) -> (f: SaveFailure)
    ensures
        f.open_captcha == (*err is CaptchaRequired),
        *err is CaptchaRequired ==> f.message is None,
        !(*err is CaptchaRequired) ==> (f.message matches Some(m) && m@ == client_error_text(*err)),
{
    match err {
        ApiClientError::CaptchaRequired => SaveFailure { open_captcha: true, message: None },
        _ => SaveFailure { open_captcha: false, message: Some(err.to_string()) },
    }
}

// ---------------------------------------------------------------------------
// Administration login
// ---------------------------------------------------------------------------

/// What the administration login page shows.
#[derive(Debug, Clone, Copy, PartialEq, Eq, Structural)]
pub enum GateMode {
    Loading,
    Setup,
    Login,
}

/// The page shown once the setup status is known: account creation when the
/// server says no account exists, the login form otherwise (also when the
/// status could not be read).
pub fn gate_mode_after_status(needs_setup: Option<bool>) -> (m: GateMode)
    ensures
        m == (if needs_setup == Some(true) {
            GateMode::Setup
        } else {
            GateMode::Login
        }),
{
    match needs_setup {
        Some(true) => GateMode::Setup,
        _ => GateMode::Login,
    }
}

/// The address a submitted login page posts to: account creation in setup
/// mode, when both passwords are equal; login otherwise. In setup mode two
/// different passwords are refused with a message.
pub fn gate_submit_path(mode: GateMode, password: &String, confirm_password: &String) -> (r: Result<
    &'static str,
    String,
>)
    ensures
        mode == GateMode::Setup && password@ != confirm_password@ ==> (r matches Err(m) && m@
            == "Mật khẩu xác nhận không khớp."@),
        mode == GateMode::Setup && password@ == confirm_password@ ==> (r matches Ok(p) && p@
            == "/api/admin/setup"@),
        mode != GateMode::Setup ==> (r matches Ok(p) && p@ == "/api/admin/login"@),
{
    if mode == GateMode::Setup {
        if !str_eq(password.as_str(), confirm_password.as_str()) {
            return Err(String::from_str("Mật khẩu xác nhận không khớp."));
        }
        Ok("/api/admin/setup")
    } else {
        Ok("/api/admin/login")
    }
}

/// A failed gate submission: when a captcha is required, the dialog opens
/// and the mode stays; otherwise the error's message is shown and setup mode
/// falls back to login (another account may have been created meanwhile).
pub fn gate_failure(mode: GateMode, err: &ApiClientError) -> (r: (GateMode, FailureNotice))
    ensures
        r.1.open_captcha == (*err is CaptchaRequired),
        *err is CaptchaRequired ==> r.0 == mode && r.1.message@
            == "Vui lòng xác minh captcha rồi thử lại."@,
        !(*err is CaptchaRequired) ==> r.1.message@ == client_error_text(*err) && r.0 == (
        if mode == GateMode::Setup {
            GateMode::Login
        } else {
            mode
        }),
{
    match err {
        ApiClientError::CaptchaRequired => (
            mode,
            FailureNotice {
                message: String::from_str("Vui lòng xác minh captcha rồi thử lại."),
                open_captcha: true,
            },
        ),
        _ => {
            let next = if mode == GateMode::Setup {
                GateMode::Login
            } else {
                mode
            };
            (next, FailureNotice { message: err.to_string(), open_captcha: false })
        },
    }
}

// ---------------------------------------------------------------------------
// Captcha dialog
// ---------------------------------------------------------------------------

/// The captcha dialog: whether it is open, the question shown, and the
/// error from the last answer.
#[derive(Debug, Clone, PartialEq)]
pub struct CaptchaGateState {
    pub open: bool,
    pub challenge: Option<CaptchaChallenge>,
    pub error: Option<String>,
}

/// How sending an answer ended.
pub enum VerifyOutcome {
    /// The server accepted the answer.
    Accepted,
    /// The server refused the answer.
    Rejected,
    /// The request could not be built.
    NotSent(String),
    /// The request failed.
    Failed(String),
}

impl CaptchaGateState {
    /// The dialog closed, with nothing in it.
    pub fn closed() -> (s: CaptchaGateState)
        ensures
            !s.open,
            s.challenge is None,
            s.error is None,
    {
        CaptchaGateState { open: false, challenge: None, error: None }
    }

    /// The dialog opened while a new question is fetched.
    pub fn opened() -> (s: CaptchaGateState)
        ensures
            s.open,
            s.challenge is None,
            s.error is None,
    {
        CaptchaGateState { open: true, challenge: None, error: None }
    }

    /// The dialog showing a question.
    pub fn asking(challenge: CaptchaChallenge) -> (s: CaptchaGateState)
        ensures
            s.open,
            s.challenge == Some(challenge),
            s.error is None,
    {
        CaptchaGateState { open: true, challenge: Some(challenge), error: None }
    }

    /// The dialog after an answer to `challenge`: closed once accepted;
    /// otherwise still open on the same question, with a message saying the
    /// answer was wrong or the request failed.
    pub fn after_answer(challenge: CaptchaChallenge, outcome: VerifyOutcome) -> (s:
        CaptchaGateState)
        ensures
            outcome is Accepted ==> !s.open && s.challenge is None && s.error is None,
            !(outcome is Accepted) ==> s.open && s.challenge == Some(challenge),
            outcome is Rejected ==> (s.error matches Some(m) && m@
                == "Sai đáp án, vui lòng thử lại."@),
            outcome matches VerifyOutcome::NotSent(e) ==> (s.error matches Some(m) && m@ == "Lỗi: "@
                + e@),
            outcome matches VerifyOutcome::Failed(e) ==> (s.error matches Some(m) && m@
                == "Lỗi kết nối: "@ + e@),
    {
        match outcome {
            VerifyOutcome::Accepted => CaptchaGateState::closed(),
            VerifyOutcome::Rejected => CaptchaGateState {
                open: true,
                challenge: Some(challenge),
                error: Some(String::from_str("Sai đáp án, vui lòng thử lại.")),
            },
            VerifyOutcome::NotSent(e) => {
                let mut out: Vec<char> = Vec::new();
                push_str(&mut out, "Lỗi: ");
                push_string(&mut out, &e);
                CaptchaGateState {
                    open: true,
                    challenge: Some(challenge),
                    error: Some(string_from_chars(&out)),
                }
            },
            VerifyOutcome::Failed(e) => {
                let mut out: Vec<char> = Vec::new();
                push_str(&mut out, "Lỗi kết nối: ");
                push_string(&mut out, &e);
                CaptchaGateState {
                    open: true,
                    challenge: Some(challenge),
                    error: Some(string_from_chars(&out)),
                }
            },
        }
    }
}

} // verus!
