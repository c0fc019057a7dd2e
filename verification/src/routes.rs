//! The pages of the storefront and of the administration console.

use vstd::prelude::*;

verus! {

/// A page of the site.
#[derive(Debug, Clone, PartialEq)]
pub enum Route {
    /// `/`
    Home,
    /// `/product/:id`
    ProductDetail { id: String },
    /// `/checkout`
    Checkout,
    /// `/console`
    AdminGate,
    /// `/console/products`
    AdminProducts,
    /// `/console/orders`
    AdminOrders,
    /// `/404`, and any path that matches no other page.
    NotFound,
}

/// Whether a page belongs to the administration console.
pub open spec fn is_admin_page(r: Route) -> bool {
    r is AdminGate || r is AdminProducts || r is AdminOrders
}

/// Whether a page belongs to the administration console.
pub fn is_admin_route(route: &Route) -> (r: bool)
    ensures
        r == is_admin_page(*route),
{
    match route {
        Route::AdminGate | Route::AdminProducts | Route::AdminOrders => true,
        _ => false,
    }
}

/// Whether the page shown is in the administration console, where the shop's
/// navigation bar and footer are left out; no page counts as outside.
pub fn in_admin_area(route: &Option<Route>) -> (r: bool)
    ensures
        r == (*route matches Some(p) && is_admin_page(p)),
{
    match route {
        Some(p) => is_admin_route(p),
        None => false,
    }
}

} // verus!
