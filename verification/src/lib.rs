//! Verified core of the GreenIEM shop: the data it exchanges, the rules that
//! validate and price it, the rate limiter with its arithmetic captcha, the
//! shopping cart and the small text conversions the storefront relies on.

pub mod text;
pub mod shared;
pub mod rate_limit_captcha;
pub mod cart;
pub mod error;
pub mod validation;
pub mod models;
pub mod orders;
pub mod format;
pub mod auth;
pub mod config;
pub mod seed;
pub mod api_client;
pub mod routes;
pub mod pages;
