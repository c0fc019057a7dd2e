use greeniem::api_client::{net_err, response_error, ApiClientError};
use greeniem::routes::{in_admin_area, is_admin_route, Route};

#[test]
fn error_messages() {
    assert_eq!(ApiClientError::Status(404, "product not found".to_string()).to_string(), "Lỗi 404: product not found");
    assert_eq!(ApiClientError::CaptchaRequired.to_string(), "Cần xác minh captcha");
    assert_eq!(net_err("timeout").to_string(), "Lỗi kết nối: timeout");
    assert_eq!(net_err("timeout"), ApiClientError::Network("timeout".to_string()));
}

#[test]
fn response_statuses() {
    assert_eq!(response_error(429, false, None), Some(ApiClientError::CaptchaRequired));
    assert_eq!(response_error(200, true, None), None);
    assert_eq!(response_error(204, true, None), None);
    assert_eq!(
        response_error(400, false, Some("invalid name".to_string())),
        Some(ApiClientError::Status(400, "invalid name".to_string()))
    );
    assert_eq!(response_error(502, false, None), Some(ApiClientError::Status(502, "HTTP 502".to_string())));
}

#[test]
fn admin_routes() {
    assert!(is_admin_route(&Route::AdminGate));
    assert!(is_admin_route(&Route::AdminProducts));
    assert!(is_admin_route(&Route::AdminOrders));
    assert!(!is_admin_route(&Route::Home));
    assert!(!is_admin_route(&Route::ProductDetail { id: "x".to_string() }));
    assert!(!is_admin_route(&Route::Checkout));
    assert!(!is_admin_route(&Route::NotFound));
    assert!(in_admin_area(&Some(Route::AdminOrders)));
    assert!(!in_admin_area(&Some(Route::Checkout)));
    assert!(!in_admin_area(&None));
}
