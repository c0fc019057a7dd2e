//! How the storefront reads the server's answers.

use vstd::prelude::*;

use crate::text::{decimal_int, int_decimal_chars, push_str, push_string, string_from_chars};

verus! {

/// Why a call to the server failed.
#[derive(Debug, Clone, PartialEq)]
pub enum ApiClientError {
    /// The server answered with this error status and message.
    Status(u16, String),
    /// The server asks for a captcha before it serves this client again.
    CaptchaRequired,
    /// The call did not complete, or its answer could not be read.
    Network(String),
}

/// The message shown for an error.
pub open spec fn client_error_text(e: ApiClientError) -> Seq<char> {
    match e {
        ApiClientError::Status(code, msg) => "Lỗi "@ + decimal_int(code as int) + ": "@ + msg@,
        ApiClientError::CaptchaRequired => "Cần xác minh captcha"@,
        ApiClientError::Network(msg) => "Lỗi kết nối: "@ + msg@,
    }
}

/// A failed call, carrying the failure's description.
pub fn net_err(message: &str) -> (e: ApiClientError)
    ensures
        e matches ApiClientError::Network(m) && m@ == message@,
{
    ApiClientError::Network(String::from_str(message))
}

impl ApiClientError {
    /// The message shown to the user.
    pub fn to_string(&self) -> (s: String)
        ensures
            s@ == client_error_text(*self),
    {
        let mut out: Vec<char> = Vec::new();
        match self {
            ApiClientError::Status(code, msg) => {
                push_str(&mut out, "Lỗi ");
                let mut digits = int_decimal_chars(*code as i64);
                out.append(&mut digits);
                push_str(&mut out, ": ");
                push_string(&mut out, msg);
            },
            ApiClientError::CaptchaRequired => {
                push_str(&mut out, "Cần xác minh captcha");
            },
            ApiClientError::Network(msg) => {
                push_str(&mut out, "Lỗi kết nối: ");
                push_string(&mut out, msg);
            },
        }
        assert(out@ =~= client_error_text(*self));
        string_from_chars(&out)
    }
}

/// The text `HTTP {status}`.
pub open spec fn http_status_text(status: u16) -> Seq<char> {
    "HTTP "@ + decimal_int(status as int)
}

/// Reads the status of an answer. Status 429 asks for a captcha; another
/// status that is not a success (`ok` is false) is an error carrying the
/// message of the answer's error body, or `HTTP {status}` when it has none;
/// a success gives `None`. The error body is read only for such an error.
pub fn response_error(status: u16, ok: bool, error_body: Option<String>) -> (r: Option<ApiClientError>)
    ensures
        status == 429 ==> r == Some(ApiClientError::CaptchaRequired),
        status != 429 && ok ==> r is None,
        status != 429 && !ok ==> (r matches Some(ApiClientError::Status(code, msg)) && code
            == status && msg@ == (match error_body {
            Some(m) => m@,
            None => http_status_text(status),
        })),
{
    if status == 429 {
        return Some(ApiClientError::CaptchaRequired);
    }
    if !ok {
        let msg = match error_body {
            Some(m) => m,
            None => {
                let mut out: Vec<char> = Vec::new();
                push_str(&mut out, "HTTP ");
                let mut digits = int_decimal_chars(status as i64);
                out.append(&mut digits);
                assert(out@ =~= http_status_text(status));
                string_from_chars(&out)
            },
        };
        return Some(ApiClientError::Status(status, msg));
    }
    None
}

} // verus!
