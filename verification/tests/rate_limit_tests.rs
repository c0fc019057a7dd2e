use greeniem::rate_limit_captcha::{
    extract_ip, first_forwarded_entry, CaptchaState, ClientIp, CHALLENGE_TTL_NANOS,
    IDLE_ENTRY_TTL_NANOS, VERIFIED_TTL_NANOS, WINDOW_NANOS,
};
use greeniem::shared::CaptchaAnswer;

const SEC: u64 = 1_000_000_000;

fn answer_for(question: &str) -> i64 {
    let body = question.strip_suffix(" = ?").unwrap();
    let (a, b) = body.split_once(" + ").unwrap();
    a.parse::<i64>().unwrap() + b.parse::<i64>().unwrap()
}

#[test]
fn eleventh_request_in_a_window_is_refused() {
    let mut s = CaptchaState::new();
    let ip = ClientIp::V4(0x0a00_0001);
    for i in 0..10 {
        assert!(s.check(ip, 100 * SEC + i * SEC / 2), "request {i}");
    }
    assert!(!s.check(ip, 105 * SEC));
    // Another address is not affected.
    assert!(s.check(ClientIp::V4(0x0a00_0002), 105 * SEC));
}

#[test]
fn old_requests_leave_the_window() {
    let mut s = CaptchaState::new();
    let ip = ClientIp::V6(1);
    for _ in 0..10 {
        assert!(s.check(ip, 0));
    }
    assert!(!s.check(ip, WINDOW_NANOS));
    // Once every recorded request is older than the window, the address passes again.
    assert!(s.check(ip, 2 * WINDOW_NANOS + 1));
}

#[test]
fn solved_captcha_lets_the_address_through() {
    let mut s = CaptchaState::new();
    let ip = ClientIp::V4(7);
    for _ in 0..11 {
        s.check(ip, 0);
    }
    assert!(!s.check(ip, SEC));
    let c = s.new_challenge(SEC);
    assert_eq!(c.token.len(), 32);
    assert!(c.token.chars().all(|ch| ch.is_ascii_hexdigit() && !ch.is_ascii_uppercase()));
    let sum = answer_for(&c.question);
    assert!((2..=38).contains(&sum));
    let ok = s.verify(ip, &CaptchaAnswer { token: c.token.clone(), answer: format!(" {sum} ") }, 2 * SEC);
    assert!(ok);
    for i in 0..50 {
        assert!(s.check(ip, 2 * SEC + i));
    }
    assert!(s.check(ip, 2 * SEC + VERIFIED_TTL_NANOS - 1));
}

#[test]
fn a_token_answers_once() {
    let mut s = CaptchaState::new();
    let ip = ClientIp::V4(9);
    let c = s.new_challenge(0);
    let sum = answer_for(&c.question);
    let wrong = CaptchaAnswer { token: c.token.clone(), answer: (sum + 1).to_string() };
    assert!(!s.verify(ip, &wrong, 1));
    let right = CaptchaAnswer { token: c.token.clone(), answer: sum.to_string() };
    assert!(!s.verify(ip, &right, 2));
    let unknown = CaptchaAnswer { token: "nope".to_string(), answer: sum.to_string() };
    assert!(!s.verify(ip, &unknown, 3));
}

#[test]
fn cleanup_forgets_idle_addresses_and_old_challenges() {
    let mut s = CaptchaState::new();
    let idle = ClientIp::V4(1);
    let recent = ClientIp::V4(2);
    s.check(idle, 0);
    s.check(recent, IDLE_ENTRY_TTL_NANOS);
    let c = s.new_challenge(0);
    s.cleanup(IDLE_ENTRY_TTL_NANOS + 1);
    assert!(!s.ip_states.contains_key(&idle.key()));
    assert!(s.ip_states.contains_key(&recent.key()));
    assert!(!s.challenges.contains_key(&c.token));
    let fresh = s.new_challenge(10 * SEC);
    s.cleanup(10 * SEC + CHALLENGE_TTL_NANOS - 1);
    assert!(s.challenges.contains_key(&fresh.token));
}

#[test]
fn captcha_paths_are_never_limited() {
    let mut s = CaptchaState::new();
    let ip = ClientIp::V4(3);
    for _ in 0..30 {
        assert!(s.gate_request("/api/captcha/challenge", ip, 0).is_none());
    }
    for _ in 0..10 {
        assert!(s.gate_request("/api/products", ip, 0).is_none());
    }
    let refusal = s.gate_request("/api/products", ip, 0).unwrap();
    assert_eq!(refusal.error, "too_many_requests");
    assert!(refusal.captcha_required);
}

#[test]
fn client_address_prefers_proxy_headers() {
    let peer = ClientIp::V4(1);
    assert_eq!(extract_ip(Some(ClientIp::V4(2)), Some(ClientIp::V4(3)), peer), ClientIp::V4(2));
    assert_eq!(extract_ip(None, Some(ClientIp::V4(3)), peer), ClientIp::V4(3));
    assert_eq!(extract_ip(None, None, peer), peer);
    assert_eq!(first_forwarded_entry(" 203.0.113.7 , 10.0.0.1"), "203.0.113.7");
    assert_eq!(first_forwarded_entry("198.51.100.2"), "198.51.100.2");
    assert_eq!(first_forwarded_entry(",x"), "");
}

#[test]
fn the_window_slides_and_counts_refused_requests() {
    let mut s = CaptchaState::new();
    let ip = ClientIp::V4(0x0a00_0009);
    // One request a second: at the k-th, min(k, 10) + 1 requests lie in the window.
    for k in 0..10 {
        assert!(s.check(ip, k * SEC), "request {k}");
    }
    for k in 10..15 {
        assert!(!s.check(ip, k * SEC), "request {k}");
    }
    // Ten seconds after the last one only that refused request is still counted.
    assert!(s.check(ip, 24 * SEC));
    // Spread-out requests never trip the limit.
    let other = ClientIp::V4(0x0a00_000a);
    for k in 0..40 {
        assert!(s.check(other, k * 2 * SEC), "spread request {k}");
    }
}
