use songhunter::security::{check_origin, client_ip_text, guard_request, GuardDecision, RateLimiter, ALLOWED_ORIGIN};

#[test]
fn limiter_allows_up_to_the_limit_per_window() {
    let mut l = RateLimiter::new(2, 10);
    let s = 1_000_000_000u128;
    assert!(l.check_at(7, 0));
    assert!(l.check_at(7, s));
    assert!(!l.check_at(7, 2 * s));
    assert!(l.check_at(8, 2 * s));
    // 10 s after the first request it has left the window.
    assert!(!l.check_at(7, 10 * s - 1));
    assert!(l.check_at(7, 10 * s + 1));
    assert!(!l.check_at(7, 10 * s + 2));
}

#[test]
fn zero_limit_refuses_everything() {
    let mut l = RateLimiter::new(0, 60);
    assert!(!l.check_at(1, 5));
    assert!(!l.check(1));
}

#[test]
fn check_reads_the_clock() {
    let mut l = RateLimiter::new(1, 3600);
    assert!(l.check(42));
    assert!(!l.check(42));
}

#[test]
fn origin_rules() {
    assert!(check_origin(Some(ALLOWED_ORIGIN), None));
    assert!(check_origin(None, Some("https://songhunter.wired.rs")));
    assert!(check_origin(None, Some("https://songhunter.wired.rs/page?x")));
    assert!(!check_origin(None, Some("https://songhunter.wired.rs.evil.com")));
    assert!(!check_origin(Some("https://evil.com"), None));
    assert!(check_origin(Some("https://evil.com"), Some("https://songhunter.wired.rs/")));
    assert!(!check_origin(None, None));
}

#[test]
fn guard_decisions() {
    let mut l = RateLimiter::new(1, 3600);
    assert_eq!(guard_request(&mut l, false, "/api/identify", None, None, Some(1)), GuardDecision::Forward);
    assert_eq!(guard_request(&mut l, true, "/api/result/x", None, None, Some(1)), GuardDecision::Forward);
    assert_eq!(guard_request(&mut l, true, "/api/identify", None, None, Some(1)), GuardDecision::Forbidden);
    assert_eq!(guard_request(&mut l, true, "/api/identify", Some(ALLOWED_ORIGIN), None, Some(1)), GuardDecision::Forward);
    assert_eq!(
        guard_request(&mut l, true, "/api/identify", Some(ALLOWED_ORIGIN), None, Some(1)),
        GuardDecision::TooManyRequests
    );
    assert_eq!(guard_request(&mut l, true, "/api/identify", Some(ALLOWED_ORIGIN), None, None), GuardDecision::Forward);
}

#[test]
fn client_address_from_proxy_headers() {
    assert_eq!(client_ip_text(Some("1.2.3.4"), Some("5.6.7.8")).as_deref(), Some("1.2.3.4"));
    assert_eq!(client_ip_text(None, Some(" 5.6.7.8 , 9.9.9.9")).as_deref(), Some("5.6.7.8"));
    assert_eq!(client_ip_text(None, None), None);
}
