use fib_server::decimal::{parse_u64, u64_to_string};
use fib_server::fib::fibonacci;
use fib_server::http::{fib_response, handle_request, hello, listen_addr, render_fib, render_hello};

#[test]
fn fibonacci_known_values() {
    assert_eq!(fibonacci(0), 0);
    assert_eq!(fibonacci(1), 1);
    assert_eq!(fibonacci(2), 1);
    assert_eq!(fibonacci(3), 2);
    assert_eq!(fibonacci(10), 55);
    assert_eq!(fibonacci(20), 6765);
}

#[test]
fn fibonacci_is_idempotent() {
    for n in [0u64, 1, 2, 17, 90, 94, 500] {
        assert_eq!(fibonacci(n), fibonacci(n));
    }
}

#[test]
fn fibonacci_saturates_at_u64_max() {
    // The largest index whose true value still fits in a u64.
    assert_eq!(fibonacci(93), 12200160415121876738);
    // One past it: the true value exceeds u64::MAX, so the result clamps.
    assert_eq!(fibonacci(94), u64::MAX);
    // Far past it: still the clamp, never a wrap and never a panic.
    assert_eq!(fibonacci(10_000), u64::MAX);
}

#[test]
fn hello_message_is_fixed() {
    assert_eq!(hello().message, "Hello Dennis!!!");
}

#[test]
fn render_hello_exact_body() {
    let body = render_hello(&hello());
    assert_eq!(body, "{\"message\":\"Hello Dennis!!!\"}");
}

#[test]
fn render_fib_exact_body() {
    let r = fib_response(10);
    assert_eq!(r.n, 10);
    assert_eq!(r.result, 55);
    assert_eq!(render_fib(&r), "{\"n\":10,\"result\":55}");
}

#[test]
fn u64_to_string_values() {
    assert_eq!(u64_to_string(0), "0");
    assert_eq!(u64_to_string(7), "7");
    assert_eq!(u64_to_string(10), "10");
    assert_eq!(u64_to_string(1234567890), "1234567890");
    assert_eq!(u64_to_string(u64::MAX), "18446744073709551615");
}

#[test]
fn parse_u64_accepts_digit_runs() {
    assert_eq!(parse_u64("0"), Some(0));
    assert_eq!(parse_u64("10"), Some(10));
    assert_eq!(parse_u64("010"), Some(10));
    assert_eq!(parse_u64("18446744073709551615"), Some(u64::MAX));
}

#[test]
fn parse_u64_rejects_nondigits() {
    assert_eq!(parse_u64(""), None);
    assert_eq!(parse_u64("abc"), None);
    assert_eq!(parse_u64("+10"), None);
    assert_eq!(parse_u64("-1"), None);
    assert_eq!(parse_u64("1a"), None);
    assert_eq!(parse_u64(" 1"), None);
    assert_eq!(parse_u64("10.5"), None);
}

#[test]
fn parse_u64_rejects_overflow() {
    assert_eq!(parse_u64("18446744073709551616"), None);
    assert_eq!(parse_u64("99999999999999999999999999"), None);
}

#[test]
fn hello_route_returns_fixed_body() {
    let r = handle_request("GET", "/hello");
    assert_eq!(r.status, 200);
    assert_eq!(r.body, "{\"message\":\"Hello Dennis!!!\"}");
}

#[test]
fn fibonacci_route_returns_exact_body() {
    let r = handle_request("GET", "/fibonacci/10");
    assert_eq!(r.status, 200);
    assert_eq!(r.body, "{\"n\":10,\"result\":55}");
}

#[test]
fn fibonacci_route_saturated_body() {
    let r = handle_request("GET", "/fibonacci/100");
    assert_eq!(r.status, 200);
    assert_eq!(r.body, "{\"n\":100,\"result\":18446744073709551615}");
}

#[test]
fn fibonacci_route_rejects_bad_parameter() {
    assert_eq!(handle_request("GET", "/fibonacci/abc").status, 400);
    assert_eq!(handle_request("GET", "/fibonacci/-1").status, 400);
    assert_eq!(handle_request("GET", "/fibonacci/18446744073709551616").status, 400);
}

#[test]
fn unknown_routes_are_not_found() {
    assert_eq!(handle_request("GET", "/unknown/path").status, 404);
    assert_eq!(handle_request("GET", "/").status, 404);
    assert_eq!(handle_request("GET", "/fibonacci/").status, 404);
    assert_eq!(handle_request("POST", "/hello").status, 404);
}

#[test]
fn listen_addr_is_fixed() {
    assert_eq!(listen_addr(), "0.0.0.0:8080");
}
