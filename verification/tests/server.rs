//! Tests of the request-routing decision.

use walk_the_dog::server::{route, slice_starts_with, Route};

#[test]
fn root_request_routes_to_the_greeting() {
    let r = route(b"GET / HTTP/1.1\r\nHost: localhost\r\n\r\n");
    assert_eq!(r, Route::Hello);
    assert_eq!(r.status_line(), "HTTP/1.1 200 OK\r\n\r\n");
    assert_eq!(r.filename(), "example/server/hello.html");
    assert!(!r.is_slow());
}

#[test]
fn sleep_request_routes_to_the_delayed_greeting() {
    let r = route(b"GET /sleep HTTP/1.1\r\nHost: localhost\r\n\r\n");
    assert_eq!(r, Route::SlowHello);
    assert_eq!(r.status_line(), "HTTP/1.1 200 OK\r\n\r\n");
    assert_eq!(r.filename(), "example/server/hello.html");
    assert!(r.is_slow());
}

#[test]
fn unknown_request_routes_to_the_missing_page() {
    let r = route(b"GET /other HTTP/1.1\r\n\r\n");
    assert_eq!(r, Route::NotFound);
    assert_eq!(r.status_line(), "HTTP/1.1 404 NOT FOUND\r\n\r\n");
    assert_eq!(r.filename(), "example/server/404.html");
    assert!(!r.is_slow());
}

#[test]
fn prefix_test_matches_exact_prefixes() {
    assert!(slice_starts_with(b"abcdef", b"abc"));
    assert!(slice_starts_with(b"abc", b"abc"));
    assert!(slice_starts_with(b"abc", b""));
    assert!(!slice_starts_with(b"ab", b"abc"));
    assert!(!slice_starts_with(b"abd", b"abc"));
}
