use reedact::server::{health_handler, root_handler, route, LISTEN_ADDR};

#[test]
fn get_root_returns_service_text() {
    let r = route("GET", "/");
    assert_eq!(r.status, 200);
    assert_eq!(r.body, "reedACT - Reactive Templates in Action");
}

#[test]
fn get_health_returns_ok() {
    let r = route("GET", "/health");
    assert_eq!(r.status, 200);
    assert_eq!(r.body, "OK");
}

#[test]
fn get_missing_returns_not_found() {
    let r = route("GET", "/missing");
    assert_eq!(r.status, 404);
    assert_eq!(r.body, "");
}

#[test]
fn head_is_answered_like_get() {
    let r = route("HEAD", "/health");
    assert_eq!(r.status, 200);
    assert_eq!(r.body, "OK");
}

#[test]
fn other_method_on_known_path_is_not_allowed() {
    let r = route("POST", "/");
    assert_eq!(r.status, 405);
    assert_eq!(r.body, "");
}

#[test]
fn other_method_on_unknown_path_is_not_found() {
    let r = route("DELETE", "/nowhere");
    assert_eq!(r.status, 404);
}

#[test]
fn paths_match_exactly() {
    assert_eq!(route("GET", "/health/").status, 404);
    assert_eq!(route("GET", "").status, 404);
    assert_eq!(route("get", "/").status, 405);
}

#[test]
fn handlers_return_fixed_texts() {
    assert_eq!(root_handler(), "reedACT - Reactive Templates in Action");
    assert_eq!(health_handler(), "OK");
}

#[test]
fn listens_on_loopback() {
    assert_eq!(LISTEN_ADDR, "127.0.0.1:8080");
}
