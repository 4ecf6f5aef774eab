use vstd::prelude::*;

verus! {

/// Loopback address and port the service listens on.
pub const LISTEN_ADDR: &'static str = "127.0.0.1:8080";

/// Status and body of an answer to one request.
pub struct Reply {
    pub status: u16,
    pub body: String,
}

/// Body served at `/`.
pub open spec fn root_text() -> Seq<char> {
    "reedACT - Reactive Templates in Action"@
}

/// Body served at `/health`.
pub open spec fn health_text() -> Seq<char> {
    "OK"@
}

/// Methods that the `GET` routes answer (a `HEAD` is a `GET` without body).
pub open spec fn is_get(method: Seq<char>) -> bool {
    method == "GET"@ || method == "HEAD"@
}

/// The paths that have a handler.
pub open spec fn is_route(path: Seq<char>) -> bool {
    path == "/"@ || path == "/health"@
}

/// Status of the answer to `method` on `path`.
pub open spec fn status_for(method: Seq<char>, path: Seq<char>) -> u16 {
    if !is_route(path) {
        404
    } else if !is_get(method) {
        405
    } else {
        200
    }
}

/// Body of the answer to `method` on `path`.
pub open spec fn body_for(method: Seq<char>, path: Seq<char>) -> Seq<char> {
    if is_route(path) && is_get(method) {
        if path == "/"@ {
            root_text()
        } else {
            health_text()
        }
    } else {
        Seq::empty()
    }
}

/// Handler of `/`: a fixed text naming the service.
pub fn root_handler() -> (r: &'static str)
    ensures
        r@ == root_text(),
{
    "reedACT - Reactive Templates in Action"
}

/// Handler of `/health`.
pub fn health_handler() -> (r: &'static str)
    ensures
        r@ == health_text(),
{
    "OK"
}

fn same_text(a: &str, b: &str) -> (r: bool)
    ensures
        r == (a@ == b@),
{
    a.to_owned() == b.to_owned()
}

/// Answers one request from the static route table: known paths answer
/// `GET` and `HEAD`, other methods on them get 405, other paths 404.
pub fn route(method: &str, path: &str) -> (r: Reply)
    ensures
        r.status == status_for(method@, path@),
        r.body@ == body_for(method@, path@),
{
    let root = same_text(path, "/");
    let health = same_text(path, "/health");
    if !root && !health {
        return Reply { status: 404, body: String::new() };
    }
    if !same_text(method, "GET") && !same_text(method, "HEAD") {
        return Reply { status: 405, body: String::new() };
    }
    let text = if root {
        root_handler()
    } else {
        health_handler()
    };
    Reply { status: 200, body: text.to_owned() }
}

} // verus!
