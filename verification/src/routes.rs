//! Request routing of the metrics HTTP server.
use vstd::prelude::*;
use crate::text::chars_of;

verus! {

/// What the metrics server answers a request with.
#[derive(Clone, Copy, Debug, PartialEq, Eq, Structural)]
pub enum Route {
    /// `GET /clients`: an empty text reply.
    Clients,
    /// `GET /metrics`: the encoded registry.
    Metrics,
    /// Anything else: 404 Not Found.
    NotFound,
}

/// The route of a request with method GET (`is_get`) or another, and
/// path `url`.
pub open spec fn route_of(is_get: bool, url: Seq<char>) -> Route {
    if is_get && url == "/clients"@ {
        Route::Clients
    } else if is_get && url == "/metrics"@ {
        Route::Metrics
    } else {
        Route::NotFound
    }
}

/// Whether two character vectors are equal.
fn same_chars(a: &Vec<char>, b: &Vec<char>) -> (r: bool)
    ensures
        r == (a@ == b@),
{
    if a.len() != b.len() {
        return false;
    }
    let mut i: usize = 0;
    while i < a.len()
        invariant
            a.len() == b.len(),
            i <= a.len(),
            forall|j: int| 0 <= j < i ==> a@[j] == b@[j],
        decreases a.len() - i,
    {
        if a[i] != b[i] {
            return false;
        }
        i = i + 1;
    }
    proof {
        assert(a@ =~= b@);
    }
    true
}

/// The route of a request with method GET (`is_get`) or another, and
/// path `url`.
pub fn route(is_get: bool, url: &str) -> (r: Route)
    ensures
        r == route_of(is_get, url@),
{
    if !is_get {
        return Route::NotFound;
    }
    let u = chars_of(url);
    if same_chars(&u, &chars_of("/clients")) {
        Route::Clients
    } else if same_chars(&u, &chars_of("/metrics")) {
        Route::Metrics
    } else {
        Route::NotFound
    }
}

/// A reply of the metrics server: status code, body, and whether it
/// carries the plain-text exposition content type.
pub struct Reply {
    pub status: u16,
    pub body: String,
    pub plain_text: bool,
}

/// The reply to `GET /clients`: 200 with an empty plain-text body.
pub fn clients_reply() -> (r: Reply)
    ensures
        r.status == 200,
        r.body@.len() == 0,
        r.plain_text,
{
    Reply { status: 200, body: String::new(), plain_text: true }
}

/// The reply to `GET /metrics` for the encoded registry: 200 with the text
/// when encoding succeeded, 500 with an error message otherwise.
pub fn metrics_reply(encoded: Option<String>) -> (r: Reply)
    ensures
        match encoded {
            Some(text) => r.status == 200 && r.body@ == text@ && r.plain_text,
            None => r.status == 500 && r.body@ == "Failed to encode metrics"@ && !r.plain_text,
        },
{
    match encoded {
        Some(text) => Reply { status: 200, body: text, plain_text: true },
        None => Reply { status: 500, body: "Failed to encode metrics".to_owned(), plain_text: false },
    }
}

/// The reply to any other request: 404 Not Found.
pub fn not_found_reply() -> (r: Reply)
    ensures
        r.status == 404,
        r.body@ == "Not Found"@,
        !r.plain_text,
{
    Reply { status: 404, body: "Not Found".to_owned(), plain_text: false }
}

} // verus!
