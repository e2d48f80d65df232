use rsntp::routes::{clients_reply, metrics_reply, not_found_reply, route, Route};

#[test]
fn routes_by_method_and_path() {
    assert_eq!(route(true, "/clients"), Route::Clients);
    assert_eq!(route(true, "/metrics"), Route::Metrics);
    assert_eq!(route(false, "/metrics"), Route::NotFound);
    assert_eq!(route(true, "/metrics/"), Route::NotFound);
    assert_eq!(route(true, "/"), Route::NotFound);
    assert_eq!(route(true, ""), Route::NotFound);
}

#[test]
fn replies() {
    let c = clients_reply();
    assert_eq!((c.status, c.body.as_str(), c.plain_text), (200, "", true));
    let m = metrics_reply(Some("x 1\n".to_string()));
    assert_eq!((m.status, m.body.as_str(), m.plain_text), (200, "x 1\n", true));
    let e = metrics_reply(None);
    assert_eq!((e.status, e.body.as_str(), e.plain_text), (500, "Failed to encode metrics", false));
    let n = not_found_reply();
    assert_eq!((n.status, n.body.as_str(), n.plain_text), (404, "Not Found", false));
}
