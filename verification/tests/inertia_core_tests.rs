use serde_json::Value;
use viontin_gems::gem_inertia::{set_root_view, share, InertiaConfig};
use viontin_gems::http::{Request, Response};
use viontin_gems::inertia::InertiaMiddleware;

fn req(path: &str, headers: &[(&str, &str)]) -> Request {
    Request {
        path: path.to_string(),
        headers: headers.iter().map(|(a, b)| (a.to_string(), b.to_string())).collect(),
    }
}

#[test]
fn parse_page_data_needs_a_component() {
    let v = InertiaMiddleware::parse_page_data("{\"component\":\"Home\",\"props\":{}}").unwrap();
    assert_eq!(v.to_string(), "{\"component\":\"Home\",\"props\":{}}");
    assert!(InertiaMiddleware::parse_page_data("{\"props\":{}}").is_none());
    assert!(InertiaMiddleware::parse_page_data("not json").is_none());
    assert!(InertiaMiddleware::parse_page_data("[1,2]").is_none());
    assert_eq!(InertiaMiddleware::render_html("{}", "<x>{{data-page}}</x>"), "<x>{}</x>");
}

#[test]
fn core_request_inspection() {
    let r = req("/", &[("X-Inertia", "true"), ("X-Inertia-Partial-Data", "a,b")]);
    assert!(InertiaMiddleware::is_inertia(&r));
    assert_eq!(InertiaMiddleware::partial_data(&r), vec!["a", "b"]);
    let _m = InertiaMiddleware::new();
}

#[test]
fn core_passes_handler_pages_through() {
    let mut c = InertiaConfig::new();
    share(&mut c, "user", Value::from("bob".to_string()));
    let r = req("/u", &[("x-inertia", "1"), ("x-inertia-partial-data", "b")]);
    let p = viontin_gems::gem_inertia::InertiaMiddleware::begin(&r, &c);
    let body = "{\"component\":\"Users\",\"props\":{\"a\":1,\"b\":2},\"url\":\"/u\"}";
    let out = InertiaMiddleware::new().handle(&p, Response::json(body.to_string()), &c);
    assert_eq!(out.status, 200);
    assert_eq!(out.header("content-type"), Some("application/json".to_string()));
    assert_eq!(out.header("x-inertia-version"), Some("1.0".to_string()));
    assert_eq!(
        out.body,
        "{\"component\":\"Users\",\"props\":{\"b\":2},\"url\":\"/u\",\"version\":\"1.0\"}"
    );
    let r = req("/dash", &[("x-inertia", "1")]);
    let p = viontin_gems::gem_inertia::InertiaMiddleware::begin(&r, &c);
    let out = InertiaMiddleware::new().handle(&p, Response::json(body.to_string()), &c);
    assert_eq!(
        out.body,
        "{\"component\":\"Users\",\"props\":{\"a\":1,\"b\":2,\"user\":\"bob\"},\"url\":\"/u\",\"version\":\"1.0\"}"
    );
}

#[test]
fn core_url_comes_from_the_request_when_unset() {
    let c = InertiaConfig::new();
    let r = req("/dash", &[("x-inertia", "true")]);
    let p = viontin_gems::gem_inertia::InertiaMiddleware::begin(&r, &c);
    let body = "{\"component\":\"Home\",\"props\":{},\"url\":\"\"}";
    let out = InertiaMiddleware::new().handle(&p, Response::json(body.to_string()), &c);
    assert_eq!(out.body, "{\"component\":\"Home\",\"props\":{},\"url\":\"/dash\",\"version\":\"1.0\"}");
    let body = "{\"component\":\"Home\"}";
    let out = InertiaMiddleware::new().handle(&p, Response::json(body.to_string()), &c);
    assert_eq!(out.body, "{\"component\":\"Home\",\"props\":{},\"url\":\"/dash\",\"version\":\"1.0\"}");
}

#[test]
fn core_wraps_plain_bodies() {
    let c = InertiaConfig::new();
    let r = req("/p", &[]);
    let p = viontin_gems::gem_inertia::InertiaMiddleware::begin(&r, &c);
    let out = InertiaMiddleware::new().handle(&p, Response::html("<b>x</b>"), &c);
    assert_eq!(out.header("content-type"), Some("application/json".to_string()));
    assert_eq!(
        out.body,
        "{\"component\":\"Page\",\"props\":{\"body\":\"<b>x</b>\"},\"url\":\"/p\",\"version\":\"1.0\"}"
    );
    let mut c2 = InertiaConfig::new();
    set_root_view(&mut c2, "<html>{{data-page}}</html>");
    let out = InertiaMiddleware::new().handle(&p, Response::text("t"), &c2);
    assert_eq!(
        out.body,
        "<html>{\"component\":\"Page\",\"props\":{\"body\":\"t\"},\"url\":\"/p\",\"version\":\"1.0\"}</html>"
    );
}

#[test]
fn core_redirects() {
    let c = InertiaConfig::new();
    let r = req("/p", &[("X-Inertia", "true")]);
    let p = viontin_gems::gem_inertia::InertiaMiddleware::begin(&r, &c);
    let out = InertiaMiddleware::new().handle(&p, Response::new(303).with_header("Location", "/q"), &c);
    assert_eq!(out.status, 409);
    assert_eq!(out.header("x-inertia-location"), Some("/q".to_string()));
    let r = req("/p", &[]);
    let p = viontin_gems::gem_inertia::InertiaMiddleware::begin(&r, &c);
    let out = InertiaMiddleware::new().handle(&p, Response::new(303).with_header("Location", "/q"), &c);
    assert_eq!(out.status, 303);
}

#[test]
fn core_keeps_other_members_of_the_handler_page() {
    let c = InertiaConfig::new();
    let r = req("/h", &[("x-inertia", "true")]);
    let p = viontin_gems::gem_inertia::InertiaMiddleware::begin(&r, &c);
    let body = "{\"clearHistory\":false,\"component\":\"Home\",\"encryptHistory\":true,\"props\":{\"a\":1},\"version\":\"old\"}";
    let out = InertiaMiddleware::new().handle(&p, Response::json(body.to_string()), &c);
    assert_eq!(
        out.body,
        "{\"clearHistory\":false,\"component\":\"Home\",\"encryptHistory\":true,\"props\":{\"a\":1},\"url\":\"/h\",\"version\":\"1.0\"}"
    );
}

#[test]
fn core_full_page_load_ignores_partial_data() {
    let mut c = InertiaConfig::new();
    share(&mut c, "user", Value::from("bob".to_string()));
    set_root_view(&mut c, "<html>{{data-page}}</html>");
    let r = req("/u", &[("x-inertia-partial-data", "b")]);
    let p = viontin_gems::gem_inertia::InertiaMiddleware::begin(&r, &c);
    let body = "{\"component\":\"Users\",\"props\":{\"a\":1,\"b\":2}}";
    let out = InertiaMiddleware::new().handle(&p, Response::json(body.to_string()), &c);
    assert_eq!(
        out.body,
        "<html>{\"component\":\"Users\",\"props\":{\"a\":1,\"b\":2,\"user\":\"bob\"},\"url\":\"/u\",\"version\":\"1.0\"}</html>"
    );
}
