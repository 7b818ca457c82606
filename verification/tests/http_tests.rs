use viontin_gems::http::{Request, Response};

fn pair(a: &str, b: &str) -> (String, String) {
    (a.to_string(), b.to_string())
}

#[test]
fn request_header_lookup_ignores_letter_case() {
    let req = Request {
        path: "/".to_string(),
        headers: vec![pair("X-Inertia", "true"), pair("x-inertia", "second")],
    };
    assert_eq!(req.header("x-inertia"), Some("true".to_string()));
    assert_eq!(req.header("X-INERTIA"), Some("true".to_string()));
    assert_eq!(req.header("accept"), None);
}

#[test]
fn responses_of_each_kind() {
    let j = Response::json("{}".to_string());
    assert_eq!(j.status, 200);
    assert_eq!(j.header("Content-Type"), Some("application/json".to_string()));
    assert_eq!(j.body_str(), "{}");
    let h = Response::html("<p>");
    assert_eq!(h.header("content-type"), Some("text/html; charset=utf-8".to_string()));
    let t = Response::text("hi");
    assert_eq!(t.header("content-type"), Some("text/plain; charset=utf-8".to_string()));
    let n = Response::new(404);
    assert_eq!(n.status, 404);
    assert!(n.headers.is_empty());
    assert!(!n.is_redirection());
    assert!(Response::new(302).is_redirection());
    assert!(!Response::new(400).is_redirection());
}

#[test]
fn setting_a_header_replaces_it() {
    let r = Response::text("x").with_header("Content-Type", "application/json").with_header("X-A", "1");
    assert_eq!(
        r.headers,
        vec![pair("Content-Type", "application/json"), pair("X-A", "1")]
    );
    let mut r = r;
    r.set_header("x-a", "2");
    assert_eq!(r.header("X-A"), Some("2".to_string()));
    assert_eq!(r.headers.len(), 2);
}
