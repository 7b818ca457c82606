use serde_json::Value;
use viontin_gems::gem_inertia::middleware::{InertiaMiddleware, PendingRequest};
use viontin_gems::gem_inertia::{
    flush_shared, inertia, root_view, set_root_view, set_version, share, shared, unshare, version,
    Inertia, InertiaConfig, InertiaPage, RootViewFile,
};
use viontin_gems::gems::{GemBuilder, GemKind};
use viontin_gems::http::{Request, Response};
use viontin_gems::json::PropMap;

fn s(x: &str) -> Value {
    Value::from(x.to_string())
}

fn obj(pairs: &[(&str, Value)]) -> Value {
    let mut m = PropMap::new();
    for (k, v) in pairs {
        m.insert(k.to_string(), v.clone());
    }
    m.into_json()
}

fn req(path: &str, headers: &[(&str, &str)]) -> Request {
    Request {
        path: path.to_string(),
        headers: headers.iter().map(|(a, b)| (a.to_string(), b.to_string())).collect(),
    }
}

#[test]
fn config_reads_back_what_was_written() {
    let mut c = InertiaConfig::new();
    assert_eq!(version(&c), "1.0");
    assert_eq!(root_view(&c), None);
    set_version(&mut c, "abc123");
    assert_eq!(version(&c), "abc123");
    set_root_view(&mut c, "<div id=app data-page='{{data-page}}'></div>");
    assert_eq!(root_view(&c), Some("<div id=app data-page='{{data-page}}'></div>".to_string()));
    share(&mut c, "user", s("alice"));
    share(&mut c, "flash", s("hi"));
    assert_eq!(shared(&c).get("user"), Some(&s("alice")));
    unshare(&mut c, "user");
    assert!(!shared(&c).contains_key("user"));
    assert_eq!(shared(&c).len(), 1);
    flush_shared(&mut c);
    assert_eq!(shared(&c).len(), 0);
}

#[test]
fn gem_builder_and_root_view_install() {
    let g = Inertia::load().entry("<html>{{data-page}}</html>");
    assert_eq!(g.root_view, "<html>{{data-page}}</html>");
    assert_eq!(g.meta().name, "inertia");
    assert_eq!(g.meta().kind, GemKind::Integration);
    let mut c = InertiaConfig::new();
    assert!(g.before_build(&mut c, RootViewFile::Missing).is_ok());
    assert_eq!(root_view(&c), Some("<html>{{data-page}}</html>".to_string()));
    g.before_build(&mut c, RootViewFile::Read("file".to_string())).unwrap();
    assert_eq!(root_view(&c), Some("file".to_string()));
    g.before_build(&mut c, RootViewFile::Unreadable).unwrap();
    assert_eq!(root_view(&c), Some("file".to_string()));
    assert_eq!(g.gem_middlewares().len(), 1);
    assert!(Inertia::middleware().root_view.is_none());
}

#[test]
fn page_builders() {
    let p = inertia("User/Profile", obj(&[("id", s("42"))]));
    assert_eq!(p.component, "User/Profile");
    assert_eq!(p.status_code, 200);
    let p = p.url("/users/42").status(201).with(obj(&[("name", s("Alice")), ("id", s("7"))]));
    assert_eq!(p.url, "/users/42");
    assert_eq!(p.status_code, 201);
    assert_eq!(p.props.to_string(), "{\"id\":\"7\",\"name\":\"Alice\"}");
    let p = p.only(&["name"]);
    assert_eq!(p.partial_data, vec!["name".to_string()]);
    let q = inertia("X", s("not an object")).with(obj(&[("a", s("b"))]));
    assert_eq!(q.props, s("not an object"));
    let r = InertiaPage::redirect("/login");
    assert_eq!(r.status_code, 303);
    assert_eq!(r.redirect_url, Some("/login".to_string()));
    assert_eq!(r.props, Value::Null);
    let b = InertiaPage::back();
    assert_eq!(b.redirect_url, Some("/".to_string()));
}

#[test]
fn page_into_response() {
    let mut c = InertiaConfig::new();
    set_version(&mut c, "v9");
    let r = inertia("Home", obj(&[("title", s("Welcome"))])).url("/").into_response(&c);
    assert_eq!(r.status, 200);
    assert_eq!(r.header("content-type"), Some("application/json".to_string()));
    assert_eq!(
        r.body,
        "{\"component\":\"Home\",\"props\":{\"title\":\"Welcome\"},\"url\":\"/\",\"version\":\"v9\"}"
    );
    let r = InertiaPage::redirect("/login").into_response(&c);
    assert_eq!(r.status, 302);
    assert_eq!(r.header("location"), Some("/login".to_string()));
    let r = inertia("X", obj(&[])).status(404).into_response(&c);
    assert_eq!(r.status, 404);
    let r = inertia("Created", obj(&[])).status(201).into_response(&c);
    assert_eq!(r.status, 201);
    let r = inertia("Home", obj(&[("a", s("1")), ("b", s("2"))])).only(&["b"]).into_response(&c);
    assert_eq!(r.body, "{\"component\":\"Home\",\"props\":{\"b\":\"2\"},\"url\":\"\",\"version\":\"v9\"}");
}

#[test]
fn request_inspection() {
    let r = req("/", &[("X-Inertia", "true"), ("X-Inertia-Partial-Data", " a, b ,c"), ("X-Inertia-Partial-Component", "Users")]);
    assert!(InertiaMiddleware::is_inertia(&r));
    assert_eq!(InertiaMiddleware::partial_data(&r), vec!["a", "b", "c"]);
    assert_eq!(InertiaMiddleware::partial_component(&r), Some("Users".to_string()));
    let plain = req("/", &[]);
    assert!(!InertiaMiddleware::is_inertia(&plain));
    assert!(InertiaMiddleware::partial_data(&plain).is_empty());
    assert_eq!(InertiaMiddleware::partial_component(&plain), None);
}

#[test]
fn page_json_merges_shared_and_filters() {
    let mut c = InertiaConfig::new();
    share(&mut c, "auth", s("yes"));
    let v = InertiaMiddleware::page_json(&c, "Page", obj(&[("body", s("x")), ("auth", s("no"))]), "/p", &[]);
    assert_eq!(v.to_string(), "{\"component\":\"Page\",\"props\":{\"auth\":\"yes\",\"body\":\"x\"},\"url\":\"/p\",\"version\":\"1.0\"}");
    let v = InertiaMiddleware::page_json(&c, "Page", obj(&[("body", s("x"))]), "/p", &["body".to_string()]);
    assert_eq!(v.to_string(), "{\"component\":\"Page\",\"props\":{\"body\":\"x\"},\"url\":\"/p\",\"version\":\"1.0\"}");
    let v = InertiaMiddleware::page_json(&c, "Page", s("scalar"), "/p", &[]);
    assert_eq!(v.to_string(), "{\"component\":\"Page\",\"props\":{\"auth\":\"yes\"},\"url\":\"/p\",\"version\":\"1.0\"}");
}

#[test]
fn wrap_html_embeds_page() {
    assert_eq!(InertiaMiddleware::wrap_html("{}", "<div data-page='{{data-page}}'>"), "<div data-page='{}'>");
    assert_eq!(InertiaMiddleware::wrap_html("{}", "plain"), "plain");
}

fn pending(r: &Request, c: &InertiaConfig) -> PendingRequest {
    InertiaMiddleware::begin(r, c)
}

#[test]
fn handle_inertia_redirect_is_409() {
    let c = InertiaConfig::new();
    let r = req("/old", &[("X-Inertia", "true")]);
    let p = pending(&r, &c);
    let handler = Response::new(302).with_header("Location", "/new");
    let out = InertiaMiddleware::new().handle(&p, handler, &c);
    assert_eq!(out.status, 409);
    assert_eq!(out.header("X-Inertia-Location"), Some("/new".to_string()));
    assert_eq!(out.header("X-Inertia-Version"), Some("1.0".to_string()));
    assert_eq!(out.body, "{\"component\":null,\"props\":{},\"url\":\"/new\",\"version\":\"1.0\"}");
}

#[test]
fn handle_plain_redirect_passes_through() {
    let c = InertiaConfig::new();
    let r = req("/old", &[]);
    let p = pending(&r, &c);
    let out = InertiaMiddleware::new().handle(&p, Response::new(301).with_header("location", "/n"), &c);
    assert_eq!(out.status, 301);
    assert_eq!(out.header("location"), Some("/n".to_string()));
    assert_eq!(out.body, "");
}

#[test]
fn handle_inertia_json_page() {
    let mut c = InertiaConfig::new();
    share(&mut c, "app", s("demo"));
    let r = req("/users", &[("x-inertia", "true")]);
    let p = pending(&r, &c);
    let out = InertiaMiddleware::new().handle(&p, Response::text("hello"), &c);
    assert_eq!(out.status, 200);
    assert_eq!(out.header("x-inertia-version"), Some("1.0".to_string()));
    assert_eq!(out.header("content-type"), Some("application/json".to_string()));
    assert_eq!(out.body, "{\"component\":\"Page\",\"props\":{\"app\":\"demo\",\"body\":\"hello\"},\"url\":\"/users\",\"version\":\"1.0\"}");
    let r = req("/users", &[("x-inertia", "true"), ("x-inertia-partial-data", "app")]);
    let p = pending(&r, &c);
    let out = InertiaMiddleware::new().handle(&p, Response::text("hello"), &c);
    assert_eq!(out.body, "{\"component\":\"Page\",\"props\":{\"app\":\"demo\"},\"url\":\"/users\",\"version\":\"1.0\"}");
}

#[test]
fn handle_full_page_load() {
    let mut c = InertiaConfig::new();
    let r = req("/home", &[]);
    let p = pending(&r, &c);
    let handler = Response::text("body");
    let out = InertiaMiddleware::new().handle(&p, Response::text("body"), &c);
    assert_eq!(out.body, handler.body);
    assert_eq!(out.header("content-type"), Some("text/plain; charset=utf-8".to_string()));
    set_root_view(&mut c, "<div data-page='{{data-page}}'></div>");
    let out = InertiaMiddleware::new().handle(&p, Response::text("body"), &c);
    assert_eq!(out.header("content-type"), Some("text/html; charset=utf-8".to_string()));
    assert_eq!(out.body, "<div data-page='{\"component\":\"Page\",\"props\":{},\"url\":\"/home\",\"version\":\"1.0\"}'></div>");
    let own = InertiaMiddleware::new().with_root_view("<main>{{data-page}}</main>");
    let out = own.handle(&p, Response::text("body"), &c);
    assert_eq!(out.body, "<main>{\"component\":\"Page\",\"props\":{},\"url\":\"/home\",\"version\":\"1.0\"}</main>");
}

#[test]
fn handle_inertia_passes_handler_page_through() {
    let mut c = InertiaConfig::new();
    share(&mut c, "app", s("demo"));
    let r = req("/dash", &[("x-inertia", "true")]);
    let p = pending(&r, &c);
    let page = inertia("Home", obj(&[("title", s("Welcome"))])).into_response(&InertiaConfig::new());
    let out = InertiaMiddleware::new().handle(&p, page, &c);
    assert_eq!(out.status, 200);
    assert_eq!(
        out.body,
        "{\"component\":\"Home\",\"props\":{\"app\":\"demo\",\"title\":\"Welcome\"},\"url\":\"/dash\",\"version\":\"1.0\"}"
    );
    let page = inertia("Home", obj(&[("title", s("Welcome"))])).url("/home").into_response(&InertiaConfig::new());
    let out = InertiaMiddleware::new().handle(&p, page, &c);
    assert_eq!(
        out.body,
        "{\"component\":\"Home\",\"props\":{\"app\":\"demo\",\"title\":\"Welcome\"},\"url\":\"/home\",\"version\":\"1.0\"}"
    );
}

#[test]
fn handle_full_page_load_carries_shared_props() {
    let mut c = InertiaConfig::new();
    share(&mut c, "app", s("demo"));
    set_root_view(&mut c, "<div data-page='{{data-page}}'></div>");
    let r = req("/home", &[]);
    let p = pending(&r, &c);
    let out = InertiaMiddleware::new().handle(&p, Response::text("body"), &c);
    assert_eq!(out.body, "<div data-page='{\"component\":\"Page\",\"props\":{\"app\":\"demo\"},\"url\":\"/home\",\"version\":\"1.0\"}'></div>");
    let page = inertia("Home", obj(&[("title", s("Welcome"))])).into_response(&c);
    let out = InertiaMiddleware::new().handle(&p, page, &c);
    assert_eq!(out.body, "<div data-page='{\"component\":\"Home\",\"props\":{\"app\":\"demo\",\"title\":\"Welcome\"},\"url\":\"/home\",\"version\":\"1.0\"}'></div>");
}

#[test]
fn handle_full_page_load_ignores_partial_data() {
    let mut c = InertiaConfig::new();
    share(&mut c, "app", s("demo"));
    set_root_view(&mut c, "<div data-page='{{data-page}}'></div>");
    let r = req("/home", &[("x-inertia-partial-data", "title")]);
    let p = pending(&r, &c);
    let page = inertia("Home", obj(&[("title", s("Welcome"))])).into_response(&c);
    let out = InertiaMiddleware::new().handle(&p, page, &c);
    assert_eq!(out.body, "<div data-page='{\"component\":\"Home\",\"props\":{\"app\":\"demo\",\"title\":\"Welcome\"},\"url\":\"/home\",\"version\":\"1.0\"}'></div>");
}
