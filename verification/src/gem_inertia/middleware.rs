//! The Inertia middleware: answers each request as JSON or as HTML.
use vstd::prelude::*;
use serde_json::Value;
use crate::http::{
    Request, Response, ResponseView, header_value, headers_view, html_media_type, json_media_type,
    ok_with, with_header_set,
};
use crate::json::{
    PropMap, json_as_string, json_clone, json_from_optional_string, json_from_string, json_nullable_string,
    json_object_value, json_string_value, json_text, json_to_text, key_set,
};
use crate::inertia::middleware::page_data_of;
use crate::text::{comma_pieces, replace, replace_all, split_commas, texts, trim, trimmed};
use super::{InertiaConfig, make_page, members_or_empty, opt_text, page_object};

verus! {

/// The placeholder of the root view where the page JSON goes.
pub open spec fn placeholder() -> Seq<char> {
    "{{data-page}}"@
}

/// The prop keys a partial reload asks for: the `X-Inertia-Partial-Data`
/// header split at commas, each piece trimmed.
pub open spec fn requested_keys(headers: Seq<(Seq<char>, Seq<char>)>) -> Seq<Seq<char>> {
    match header_value(headers, "x-inertia-partial-data"@) {
        Some(v) => comma_pieces(v).map_values(|p: Seq<char>| trimmed(p)),
        None => seq![],
    }
}

/// The props of a page: the object members of `props` (none if it is no
/// object) with the shared props over them, and, when keys were asked for,
/// only the members under those keys.
pub open spec fn page_props(props: Value, shared: Map<Seq<char>, Value>, keys: Seq<String>) -> Map<
    Seq<char>,
    Value,
> {
    page_props_from(members_or_empty(props), shared, keys)
}

/// The props of a page built on `base`: the shared props over it, and, when
/// keys were asked for, only the members under those keys.
pub open spec fn page_props_from(
    base: Map<Seq<char>, Value>,
    shared: Map<Seq<char>, Value>,
    keys: Seq<String>,
) -> Map<Seq<char>, Value> {
    let all = base.union_prefer_right(shared);
    if keys.len() > 0 {
        all.restrict(key_set(keys))
    } else {
        all
    }
}

/// The props object members of a handler's page, none when it has no
/// `props` object.
pub open spec fn handler_props(members: Map<Seq<char>, Value>) -> Map<Seq<char>, Value> {
    if members.contains_key("props"@) {
        members_or_empty(members["props"@])
    } else {
        Map::empty()
    }
}

/// Whether the handler's page sets its URL: its `url` member is a string
/// that is not empty.
pub open spec fn sets_url(members: Map<Seq<char>, Value>) -> bool {
    members.contains_key("url"@) && exists|u: Seq<char>|
        u.len() > 0 && #[trigger] json_string_value(u) == members["url"@]
}

/// The component an answer names: the handler page's own, else `Page`.
pub open spec fn answer_component(body: Seq<char>) -> Value {
    match page_data_of(body) {
        Some(data) => members_or_empty(data)["component"@],
        None => json_string_value("Page"@),
    }
}

/// The props an answer carries, the shared props merged in: those of the
/// handler's page, else the handler's body under `body` when `wrap_body`
/// holds, else none.
pub open spec fn answer_props(
    body: Seq<char>,
    wrap_body: bool,
    shared: Map<Seq<char>, Value>,
    keys: Seq<String>,
) -> Map<Seq<char>, Value> {
    match page_data_of(body) {
        Some(data) => page_props_from(handler_props(members_or_empty(data)), shared, keys),
        None => page_props_from(
            if wrap_body {
                map!["body"@ => json_string_value(body)]
            } else {
                Map::empty()
            },
            shared,
            keys,
        ),
    }
}

/// The URL an answer names: the one the handler's page sets, else the
/// request's path.
pub open spec fn answer_url(body: Seq<char>, url: Seq<char>) -> Seq<char> {
    match page_data_of(body) {
        Some(data) => if sets_url(members_or_empty(data)) {
            choose|u: Seq<char>|
                u.len() > 0 && #[trigger] json_string_value(u) == members_or_empty(data)["url"@]
        } else {
            url
        },
        None => url,
    }
}

/// The members of the page a request is answered with: every member of the
/// handler's page (none for a plain body), with the component, the props,
/// the URL and the version put in place.
pub open spec fn answer_members(
    body: Seq<char>,
    wrap_body: bool,
    shared: Map<Seq<char>, Value>,
    keys: Seq<String>,
    url: Seq<char>,
    version: Seq<char>,
) -> Map<Seq<char>, Value> {
    let base = match page_data_of(body) {
        Some(data) => members_or_empty(data),
        None => Map::empty(),
    };
    base.insert("component"@, answer_component(body)).insert(
        "props"@,
        json_object_value(answer_props(body, wrap_body, shared, keys)),
    ).insert("url"@, json_string_value(answer_url(body, url))).insert("version"@, json_string_value(version))
}

/// The page a request is answered with.
pub open spec fn answer_page(
    body: Seq<char>,
    wrap_body: bool,
    shared: Map<Seq<char>, Value>,
    keys: Seq<String>,
    url: Seq<char>,
    version: Seq<char>,
) -> Value {
    json_object_value(answer_members(body, wrap_body, shared, keys, url, version))
}

/// The prop keys asked for by a partial reload, which only an Inertia
/// request makes: none for a full page load.
pub open spec fn reload_keys(pending: PendingRequest) -> Seq<String> {
    if pending.is_inertia {
        pending.partial_keys@
    } else {
        seq![]
    }
}

/// What the middleware notes of a request before the handler runs.
pub struct PendingRequest {
    pub is_inertia: bool,
    pub partial_keys: Vec<String>,
    pub url: String,
    pub version: String,
}

/// The answer to an Inertia request whose handler redirected to `location`.
pub open spec fn redirect_reply(location: Seq<char>, version: Seq<char>) -> ResponseView {
    ResponseView {
        status: 409,
        headers: with_header_set(
            with_header_set(seq![("content-type"@, json_media_type())], "X-Inertia-Location"@, location),
            "X-Inertia-Version"@,
            version,
        ),
        body: json_text(
            page_object(
                json_nullable_string(None),
                json_object_value(Map::empty()),
                location,
                version,
            ),
        ),
    }
}

/// The answer the middleware gives, from what it noted before the handler
/// ran, the handler's response and the settings after it ran.
pub open spec fn gem_reply(
    own_root: Option<String>,
    pending: PendingRequest,
    response: ResponseView,
    config: InertiaConfig,
) -> ResponseView {
    let location = header_value(response.headers, "location"@);
    if 300 <= response.status < 400 && location is Some {
        if pending.is_inertia {
            redirect_reply(location->0, pending.version@)
        } else {
            response
        }
    } else if pending.is_inertia {
        let page = answer_page(
            response.body,
            true,
            config.shared.view(),
            pending.partial_keys@,
            pending.url@,
            config.version@,
        );
        ResponseView {
            headers: with_header_set(
                seq![("content-type"@, json_media_type())],
                "X-Inertia-Version"@,
                pending.version@,
            ),
            ..ok_with(json_media_type(), json_text(page))
        }
    } else {
        let page = answer_page(
            response.body,
            false,
            config.shared.view(),
            seq![],
            pending.url@,
            pending.version@,
        );
        let template = match own_root {
            Some(t) => Some(t@),
            None => opt_text(config.root_view),
        };
        match template {
            Some(t) => ok_with(html_media_type(), replace_all(t, placeholder(), json_text(page))),
            None => response,
        }
    }
}

/// `base` with the shared props over it, cut down to `keys` when some were
/// asked for.
fn with_shared(base: PropMap, config: &InertiaConfig, keys: &[String]) -> (r: PropMap)
    ensures
        r.view() == page_props_from(base.view(), config.shared.view(), keys@),
{
    let mut all = base;
    all.extend(super::shared(config));
    if keys.len() > 0 {
        all.restricted_to(keys)
    } else {
        all
    }
}

/// The URL a handler's page names, given its members: its own when it sets
/// one, else `url`.
fn chosen_url(members: &PropMap, url: &str) -> (r: String)
    ensures
        r@ == (if sets_url(members.view()) {
            choose|u: Seq<char>| u.len() > 0 && #[trigger] json_string_value(u) == members.view()["url"@]
        } else {
            url@
        }),
{
    broadcast use vstd::string::group_string_axioms;
    proof {
        reveal_strlit("url");
    }
    match members.get("url") {
        Some(v) => match json_as_string(v) {
            Some(t) => {
                if t.as_str().is_empty() {
                    proof {
                        assert(!sets_url(members.view()));
                    }
                    url.to_string()
                } else {
                    proof {
                        assert(json_string_value(t@) == members.view()["url"@]);
                        assert(sets_url(members.view()));
                    }
                    t
                }
            },
            None => url.to_string(),
        },
        None => url.to_string(),
    }
}

/// Builds the page a request is answered with.
pub fn build_answer_page(
    body: &str,
    wrap_body: bool,
    config: &InertiaConfig,
    keys: &[String],
    url: &str,
    version: &str,
) -> (r: Value)
    ensures
        r == answer_page(body@, wrap_body, config.shared.view(), keys@, url@, version@),
{
    broadcast use vstd::string::group_string_axioms;
    match crate::inertia::InertiaMiddleware::parse_page_data(body) {
        Some(data) => {
            let ghost d = data;
            let mut m = match PropMap::from_json(data) {
                Ok(m) => m,
                Err(_) => PropMap::new(),
            };
            let ghost m0 = m.view();
            proof {
                assert(m0 =~= members_or_empty(d));
                reveal_strlit("component");
                reveal_strlit("props");
                reveal_strlit("url");
                reveal_strlit("version");
            }
            let page_url = chosen_url(&m, url);
            let base = match m.get("props") {
                Some(p) => match PropMap::from_json(json_clone(p)) {
                    Ok(pm) => pm,
                    Err(_) => {
                        let e = PropMap::new();
                        proof {
                            assert(e.view() =~= handler_props(m0));
                        }
                        e
                    },
                },
                None => {
                    let e = PropMap::new();
                    proof {
                        assert(e.view() =~= handler_props(m0));
                    }
                    e
                },
            };
            proof {
                assert(base.view() =~= handler_props(m0));
            }
            let props = with_shared(base, config, keys);
            m.insert("props".to_string(), props.into_json());
            m.insert("url".to_string(), json_from_string(page_url));
            m.insert("version".to_string(), json_from_string(version.to_string()));
            proof {
                assert(m0.contains_key("component"@));
                assert(m.view() =~= answer_members(body@, wrap_body, config.shared.view(), keys@, url@, version@));
            }
            m.into_json()
        },
        None => {
            let mut base = PropMap::new();
            if wrap_body {
                base.insert("body".to_string(), json_from_string(body.to_string()));
            }
            proof {
                if wrap_body {
                    assert(base.view() =~= map!["body"@ => json_string_value(body@)]);
                } else {
                    assert(base.view() =~= Map::<Seq<char>, Value>::empty());
                }
            }
            let props = with_shared(base, config, keys);
            let pj = props.into_json();
            let r = make_page(json_from_string("Page".to_string()), pj, url, version);
            proof {
                reveal_strlit("component");
                reveal_strlit("props");
                reveal_strlit("url");
                reveal_strlit("version");
                assert(map![
                    "component"@ => json_string_value("Page"@),
                    "props"@ => pj,
                    "url"@ => json_string_value(url@),
                    "version"@ => json_string_value(version@),
                ] =~= answer_members(body@, wrap_body, config.shared.view(), keys@, url@, version@));
            }
            r
        },
    }
}

/// The middleware that serves the InertiaJS protocol, optionally with a root
/// view template of its own.
pub struct InertiaMiddleware {
    pub root_view: Option<String>,
}

impl Default for InertiaMiddleware {
    fn default() -> (m: InertiaMiddleware)
        ensures
            m.root_view is None,
    {
        InertiaMiddleware::new()
    }
}

impl InertiaMiddleware {
    pub fn new() -> (m: InertiaMiddleware)
        ensures
            m.root_view is None,
    {
        InertiaMiddleware { root_view: None }
    }

    /// Sets the root view HTML template of this middleware.
    pub fn with_root_view(self, template: &str) -> (m: InertiaMiddleware)
        ensures
            opt_text(m.root_view) == Some(template@),
    {
        broadcast use vstd::string::group_string_axioms;
        InertiaMiddleware { root_view: Some(template.to_string()) }
    }

    /// Whether the request is an Inertia XHR (it carries `X-Inertia`).
    pub fn is_inertia(req: &Request) -> (r: bool)
        ensures
            r == header_value(headers_view(req.headers@), "x-inertia"@) is Some,
    {
        req.header("x-inertia").is_some()
    }

    /// The component a partial reload is for.
    pub fn partial_component(req: &Request) -> (r: Option<String>)
        ensures
            opt_text(r) == header_value(headers_view(req.headers@), "x-inertia-partial-component"@),
    {
        req.header("x-inertia-partial-component")
    }

    /// The prop keys a partial reload asks for.
    pub fn partial_data(req: &Request) -> (r: Vec<String>)
        ensures
            texts(r@) == requested_keys(headers_view(req.headers@)),
    {
        match req.header("x-inertia-partial-data") {
            Some(v) => {
                let parts = split_commas(v.as_str());
                let mut out: Vec<String> = Vec::new();
                let mut i: usize = 0;
                while i < parts.len()
                    invariant
                        i <= parts.len(),
                        texts(out@) == texts(parts@).take(i as int).map_values(|p: Seq<char>| trimmed(p)),
                    decreases parts.len() - i,
                {
                    let t = trim(parts[i].as_str());
                    proof {
                        assert(texts(out@.push(t)) =~= texts(out@).push(t@));
                        assert(texts(parts@).take(i + 1) =~= texts(parts@).take(i as int).push(parts@[i as int]@));
                        assert(texts(parts@).take(i + 1).map_values(|p: Seq<char>| trimmed(p)) =~= texts(
                            parts@,
                        ).take(i as int).map_values(|p: Seq<char>| trimmed(p)).push(trimmed(parts@[i as int]@)));
                    }
                    out.push(t);
                    i = i + 1;
                }
                proof {
                    assert(texts(parts@).take(i as int) =~= texts(parts@));
                }
                out
            },
            None => {
                let out: Vec<String> = Vec::new();
                proof {
                    assert(texts(out@) =~= Seq::<Seq<char>>::empty());
                }
                out
            },
        }
    }

    /// The page object with the shared props merged in and, for a partial
    /// reload, only the props asked for.
    pub fn page_json(
        config: &InertiaConfig,
        component: &str,
        props: Value,
        url: &str,
        partial_keys: &[String],
    ) -> (r: Value)
        ensures
            r == page_object(
                json_string_value(component@),
                json_object_value(page_props(props, config.shared.view(), partial_keys@)),
                url@,
                config.version@,
            ),
    {
        broadcast use vstd::string::group_string_axioms;
        let ghost given = props;
        let mut all = match PropMap::from_json(props) {
            Ok(m) => m,
            Err(_) => PropMap::new(),
        };
        proof {
            assert(all.view() =~= members_or_empty(given));
        }
        all.extend(super::shared(config));
        let chosen = if partial_keys.len() > 0 {
            all.restricted_to(partial_keys)
        } else {
            all
        };
        make_page(json_from_string(component.to_string()), chosen.into_json(), url, config.version.as_str())
    }

    /// The page JSON embedded in the root view template.
    pub fn wrap_html(page_json: &str, template: &str) -> (r: String)
        ensures
            r@ == replace_all(template@, placeholder(), page_json@),
    {
        proof {
            reveal_strlit("{{data-page}}");
        }
        replace(template, "{{data-page}}", page_json)
    }

    /// Notes what the answer needs of the request before the handler runs.
    pub fn begin(req: &Request, config: &InertiaConfig) -> (p: PendingRequest)
        ensures
            p.is_inertia == header_value(headers_view(req.headers@), "x-inertia"@) is Some,
            texts(p.partial_keys@) == requested_keys(headers_view(req.headers@)),
            p.url@ == req.path@,
            p.version@ == config.version@,
    {
        PendingRequest {
            is_inertia: InertiaMiddleware::is_inertia(req),
            partial_keys: InertiaMiddleware::partial_data(req),
            url: req.path.clone(),
            version: super::version(config),
        }
    }

    /// The answer to a request, given what `begin` noted before the handler
    /// ran, the handler's response and the settings after it ran.
    pub fn handle(&self, pending: &PendingRequest, response: Response, config: &InertiaConfig) -> (r: Response)
        ensures
            r.view() == gem_reply(self.root_view, *pending, response.view(), *config),
    {
        broadcast use vstd::string::group_string_axioms;
        if response.is_redirection() {
            match response.header("location") {
                Some(location) => {
                    if pending.is_inertia {
                        let empty = PropMap::new();
                        let page = make_page(
                            json_from_optional_string(None),
                            empty.into_json(),
                            location.as_str(),
                            pending.version.as_str(),
                        );
                        let mut r = Response::json(json_to_text(&page)).with_header(
                            "X-Inertia-Location",
                            location.as_str(),
                        ).with_header("X-Inertia-Version", pending.version.as_str());
                        r.status = 409;
                        return r;
                    }
                    return response;
                },
                None => {},
            }
        }
        if pending.is_inertia {
            let page = build_answer_page(
                response.body.as_str(),
                true,
                config,
                pending.partial_keys.as_slice(),
                pending.url.as_str(),
                config.version.as_str(),
            );
            Response::json(json_to_text(&page)).with_header("X-Inertia-Version", pending.version.as_str())
        } else {
            let none: Vec<String> = Vec::new();
            proof {
                assert(none@ =~= Seq::<String>::empty());
            }
            let page = build_answer_page(
                response.body.as_str(),
                false,
                config,
                none.as_slice(),
                pending.url.as_str(),
                pending.version.as_str(),
            );
            let template = match &self.root_view {
                Some(t) => Some(t.clone()),
                None => super::root_view(config),
            };
            match template {
                Some(t) => {
                    let text = json_to_text(&page);
                    let html = InertiaMiddleware::wrap_html(text.as_str(), t.as_str());
                    Response::html(html.as_str())
                },
                None => response,
            }
        }
    }
}


/// An Inertia request whose handler redirected is answered `409 Conflict`
/// with `X-Inertia-Location` naming the redirect target and the asset
/// version in `X-Inertia-Version`.
pub proof fn law_inertia_redirect(
    own_root: Option<String>,
    pending: PendingRequest,
    response: ResponseView,
    config: InertiaConfig,
    location: Seq<char>,
)
    requires
        pending.is_inertia,
        300 <= response.status < 400,
        header_value(response.headers, "location"@) == Some(location),
    ensures
        gem_reply(own_root, pending, response, config).status == 409,
        header_value(gem_reply(own_root, pending, response, config).headers, "X-Inertia-Location"@)
            == Some(location),
        header_value(gem_reply(own_root, pending, response, config).headers, "X-Inertia-Version"@)
            == Some(pending.version@),
{
    lemma_redirect_reply_headers(location, pending.version@);
}

pub proof fn lemma_redirect_reply_headers(location: Seq<char>, version: Seq<char>)
    ensures
        header_value(redirect_reply(location, version).headers, "X-Inertia-Location"@) == Some(location),
        header_value(redirect_reply(location, version).headers, "X-Inertia-Version"@) == Some(version),
        redirect_reply(location, version).status == 409,
{
    let h1 = with_header_set(seq![("content-type"@, json_media_type())], "X-Inertia-Location"@, location);
    reveal_strlit("X-Inertia-Location");
    reveal_strlit("X-Inertia-Version");
    crate::http::law_header_set_then_read(seq![("content-type"@, json_media_type())], "X-Inertia-Location"@, location);
    assert(!crate::text::same_ignoring_ascii_case("X-Inertia-Version"@, "X-Inertia-Location"@));
    crate::http::law_header_set_keeps_others(h1, "X-Inertia-Version"@, version, "X-Inertia-Location"@);
    crate::http::law_header_set_then_read(h1, "X-Inertia-Version"@, version);
}

/// A redirect answered to a request that is no Inertia request passes
/// through unchanged.
pub proof fn law_plain_redirect_passes(
    own_root: Option<String>,
    pending: PendingRequest,
    response: ResponseView,
    config: InertiaConfig,
)
    requires
        !pending.is_inertia,
        300 <= response.status < 400,
        header_value(response.headers, "location"@) is Some,
    ensures
        gem_reply(own_root, pending, response, config) == response,
{
}

/// An Inertia request that was not redirected gets its page as JSON, with
/// the asset version in `X-Inertia-Version`.
pub proof fn law_inertia_json(
    own_root: Option<String>,
    pending: PendingRequest,
    response: ResponseView,
    config: InertiaConfig,
)
    requires
        pending.is_inertia,
        !(300 <= response.status < 400 && header_value(response.headers, "location"@) is Some),
    ensures
        gem_reply(own_root, pending, response, config).status == 200,
        header_value(gem_reply(own_root, pending, response, config).headers, "content-type"@) == Some(
            json_media_type(),
        ),
        header_value(gem_reply(own_root, pending, response, config).headers, "X-Inertia-Version"@)
            == Some(pending.version@),
{
    let h = seq![("content-type"@, json_media_type())];
    reveal_strlit("X-Inertia-Version");
    reveal_strlit("content-type");
    crate::http::law_header_set_then_read(h, "X-Inertia-Version"@, pending.version@);
    assert(!crate::text::same_ignoring_ascii_case("X-Inertia-Version"@, "content-type"@));
    crate::http::law_header_set_keeps_others(h, "X-Inertia-Version"@, pending.version@, "content-type"@);
    assert(h[0].0 == "content-type"@);
    assert(crate::text::same_ignoring_ascii_case(h[0].0, "content-type"@));
}

/// A full page load with a root view holding `{{data-page}}` once is
/// answered with that template, the page JSON in place of the placeholder.
pub proof fn law_full_page_embeds_page(
    own_root: Option<String>,
    pending: PendingRequest,
    response: ResponseView,
    config: InertiaConfig,
    pre: Seq<char>,
    post: Seq<char>,
)
    requires
        !pending.is_inertia,
        !(300 <= response.status < 400 && header_value(response.headers, "location"@) is Some),
        (match own_root {
            Some(t) => t@,
            None => opt_text(config.root_view)->0,
        }) == pre + placeholder() + post,
        own_root is Some || config.root_view is Some,
        forall|i: int|
            #[trigger] crate::text::occurs(pre + placeholder() + post, placeholder(), i) ==> i
                == pre.len(),
    ensures
        gem_reply(own_root, pending, response, config) == ok_with(
            html_media_type(),
            pre + json_text(
                answer_page(
                    response.body,
                    false,
                    config.shared.view(),
                    seq![],
                    pending.url@,
                    pending.version@,
                ),
            ) + post,
        ),
{
    reveal_strlit("{{data-page}}");
    let page = answer_page(
        response.body,
        false,
        config.shared.view(),
        seq![],
        pending.url@,
        pending.version@,
    );
    crate::text::law_replace_single_occurrence(pre, placeholder(), post, json_text(page));
}

/// On a partial reload only the props asked for are sent.
pub proof fn law_partial_reload_only_requested(props: Value, shared: Map<Seq<char>, Value>, keys: Seq<String>)
    requires
        keys.len() > 0,
    ensures
        page_props(props, shared, keys).dom().subset_of(key_set(keys)),
{
}

/// Without a partial reload every shared prop reaches the page, over a
/// page prop of the same key.
pub proof fn law_shared_props_reach_page(props: Value, shared: Map<Seq<char>, Value>, key: Seq<char>)
    requires
        shared.contains_key(key),
    ensures
        page_props(props, shared, seq![]).contains_key(key),
        page_props(props, shared, seq![])[key] == shared[key],
{
}

/// On a partial reload a prop asked for is sent when the page or the
/// shared props have it.
pub proof fn law_partial_reload_keeps_requested(
    props: Value,
    shared: Map<Seq<char>, Value>,
    keys: Seq<String>,
    i: int,
)
    requires
        0 <= i < keys.len(),
        members_or_empty(props).contains_key(keys[i]@) || shared.contains_key(keys[i]@),
    ensures
        page_props(props, shared, keys).contains_key(keys[i]@),
{
    assert(key_set(keys).contains(keys[i]@));
}


/// A handler's own page keeps its component.
pub proof fn law_handler_component_kept(body: Seq<char>, data: Value)
    requires
        page_data_of(body) == Some(data),
    ensures
        answer_component(body) == members_or_empty(data)["component"@],
{
}

/// Shared props are available on every page: without a partial reload each
/// shared prop is among the answer's props, over a page prop of that key.
pub proof fn law_shared_props_on_every_page(
    body: Seq<char>,
    wrap_body: bool,
    shared: Map<Seq<char>, Value>,
    key: Seq<char>,
)
    requires
        shared.contains_key(key),
    ensures
        answer_props(body, wrap_body, shared, seq![]).contains_key(key),
        answer_props(body, wrap_body, shared, seq![])[key] == shared[key],
{
}

/// Without a partial reload a prop of the handler's page that is not shared
/// reaches the answer unchanged.
pub proof fn law_handler_props_kept(
    body: Seq<char>,
    wrap_body: bool,
    data: Value,
    shared: Map<Seq<char>, Value>,
    key: Seq<char>,
)
    requires
        page_data_of(body) == Some(data),
        handler_props(members_or_empty(data)).contains_key(key),
        !shared.contains_key(key),
    ensures
        answer_props(body, wrap_body, shared, seq![]).contains_key(key),
        answer_props(body, wrap_body, shared, seq![])[key] == handler_props(members_or_empty(data))[key],
{
}

/// On a partial reload the answer carries only the props asked for.
pub proof fn law_partial_answer_only_requested(
    body: Seq<char>,
    wrap_body: bool,
    shared: Map<Seq<char>, Value>,
    keys: Seq<String>,
)
    requires
        keys.len() > 0,
    ensures
        answer_props(body, wrap_body, shared, keys).dom().subset_of(key_set(keys)),
{
}

/// A page whose URL is not set names the request's path.
pub proof fn law_url_auto_detected(body: Seq<char>, url: Seq<char>)
    requires
        match page_data_of(body) {
            Some(data) => !sets_url(members_or_empty(data)),
            None => true,
        },
    ensures
        answer_url(body, url) == url,
{
}

/// A page that sets its URL names that URL.
pub proof fn law_url_set_by_page(body: Seq<char>, url: Seq<char>, data: Value)
    requires
        page_data_of(body) == Some(data),
        sets_url(members_or_empty(data)),
    ensures
        answer_url(body, url).len() > 0,
        json_string_value(answer_url(body, url)) == members_or_empty(data)["url"@],
{
}

/// Every member of a handler's page other than its component, props, URL
/// and version reaches the answer unchanged.
pub proof fn law_handler_members_kept(
    body: Seq<char>,
    wrap_body: bool,
    data: Value,
    shared: Map<Seq<char>, Value>,
    keys: Seq<String>,
    url: Seq<char>,
    version: Seq<char>,
    key: Seq<char>,
)
    requires
        page_data_of(body) == Some(data),
        members_or_empty(data).contains_key(key),
        key != "component"@,
        key != "props"@,
        key != "url"@,
        key != "version"@,
    ensures
        answer_members(body, wrap_body, shared, keys, url, version).contains_key(key),
        answer_members(body, wrap_body, shared, keys, url, version)[key] == members_or_empty(data)[key],
{
}

/// The answer names the component, the props, the URL and the version that
/// `answer_component`, `answer_props` and `answer_url` give.
pub proof fn law_answer_page_members(
    body: Seq<char>,
    wrap_body: bool,
    shared: Map<Seq<char>, Value>,
    keys: Seq<String>,
    url: Seq<char>,
    version: Seq<char>,
)
    ensures
        answer_members(body, wrap_body, shared, keys, url, version)["component"@] == answer_component(body),
        answer_members(body, wrap_body, shared, keys, url, version)["props"@] == json_object_value(
            answer_props(body, wrap_body, shared, keys),
        ),
        answer_members(body, wrap_body, shared, keys, url, version)["url"@] == json_string_value(
            answer_url(body, url),
        ),
        answer_members(body, wrap_body, shared, keys, url, version)["version"@] == json_string_value(version),
{
    reveal_strlit("component");
    reveal_strlit("props");
    reveal_strlit("url");
    reveal_strlit("version");
    assert("component"@.len() == 9 && "props"@.len() == 5 && "url"@.len() == 3 && "version"@.len() == 7);
}

/// A full page load is no partial reload: whatever `X-Inertia-Partial-Data`
/// it carries, every shared prop reaches the page it is answered with.
pub proof fn law_full_page_keeps_shared_props(
    pending: PendingRequest,
    body: Seq<char>,
    wrap_body: bool,
    shared: Map<Seq<char>, Value>,
    key: Seq<char>,
)
    requires
        !pending.is_inertia,
        shared.contains_key(key),
    ensures
        answer_props(body, wrap_body, shared, reload_keys(pending)).contains_key(key),
        answer_props(body, wrap_body, shared, reload_keys(pending))[key] == shared[key],
{
}

/// The page answered for a body that is no Inertia page: component `Page`,
/// the body under `body` when `wrap_body` holds, the shared props over it.
pub proof fn lemma_plain_answer_page(
    body: Seq<char>,
    wrap_body: bool,
    shared: Map<Seq<char>, Value>,
    url: Seq<char>,
    version: Seq<char>,
)
    requires
        page_data_of(body) is None,
    ensures
        answer_page(body, wrap_body, shared, seq![], url, version) == page_object(
            json_string_value("Page"@),
            json_object_value(
                (if wrap_body {
                    map!["body"@ => json_string_value(body)]
                } else {
                    Map::<Seq<char>, Value>::empty()
                }).union_prefer_right(shared),
            ),
            url,
            version,
        ),
{
    reveal_strlit("component");
    reveal_strlit("props");
    reveal_strlit("url");
    reveal_strlit("version");
    let base = if wrap_body {
        map!["body"@ => json_string_value(body)]
    } else {
        Map::<Seq<char>, Value>::empty()
    };
    assert(answer_props(body, wrap_body, shared, seq![]) == base.union_prefer_right(shared));
    assert(answer_members(body, wrap_body, shared, seq![], url, version) =~= map![
        "component"@ => json_string_value("Page"@),
        "props"@ => json_object_value(base.union_prefer_right(shared)),
        "url"@ => json_string_value(url),
        "version"@ => json_string_value(version),
    ]);
}

/// An Inertia request whose handler answered a plain body, with no partial
/// reload, gets as JSON the page `Page` whose props hold the body under
/// `body`, the shared props over it, the request's path as URL and the
/// configured asset version.
pub proof fn law_inertia_plain_body_page(
    own_root: Option<String>,
    pending: PendingRequest,
    response: ResponseView,
    config: InertiaConfig,
)
    requires
        pending.is_inertia,
        !(300 <= response.status < 400 && header_value(response.headers, "location"@) is Some),
        page_data_of(response.body) is None,
        pending.partial_keys@.len() == 0,
    ensures
        gem_reply(own_root, pending, response, config).body == json_text(
            page_object(
                json_string_value("Page"@),
                json_object_value(
                    map!["body"@ => json_string_value(response.body)].union_prefer_right(config.shared.view()),
                ),
                pending.url@,
                config.version@,
            ),
        ),
{
    assert(pending.partial_keys@ =~= Seq::<String>::empty());
    lemma_plain_answer_page(response.body, true, config.shared.view(), pending.url@, config.version@);
}

/// An Inertia request that was not redirected gets as JSON a page that
/// names the configured asset version and the handler page's component
/// (`Page` for a plain body).
pub proof fn law_inertia_page_version(
    own_root: Option<String>,
    pending: PendingRequest,
    response: ResponseView,
    config: InertiaConfig,
)
    requires
        pending.is_inertia,
        !(300 <= response.status < 400 && header_value(response.headers, "location"@) is Some),
    ensures
        exists|m: Map<Seq<char>, Value>|
            {
                &&& gem_reply(own_root, pending, response, config).body == json_text(json_object_value(m))
                &&& m.contains_key("version"@)
                &&& m["version"@] == json_string_value(config.version@)
                &&& m.contains_key("component"@)
                &&& m["component"@] == match page_data_of(response.body) {
                    Some(data) => members_or_empty(data)["component"@],
                    None => json_string_value("Page"@),
                }
            },
{
    let m = answer_members(response.body, true, config.shared.view(), pending.partial_keys@, pending.url@, config.version@);
    law_answer_page_members(response.body, true, config.shared.view(), pending.partial_keys@, pending.url@, config.version@);
    assert(gem_reply(own_root, pending, response, config).body == json_text(json_object_value(m)));
}

/// A full page load whose handler answered a plain body is answered with
/// the root view, the page `Page` in place of `{{data-page}}`: the shared
/// props as its props, whatever partial reload header came with it.
pub proof fn law_full_page_plain_body(
    own_root: Option<String>,
    pending: PendingRequest,
    response: ResponseView,
    config: InertiaConfig,
    template: Seq<char>,
)
    requires
        !pending.is_inertia,
        !(300 <= response.status < 400 && header_value(response.headers, "location"@) is Some),
        page_data_of(response.body) is None,
        (match own_root {
            Some(t) => Some(t@),
            None => opt_text(config.root_view),
        }) == Some(template),
    ensures
        gem_reply(own_root, pending, response, config) == ok_with(
            html_media_type(),
            replace_all(
                template,
                placeholder(),
                json_text(
                    page_object(
                        json_string_value("Page"@),
                        json_object_value(config.shared.view()),
                        pending.url@,
                        pending.version@,
                    ),
                ),
            ),
        ),
{
    lemma_plain_answer_page(response.body, false, config.shared.view(), pending.url@, pending.version@);
    assert(Map::<Seq<char>, Value>::empty().union_prefer_right(config.shared.view()) =~= config.shared.view());
}

/// Without a partial reload every prop of the given props object that is
/// not shared reaches the page with its value.
pub proof fn law_page_props_keep_own(props: Value, shared: Map<Seq<char>, Value>, key: Seq<char>)
    requires
        members_or_empty(props).contains_key(key),
        !shared.contains_key(key),
    ensures
        page_props(props, shared, seq![]).contains_key(key),
        page_props(props, shared, seq![])[key] == members_or_empty(props)[key],
{
}

/// A page's props are props of the given object or shared props, nothing
/// else.
pub proof fn law_page_props_from_given_or_shared(
    props: Value,
    shared: Map<Seq<char>, Value>,
    keys: Seq<String>,
    key: Seq<char>,
)
    requires
        page_props(props, shared, keys).contains_key(key),
    ensures
        members_or_empty(props).contains_key(key) || shared.contains_key(key),
        page_props(props, shared, keys)[key] == if shared.contains_key(key) {
            shared[key]
        } else {
            members_or_empty(props)[key]
        },
{
}

} // verus!
