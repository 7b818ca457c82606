//! Inertia middleware: renders JSON for XHR, HTML for full page loads.
use vstd::prelude::*;
use serde_json::Value;
use crate::gem_inertia::{InertiaConfig, make_page, opt_text, page_object};
use crate::gem_inertia::middleware::{answer_page, placeholder, redirect_reply, reload_keys, requested_keys};
use crate::http::{
    Request, Response, ResponseView, header_value, headers_view, html_media_type, json_media_type,
    ok_with, text_media_type, with_header_set,
};
use crate::json::{
    PropMap, json_from_optional_string, json_from_text, json_object_value, json_parse, json_string_value,
    json_text, json_to_text, object_contents,
};
use crate::text::{replace_all, texts};

verus! {

/// The page a handler's body holds: the body parsed as JSON, when that is an
/// object with a `component` member.
pub open spec fn page_data_of(body: Seq<char>) -> Option<Value> {
    match json_parse(body) {
        Some(v) => if object_contents(v) is Some && object_contents(v)->0.contains_key("component"@) {
            Some(v)
        } else {
            None
        },
        None => None,
    }
}

/// The answer the middleware gives, from what it noted before the handler
/// ran, the handler's response and the settings after it ran.
pub open spec fn core_reply(
    pending: crate::gem_inertia::middleware::PendingRequest,
    response: ResponseView,
    config: InertiaConfig,
) -> ResponseView {
    let location = header_value(response.headers, "location"@);
    if 300 <= response.status < 400 && location is Some {
        if pending.is_inertia {
            redirect_reply(location->0, pending.version@)
        } else {
            response
        }
    } else {
        let page = json_text(
            answer_page(
                response.body,
                true,
                config.shared.view(),
                reload_keys(pending),
                pending.url@,
                pending.version@,
            ),
        );
        if pending.is_inertia {
            ResponseView {
                headers: with_header_set(
                    with_header_set(
                        seq![("content-type"@, text_media_type())],
                        "content-type"@,
                        json_media_type(),
                    ),
                    "X-Inertia-Version"@,
                    pending.version@,
                ),
                ..ok_with(text_media_type(), page)
            }
        } else {
            match opt_text(config.root_view) {
                Some(t) => ok_with(html_media_type(), replace_all(t, placeholder(), page)),
                None => ResponseView {
                    headers: with_header_set(response.headers, "content-type"@, json_media_type()),
                    body: page,
                    ..response
                },
            }
        }
    }
}

/// The middleware that powers the InertiaJS protocol.
pub struct InertiaMiddleware;

impl Default for InertiaMiddleware {
    fn default() -> (m: InertiaMiddleware)
        ensures
            m == InertiaMiddleware,
    {
        InertiaMiddleware::new()
    }
}

impl InertiaMiddleware {
    pub fn new() -> (m: InertiaMiddleware)
        ensures
            m == InertiaMiddleware,
    {
        InertiaMiddleware
    }

    /// Whether the request is an Inertia XHR (it carries `X-Inertia`).
    pub fn is_inertia(req: &Request) -> (r: bool)
        ensures
            r == header_value(headers_view(req.headers@), "x-inertia"@) is Some,
    {
        req.header("x-inertia").is_some()
    }

    /// The prop keys a partial reload asks for.
    pub fn partial_data(req: &Request) -> (r: Vec<String>)
        ensures
            texts(r@) == requested_keys(headers_view(req.headers@)),
    {
        crate::gem_inertia::InertiaMiddleware::partial_data(req)
    }

    /// The page JSON of a handler's body, `None` when the body is no JSON
    /// object with a `component` member.
    pub fn parse_page_data(body: &str) -> (r: Option<Value>)
        ensures
            r == page_data_of(body@),
    {
        match json_from_text(body) {
            Some(v) => {
                let ghost given = v;
                match PropMap::from_json(v) {
                    Ok(m) => {
                        if m.contains_key("component") {
                            proof {
                                reveal_strlit("component");
                                crate::gem_inertia::lemma_object_contents_some(given);
                            }
                            Some(m.into_json())
                        } else {
                            proof {
                                reveal_strlit("component");
                            }
                            None
                        }
                    },
                    Err(_) => None,
                }
            },
            None => None,
        }
    }

    /// A full HTML page with the page JSON embedded in the template.
    pub fn render_html(page_json: &str, template: &str) -> (r: String)
        ensures
            r@ == replace_all(template@, placeholder(), page_json@),
    {
        crate::gem_inertia::InertiaMiddleware::wrap_html(page_json, template)
    }

    /// The answer to a request, given what `begin` noted before the handler
    /// ran, the handler's response and the settings after it ran.
    pub fn handle(
        &self,
        pending: &crate::gem_inertia::middleware::PendingRequest,
        response: Response,
        config: &InertiaConfig,
    ) -> (r: Response)
        ensures
            r.view() == core_reply(*pending, response.view(), *config),
    {
        broadcast use vstd::string::group_string_axioms;
        if response.is_redirection() {
            match response.header("location") {
                Some(location) => {
                    if pending.is_inertia {
                        let empty = PropMap::new();
                        let page = make_page(
                            json_from_optional_string(None),
                            empty.into_json(),
                            location.as_str(),
                            pending.version.as_str(),
                        );
                        let mut r = Response::json(json_to_text(&page)).with_header(
                            "X-Inertia-Location",
                            location.as_str(),
                        ).with_header("X-Inertia-Version", pending.version.as_str());
                        r.status = 409;
                        return r;
                    }
                    return response;
                },
                None => {},
            }
        }
        let none: Vec<String> = Vec::new();
        proof {
            assert(none@ =~= Seq::<String>::empty());
        }
        let keys: &[String] = if pending.is_inertia {
            pending.partial_keys.as_slice()
        } else {
            none.as_slice()
        };
        let page = crate::gem_inertia::middleware::build_answer_page(
            response.body.as_str(),
            true,
            config,
            keys,
            pending.url.as_str(),
            pending.version.as_str(),
        );
        let page_json = json_to_text(&page);
        if pending.is_inertia {
            Response::text(page_json.as_str()).with_header("content-type", "application/json").with_header(
                "X-Inertia-Version",
                pending.version.as_str(),
            )
        } else {
            match crate::gem_inertia::root_view(config) {
                Some(root) => {
                    let html = InertiaMiddleware::render_html(page_json.as_str(), root.as_str());
                    Response::html(html.as_str())
                },
                None => {
                    let mut response = response;
                    response.set_header("content-type", "application/json");
                    response.body = page_json;
                    response
                },
            }
        }
    }
}


/// An Inertia request whose handler redirected is answered `409 Conflict`
/// with `X-Inertia-Location` naming the redirect target.
pub proof fn law_core_inertia_redirect(
    pending: crate::gem_inertia::middleware::PendingRequest,
    response: ResponseView,
    config: InertiaConfig,
    location: Seq<char>,
)
    requires
        pending.is_inertia,
        300 <= response.status < 400,
        header_value(response.headers, "location"@) == Some(location),
    ensures
        core_reply(pending, response, config).status == 409,
        header_value(core_reply(pending, response, config).headers, "X-Inertia-Location"@) == Some(
            location,
        ),
        header_value(core_reply(pending, response, config).headers, "X-Inertia-Version"@) == Some(
            pending.version@,
        ),
{
    crate::gem_inertia::middleware::lemma_redirect_reply_headers(location, pending.version@);
}

/// An Inertia request that was not redirected gets JSON: the content type is
/// `application/json` and `X-Inertia-Version` holds the asset version.
pub proof fn law_core_inertia_json(
    pending: crate::gem_inertia::middleware::PendingRequest,
    response: ResponseView,
    config: InertiaConfig,
)
    requires
        pending.is_inertia,
        !(300 <= response.status < 400 && header_value(response.headers, "location"@) is Some),
    ensures
        core_reply(pending, response, config).status == 200,
        header_value(core_reply(pending, response, config).headers, "content-type"@) == Some(
            json_media_type(),
        ),
        header_value(core_reply(pending, response, config).headers, "X-Inertia-Version"@) == Some(
            pending.version@,
        ),
{
    let h0 = seq![("content-type"@, text_media_type())];
    let h1 = with_header_set(h0, "content-type"@, json_media_type());
    reveal_strlit("X-Inertia-Version");
    reveal_strlit("content-type");
    crate::http::law_header_set_then_read(h0, "content-type"@, json_media_type());
    assert(!crate::text::same_ignoring_ascii_case("X-Inertia-Version"@, "content-type"@));
    crate::http::law_header_set_keeps_others(h1, "X-Inertia-Version"@, pending.version@, "content-type"@);
    crate::http::law_header_set_then_read(h1, "X-Inertia-Version"@, pending.version@);
}

/// An Inertia request whose handler answered a plain body, with no partial
/// reload, gets as JSON the page `Page` whose props hold the body under
/// `body`, the shared props over it, the request's path as URL and the
/// asset version.
pub proof fn law_core_inertia_plain_body_page(
    pending: crate::gem_inertia::middleware::PendingRequest,
    response: ResponseView,
    config: InertiaConfig,
)
    requires
        pending.is_inertia,
        !(300 <= response.status < 400 && header_value(response.headers, "location"@) is Some),
        page_data_of(response.body) is None,
        pending.partial_keys@.len() == 0,
    ensures
        core_reply(pending, response, config).body == json_text(
            page_object(
                json_string_value("Page"@),
                json_object_value(
                    map!["body"@ => json_string_value(response.body)].union_prefer_right(config.shared.view()),
                ),
                pending.url@,
                pending.version@,
            ),
        ),
{
    assert(pending.partial_keys@ =~= Seq::<String>::empty());
    crate::gem_inertia::middleware::lemma_plain_answer_page(
        response.body,
        true,
        config.shared.view(),
        pending.url@,
        pending.version@,
    );
}

/// A full page load whose handler answered a plain body, with a root view
/// set, is answered with the root view, in place of `{{data-page}}` the page
/// `Page` whose props hold the body under `body` with the shared props over
/// it, whatever partial reload header came with it.
pub proof fn law_core_full_page_plain_body(
    pending: crate::gem_inertia::middleware::PendingRequest,
    response: ResponseView,
    config: InertiaConfig,
    template: Seq<char>,
)
    requires
        !pending.is_inertia,
        !(300 <= response.status < 400 && header_value(response.headers, "location"@) is Some),
        page_data_of(response.body) is None,
        opt_text(config.root_view) == Some(template),
    ensures
        core_reply(pending, response, config) == ok_with(
            html_media_type(),
            replace_all(
                template,
                placeholder(),
                json_text(
                    page_object(
                        json_string_value("Page"@),
                        json_object_value(
                            map!["body"@ => json_string_value(response.body)].union_prefer_right(
                                config.shared.view(),
                            ),
                        ),
                        pending.url@,
                        pending.version@,
                    ),
                ),
            ),
        ),
{
    crate::gem_inertia::middleware::lemma_plain_answer_page(
        response.body,
        true,
        config.shared.view(),
        pending.url@,
        pending.version@,
    );
}

/// An Inertia request that was not redirected gets as JSON a page that
/// names the asset version and the handler page's component (`Page` for a
/// plain body).
pub proof fn law_core_page_version(
    pending: crate::gem_inertia::middleware::PendingRequest,
    response: ResponseView,
    config: InertiaConfig,
)
    requires
        pending.is_inertia,
        !(300 <= response.status < 400 && header_value(response.headers, "location"@) is Some),
    ensures
        exists|m: Map<Seq<char>, Value>|
            {
                &&& core_reply(pending, response, config).body == json_text(json_object_value(m))
                &&& m.contains_key("version"@)
                &&& m["version"@] == json_string_value(pending.version@)
                &&& m.contains_key("component"@)
                &&& m["component"@] == match page_data_of(response.body) {
                    Some(data) => crate::gem_inertia::members_or_empty(data)["component"@],
                    None => json_string_value("Page"@),
                }
            },
{
    let keys = reload_keys(pending);
    let m = crate::gem_inertia::middleware::answer_members(
        response.body,
        true,
        config.shared.view(),
        keys,
        pending.url@,
        pending.version@,
    );
    crate::gem_inertia::middleware::law_answer_page_members(
        response.body,
        true,
        config.shared.view(),
        keys,
        pending.url@,
        pending.version@,
    );
    assert(core_reply(pending, response, config).body == json_text(json_object_value(m)));
}

} // verus!
