//! The Inertia gem: an InertiaJS-compatible server adapter.
//!
//! A request carrying the `X-Inertia` header is answered with the page as
//! JSON (`{ component, props, url, version }`); a full page load gets the root
//! view HTML with the page JSON embedded where it holds `{{data-page}}`; a
//! redirect seen by an Inertia request becomes `409 Conflict` with
//! `X-Inertia-Location`; `X-Inertia-Partial-*` headers ask for some props only.
pub mod middleware;

use vstd::prelude::*;
use serde_json::Value;
use crate::gems::{GemBuilder, GemKind, GemMeta};
use crate::http::{Response, ResponseView, json_media_type, ok_with, with_header_set};
use crate::json::{PropMap, json_from_optional_string, json_from_string, json_nullable_string, json_object_value, json_string_value, json_text, json_to_text, object_contents};
use crate::text::texts;
pub use middleware::InertiaMiddleware;

verus! {

/// The settings every page shares: the asset version, the root view
/// template and the props shared with every page.
pub struct InertiaConfig {
    pub version: String,
    pub root_view: Option<String>,
    pub shared: PropMap,
}

/// The settings as plain values.
pub struct ConfigView {
    pub version: Seq<char>,
    pub root_view: Option<Seq<char>>,
    pub shared: Map<Seq<char>, Value>,
}

/// A change the settings functions make.
pub enum ConfigChange {
    SetVersion(Seq<char>),
    SetRootView(Seq<char>),
    Share(Seq<char>, Value),
    Unshare(Seq<char>),
    FlushShared,
}

/// The settings a process starts with.
pub open spec fn initial_config() -> ConfigView {
    ConfigView { version: initial_version(), root_view: None, shared: Map::empty() }
}

/// The settings after one change.
pub open spec fn apply_change(c: ConfigView, change: ConfigChange) -> ConfigView {
    match change {
        ConfigChange::SetVersion(v) => ConfigView { version: v, ..c },
        ConfigChange::SetRootView(h) => ConfigView { root_view: Some(h), ..c },
        ConfigChange::Share(k, v) => ConfigView { shared: c.shared.insert(k, v), ..c },
        ConfigChange::Unshare(k) => ConfigView { shared: c.shared.remove(k), ..c },
        ConfigChange::FlushShared => ConfigView { shared: Map::empty(), ..c },
    }
}

/// The settings after a run of changes, first to last.
pub open spec fn apply_changes(c: ConfigView, changes: Seq<ConfigChange>) -> ConfigView
    decreases changes.len(),
{
    if changes.len() == 0 {
        c
    } else {
        apply_change(apply_changes(c, changes.drop_last()), changes.last())
    }
}

/// The asset version before one is set.
pub open spec fn initial_version() -> Seq<char> {
    "1.0"@
}

/// An optional string seen as plain text.
pub open spec fn opt_text(s: Option<String>) -> Option<Seq<char>> {
    match s {
        Some(x) => Some(x@),
        None => None,
    }
}

impl InertiaConfig {
    pub open spec fn view(&self) -> ConfigView {
        ConfigView { version: self.version@, root_view: opt_text(self.root_view), shared: self.shared.view() }
    }

    /// Version `1.0`, no root view, nothing shared.
    pub fn new() -> (c: InertiaConfig)
        ensures
            c.view() == initial_config(),
            c.version@ == initial_version(),
            c.root_view is None,
            c.shared.view() == Map::<Seq<char>, Value>::empty(),
    {
        InertiaConfig { version: "1.0".to_string(), root_view: None, shared: PropMap::new() }
    }
}

/// Sets the asset version; clients reload fully when theirs differs.
pub fn set_version(config: &mut InertiaConfig, version: &str)
    ensures
        final(config).view() == apply_change(old(config).view(), ConfigChange::SetVersion(version@)),
        final(config).version@ == version@,
        final(config).root_view == old(config).root_view,
        final(config).shared == old(config).shared,
{
    broadcast use vstd::string::group_string_axioms;
    config.version = version.to_string();
}

/// The current asset version.
pub fn version(config: &InertiaConfig) -> (r: String)
    ensures
        r@ == config.version@,
{
    config.version.clone()
}

/// Sets the root view HTML template.
pub fn set_root_view(config: &mut InertiaConfig, html: &str)
    ensures
        final(config).view() == apply_change(old(config).view(), ConfigChange::SetRootView(html@)),
        opt_text(final(config).root_view) == Some(html@),
        final(config).version == old(config).version,
        final(config).shared == old(config).shared,
{
    broadcast use vstd::string::group_string_axioms;
    config.root_view = Some(html.to_string());
}

/// The root view HTML template, if one is set.
pub fn root_view(config: &InertiaConfig) -> (r: Option<String>)
    ensures
        opt_text(r) == opt_text(config.root_view),
{
    match &config.root_view {
        Some(t) => Some(t.clone()),
        None => None,
    }
}

/// Shares `value` under `key` with every page.
pub fn share(config: &mut InertiaConfig, key: &str, value: Value)
    ensures
        final(config).view() == apply_change(old(config).view(), ConfigChange::Share(key@, value)),
        final(config).shared.view() == old(config).shared.view().insert(key@, value),
        final(config).version == old(config).version,
        final(config).root_view == old(config).root_view,
{
    broadcast use vstd::string::group_string_axioms;
    config.shared.insert(key.to_string(), value);
}

/// Stops sharing `key`.
pub fn unshare(config: &mut InertiaConfig, key: &str)
    ensures
        final(config).view() == apply_change(old(config).view(), ConfigChange::Unshare(key@)),
        final(config).shared.view() == old(config).shared.view().remove(key@),
        final(config).version == old(config).version,
        final(config).root_view == old(config).root_view,
{
    let _ = config.shared.remove(key);
}

/// All shared props.
pub fn shared(config: &InertiaConfig) -> (r: PropMap)
    ensures
        r.view() == config.shared.view(),
{
    config.shared.duplicate()
}

/// Stops sharing every prop.
pub fn flush_shared(config: &mut InertiaConfig)
    ensures
        final(config).view() == apply_change(old(config).view(), ConfigChange::FlushShared),
        final(config).shared.view() == Map::<Seq<char>, Value>::empty(),
        final(config).version == old(config).version,
        final(config).root_view == old(config).root_view,
{
    config.shared = PropMap::new();
}

/// The page object of the Inertia protocol.
pub open spec fn page_object(component: Value, props: Value, url: Seq<char>, version: Seq<char>) -> Value {
    json_object_value(
        map![
            "component"@ => component,
            "props"@ => props,
            "url"@ => json_string_value(url),
            "version"@ => json_string_value(version),
        ],
    )
}

/// Builds the page object.
pub fn make_page(component: Value, props: Value, url: &str, version: &str) -> (r: Value)
    ensures
        r == page_object(component, props, url@, version@),
{
    broadcast use vstd::string::group_string_axioms;
    let mut m = PropMap::new();
    m.insert("component".to_string(), component);
    m.insert("props".to_string(), props);
    m.insert("url".to_string(), json_from_string(url.to_string()));
    m.insert("version".to_string(), json_from_string(version.to_string()));
    proof {
        assert(m.view() =~= map![
            "component"@ => component,
            "props"@ => props,
            "url"@ => json_string_value(url@),
            "version"@ => json_string_value(version@),
        ]);
    }
    m.into_json()
}

/// The members of `v` when it is an object, else none.
pub open spec fn members_or_empty(v: Value) -> Map<Seq<char>, Value> {
    match object_contents(v) {
        Some(m) => m,
        None => Map::empty(),
    }
}

/// The Inertia gem, configured with the root view it renders pages into.
pub struct Inertia {
    pub root_view: String,
}

/// What became of reading the root view file.
pub enum RootViewFile {
    /// No file at the configured path: the configured text is the template.
    Missing,
    /// The file's content.
    Read(String),
    /// The file exists but could not be read.
    Unreadable,
}

impl GemBuilder for Inertia {
    fn load() -> (g: Inertia)
        ensures
            g.root_view@ == Seq::<char>::empty(),
    {
        Inertia { root_view: String::new() }
    }
}

impl Inertia {
    /// Sets the root view: a path to the template file, or the template itself.
    /// The template holds `{{data-page}}` where the page JSON goes.
    pub fn entry(self, root_view: &str) -> (g: Inertia)
        ensures
            g.root_view@ == root_view@,
    {
        broadcast use vstd::string::group_string_axioms;
        Inertia { root_view: root_view.to_string() }
    }

    /// A middleware that serves the protocol.
    pub fn middleware() -> (m: InertiaMiddleware)
        ensures
            m.root_view is None,
    {
        InertiaMiddleware::new()
    }

    /// The middlewares the gem wires into the application.
    pub fn gem_middlewares(&self) -> (r: Vec<InertiaMiddleware>)
        ensures
            r@.len() == 1,
            r@[0].root_view is None,
    {
        let mut r: Vec<InertiaMiddleware> = Vec::new();
        r.push(InertiaMiddleware::new());
        r
    }

    /// How the gem describes itself.
    pub fn meta(&self) -> (m: GemMeta)
        ensures
            m.name@ == "inertia"@,
            m.version@ == "0.1.0"@,
            m.description@ == "InertiaJS server adapter"@,
            m.kind == GemKind::Integration,
    {
        GemMeta {
            name: "inertia",
            version: "0.1.0",
            description: "InertiaJS server adapter",
            kind: GemKind::Integration,
        }
    }

    /// Installs the root view before the application starts: the file's
    /// content when the configured path names a readable file, the configured
    /// text itself when no such file exists; an unreadable file changes nothing.
    pub fn before_build(&self, config: &mut InertiaConfig, file: RootViewFile) -> (r: Result<(), ()>)
        ensures
            r is Ok,
            final(config).version == old(config).version,
            final(config).shared == old(config).shared,
            final(config).view() == match file {
                RootViewFile::Missing => apply_change(old(config).view(), ConfigChange::SetRootView(self.root_view@)),
                RootViewFile::Read(content) => apply_change(old(config).view(), ConfigChange::SetRootView(content@)),
                RootViewFile::Unreadable => old(config).view(),
            },
            match file {
                RootViewFile::Missing => opt_text(final(config).root_view) == Some(self.root_view@),
                RootViewFile::Read(content) => opt_text(final(config).root_view) == Some(content@),
                RootViewFile::Unreadable => final(config).root_view == old(config).root_view,
            },
    {
        match file {
            RootViewFile::Missing => set_root_view(config, self.root_view.as_str()),
            RootViewFile::Read(content) => set_root_view(config, content.as_str()),
            RootViewFile::Unreadable => {},
        }
        Ok(())
    }
}

/// A page response under construction.
pub struct InertiaPage {
    pub component: String,
    pub props: Value,
    pub url: String,
    pub status_code: u16,
    pub redirect_url: Option<String>,
    pub partial_component: Option<String>,
    pub partial_data: Vec<String>,
}

/// Starts the page response for `component` with `props`.
pub fn inertia(component: &str, props: Value) -> (p: InertiaPage)
    ensures
        p.component@ == component@,
        p.props == props,
        p.url@ == Seq::<char>::empty(),
        p.status_code == 200,
        p.redirect_url is None,
        p.partial_component is None,
        p.partial_data@.len() == 0,
{
    broadcast use vstd::string::group_string_axioms;
    InertiaPage {
        component: component.to_string(),
        props,
        url: String::new(),
        status_code: 200,
        redirect_url: None,
        partial_component: None,
        partial_data: Vec::new(),
    }
}

/// The props after merging `extra` into `props`: when both are objects the
/// members of `extra` are added (replacing those of the same key); otherwise
/// `props` stays as it is.
pub open spec fn merged_props(props: Value, extra: Value) -> Value {
    match object_contents(props) {
        Some(a) => match object_contents(extra) {
            Some(b) => json_object_value(a.union_prefer_right(b)),
            None => props,
        },
        None => props,
    }
}

/// The props a page response carries: when some keys were asked for and
/// the props are an object, only the members under those keys.
pub open spec fn selected_props(props: Value, keys: Seq<String>) -> Value {
    if keys.len() > 0 && object_contents(props) is Some {
        json_object_value(object_contents(props)->0.restrict(crate::json::key_set(keys)))
    } else {
        props
    }
}

/// The reply a page response becomes.
pub open spec fn page_reply(page: InertiaPage, version: Seq<char>) -> ResponseView {
    match page.redirect_url {
        Some(u) => ResponseView {
            status: 302,
            headers: with_header_set(seq![], "Location"@, u@),
            body: seq![],
        },
        None => ResponseView {
            status: page.status_code,
            ..ok_with(
                json_media_type(),
                json_text(
                    page_object(
                        json_string_value(page.component@),
                        selected_props(page.props, page.partial_data@),
                        page.url@,
                        version,
                    ),
                ),
            )
        },
    }
}

impl InertiaPage {
    /// Sets the URL.
    pub fn url(self, url: &str) -> (p: InertiaPage)
        ensures
            p.url@ == url@,
            p.component == self.component,
            p.props == self.props,
            p.status_code == self.status_code,
            p.redirect_url == self.redirect_url,
            p.partial_component == self.partial_component,
            p.partial_data == self.partial_data,
    {
        broadcast use vstd::string::group_string_axioms;
        let mut p = self;
        p.url = url.to_string();
        p
    }

    /// Sets the HTTP status code.
    pub fn status(self, code: u16) -> (p: InertiaPage)
        ensures
            p.status_code == code,
            p.component == self.component,
            p.props == self.props,
            p.url == self.url,
            p.redirect_url == self.redirect_url,
            p.partial_component == self.partial_component,
            p.partial_data == self.partial_data,
    {
        let mut p = self;
        p.status_code = code;
        p
    }

    /// Merges additional props.
    pub fn with(self, props: Value) -> (p: InertiaPage)
        ensures
            p.props == merged_props(self.props, props),
            p.component == self.component,
            p.url == self.url,
            p.status_code == self.status_code,
            p.redirect_url == self.redirect_url,
            p.partial_component == self.partial_component,
            p.partial_data == self.partial_data,
    {
        let InertiaPage {
            component,
            props: mine,
            url,
            status_code,
            redirect_url,
            partial_component,
            partial_data,
        } = self;
        let ghost before = mine;
        let merged = match PropMap::from_json(mine) {
            Ok(mut m) => match PropMap::from_json(props) {
                Ok(extra) => {
                    m.extend(extra);
                    m.into_json()
                },
                Err(_) => {
                    proof {
                        lemma_object_contents_some(before);
                    }
                    m.into_json()
                },
            },
            Err(v) => v,
        };
        InertiaPage {
            component,
            props: merged,
            url,
            status_code,
            redirect_url,
            partial_component,
            partial_data,
        }
    }

    /// Marks a partial reload: only the props under `keys` are returned.
    pub fn only(self, keys: &[&str]) -> (p: InertiaPage)
        ensures
            texts(p.partial_data@) == keys@.map_values(|k: &str| k@),
            p.component == self.component,
            p.props == self.props,
            p.url == self.url,
            p.status_code == self.status_code,
            p.redirect_url == self.redirect_url,
            p.partial_component == self.partial_component,
    {
        broadcast use vstd::string::group_string_axioms;
        let mut data: Vec<String> = Vec::new();
        let mut i: usize = 0;
        while i < keys.len()
            invariant
                i <= keys.len(),
                texts(data@) == keys@.take(i as int).map_values(|k: &str| k@),
            decreases keys.len() - i,
        {
            let k = keys[i].to_owned();
            proof {
                assert(k@ == keys@[i as int]@);
                assert(keys@.take(i + 1) =~= keys@.take(i as int).push(keys@[i as int]));
                assert(texts(data@.push(k)) =~= texts(data@).push(k@));
                assert(keys@.take(i + 1).map_values(|k: &str| k@) =~= keys@.take(i as int).map_values(
                    |k: &str| k@,
                ).push(keys@[i as int]@));
            }
            data.push(k);
            i = i + 1;
        }
        proof {
            assert(keys@.take(i as int) =~= keys@);
        }
        let mut p = self;
        p.partial_data = data;
        p
    }

    /// A redirect to `url`.
    pub fn redirect(url: &str) -> (p: InertiaPage)
        ensures
            p.component@ == Seq::<char>::empty(),
            p.props == json_nullable_string(None),
            p.url@ == url@,
            p.status_code == 303,
            opt_text(p.redirect_url) == Some(url@),
            p.partial_component is None,
            p.partial_data@.len() == 0,
    {
        broadcast use vstd::string::group_string_axioms;
        InertiaPage {
            component: String::new(),
            props: json_from_optional_string(None),
            url: url.to_string(),
            status_code: 303,
            redirect_url: Some(url.to_string()),
            partial_component: None,
            partial_data: Vec::new(),
        }
    }

    /// A redirect back to `/`.
    pub fn back() -> (p: InertiaPage)
        ensures
            p.component@ == Seq::<char>::empty(),
            p.props == json_nullable_string(None),
            p.url@ == "/"@,
            p.status_code == 303,
            opt_text(p.redirect_url) == Some("/"@),
            p.partial_component is None,
            p.partial_data@.len() == 0,
    {
        InertiaPage::redirect("/")
    }

    /// The HTTP response for this page: a redirect becomes `302 Found` with
    /// `Location`; any other page is sent as the JSON page object, with the
    /// current asset version and the page's status code.
    pub fn into_response(self, config: &InertiaConfig) -> (r: Response)
        ensures
            r.view() == page_reply(self, config.version@),
    {
        broadcast use vstd::string::group_string_axioms;
        match &self.redirect_url {
            Some(u) => {
                return Response::new(302).with_header("Location", u.as_str());
            },
            None => {},
        }
        let InertiaPage { component, props, url, partial_data, status_code, .. } = self;
        let props_out = if partial_data.len() > 0 {
            match PropMap::from_json(props) {
                Ok(m) => m.restricted_to(partial_data.as_slice()).into_json(),
                Err(v) => v,
            }
        } else {
            props
        };
        let page_value = make_page(json_from_string(component), props_out, url.as_str(), config.version.as_str());
        let text = json_to_text(&page_value);
        let mut r = Response::json(text);
        r.status = status_code;
        r
    }
}

/// A value whose members `object_contents` finds is the object of those members.
pub proof fn lemma_object_contents_some(v: Value)
    requires
        object_contents(v) is Some,
    ensures
        json_object_value(object_contents(v)->0) == v,
        object_contents(v)->0.dom().finite(),
{
}


/// A redirect page becomes `302 Found` whose `Location` is the redirect target.
pub proof fn law_redirect_page_reply(page: InertiaPage, version: Seq<char>, target: Seq<char>)
    requires
        opt_text(page.redirect_url) == Some(target),
    ensures
        page_reply(page, version).status == 302,
        crate::http::header_value(page_reply(page, version).headers, "Location"@) == Some(target),
{
    crate::http::law_header_set_then_read(seq![], "Location"@, target);
}


proof fn lemma_version_kept(c: ConfigView, changes: Seq<ConfigChange>)
    requires
        forall|i: int| 0 <= i < changes.len() ==> !(#[trigger] changes[i] is SetVersion),
    ensures
        apply_changes(c, changes).version == c.version,
    decreases changes.len(),
{
    if changes.len() > 0 {
        assert(!(changes[changes.len() - 1] is SetVersion));
        lemma_version_kept(c, changes.drop_last());
    }
}

proof fn lemma_root_view_kept(c: ConfigView, changes: Seq<ConfigChange>)
    requires
        forall|i: int| 0 <= i < changes.len() ==> !(#[trigger] changes[i] is SetRootView),
    ensures
        apply_changes(c, changes).root_view == c.root_view,
    decreases changes.len(),
{
    if changes.len() > 0 {
        assert(!(changes[changes.len() - 1] is SetRootView));
        lemma_root_view_kept(c, changes.drop_last());
    }
}

/// Until the version is set, it is `1.0`.
pub proof fn law_version_until_set(changes: Seq<ConfigChange>)
    requires
        forall|i: int| 0 <= i < changes.len() ==> !(#[trigger] changes[i] is SetVersion),
    ensures
        apply_changes(initial_config(), changes).version == initial_version(),
{
    lemma_version_kept(initial_config(), changes);
}

/// Until a root view is set, there is none.
pub proof fn law_root_view_until_set(changes: Seq<ConfigChange>)
    requires
        forall|i: int| 0 <= i < changes.len() ==> !(#[trigger] changes[i] is SetRootView),
    ensures
        apply_changes(initial_config(), changes).root_view is None,
{
    lemma_root_view_kept(initial_config(), changes);
}

/// The version read is the one last set, whatever other changes came after.
pub proof fn law_version_reads_last_set(c: ConfigView, v: Seq<char>, later: Seq<ConfigChange>)
    requires
        forall|i: int| 0 <= i < later.len() ==> !(#[trigger] later[i] is SetVersion),
    ensures
        apply_changes(c, seq![ConfigChange::SetVersion(v)] + later).version == v,
{
    lemma_version_kept(apply_change(c, ConfigChange::SetVersion(v)), later);
    lemma_apply_changes_concat(c, seq![ConfigChange::SetVersion(v)], later);
    lemma_apply_single(c, ConfigChange::SetVersion(v));
}

proof fn lemma_apply_single(c: ConfigView, x: ConfigChange)
    ensures
        apply_changes(c, seq![x]) == apply_change(c, x),
{
    assert(seq![x].drop_last() =~= Seq::<ConfigChange>::empty());
    assert(seq![x].last() == x);
    assert(apply_changes(c, Seq::<ConfigChange>::empty()) == c);
}

/// Applying two runs of changes one after the other is applying them joined.
pub proof fn lemma_apply_changes_concat(c: ConfigView, a: Seq<ConfigChange>, b: Seq<ConfigChange>)
    ensures
        apply_changes(c, a + b) == apply_changes(apply_changes(c, a), b),
    decreases b.len(),
{
    if b.len() == 0 {
        assert(a + b =~= a);
    } else {
        lemma_apply_changes_concat(c, a, b.drop_last());
        assert((a + b).drop_last() =~= a + b.drop_last());
        assert((a + b).last() == b.last());
    }
}

/// Sharing a key that was not shared and then unsharing it leaves the
/// shared props as they were.
pub proof fn law_share_then_unshare(c: ConfigView, key: Seq<char>, value: Value)
    requires
        !c.shared.contains_key(key),
    ensures
        apply_changes(c, seq![ConfigChange::Share(key, value), ConfigChange::Unshare(key)]) == c,
{
    let chs = seq![ConfigChange::Share(key, value), ConfigChange::Unshare(key)];
    assert(chs.drop_last() =~= seq![ConfigChange::Share(key, value)]);
    assert(chs.last() == ConfigChange::Unshare(key));
    lemma_apply_single(c, ConfigChange::Share(key, value));
    assert(c.shared.insert(key, value).remove(key) =~= c.shared);
}

/// A shared prop is read back as shared until it is unshared or flushed.
pub proof fn law_shared_until_removed(c: ConfigView, key: Seq<char>, value: Value, later: Seq<ConfigChange>)
    requires
        forall|i: int| 0 <= i < later.len() ==> match #[trigger] later[i] {
            ConfigChange::Unshare(k) => k != key,
            ConfigChange::Share(k, _) => k != key,
            ConfigChange::FlushShared => false,
            _ => true,
        },
    ensures
        apply_changes(c, seq![ConfigChange::Share(key, value)] + later).shared.contains_key(key),
        apply_changes(c, seq![ConfigChange::Share(key, value)] + later).shared[key] == value,
    decreases later.len(),
{
    lemma_apply_changes_concat(c, seq![ConfigChange::Share(key, value)], later);
    lemma_apply_single(c, ConfigChange::Share(key, value));
    lemma_shared_kept(apply_change(c, ConfigChange::Share(key, value)), key, later);
}

proof fn lemma_shared_kept(c: ConfigView, key: Seq<char>, later: Seq<ConfigChange>)
    requires
        c.shared.contains_key(key),
        forall|i: int| 0 <= i < later.len() ==> match #[trigger] later[i] {
            ConfigChange::Unshare(k) => k != key,
            ConfigChange::Share(k, _) => k != key,
            ConfigChange::FlushShared => false,
            _ => true,
        },
    ensures
        apply_changes(c, later).shared.contains_key(key),
        apply_changes(c, later).shared[key] == c.shared[key],
    decreases later.len(),
{
    if later.len() > 0 {
        let last = later[later.len() - 1];
        assert(match last {
            ConfigChange::Unshare(k) => k != key,
            ConfigChange::Share(k, _) => k != key,
            ConfigChange::FlushShared => false,
            _ => true,
        });
        lemma_shared_kept(c, key, later.drop_last());
    }
}

} // verus!
