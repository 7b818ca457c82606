//! The webview gem: the settings of the desktop window that shows the app.
use vstd::prelude::*;
use crate::gems::{GemBuilder, GemKind, GemMeta};

verus! {

/// The settings of the desktop window.
pub struct WebviewConfig {
    pub title: String,
    pub width: u32,
    pub height: u32,
    pub devtools: bool,
}

/// The window title used when none is set.
pub open spec fn default_title() -> Seq<char> {
    "Viontin App"@
}

impl Default for WebviewConfig {
    fn default() -> (r: WebviewConfig)
        ensures
            r.title@ == default_title(),
            r.width == 1024,
            r.height == 768,
            !r.devtools,
    {
        WebviewConfig { title: "Viontin App".to_string(), width: 1024, height: 768, devtools: false }
    }
}

impl WebviewConfig {
    /// A copy of these settings.
    pub fn duplicate(&self) -> (r: WebviewConfig)
        ensures
            r.title@ == self.title@,
            r.width == self.width,
            r.height == self.height,
            r.devtools == self.devtools,
    {
        WebviewConfig {
            title: self.title.clone(),
            width: self.width,
            height: self.height,
            devtools: self.devtools,
        }
    }
}

/// The webview gem, configured by its builder methods.
pub struct WebviewGem {
    pub config: WebviewConfig,
}

impl GemBuilder for WebviewGem {
    fn load() -> (g: WebviewGem)
        ensures
            g.config.title@ == default_title(),
            g.config.width == 1024,
            g.config.height == 768,
            !g.config.devtools,
    {
        WebviewGem { config: WebviewConfig::default() }
    }
}

impl WebviewGem {
    /// Sets the window title.
    pub fn title(self, title: &str) -> (g: WebviewGem)
        ensures
            g.config.title@ == title@,
            g.config.width == self.config.width,
            g.config.height == self.config.height,
            g.config.devtools == self.config.devtools,
    {
        broadcast use vstd::string::group_string_axioms;
        let mut g = self;
        g.config.title = title.to_string();
        g
    }

    /// Sets the initial window size.
    pub fn size(self, width: u32, height: u32) -> (g: WebviewGem)
        ensures
            g.config.title == self.config.title,
            g.config.width == width,
            g.config.height == height,
            g.config.devtools == self.config.devtools,
    {
        let mut g = self;
        g.config.width = width;
        g.config.height = height;
        g
    }

    /// Turns the developer tools on or off.
    pub fn devtools(self, enabled: bool) -> (g: WebviewGem)
        ensures
            g.config.title == self.config.title,
            g.config.width == self.config.width,
            g.config.height == self.config.height,
            g.config.devtools == enabled,
    {
        let mut g = self;
        g.config.devtools = enabled;
        g
    }

    /// How the gem describes itself.
    pub fn meta(&self) -> (m: GemMeta)
        ensures
            m.name@ == "webview"@,
            m.version@ == "0.1.0"@,
            m.description@ == "Desktop webview integration (wry + tao)"@,
            m.kind == GemKind::Integration,
    {
        GemMeta {
            name: "webview",
            version: "0.1.0",
            description: "Desktop webview integration (wry + tao)",
            kind: GemKind::Integration,
        }
    }

    /// Makes this gem's settings the ones the window is opened with.
    pub fn before_build(&self, global: &mut WebviewConfig)
        ensures
            final(global).title@ == self.config.title@,
            final(global).width == self.config.width,
            final(global).height == self.config.height,
            final(global).devtools == self.config.devtools,
    {
        global.title = self.config.title.clone();
        global.width = self.config.width;
        global.height = self.config.height;
        global.devtools = self.config.devtools;
    }
}

/// The port of a listen address: what follows its last `:`, or the whole
/// address when it has none.
pub open spec fn port_of(addr: Seq<char>) -> Seq<char>
    decreases addr.len(),
{
    if addr.len() == 0 || addr.last() == ':' {
        seq![]
    } else {
        port_of(addr.drop_last()).push(addr.last())
    }
}

proof fn lemma_port_of_suffix(s: Seq<char>, j: int)
    requires
        0 <= j <= s.len(),
        forall|k: int| j <= k < s.len() ==> s[k] != ':',
        j == 0 || s[j - 1] == ':',
    ensures
        port_of(s) == s.subrange(j, s.len() as int),
    decreases s.len() - j,
{
    if j < s.len() {
        lemma_port_of_suffix(s.drop_last(), j);
        assert(s.subrange(j, s.len() as int) =~= s.drop_last().subrange(j, s.len() - 1).push(s.last()));
    } else if s.len() > 0 {
        assert(s.subrange(j, s.len() as int) =~= Seq::<char>::empty());
    } else {
        assert(s.subrange(j, s.len() as int) =~= Seq::<char>::empty());
    }
}

/// The address the window loads for a server listening on `addr`, written
/// `":3000"` or `"127.0.0.1:3000"`: `http://127.0.0.1:` and the port.
pub open spec fn local_url(addr: Seq<char>) -> Seq<char> {
    "http://127.0.0.1:"@ + port_of(addr)
}

/// The address the window loads for a server listening on `addr`.
pub fn launch_url(addr: &str) -> (r: String)
    ensures
        r@ == local_url(addr@),
{
    let cs = crate::text::chars_of(addr);
    let n = cs.len();
    let mut j: usize = n;
    while j > 0 && cs[j - 1] != ':'
        invariant
            cs@ == addr@,
            n == cs.len(),
            j <= n,
            forall|k: int| j <= k < n ==> addr@[k] != ':',
        decreases j,
    {
        j = j - 1;
    }
    proof {
        lemma_port_of_suffix(addr@, j as int);
    }
    let port = crate::text::substring(addr, j, n);
    let mut url = "http://127.0.0.1:".to_string();
    broadcast use vstd::string::group_string_axioms;
    url.append(port.as_str());
    url
}

/// Both address forms open `http://127.0.0.1:` and the port: whatever host
/// stands before the last `:` is not part of the URL.
pub proof fn law_url_is_local_port(host: Seq<char>, port: Seq<char>)
    requires
        forall|k: int| 0 <= k < port.len() ==> port[k] != ':',
    ensures
        local_url(host + seq![':'] + port) == "http://127.0.0.1:"@ + port,
{
    let s = host + seq![':'] + port;
    let j: int = host.len() as int + 1;
    assert forall|k: int| j <= k < s.len() implies s[k] != ':' by {
        assert(s[k] == port[k - j]);
    }
    assert(s[j - 1] == ':');
    lemma_port_of_suffix(s, j);
    assert(s.subrange(j, s.len() as int) =~= port);
}

} // verus!
