use viontin_gems::gems::{GemBuilder, GemKind};
use viontin_gems::webview::{launch_url, WebviewConfig, WebviewGem};

#[test]
fn builder_sets_each_setting() {
    let g = WebviewGem::load();
    assert_eq!(g.config.title, "Viontin App");
    assert_eq!((g.config.width, g.config.height, g.config.devtools), (1024, 768, false));
    let g = g.title("My App").size(800, 600).devtools(true);
    assert_eq!(g.config.title, "My App");
    assert_eq!((g.config.width, g.config.height, g.config.devtools), (800, 600, true));
    assert_eq!(g.meta().name, "webview");
    assert_eq!(g.meta().kind, GemKind::Integration);
}

#[test]
fn before_build_installs_settings() {
    let g = WebviewGem::load().title("T").size(1, 2);
    let mut global = WebviewConfig::default();
    g.before_build(&mut global);
    assert_eq!(global.title, "T");
    assert_eq!((global.width, global.height, global.devtools), (1, 2, false));
    let copy = global.duplicate();
    assert_eq!(copy.title, "T");
}

#[test]
fn launch_url_uses_the_port() {
    assert_eq!(launch_url(":3000"), "http://127.0.0.1:3000");
    assert_eq!(launch_url("::8080"), "http://127.0.0.1:8080");
    assert_eq!(launch_url("127.0.0.1:3000"), "http://127.0.0.1:3000");
    assert_eq!(launch_url("0.0.0.0:9000"), "http://127.0.0.1:9000");
    assert_eq!(launch_url("4000"), "http://127.0.0.1:4000");
    assert_eq!(launch_url(""), "http://127.0.0.1:");
}
